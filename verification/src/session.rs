//! The per-input-context Session state machine.
use vstd::prelude::*;

use crate::candidate::{CandidateSnapshot, SnapshotView};
use crate::composer::{Composer, ComposerSnapshot, ComposerView};
use crate::engine::{EngineConfig, ImeEngine};
use crate::candidate::{in_memory_proposals, is_pipeline_output, keyed_by_text};
use crate::error::ImeError;
use crate::language::ascii_lower_text;
use crate::ranking::rank_order;
use crate::composer::{after_backspace, after_delete, after_insert, after_move};
use crate::input::{
    HardwareKeyEvent, InputEvent, InputNormalizer, LogicalInput, LogicalInputView, NormalizedHardwareEvent,
    normalized_spec,
};
use crate::state::{
    AckOutcome, ActionDisposition, ActionKindView, ActionView, CommitKind, DegradedComponent, EventHandling,
    ImeAction, ImeActionKind, ImeResult, ImeState, ImeStatus, PlatformResetReason, SessionPhase,
};
use crate::text::byte_len;
use crate::types::{context_budget, sanitized_view, CandidateId, PlatformCapabilities};
use crate::text::utf8_len;
use vstd::relations::sorted_by;
use crate::types::{
    ActionId, ContextSnapshot, ContextView, CoreLimits, ModeId, SessionId, StateRevision,
    default_context_view,
};

verus! {

/// What a failed commit needs to restore its composition.
struct CommitRecovery {
    composer: ComposerSnapshot,
    post_commit_revision: StateRevision,
    context_epoch: u64,
    input_sequence: u64,
}

/// An action still waiting for the platform's disposition.
struct PendingAction {
    action: ImeAction,
    recovery: Option<CommitRecovery>,
}

/// An action's recorded disposition.
#[derive(Clone, Copy)]
struct ResolvedAction {
    action_id: u64,
    disposition: ActionDisposition,
}

/// Mathematical content of a commit recovery.
pub struct RecoveryView {
    pub composer: ComposerView,
    pub post_commit_revision: u64,
    pub context_epoch: u64,
    pub input_sequence: u64,
}

/// Mathematical content of a pending action.
pub struct PendingView {
    pub action_id: u64,
    pub originating_revision: u64,
    pub kind: ActionKindView,
    pub recovery: Option<RecoveryView>,
}

/// Mathematical content of a Session.
pub struct SessionView {
    pub session_id: u64,
    pub revision: u64,
    pub phase: SessionPhase,
    pub composer: ComposerView,
    pub candidates: SnapshotView,
    pub degraded: Seq<DegradedComponent>,
    pub context: ContextView,
    pub mode: ModeId,
    pub next_action_id: u64,
    pub input_sequence: u64,
    /// Waiting actions, in increasing identifier order.
    pub pending: Seq<PendingView>,
    /// Recorded dispositions, in increasing identifier order.
    pub resolved: Seq<(u64, ActionDisposition)>,
    pub platform_composition_active: bool,
    pub reconciliation_required: bool,
}

/// Per-input-context state. Calls on one Session must be serialized by the host.
pub struct ImeSession {
    engine: ImeEngine,
    session_id: SessionId,
    state_revision: StateRevision,
    phase: SessionPhase,
    composer: Composer,
    candidate_snapshot: CandidateSnapshot,
    degraded_components: Vec<DegradedComponent>,
    context: ContextSnapshot,
    mode: ModeId,
    next_action_id: u64,
    input_sequence: u64,
    pending_actions: Vec<PendingAction>,
    resolved_actions: Vec<ResolvedAction>,
    platform_composition_active: bool,
    reconciliation_required: bool,
}

impl View for CommitRecovery {
    type V = RecoveryView;

    closed spec fn view(&self) -> RecoveryView {
        RecoveryView {
            composer: self.composer@,
            post_commit_revision: self.post_commit_revision.0,
            context_epoch: self.context_epoch,
            input_sequence: self.input_sequence,
        }
    }
}

impl View for PendingAction {
    type V = PendingView;

    closed spec fn view(&self) -> PendingView {
        PendingView {
            action_id: self.action.action_id.0,
            originating_revision: self.action.originating_revision.0,
            kind: self.action.kind@,
            recovery: match self.recovery {
                Some(r) => Some(r@),
                None => None,
            },
        }
    }
}

/// The views of pending actions.
pub open spec fn pending_views(s: Seq<PendingAction>) -> Seq<PendingView> {
    s.map_values(|p: PendingAction| p@)
}

/// The (identifier, disposition) pairs of resolved actions.
spec fn resolved_views(s: Seq<ResolvedAction>) -> Seq<(u64, ActionDisposition)> {
    s.map_values(|r: ResolvedAction| (r.action_id, r.disposition))
}

impl View for ImeSession {
    type V = SessionView;

    closed spec fn view(&self) -> SessionView {
        SessionView {
            session_id: self.session_id.0,
            revision: self.state_revision.0,
            phase: self.phase,
            composer: self.composer@,
            candidates: self.candidate_snapshot@,
            degraded: self.degraded_components@,
            context: self.context@,
            mode: self.mode,
            next_action_id: self.next_action_id,
            input_sequence: self.input_sequence,
            pending: pending_views(self.pending_actions@),
            resolved: resolved_views(self.resolved_actions@),
            platform_composition_active: self.platform_composition_active,
            reconciliation_required: self.reconciliation_required,
        }
    }
}

/// Identifiers strictly increase along `ids`.
pub open spec fn strictly_increasing(ids: Seq<u64>) -> bool {
    forall|i: int, j: int| 0 <= i < j < ids.len() ==> ids[i] < ids[j]
}

/// The identifiers of pending actions.
pub open spec fn pending_ids(p: Seq<PendingView>) -> Seq<u64> {
    p.map_values(|a: PendingView| a.action_id)
}

/// The identifiers of resolved actions.
pub open spec fn resolved_ids(r: Seq<(u64, ActionDisposition)>) -> Seq<u64> {
    r.map_values(|x: (u64, ActionDisposition)| x.0)
}

impl SessionView {
    /// The Session's consistency rules under `config`.
    ///
    /// The phase follows the composition and candidates: idle exactly when nothing is
    /// composed, selecting exactly when there are candidates. Candidates belong to the
    /// current revision. Action identifiers are unique, increasing and below the next
    /// identifier, and both action lists respect their limits.
    pub open spec fn wf(self, config: EngineConfig) -> bool {
        self.wf_state() && self.wf_actions(config)
    }

    /// Phase, composition and candidates agree, and candidates belong to this revision.
    pub open spec fn wf_state(self) -> bool {
        &&& self.composer.wf()
        &&& (self.phase == SessionPhase::Idle) == (self.composer.text.len() == 0)
        &&& (self.phase == SessionPhase::CandidateSelecting) == (self.candidates.proposals.len()
            > 0)
        &&& self.candidates.wf()
        &&& self.candidates.session_id == SessionId(self.session_id)
        &&& self.candidates.revision == StateRevision(self.revision)
    }

    /// Action identifiers are unique, increasing and below the next identifier, and both
    /// action lists respect their limits.
    pub open spec fn wf_actions(self, config: EngineConfig) -> bool {
        &&& config.limits.valid()
        &&& strictly_increasing(pending_ids(self.pending))
        &&& strictly_increasing(resolved_ids(self.resolved))
        &&& forall|i: int|
            0 <= i < self.pending.len() ==> (#[trigger] self.pending[i]).action_id
                < self.next_action_id
        &&& forall|i: int|
            0 <= i < self.resolved.len() ==> (#[trigger] self.resolved[i]).0 < self.next_action_id
        &&& forall|i: int|
            0 <= i < self.pending.len() ==> ((#[trigger] self.pending[i]).recovery matches Some(
                r,
            ) ==> r.composer.wf())
        &&& self.pending.len() <= config.limits.max_outstanding_actions
        &&& self.resolved.len() <= config.limits.max_resolved_action_history
        &&& self.next_action_id >= 1
    }

    /// Whether action `id` is waiting for a disposition.
    pub open spec fn is_pending(self, id: u64) -> bool {
        exists|i: int| 0 <= i < self.pending.len() && #[trigger] self.pending[i].action_id == id
    }

    /// The recorded disposition of action `id`, if it is still in the history.
    pub open spec fn resolution(self, id: u64) -> Option<ActionDisposition> {
        resolution_in(self.resolved, id)
    }
}

/// The first disposition recorded for `id` in `r`.
pub open spec fn resolution_in(r: Seq<(u64, ActionDisposition)>, id: u64) -> Option<ActionDisposition>
    decreases r.len(),
{
    if r.len() == 0 {
        None
    } else if r[0].0 == id {
        Some(r[0].1)
    } else {
        resolution_in(r.drop_first(), id)
    }
}

impl ImeSession {
    /// The Engine this Session belongs to.
    pub closed spec fn engine(&self) -> ImeEngine {
        self.engine
    }

    /// The configuration shared with the Engine.
    pub open spec fn config(&self) -> EngineConfig {
        self.engine().configuration()
    }

    /// The Session is consistent.
    pub open spec fn wf(&self) -> bool {
        self@.wf(self.config())
    }

    /// The state of a new Session: idle, empty, at revision zero, with no actions.
    pub open spec fn fresh(&self) -> bool {
        let v = self@;
        &&& v.revision == 0
        &&& v.phase == SessionPhase::Idle
        &&& v.composer.text.len() == 0
        &&& v.composer.cursor == 0
        &&& v.candidates.proposals.len() == 0
        &&& v.degraded.len() == 0
        &&& v.context == default_context_view()
        &&& v.mode == ModeId(0)
        &&& v.next_action_id == 1
        &&& v.input_sequence == 0
        &&& v.pending.len() == 0
        &&& v.resolved.len() == 0
        &&& !v.platform_composition_active
        &&& !v.reconciliation_required
    }

    /// Creates a Session of `engine`.
    pub fn new(engine: ImeEngine, session_id: SessionId) -> (r: Self)
        requires
            engine.configuration().limits.valid(),
        ensures
            r.wf(),
            r.fresh(),
            r.engine() == engine,
            r@.session_id == session_id.0,
    {
        ImeSession {
            engine,
            session_id,
            state_revision: StateRevision::new(0),
            phase: SessionPhase::Idle,
            composer: Composer::new(),
            candidate_snapshot: CandidateSnapshot::empty(session_id, StateRevision::new(0)),
            degraded_components: Vec::new(),
            context: ContextSnapshot::default(),
            mode: ModeId::new(0),
            next_action_id: 1,
            input_sequence: 0,
            pending_actions: Vec::new(),
            resolved_actions: Vec::new(),
            platform_composition_active: false,
            reconciliation_required: false,
        }
    }

    /// Returns the Session identity.
    pub fn id(&self) -> (r: SessionId)
        ensures
            r.0 == self@.session_id,
    {
        self.session_id
    }

    /// Returns the shared Engine identity.
    pub fn engine_id(&self) -> (r: crate::types::EngineId)
        ensures
            r == self.engine().identity(),
    {
        self.engine.id()
    }

    /// Returns the immutable resource generation shared with this Session.
    pub fn resource_generation(&self) -> (r: crate::types::ResourceGeneration)
        ensures
            r.0 == 0,
    {
        self.engine.resource_generation()
    }

    /// Returns the current state revision.
    pub fn state_revision(&self) -> (r: StateRevision)
        ensures
            r.0 == self@.revision,
    {
        self.state_revision
    }

    /// Returns whether a stale failed action requires host/Core reconciliation.
    pub fn reconciliation_required(&self) -> (r: bool)
        ensures
            r == self@.reconciliation_required,
    {
        self.reconciliation_required
    }

    /// Returns components currently degraded for candidate generation.
    pub fn degraded_components(&self) -> (r: &[DegradedComponent])
        ensures
            r@ == self@.degraded,
    {
        self.degraded_components.as_slice()
    }

    /// Returns the sanitized context the Session holds.
    pub fn context(&self) -> (r: &ContextSnapshot)
        ensures
            r@ == self@.context,
    {
        &self.context
    }

    /// Returns the number of actions still waiting for a disposition.
    pub fn outstanding_action_count(&self) -> (r: usize)
        ensures
            r == self@.pending.len(),
    {
        self.pending_actions.len()
    }

    /// Returns a renderable snapshot without processing an event.
    pub fn snapshot(&self) -> (r: ImeState)
        requires
            self.wf(),
        ensures
            state_matches(r, self@),
    {
        ImeState {
            phase: self.phase,
            composition_utf8: self.composer.text().to_owned(),
            composition_cursor_grapheme: self.composer.cursor_grapheme(),
            composition_cursor_utf8_byte_offset: self.composer.cursor_utf8_byte_offset(),
            candidates: self.candidate_snapshot.views(),
            selected_candidate: self.candidate_snapshot.selected_candidate_id(),
            mode: self.mode,
        }
    }
}

/// A renderable state shows the Session's phase, composition, cursor, candidates, selection
/// and mode.
pub open spec fn state_matches(s: ImeState, v: SessionView) -> bool {
    &&& s.phase == v.phase
    &&& s.composition_utf8@ == v.composer.text
    &&& s.composition_cursor_grapheme == v.composer.cursor
    &&& s.composition_cursor_utf8_byte_offset == crate::text::byte_len(
        v.composer.text.take(v.composer.cursor_offset()),
    )
    &&& crate::candidate::candidate_views_match(s.candidates@, v.candidates)
    &&& s.selected_candidate == v.candidates.selected_id()
    &&& s.mode == v.mode
}

/// Inserts a disposition into an identifier-ordered history, replacing an earlier one for
/// the same identifier.
pub open spec fn insert_resolution(r: Seq<(u64, ActionDisposition)>, id: u64, d: ActionDisposition) -> Seq<
    (u64, ActionDisposition),
>
    decreases r.len(),
{
    if r.len() == 0 {
        seq![(id, d)]
    } else if r[0].0 < id {
        seq![r[0]] + insert_resolution(r.drop_first(), id, d)
    } else if r[0].0 == id {
        seq![(id, d)] + r.drop_first()
    } else {
        seq![(id, d)] + r
    }
}

/// Keeps the `max` entries with the largest identifiers.
pub open spec fn trim_history(r: Seq<(u64, ActionDisposition)>, max: nat) -> Seq<
    (u64, ActionDisposition),
> {
    if r.len() > max {
        r.skip(r.len() - max)
    } else {
        r
    }
}

/// Records one disposition in a bounded history: the oldest entries leave first.
pub open spec fn record(r: Seq<(u64, ActionDisposition)>, id: u64, d: ActionDisposition, max: nat) -> Seq<
    (u64, ActionDisposition),
> {
    trim_history(insert_resolution(r, id, d), max)
}

/// Records the same disposition for each of `ids`, in order.
pub open spec fn record_all(
    r: Seq<(u64, ActionDisposition)>,
    ids: Seq<u64>,
    d: ActionDisposition,
    max: nat,
) -> Seq<(u64, ActionDisposition)>
    decreases ids.len(),
{
    if ids.len() == 0 {
        r
    } else {
        record(record_all(r, ids.drop_last(), d, max), ids.last(), d, max)
    }
}

/// The pending actions that are not composition-text updates, in order.
pub open spec fn without_updates(p: Seq<PendingView>) -> Seq<PendingView>
    decreases p.len(),
{
    if p.len() == 0 {
        p
    } else if p.last().kind is SetCompositionText {
        without_updates(p.drop_last())
    } else {
        without_updates(p.drop_last()).push(p.last())
    }
}

/// The identifiers of pending composition-text updates, in order.
pub open spec fn update_ids(p: Seq<PendingView>) -> Seq<u64>
    decreases p.len(),
{
    if p.len() == 0 {
        Seq::empty()
    } else if p.last().kind is SetCompositionText {
        update_ids(p.drop_last()).push(p.last().action_id)
    } else {
        update_ids(p.drop_last())
    }
}

/// Pending actions without their commit recoveries.
pub open spec fn without_recoveries(p: Seq<PendingView>) -> Seq<PendingView> {
    p.map_values(|a: PendingView| PendingView { recovery: None, ..a })
}

/// The pending view of a freshly issued action.
pub open spec fn issued(a: ImeAction, recovery: Option<RecoveryView>) -> PendingView {
    PendingView {
        action_id: a.action_id.0,
        originating_revision: a.originating_revision.0,
        kind: a.kind@,
        recovery,
    }
}

/// The Session's candidates, phase and degraded components after regeneration for its
/// current composition.
pub open spec fn candidates_regenerated(engine: ImeEngine, v: SessionView) -> bool {
    let limits = engine.configuration().limits;
    if v.composer.text.len() == 0 {
        &&& v.phase == SessionPhase::Idle
        &&& v.candidates.proposals.len() == 0
        &&& v.degraded.len() == 0
    } else {
        &&& v.phase != SessionPhase::Idle
        &&& (v.phase == SessionPhase::CandidateSelecting) == (v.candidates.proposals.len() > 0)
        &&& v.candidates.proposals.len() <= limits.max_visible_candidates
        &&& sorted_by(v.candidates.proposals, rank_order())
        &&& v.degraded.len() <= 1
        &&& v.degraded.len() == 1 ==> v.candidates.proposals.len() == 0
        &&& match engine.pipeline().pipeline_items(v.composer.text, limits) {
            Ok(items) => v.degraded.len() == 0 && is_pipeline_output(
                items,
                limits.max_visible_candidates as nat,
                v.candidates.proposals,
            ),
            Err(c) => v.degraded == seq![c] && v.candidates.proposals.len() == 0,
        }
        &&& engine.reference_records() matches Some(records) ==> {
            &&& v.degraded.len() == 0
            &&& is_pipeline_output(
                keyed_by_text(
                    in_memory_proposals(
                        records,
                        ascii_lower_text(v.composer.text),
                        limits.max_generated_candidates as nat,
                    ),
                ),
                limits.max_visible_candidates as nat,
                v.candidates.proposals,
            )
        }
    }
}

proof fn lemma_insert_resolution(r: Seq<(u64, ActionDisposition)>, id: u64, d: ActionDisposition, k: int)
    requires
        0 <= k <= r.len(),
        forall|i: int| 0 <= i < k ==> (#[trigger] r[i]).0 < id,
        k < r.len() ==> r[k].0 >= id,
    ensures
        insert_resolution(r, id, d) == if k < r.len() && r[k].0 == id {
            r.update(k, (id, d))
        } else {
            r.insert(k, (id, d))
        },
    decreases r.len(),
{
    if r.len() == 0 {
        assert(r.insert(0, (id, d)) =~= seq![(id, d)]);
    } else if k > 0 {
        let rest = r.drop_first();
        assert forall|i: int| 0 <= i < k - 1 implies (#[trigger] rest[i]).0 < id by {
            assert(rest[i] == r[i + 1]);
        }
        if k < r.len() {
            assert(rest[k - 1] == r[k]);
        }
        lemma_insert_resolution(rest, id, d, k - 1);
        if k < r.len() && r[k].0 == id {
            assert(seq![r[0]] + rest.update(k - 1, (id, d)) =~= r.update(k, (id, d)));
        } else {
            assert(seq![r[0]] + rest.insert(k - 1, (id, d)) =~= r.insert(k, (id, d)));
        }
    } else {
        if r[0].0 == id {
            assert(seq![(id, d)] + r.drop_first() =~= r.update(0, (id, d)));
        } else {
            assert(seq![(id, d)] + r =~= r.insert(0, (id, d)));
        }
    }
}

proof fn lemma_insert_sorted(r0: Seq<(u64, ActionDisposition)>, k: int, x: (u64, ActionDisposition))
    requires
        strictly_increasing(resolved_ids(r0)),
        0 <= k <= r0.len(),
        forall|i: int| 0 <= i < k ==> (#[trigger] r0[i]).0 < x.0,
        k < r0.len() ==> r0[k].0 > x.0,
    ensures
        strictly_increasing(resolved_ids(r0.insert(k, x))),
{
    let n = r0.insert(k, x);
    let old_ids = resolved_ids(r0);
    let ids = resolved_ids(n);
    assert forall|i: int, j: int| 0 <= i < j < ids.len() implies ids[i] < ids[j] by {
        assert(ids[i] == n[i].0 && ids[j] == n[j].0);
        if j < k {
            assert(n[i] == r0[i] && n[j] == r0[j]);
            assert(old_ids[i] < old_ids[j]);
        } else if j == k {
            assert(n[i] == r0[i]);
        } else if i < k {
            assert(n[i] == r0[i] && n[j] == r0[j - 1]);
            assert(r0[k].0 > x.0);
            if j - 1 > k {
                assert(old_ids[k] < old_ids[j - 1]);
            }
        } else if i == k {
            assert(n[j] == r0[j - 1]);
            if j - 1 > k {
                assert(old_ids[k] < old_ids[j - 1]);
            }
        } else {
            assert(n[i] == r0[i - 1] && n[j] == r0[j - 1]);
            assert(old_ids[i - 1] < old_ids[j - 1]);
        }
    }
}

impl ImeSession {
    /// Whether the host renders composition text.
    fn supports_marked_text(&self) -> (r: bool)
        ensures
            r == (self.config().capabilities.marked_text_support
                == crate::types::MarkedTextSupport::Basic),
    {
        self.engine.config().capabilities.marked_text_support == crate::types::MarkedTextSupport::Basic
    }

    /// Fails when no further action may be outstanding.
    fn ensure_action_capacity(&self) -> (r: Result<(), ImeError>)
        ensures
            r is Ok <==> self@.pending.len() < self.config().limits.max_outstanding_actions,
            r matches Err(e) ==> (e == ImeError::TooManyOutstandingActions {
                max: self.config().limits.max_outstanding_actions,
            }),
    {
        let max = self.engine.config().limits.max_outstanding_actions;
        if self.pending_actions.len() >= max {
            return Err(ImeError::TooManyOutstandingActions { max });
        }
        Ok(())
    }

    /// Records a disposition in the bounded history.
    fn record_resolved(&mut self, action_id: u64, disposition: ActionDisposition)
        requires
            old(self)@.wf_actions(old(self).config()),
            action_id < old(self)@.next_action_id,
        ensures
            final(self)@.wf_actions(final(self).config()),
            final(self).engine() == old(self).engine(),
            final(self)@ == (SessionView {
                resolved: record(
                    old(self)@.resolved,
                    action_id,
                    disposition,
                    old(self).config().limits.max_resolved_action_history as nat,
                ),
                ..old(self)@
            }),
    {
        let ghost r0 = self@.resolved;
        let mut k: usize = 0;
        while k < self.resolved_actions.len() && self.resolved_actions[k].action_id < action_id
            invariant
                k <= self.resolved_actions@.len(),
                r0 == resolved_views(self.resolved_actions@),
                forall|i: int| 0 <= i < k ==> (#[trigger] r0[i]).0 < action_id,
            decreases self.resolved_actions@.len() - k,
        {
            k = k + 1;
        }
        proof {
            lemma_insert_resolution(r0, action_id, disposition, k as int);
        }
        let entry = ResolvedAction { action_id, disposition };
        if k < self.resolved_actions.len() && self.resolved_actions[k].action_id == action_id {
            self.resolved_actions.set(k, entry);
            assert(resolved_views(self.resolved_actions@) =~= r0.update(k as int, (action_id, disposition)));
        } else {
            self.resolved_actions.insert(k, entry);
            assert(resolved_views(self.resolved_actions@) =~= r0.insert(k as int, (action_id, disposition)));
        }
        let ghost inserted = resolved_views(self.resolved_actions@);
        proof {
            if k < r0.len() && r0[k as int].0 == action_id {
                assert(resolved_ids(inserted) =~= resolved_ids(r0));
            } else {
                lemma_insert_sorted(r0, k as int, (action_id, disposition));
            }
            assert forall|i: int| 0 <= i < inserted.len() implies (#[trigger] inserted[i]).0
                < self@.next_action_id by {
                if k < r0.len() && r0[k as int].0 == action_id {
                    if i != k {
                        assert(inserted[i] == r0[i]);
                    }
                } else if i < k {
                    assert(inserted[i] == r0[i]);
                } else if i > k {
                    assert(inserted[i] == r0[i - 1]);
                }
            }
        }
        let max = self.engine.config().limits.max_resolved_action_history;
        if self.resolved_actions.len() > max {
            self.resolved_actions.remove(0);
            proof {
                assert(inserted.len() == max + 1);
                assert(resolved_views(self.resolved_actions@) =~= inserted.skip(inserted.len() - max));
                let t = resolved_views(self.resolved_actions@);
                assert forall|i: int, j: int| 0 <= i < j < t.len() implies resolved_ids(t)[i]
                    < resolved_ids(t)[j] by {
                    assert(t[i] == inserted[i + 1] && t[j] == inserted[j + 1]);
                    assert(resolved_ids(inserted)[i + 1] < resolved_ids(inserted)[j + 1]);
                }
                assert forall|i: int| 0 <= i < t.len() implies (#[trigger] t[i]).0
                    < self@.next_action_id by {
                    assert(t[i] == inserted[i + 1]);
                }
            }
        }
    }
}

impl ImeSession {
    /// Records `disposition` for each of `ids`, in order.
    fn record_all_resolved(&mut self, ids: &Vec<u64>, disposition: ActionDisposition)
        requires
            old(self)@.wf_actions(old(self).config()),
            forall|i: int| 0 <= i < ids@.len() ==> #[trigger] ids@[i] < old(self)@.next_action_id,
        ensures
            final(self)@.wf_actions(final(self).config()),
            final(self).engine() == old(self).engine(),
            final(self)@ == (SessionView {
                resolved: record_all(
                    old(self)@.resolved,
                    ids@,
                    disposition,
                    old(self).config().limits.max_resolved_action_history as nat,
                ),
                ..old(self)@
            }),
    {
        let ghost v0 = self@;
        let ghost max = self.config().limits.max_resolved_action_history as nat;
        let mut i: usize = 0;
        while i < ids.len()
            invariant
                i <= ids@.len(),
                self.engine() == old(self).engine(),
                self@.wf_actions(self.config()),
                forall|j: int| 0 <= j < ids@.len() ==> #[trigger] ids@[j] < v0.next_action_id,
                v0 == old(self)@,
                max == self.config().limits.max_resolved_action_history as nat,
                self@ == (SessionView {
                    resolved: record_all(v0.resolved, ids@.take(i as int), disposition, max),
                    ..v0
                }),
            decreases ids@.len() - i,
        {
            self.record_resolved(ids[i], disposition);
            proof {
                let t = ids@.take(i + 1);
                assert(t.drop_last() =~= ids@.take(i as int));
                assert(t.last() == ids@[i as int]);
            }
            i = i + 1;
        }
        assert(ids@.take(ids@.len() as int) =~= ids@);
    }

    /// Supersedes every pending composition-text update.
    fn supersede_pending_composition_updates(&mut self)
        requires
            old(self)@.wf_actions(old(self).config()),
        ensures
            final(self)@.wf_actions(final(self).config()),
            final(self).engine() == old(self).engine(),
            final(self)@ == (SessionView {
                pending: without_updates(old(self)@.pending),
                resolved: record_all(
                    old(self)@.resolved,
                    update_ids(old(self)@.pending),
                    ActionDisposition::Superseded,
                    old(self).config().limits.max_resolved_action_history as nat,
                ),
                ..old(self)@
            }),
    {
        let ghost v0 = self@;
        let ghost p0 = self@.pending;
        let mut rest: Vec<PendingAction> = Vec::new();
        std::mem::swap(&mut rest, &mut self.pending_actions);
        let ghost all = rest@;
        let count: usize = rest.len();
        let mut kept: Vec<PendingAction> = Vec::new();
        let mut removed: Vec<u64> = Vec::new();
        let mut i: usize = 0;
        while rest.len() > 0
            invariant
                i <= all.len(),
                all.len() == count,
                rest@ == all.skip(i as int),
                p0 == pending_views(all),
                strictly_increasing(pending_ids(p0)),
                forall|j: int| 0 <= j < p0.len() ==> (#[trigger] p0[j]).action_id < v0.next_action_id,
                pending_views(kept@) == without_updates(p0.take(i as int)),
                removed@ == update_ids(p0.take(i as int)),
                strictly_increasing(pending_ids(pending_views(kept@))),
                forall|a: int, b: int|
                    #![trigger pending_views(kept@)[a], p0[b]]
                    0 <= a < kept@.len() && i <= b < p0.len() ==> pending_views(kept@)[a].action_id
                        < p0[b].action_id,
                forall|a: int| 0 <= a < kept@.len() ==> exists|b: int| 0 <= b < i && #[trigger] pending_views(kept@)[a] == p0[b],
                forall|a: int| 0 <= a < removed@.len() ==> #[trigger] removed@[a] < v0.next_action_id,
            decreases rest@.len(),
        {
            let item = rest.remove(0);
            assert(item == all[i as int]);
            let ghost pv = item@;
            assert(pv == p0[i as int]);
            let ghost kv = pending_views(kept@);
            let ghost t = p0.take(i + 1);
            assert(t.drop_last() =~= p0.take(i as int));
            assert(t.last() == pv);
            if item.action.kind.is_set_composition() {
                removed.push(item.action.action_id.0);
            } else {
                kept.push(item);
                proof {
                    let nk = pending_views(kept@);
                    assert(nk =~= kv.push(pv));
                    assert forall|a: int, b: int| 0 <= a < b < nk.len() implies pending_ids(nk)[a]
                        < pending_ids(nk)[b] by {
                        if b == nk.len() - 1 {
                            assert(nk[a] == kv[a]);
                            assert(kv[a].action_id < p0[i as int].action_id);
                        } else {
                            assert(pending_ids(kv)[a] < pending_ids(kv)[b]);
                        }
                    }
                    assert forall|a: int, b: int|
                        #![trigger nk[a], p0[b]]
                        0 <= a < nk.len() && i + 1 <= b < p0.len() implies nk[a].action_id
                            < p0[b].action_id by {
                        if a == nk.len() - 1 {
                            assert(pending_ids(p0)[i as int] < pending_ids(p0)[b]);
                        } else {
                            assert(nk[a] == kv[a]);
                        }
                    }
                    assert forall|a: int| 0 <= a < nk.len() implies exists|b: int| 0 <= b < i + 1 && #[trigger] nk[a] == p0[b] by {
                        if a == nk.len() - 1 {
                            assert(nk[a] == p0[i as int]);
                        } else {
                            assert(nk[a] == kv[a]);
                        }
                    }
                }
            }
            proof {
                assert(rest@ =~= all.skip(i + 1));
            }
            i = i + 1;
        }
        proof {
            assert(p0.take(i as int) =~= p0);
            let nk = pending_views(kept@);
            assert forall|a: int| 0 <= a < nk.len() implies (#[trigger] nk[a]).action_id < v0.next_action_id
                && (nk[a].recovery matches Some(r) ==> r.composer.wf()) by {
                let b = choose|b: int| 0 <= b < i && #[trigger] nk[a] == p0[b];
            }
            lemma_without_updates_len(p0);
        }
        self.pending_actions = kept;
        self.record_all_resolved(&removed, ActionDisposition::Superseded);
    }

    /// Supersedes every pending action.
    fn supersede_all_pending(&mut self)
        requires
            old(self)@.wf_actions(old(self).config()),
        ensures
            final(self)@.wf_actions(final(self).config()),
            final(self).engine() == old(self).engine(),
            final(self)@ == (SessionView {
                pending: Seq::<PendingView>::empty(),
                resolved: record_all(
                    old(self)@.resolved,
                    pending_ids(old(self)@.pending),
                    ActionDisposition::Superseded,
                    old(self).config().limits.max_resolved_action_history as nat,
                ),
                ..old(self)@
            }),
    {
        let ghost p0 = self@.pending;
        let mut ids: Vec<u64> = Vec::new();
        let mut i: usize = 0;
        while i < self.pending_actions.len()
            invariant
                i <= self.pending_actions@.len(),
                p0 == self@.pending,
                ids@ == pending_ids(p0).take(i as int),
            decreases self.pending_actions@.len() - i,
        {
            ids.push(self.pending_actions[i].action.action_id.0);
            assert(ids@ =~= pending_ids(p0).take(i + 1));
            i = i + 1;
        }
        assert(ids@ =~= pending_ids(p0));
        self.pending_actions = Vec::new();
        proof {
            assert(pending_views(self.pending_actions@) =~= Seq::<PendingView>::empty());
            assert forall|a: int| 0 <= a < ids@.len() implies #[trigger] ids@[a] < self@.next_action_id by {
                assert(ids@[a] == p0[a].action_id);
            }
        }
        self.record_all_resolved(&ids, ActionDisposition::Superseded);
    }

    /// Drops every pending commit recovery.
    fn invalidate_commit_recoveries(&mut self)
        requires
            old(self)@.wf_actions(old(self).config()),
        ensures
            final(self)@.wf_actions(final(self).config()),
            final(self).engine() == old(self).engine(),
            final(self)@ == (SessionView {
                pending: without_recoveries(old(self)@.pending),
                ..old(self)@
            }),
    {
        let ghost p0 = self@.pending;
        let mut rest: Vec<PendingAction> = Vec::new();
        std::mem::swap(&mut rest, &mut self.pending_actions);
        let ghost all = rest@;
        let count: usize = rest.len();
        let mut out: Vec<PendingAction> = Vec::new();
        let mut i: usize = 0;
        while rest.len() > 0
            invariant
                i <= all.len(),
                all.len() == count,
                rest@ == all.skip(i as int),
                p0 == pending_views(all),
                pending_views(out@) == without_recoveries(p0.take(i as int)),
            decreases rest@.len(),
        {
            let item = rest.remove(0);
            assert(item == all[i as int]);
            let ghost prev = out@;
            out.push(PendingAction { action: item.action, recovery: None });
            proof {
                let nv = PendingView { recovery: None, ..p0[i as int] };
                assert(out@.last()@ == nv);
                assert(pending_views(out@) =~= pending_views(prev).push(nv));
                assert(p0.take(i + 1) =~= p0.take(i as int).push(p0[i as int]));
                assert(pending_views(out@) =~= without_recoveries(p0.take(i + 1)));
                assert(rest@ =~= all.skip(i + 1));
            }
            i = i + 1;
        }
        assert(p0.take(i as int) =~= p0);
        self.pending_actions = out;
        proof {
            let nv = self@.pending;
            assert(pending_ids(nv) =~= pending_ids(p0));
            assert forall|a: int| 0 <= a < nv.len() implies (#[trigger] nv[a]).action_id < self@.next_action_id by {
                assert(nv[a].action_id == p0[a].action_id);
            }
        }
    }
}

pub(crate) proof fn lemma_without_updates_len(p: Seq<PendingView>)
    ensures
        without_updates(p).len() <= p.len(),
    decreases p.len(),
{
    if p.len() > 0 {
        lemma_without_updates_len(p.drop_last());
    }
}

/// The recovery view of an optional recovery.
spec fn recovery_view(r: Option<CommitRecovery>) -> Option<RecoveryView> {
    match r {
        Some(c) => Some(c@),
        None => None,
    }
}

/// The composition update the host receives for a composer: the text and cursor, or a
/// cancellation once nothing is composed.
pub open spec fn composition_update_kind(c: ComposerView) -> ActionKindView {
    if c.text.len() == 0 {
        ActionKindView::CancelComposition
    } else {
        ActionKindView::SetCompositionText {
            text: c.text,
            cursor_utf8_byte_offset: crate::text::byte_len(c.text.take(c.cursor_offset())) as usize,
        }
    }
}

/// The Session after every pending composition-text update was superseded.
pub open spec fn superseded_updates(v: SessionView, max_history: nat) -> SessionView {
    SessionView {
        pending: without_updates(v.pending),
        resolved: record_all(
            v.resolved,
            update_ids(v.pending),
            ActionDisposition::Superseded,
            max_history,
        ),
        ..v
    }
}

/// The Session after every pending action was superseded.
pub open spec fn superseded_all(v: SessionView, max_history: nat) -> SessionView {
    SessionView {
        pending: Seq::empty(),
        resolved: record_all(
            v.resolved,
            pending_ids(v.pending),
            ActionDisposition::Superseded,
            max_history,
        ),
        ..v
    }
}

/// The empty candidate snapshot of the Session's current revision.
pub open spec fn no_candidates(v: SessionView) -> SnapshotView {
    SnapshotView {
        session_id: SessionId(v.session_id),
        revision: StateRevision(v.revision),
        ids: Seq::empty(),
        proposals: Seq::empty(),
        selected: None,
    }
}

/// The Session with a new revision, its candidates moving along.
pub open spec fn with_revision(v: SessionView, revision: u64) -> SessionView {
    SessionView {
        revision,
        candidates: SnapshotView { revision: StateRevision(revision), ..v.candidates },
        ..v
    }
}

/// A failed commit may restore its composition only while nothing else happened since.
pub open spec fn can_restore(v: SessionView, r: RecoveryView) -> bool {
    &&& !v.reconciliation_required
    &&& v.input_sequence == r.input_sequence
    &&& v.revision == r.post_commit_revision
    &&& v.context.context_epoch == r.context_epoch
    &&& v.phase == SessionPhase::Idle
    &&& v.composer.text.len() == 0
}

/// How an applied action changes what the host is known to display.
pub open spec fn platform_update(v: SessionView, kind: ActionKindView, d: ActionDisposition) -> SessionView {
    if d != ActionDisposition::Applied {
        v
    } else {
        match kind {
            ActionKindView::SetCompositionText { .. } => SessionView {
                platform_composition_active: true,
                ..v
            },
            ActionKindView::DeleteBackward { .. } => v,
            ActionKindView::RequestPlatformReset { .. } => SessionView {
                platform_composition_active: false,
                reconciliation_required: false,
                ..v
            },
            _ => SessionView { platform_composition_active: false, ..v },
        }
    }
}

/// `a + b`, saturating at `usize::MAX`.
pub open spec fn saturating_sum(a: nat, b: nat) -> usize {
    if a + b > usize::MAX {
        usize::MAX
    } else {
        (a + b) as usize
    }
}

/// The error an insertion of `t` raises under `limits`, if any.
pub open spec fn insert_error(v: SessionView, limits: CoreLimits, t: Seq<char>) -> Option<ImeError> {
    let added = crate::text::byte_len(t);
    let size = saturating_sum(crate::text::byte_len(v.composer.text), added);
    if added > limits.max_event_text_bytes {
        Some(ImeError::EventTextTooLong { actual: added as usize, max: limits.max_event_text_bytes })
    } else if size > limits.max_composition_text_bytes {
        Some(ImeError::CompositionTooLong { actual: size, max: limits.max_composition_text_bytes })
    } else {
        None
    }
}

impl ImeSession {
    /// Issues an action: it gets the next identifier and stays pending until acknowledged.
    fn allocate_action(&mut self, kind: ImeActionKind, recovery: Option<CommitRecovery>) -> (r:
        Result<ImeAction, ImeError>)
        requires
            old(self)@.wf_actions(old(self).config()),
            recovery matches Some(c) ==> c@.composer.wf(),
        ensures
            final(self)@.wf_actions(final(self).config()),
            final(self).engine() == old(self).engine(),
            old(self)@.pending.len() >= old(self).config().limits.max_outstanding_actions ==> (r
                == Err::<ImeAction, ImeError>(
                ImeError::TooManyOutstandingActions {
                    max: old(self).config().limits.max_outstanding_actions,
                },
            ) && final(self)@ == old(self)@),
            old(self)@.pending.len() < old(self).config().limits.max_outstanding_actions
                && old(self)@.next_action_id == u64::MAX ==> (r == Err::<ImeAction, ImeError>(
                ImeError::CounterExhausted("action_id"),
            ) && final(self)@ == old(self)@),
            old(self)@.pending.len() < old(self).config().limits.max_outstanding_actions
                && old(self)@.next_action_id < u64::MAX ==> (r matches Ok(a) && a@ == (ActionView {
                action_id: old(self)@.next_action_id,
                session_id: old(self)@.session_id,
                originating_revision: old(self)@.revision,
                kind: kind@,
            }) && final(self)@ == (SessionView {
                pending: old(self)@.pending.push(issued(a, recovery_view(recovery))),
                next_action_id: (old(self)@.next_action_id + 1) as u64,
                ..old(self)@
            })),
    {
        self.ensure_action_capacity()?;
        let id = self.next_action_id;
        if id == u64::MAX {
            return Err(ImeError::CounterExhausted("action_id"));
        }
        self.next_action_id = id + 1;
        let action = ImeAction {
            action_id: ActionId::new(id),
            session_id: self.session_id,
            originating_revision: self.state_revision,
            kind,
        };
        let ghost p0 = self@.pending;
        self.pending_actions.push(PendingAction { action: action.duplicate(), recovery });
        proof {
            let p1 = self@.pending;
            assert(p1 =~= p0.push(issued(action, recovery_view(recovery))));
            assert forall|a: int, b: int| 0 <= a < b < p1.len() implies pending_ids(p1)[a]
                < pending_ids(p1)[b] by {
                if b == p1.len() - 1 {
                    assert(p1[a] == p0[a]);
                } else {
                    assert(pending_ids(p0)[a] < pending_ids(p0)[b]);
                }
            }
            assert forall|a: int| 0 <= a < p1.len() implies (#[trigger] p1[a]).action_id
                < self@.next_action_id && (p1[a].recovery matches Some(c) ==> c.composer.wf()) by {
                if a < p0.len() {
                    assert(p1[a] == p0[a]);
                }
            }
            assert forall|a: int| 0 <= a < self@.resolved.len() implies (
            #[trigger] self@.resolved[a]).0 < self@.next_action_id by {}
        }
        Ok(action)
    }

    /// Moves to the next revision, keeping the candidates bound to it.
    fn bump_revision(&mut self) -> (r: Result<(), ImeError>)
        ensures
            final(self).engine() == old(self).engine(),
            old(self)@.revision == u64::MAX ==> (r == Err::<(), ImeError>(
                ImeError::CounterExhausted("state_revision"),
            ) && final(self)@ == old(self)@),
            old(self)@.revision < u64::MAX ==> (r is Ok && final(self)@ == with_revision(
                old(self)@,
                (old(self)@.revision + 1) as u64,
            )),
    {
        if self.state_revision.0 == u64::MAX {
            return Err(ImeError::CounterExhausted("state_revision"));
        }
        self.state_revision = StateRevision::new(self.state_revision.0 + 1);
        self.candidate_snapshot.rebind_revision(self.state_revision);
        Ok(())
    }

    /// Counts one more processed event.
    fn bump_input_sequence(&mut self) -> (r: Result<(), ImeError>)
        ensures
            final(self).engine() == old(self).engine(),
            old(self)@.input_sequence == u64::MAX ==> (r == Err::<(), ImeError>(
                ImeError::CounterExhausted("input_sequence"),
            ) && final(self)@ == old(self)@),
            old(self)@.input_sequence < u64::MAX ==> (r is Ok && final(self)@ == (SessionView {
                input_sequence: (old(self)@.input_sequence + 1) as u64,
                ..old(self)@
            })),
    {
        if self.input_sequence == u64::MAX {
            return Err(ImeError::CounterExhausted("input_sequence"));
        }
        self.input_sequence = self.input_sequence + 1;
        Ok(())
    }

    /// Drops the candidates and degraded components.
    fn clear_candidates(&mut self)
        ensures
            final(self).engine() == old(self).engine(),
            final(self)@ == (SessionView {
                candidates: no_candidates(old(self)@),
                degraded: Seq::<DegradedComponent>::empty(),
                ..old(self)@
            }),
    {
        self.candidate_snapshot = CandidateSnapshot::empty(self.session_id, self.state_revision);
        self.degraded_components = Vec::new();
        assert(self@.candidates.ids =~= Seq::<u32>::empty());
        assert(self@.candidates.proposals =~= no_candidates(old(self)@).proposals);
        assert(self@.degraded =~= Seq::<DegradedComponent>::empty());
    }

    /// Regenerates candidates for the current composition; a pipeline failure keeps the raw
    /// composition and reports the failed component.
    fn regenerate_candidates(&mut self)
        requires
            old(self)@.composer.wf(),
        ensures
            final(self).engine() == old(self).engine(),
            final(self)@ == (SessionView {
                phase: final(self)@.phase,
                candidates: final(self)@.candidates,
                degraded: final(self)@.degraded,
                ..old(self)@
            }),
            final(self)@.wf_state(),
            candidates_regenerated(final(self).engine(), final(self)@),
    {
        if self.composer.is_empty() {
            self.clear_candidates();
            self.phase = SessionPhase::Idle;
            return;
        }
        let generated = self.engine.candidate_engine().generate(
            self.session_id,
            self.state_revision,
            self.composer.text(),
            &self.engine.config().limits,
        );
        match generated {
            Ok(snapshot) => {
                self.phase = if snapshot.is_empty() {
                    SessionPhase::Composing
                } else {
                    SessionPhase::CandidateSelecting
                };
                self.candidate_snapshot = snapshot;
                self.degraded_components = Vec::new();
            },
            Err(failure) => {
                self.candidate_snapshot = CandidateSnapshot::empty(
                    self.session_id,
                    self.state_revision,
                );
                self.phase = SessionPhase::Composing;
                let mut degraded: Vec<DegradedComponent> = Vec::new();
                degraded.push(failure.component);
                self.degraded_components = degraded;
            },
        }
    }

    /// The composition update for the host, when it renders composition text.
    fn composition_update_action(&mut self) -> (r: Result<Vec<ImeAction>, ImeError>)
        requires
            old(self)@.wf_actions(old(self).config()),
            old(self)@.composer.wf(),
        ensures
            final(self)@.wf_actions(final(self).config()),
            final(self).engine() == old(self).engine(),
            old(self).config().capabilities.marked_text_support
                != crate::types::MarkedTextSupport::Basic ==> (r matches Ok(v) && v@.len() == 0
                && final(self)@ == old(self)@),
            old(self).config().capabilities.marked_text_support
                == crate::types::MarkedTextSupport::Basic ==> issued_one(
                old(self)@,
                final(self)@,
                old(self).config(),
                composition_update_kind(old(self)@.composer),
                None,
                views_of(r),
            ),
    {
        if !self.supports_marked_text() {
            return Ok(Vec::new());
        }
        let kind = if self.composer.is_empty() {
            ImeActionKind::CancelComposition
        } else {
            ImeActionKind::SetCompositionText {
                text_utf8: self.composer.text().to_owned(),
                cursor_utf8_byte_offset: self.composer.cursor_utf8_byte_offset(),
            }
        };
        let action = self.allocate_action(kind, None)?;
        let mut out: Vec<ImeAction> = Vec::new();
        out.push(action);
        assert(action_views(out@) =~= seq![out@[0]@]);
        Ok(out)
    }

    /// Makes room for a composition update, when the host renders composition text.
    fn prepare_composition_update_action(&mut self) -> (r: Result<(), ImeError>)
        requires
            old(self)@.wf_actions(old(self).config()),
        ensures
            final(self)@.wf_actions(final(self).config()),
            final(self).engine() == old(self).engine(),
            old(self).config().capabilities.marked_text_support
                != crate::types::MarkedTextSupport::Basic ==> (r is Ok && final(self)@ == old(
                self,
            )@),
            old(self).config().capabilities.marked_text_support
                == crate::types::MarkedTextSupport::Basic ==> {
                &&& final(self)@ == superseded_updates(
                    old(self)@,
                    old(self).config().limits.max_resolved_action_history as nat,
                )
                &&& (r is Ok <==> final(self)@.pending.len()
                    < old(self).config().limits.max_outstanding_actions)
                &&& (r matches Err(e) ==> e == ImeError::TooManyOutstandingActions {
                    max: old(self).config().limits.max_outstanding_actions,
                })
            },
    {
        if self.supports_marked_text() {
            self.supersede_pending_composition_updates();
            self.ensure_action_capacity()?;
        }
        Ok(())
    }

    /// Whether a composition-text update is still waiting for the host.
    fn has_pending_composition_update(&self) -> (r: bool)
        ensures
            r == (update_ids(self@.pending).len() > 0),
    {
        let ghost p = self@.pending;
        let mut i: usize = 0;
        while i < self.pending_actions.len()
            invariant
                i <= self.pending_actions@.len(),
                p == self@.pending,
                update_ids(p.take(i as int)).len() == 0,
            decreases self.pending_actions@.len() - i,
        {
            let ghost t = p.take(i + 1);
            assert(t.drop_last() =~= p.take(i as int));
            assert(t.last() == p[i as int]);
            if self.pending_actions[i].action.kind.is_set_composition() {
                proof {
                    lemma_update_ids_prefix(p, i + 1);
                }
                return true;
            }
            i = i + 1;
        }
        assert(p.take(i as int) =~= p);
        false
    }

    /// Whether a failed commit can still be undone.
    fn can_restore_commit(&self, recovery: &CommitRecovery) -> (r: bool)
        ensures
            r == can_restore(self@, recovery@),
    {
        !self.reconciliation_required && self.input_sequence == recovery.input_sequence
            && self.state_revision.0 == recovery.post_commit_revision.0
            && self.context.context_epoch() == recovery.context_epoch && self.phase
            == SessionPhase::Idle && self.composer.is_empty()
    }

    /// Tracks whether the host displays composition text after an acknowledgement.
    fn update_platform_composition_state(&mut self, kind: &ImeActionKind, disposition: ActionDisposition)
        ensures
            final(self).engine() == old(self).engine(),
            final(self)@ == platform_update(old(self)@, kind@, disposition),
    {
        if disposition != ActionDisposition::Applied {
            return;
        }
        match kind {
            ImeActionKind::SetCompositionText { .. } => {
                self.platform_composition_active = true;
            },
            ImeActionKind::DeleteBackward { .. } => {},
            ImeActionKind::RequestPlatformReset { .. } => {
                self.platform_composition_active = false;
                self.reconciliation_required = false;
            },
            _ => {
                self.platform_composition_active = false;
            },
        }
    }

    /// Rejects insertions beyond the event and composition limits.
    fn validate_insert(&self, text: &str) -> (r: Result<(), ImeError>)
        ensures
            match insert_error(self@, self.config().limits, text@) {
                Some(e) => r == Err::<(), ImeError>(e),
                None => r is Ok,
            },
    {
        let limits = &self.engine.config().limits;
        let added = utf8_len(text);
        if added > limits.max_event_text_bytes {
            return Err(
                ImeError::EventTextTooLong { actual: added, max: limits.max_event_text_bytes },
            );
        }
        let current = utf8_len(self.composer.text());
        let size = current.saturating_add(added);
        if size > limits.max_composition_text_bytes {
            return Err(
                ImeError::CompositionTooLong { actual: size, max: limits.max_composition_text_bytes },
            );
        }
        Ok(())
    }
}

/// A prefix containing an update has a nonempty update list, and so does the whole.
proof fn lemma_update_ids_prefix(p: Seq<PendingView>, n: int)
    requires
        0 < n <= p.len(),
        update_ids(p.take(n)).len() > 0,
    ensures
        update_ids(p).len() > 0,
    decreases p.len() - n,
{
    if n < p.len() {
        let t = p.take(n + 1);
        assert(t.drop_last() =~= p.take(n));
        lemma_update_ids_prefix(p, n + 1);
    } else {
        assert(p.take(n) =~= p);
    }
}

/// The action views of an allocation result.
pub open spec fn views_of(r: Result<Vec<ImeAction>, ImeError>) -> Result<Seq<ActionView>, ImeError> {
    match r {
        Ok(v) => Ok(action_views(v@)),
        Err(e) => Err(e),
    }
}

/// The views of actions.
pub open spec fn action_views(a: Seq<ImeAction>) -> Seq<ActionView> {
    a.map_values(|x: ImeAction| x@)
}

/// One new action of `kind` becomes pending with identifier `old.next_action_id` and is
/// reported, or the allocation fails for lack of room or of identifiers.
pub open spec fn issued_one(
    old: SessionView,
    new: SessionView,
    config: EngineConfig,
    kind: ActionKindView,
    recovery: Option<RecoveryView>,
    r: Result<Seq<ActionView>, ImeError>,
) -> bool {
    if old.pending.len() >= config.limits.max_outstanding_actions {
        r == Err::<Seq<ActionView>, ImeError>(
            ImeError::TooManyOutstandingActions { max: config.limits.max_outstanding_actions },
        ) && new == old
    } else if old.next_action_id == u64::MAX {
        r == Err::<Seq<ActionView>, ImeError>(ImeError::CounterExhausted("action_id")) && new
            == old
    } else {
        r == Ok::<Seq<ActionView>, ImeError>(
            seq![
                ActionView {
                    action_id: old.next_action_id,
                    session_id: old.session_id,
                    originating_revision: old.revision,
                    kind,
                },
            ],
        ) && new == (SessionView {
            pending: old.pending.push(
                PendingView {
                    action_id: old.next_action_id,
                    originating_revision: old.revision,
                    kind,
                    recovery,
                },
            ),
            next_action_id: (old.next_action_id + 1) as u64,
            ..old
        })
    }
}

/// What one event did: its status, how the platform should treat the original event, and
/// the actions it issued.
pub struct Outcome {
    pub status: ImeStatus,
    pub handling: EventHandling,
    pub actions: Seq<ActionView>,
}

/// An outcome without actions.
pub open spec fn quiet(status: ImeStatus, handling: EventHandling) -> Result<Outcome, ImeError> {
    Ok(Outcome { status, handling, actions: Seq::empty() })
}

/// A successful, consumed event that issued `r`'s actions, or `r`'s error.
pub open spec fn succeeded(r: Result<Seq<ActionView>, ImeError>) -> Result<Outcome, ImeError> {
    match r {
        Ok(a) => Ok(Outcome { status: ImeStatus::Success, handling: EventHandling::Consumed, actions: a }),
        Err(e) => Err(e),
    }
}

/// The event changed nothing.
pub open spec fn no_op(s: SessionView, n: SessionView, o: Result<Outcome, ImeError>) -> bool {
    n == s && o == quiet(ImeStatus::NoOp, EventHandling::Consumed)
}

/// The event is not supported in this state.
pub open spec fn unsupported(s: SessionView, n: SessionView, o: Result<Outcome, ImeError>) -> bool {
    n == s && o == quiet(ImeStatus::Unsupported, EventHandling::Consumed)
}

/// The platform should handle the original event itself.
pub open spec fn passed(s: SessionView, n: SessionView, o: Result<Outcome, ImeError>) -> bool {
    n == s && o == quiet(ImeStatus::NoOp, EventHandling::PassThrough)
}

/// The event failed with `e` and left the Session as `n`.
pub open spec fn failed_with(e: ImeError, n: SessionView, m: SessionView, o: Result<Outcome, ImeError>) -> bool {
    o == Err::<Outcome, ImeError>(e) && n == m
}

/// Whether the host renders composition text.
pub open spec fn marked_text(config: EngineConfig) -> bool {
    config.capabilities.marked_text_support == crate::types::MarkedTextSupport::Basic
}

/// The Session once pending composition updates are superseded, when the host renders them.
pub open spec fn prepared(s: SessionView, config: EngineConfig) -> SessionView {
    if marked_text(config) {
        superseded_updates(s, config.limits.max_resolved_action_history as nat)
    } else {
        s
    }
}

/// The composer after up to `n` backspaces, stopping at the start of the text.
pub open spec fn backspaced(c: ComposerView, n: nat) -> ComposerView
    decreases n,
{
    if n == 0 {
        c
    } else {
        let p = backspaced(c, (n - 1) as nat);
        if p.cursor == 0 {
            p
        } else {
            after_backspace(p)
        }
    }
}

/// The composer after up to `n` forward deletions, stopping at the end of the text.
pub open spec fn deleted(c: ComposerView, n: nat) -> ComposerView
    decreases n,
{
    if n == 0 {
        c
    } else {
        let p = deleted(c, (n - 1) as nat);
        if p.cursor >= p.clusters().len() {
            p
        } else {
            after_delete(p)
        }
    }
}

/// A repeat count of zero still acts once.
pub open spec fn at_least_once(count: u16) -> nat {
    if count == 0 {
        1
    } else {
        count as nat
    }
}

/// An edit replaces the composer by `c`: the revision moves on, candidates are regenerated
/// and the host receives the new composition when it renders composition text.
pub open spec fn edited(
    engine: ImeEngine,
    s: SessionView,
    n: SessionView,
    c: ComposerView,
    o: Result<Outcome, ImeError>,
) -> bool {
    let config = engine.configuration();
    let s1 = prepared(s, config);
    if s.revision == u64::MAX {
        failed_with(ImeError::CounterExhausted("state_revision"), n, s, o)
    } else if marked_text(config) && s1.pending.len() >= config.limits.max_outstanding_actions {
        failed_with(
            ImeError::TooManyOutstandingActions { max: config.limits.max_outstanding_actions },
            n,
            s1,
            o,
        )
    } else {
        let mid = SessionView {
            composer: c,
            revision: (s.revision + 1) as u64,
            phase: n.phase,
            candidates: n.candidates,
            degraded: n.degraded,
            ..s1
        };
        &&& candidates_regenerated(engine, mid)
        &&& if marked_text(config) {
            exists|r: Result<Seq<ActionView>, ImeError>|
                issued_one(mid, n, config, composition_update_kind(c), None, r) && o == succeeded(
                    r,
                )
        } else {
            n == mid && o == succeeded(Ok(Seq::empty()))
        }
    }
}

/// Inserting text at the cursor.
pub open spec fn insert_spec(
    engine: ImeEngine,
    s: SessionView,
    n: SessionView,
    t: Seq<char>,
    o: Result<Outcome, ImeError>,
) -> bool {
    if t.len() == 0 {
        no_op(s, n, o)
    } else {
        match insert_error(s, engine.configuration().limits, t) {
            Some(e) => failed_with(e, n, s, o),
            None => edited(engine, s, n, after_insert(s.composer, t), o),
        }
    }
}

/// Deleting backwards: outside a composition the host deletes one character.
pub open spec fn backspace_spec(
    engine: ImeEngine,
    s: SessionView,
    n: SessionView,
    count: u16,
    o: Result<Outcome, ImeError>,
) -> bool {
    if s.phase == SessionPhase::Idle {
        exists|r: Result<Seq<ActionView>, ImeError>|
            issued_one(
                s,
                n,
                engine.configuration(),
                ActionKindView::DeleteBackward { operation_count: 1 },
                None,
                r,
            ) && o == succeeded(r)
    } else if s.composer.cursor == 0 {
        no_op(s, n, o)
    } else {
        edited(engine, s, n, backspaced(s.composer, at_least_once(count)), o)
    }
}

/// Deleting forwards inside a composition.
pub open spec fn delete_spec(
    engine: ImeEngine,
    s: SessionView,
    n: SessionView,
    count: u16,
    o: Result<Outcome, ImeError>,
) -> bool {
    if s.phase == SessionPhase::Idle || s.composer.cursor >= s.composer.clusters().len() {
        no_op(s, n, o)
    } else {
        edited(engine, s, n, deleted(s.composer, at_least_once(count)), o)
    }
}

/// Moving the composition cursor.
pub open spec fn move_spec(
    engine: ImeEngine,
    s: SessionView,
    n: SessionView,
    delta: i32,
    o: Result<Outcome, ImeError>,
) -> bool {
    if s.phase == SessionPhase::Idle || delta == 0 || after_move(s.composer, delta).cursor
        == s.composer.cursor {
        no_op(s, n, o)
    } else {
        edited(engine, s, n, after_move(s.composer, delta), o)
    }
}

/// The private result of one handler.
struct ProcessOutcome {
    status: ImeStatus,
    event_handling: EventHandling,
    actions: Vec<ImeAction>,
}

impl View for ProcessOutcome {
    type V = Outcome;

    closed spec fn view(&self) -> Outcome {
        Outcome { status: self.status, handling: self.event_handling, actions: action_views(self.actions@) }
    }
}

/// The outcome view of a handler result.
spec fn outcome_view(r: Result<ProcessOutcome, ImeError>) -> Result<Outcome, ImeError> {
    match r {
        Ok(p) => Ok(p@),
        Err(e) => Err(e),
    }
}

impl ProcessOutcome {
    fn ok(actions: Vec<ImeAction>) -> (r: Self)
        ensures
            r@ == (Outcome { status: ImeStatus::Success, handling: EventHandling::Consumed, actions: action_views(actions@) }),
    {
        ProcessOutcome { status: ImeStatus::Success, event_handling: EventHandling::Consumed, actions }
    }

    fn no_op() -> (r: Self)
        ensures
            Ok::<Outcome, ImeError>(r@) == quiet(ImeStatus::NoOp, EventHandling::Consumed),
    {
        let r = ProcessOutcome { status: ImeStatus::NoOp, event_handling: EventHandling::Consumed, actions: Vec::new() };
        assert(action_views(r.actions@) =~= Seq::<ActionView>::empty());
        r
    }

    fn unsupported() -> (r: Self)
        ensures
            Ok::<Outcome, ImeError>(r@) == quiet(ImeStatus::Unsupported, EventHandling::Consumed),
    {
        let r = ProcessOutcome { status: ImeStatus::Unsupported, event_handling: EventHandling::Consumed, actions: Vec::new() };
        assert(action_views(r.actions@) =~= Seq::<ActionView>::empty());
        r
    }

    fn pass_through() -> (r: Self)
        ensures
            Ok::<Outcome, ImeError>(r@) == quiet(ImeStatus::NoOp, EventHandling::PassThrough),
    {
        let r = ProcessOutcome { status: ImeStatus::NoOp, event_handling: EventHandling::PassThrough, actions: Vec::new() };
        assert(action_views(r.actions@) =~= Seq::<ActionView>::empty());
        r
    }
}

impl ImeSession {
    /// Finishes an edit whose composer change already happened: moves the revision,
    /// regenerates candidates and issues the composition update.
    fn finish_edit(&mut self) -> (r: Result<ProcessOutcome, ImeError>)
        requires
            old(self)@.wf_actions(old(self).config()),
            old(self)@.composer.wf(),
            old(self)@.revision < u64::MAX,
            marked_text(old(self).config()) ==> old(self)@.pending.len()
                < old(self).config().limits.max_outstanding_actions,
        ensures
            final(self).wf(),
            final(self).engine() == old(self).engine(),
            ({
                let mid = SessionView {
                    revision: (old(self)@.revision + 1) as u64,
                    phase: final(self)@.phase,
                    candidates: final(self)@.candidates,
                    degraded: final(self)@.degraded,
                    ..old(self)@
                };
                &&& candidates_regenerated(final(self).engine(), mid)
                &&& if marked_text(old(self).config()) {
                    exists|a: Result<Seq<ActionView>, ImeError>|
                        issued_one(mid, final(self)@, old(self).config(), composition_update_kind(old(self)@.composer), None, a)
                            && outcome_view(r) == succeeded(a)
                } else {
                    final(self)@ == mid && outcome_view(r) == succeeded(Ok(Seq::empty()))
                }
            }),
    {
        let _ = self.bump_revision();
        self.regenerate_candidates();
        let ghost mid = self@;
        let actions = self.composition_update_action();
        let ghost a = views_of(actions);
        proof {
            assert(mid == (SessionView {
                revision: (old(self)@.revision + 1) as u64,
                phase: self@.phase,
                candidates: self@.candidates,
                degraded: self@.degraded,
                ..old(self)@
            }));
            if !marked_text(old(self).config()) {
                assert(actions is Ok);
                assert(action_views(actions->Ok_0@) =~= Seq::<ActionView>::empty());
            }
        }
        proof {
            assert(self@.phase == mid.phase && self@.candidates == mid.candidates && self@.degraded
                == mid.degraded);
            if marked_text(old(self).config()) {
                assert(issued_one(
                    mid,
                    self@,
                    old(self).config(),
                    composition_update_kind(old(self)@.composer),
                    None,
                    a,
                ));
            }
        }
        match actions {
            Ok(v) => {
                let r = ProcessOutcome::ok(v);
                assert(outcome_view(Ok(r)) == succeeded(a));
                Ok(r)
            },
            Err(e) => Err(e),
        }
    }

    fn insert_text(&mut self, text: String) -> (r: Result<ProcessOutcome, ImeError>)
        requires
            old(self).wf(),
        ensures
            final(self).wf(),
            final(self).engine() == old(self).engine(),
            insert_spec(old(self).engine(), old(self)@, final(self)@, text@, outcome_view(r)),
    {
        if text.as_str().is_empty() {
            return Ok(ProcessOutcome::no_op());
        }
        self.validate_insert(text.as_str())?;
        if self.state_revision.0 == u64::MAX {
            return Err(ImeError::CounterExhausted("state_revision"));
        }
        self.prepare_composition_update_action()?;
        self.composer.insert_text(text.as_str());
        self.finish_edit()
    }
}

proof fn lemma_backspaced_stable(c: ComposerView, i: nat, m: nat)
    requires
        i <= m,
        backspaced(c, i).cursor == 0,
    ensures
        backspaced(c, m) == backspaced(c, i),
    decreases m - i,
{
    if i < m {
        lemma_backspaced_stable(c, i, (m - 1) as nat);
    }
}

proof fn lemma_deleted_stable(c: ComposerView, i: nat, m: nat)
    requires
        i <= m,
        deleted(c, i).cursor >= deleted(c, i).clusters().len(),
    ensures
        deleted(c, m) == deleted(c, i),
    decreases m - i,
{
    if i < m {
        lemma_deleted_stable(c, i, (m - 1) as nat);
    }
}

impl ImeSession {
    fn backspace(&mut self, count: u16) -> (r: Result<ProcessOutcome, ImeError>)
        requires
            old(self).wf(),
        ensures
            final(self).wf(),
            final(self).engine() == old(self).engine(),
            backspace_spec(old(self).engine(), old(self)@, final(self)@, count, outcome_view(r)),
    {
        if self.phase == SessionPhase::Idle {
            let ghost s0 = self@;
            let allocated = self.allocate_action(
                ImeActionKind::DeleteBackward { operation_count: 1 },
                None,
            );
            let action = match allocated {
                Ok(a) => a,
                Err(e) => {
                    let ghost a = Err::<Seq<ActionView>, ImeError>(e);
                    assert(issued_one(
                        old(self)@,
                        self@,
                        old(self).engine().configuration(),
                        ActionKindView::DeleteBackward { operation_count: 1 },
                        None,
                        a,
                    ));
                    assert(outcome_view(Err(e)) == succeeded(a));
                    return Err(e);
                },
            };
            let mut actions: Vec<ImeAction> = Vec::new();
            actions.push(action);
            let r = ProcessOutcome::ok(actions);
            proof {
                let a = Ok::<Seq<ActionView>, ImeError>(action_views(actions@));
                assert(action_views(actions@) =~= seq![action@]);
                assert(issued_one(s0, self@, self.config(), ActionKindView::DeleteBackward { operation_count: 1 }, None, a));
                assert(outcome_view(Ok(r)) == succeeded(a));
            }
            return Ok(r);
        }
        if self.composer.cursor_grapheme() == 0 {
            return Ok(ProcessOutcome::no_op());
        }
        if self.state_revision.0 == u64::MAX {
            return Err(ImeError::CounterExhausted("state_revision"));
        }
        self.prepare_composition_update_action()?;
        let ghost c0 = self@.composer;
        let ghost s1 = self@;
        let times: u16 = if count == 0 {
            1
        } else {
            count
        };
        let mut i: u16 = 0;
        while i < times && self.composer.cursor_grapheme() > 0
            invariant
                i <= times,
                self@.composer.wf(),
                self@.composer == backspaced(c0, i as nat),
                self@ == (SessionView { composer: self@.composer, ..s1 }),
                self.engine() == old(self).engine(),
                s1.wf_actions(self.config()),
            decreases times - i,
        {
            self.composer.backspace();
            i = i + 1;
        }
        proof {
            if i < times {
                lemma_backspaced_stable(c0, i as nat, times as nat);
            }
        }
        self.finish_edit()
    }
}

impl ImeSession {
    fn delete_forward(&mut self, count: u16) -> (r: Result<ProcessOutcome, ImeError>)
        requires
            old(self).wf(),
        ensures
            final(self).wf(),
            final(self).engine() == old(self).engine(),
            delete_spec(old(self).engine(), old(self)@, final(self)@, count, outcome_view(r)),
    {
        if self.phase == SessionPhase::Idle {
            return Ok(ProcessOutcome::no_op());
        }
        if self.composer.cursor_grapheme() >= self.composer.grapheme_count() {
            return Ok(ProcessOutcome::no_op());
        }
        if self.state_revision.0 == u64::MAX {
            return Err(ImeError::CounterExhausted("state_revision"));
        }
        self.prepare_composition_update_action()?;
        let ghost c0 = self@.composer;
        let ghost s1 = self@;
        let times: u16 = if count == 0 {
            1
        } else {
            count
        };
        let mut i: u16 = 0;
        while i < times && self.composer.cursor_grapheme() < self.composer.grapheme_count()
            invariant
                i <= times,
                self@.composer.wf(),
                self@.composer == deleted(c0, i as nat),
                self@ == (SessionView { composer: self@.composer, ..s1 }),
                self.engine() == old(self).engine(),
                s1.wf_actions(self.config()),
            decreases times - i,
        {
            self.composer.delete_forward();
            i = i + 1;
        }
        proof {
            if i < times {
                lemma_deleted_stable(c0, i as nat, times as nat);
            }
        }
        self.finish_edit()
    }

    fn move_composition_cursor(&mut self, grapheme_delta: i32) -> (r: Result<
        ProcessOutcome,
        ImeError,
    >)
        requires
            old(self).wf(),
        ensures
            final(self).wf(),
            final(self).engine() == old(self).engine(),
            move_spec(old(self).engine(), old(self)@, final(self)@, grapheme_delta, outcome_view(r)),
    {
        if self.phase == SessionPhase::Idle || grapheme_delta == 0 {
            return Ok(ProcessOutcome::no_op());
        }
        let current = self.composer.cursor_grapheme();
        let count = self.composer.grapheme_count();
        let next: usize = if grapheme_delta < 0 {
            let back: usize = if grapheme_delta == i32::MIN {
                2147483648
            } else {
                (-grapheme_delta) as usize
            };
            if back >= current {
                0
            } else {
                current - back
            }
        } else {
            let forward = grapheme_delta as usize;
            if forward >= count - current {
                count
            } else {
                current + forward
            }
        };
        if next == current {
            return Ok(ProcessOutcome::no_op());
        }
        if self.state_revision.0 == u64::MAX {
            return Err(ImeError::CounterExhausted("state_revision"));
        }
        self.prepare_composition_update_action()?;
        self.composer.move_cursor(grapheme_delta);
        self.finish_edit()
    }
}

/// The action view of one allocation.
spec fn single_view(r: Result<ImeAction, ImeError>) -> Result<Seq<ActionView>, ImeError> {
    match r {
        Ok(x) => Ok(seq![x@]),
        Err(e) => Err(e),
    }
}

/// The Session with nothing composed and no candidates, at revision `revision`.
pub open spec fn cleared(v: SessionView, revision: u64) -> SessionView {
    SessionView {
        composer: ComposerView { text: Seq::empty(), cursor: 0 },
        phase: SessionPhase::Idle,
        candidates: no_candidates(SessionView { revision, ..v }),
        degraded: Seq::empty(),
        revision,
        ..v
    }
}

/// Committing `text`: the composition is cleared and one commit action is issued, which
/// remembers how to restore the composition should the host fail to apply it.
pub open spec fn commit_text_spec(
    engine: ImeEngine,
    s: SessionView,
    n: SessionView,
    text: Seq<char>,
    kind: CommitKind,
    o: Result<Outcome, ImeError>,
) -> bool {
    let config = engine.configuration();
    let s1 = superseded_updates(s, config.limits.max_resolved_action_history as nat);
    if s1.pending.len() >= config.limits.max_outstanding_actions {
        failed_with(
            ImeError::TooManyOutstandingActions { max: config.limits.max_outstanding_actions },
            n,
            s1,
            o,
        )
    } else if s.revision == u64::MAX {
        failed_with(ImeError::CounterExhausted("state_revision"), n, s1, o)
    } else {
        let revision = (s.revision + 1) as u64;
        let recovery = RecoveryView {
            composer: s.composer,
            post_commit_revision: revision,
            context_epoch: s.context.context_epoch,
            input_sequence: s.input_sequence,
        };
        exists|r: Result<Seq<ActionView>, ImeError>|
            issued_one(
                cleared(s1, revision),
                n,
                config,
                ActionKindView::CommitText { text, commit_kind: kind },
                Some(recovery),
                r,
            ) && o == succeeded(r)
    }
}

/// Committing the raw composition.
pub open spec fn commit_spec(engine: ImeEngine, s: SessionView, n: SessionView, o: Result<Outcome, ImeError>) -> bool {
    if s.phase == SessionPhase::Idle {
        no_op(s, n, o)
    } else {
        commit_text_spec(engine, s, n, s.composer.text, CommitKind::DirectInput, o)
    }
}

/// Whether the host may display composition text.
pub open spec fn host_may_have_composition(s: SessionView) -> bool {
    s.platform_composition_active || update_ids(s.pending).len() > 0
}

/// Cancelling the composition; the host is told to drop what it may display.
pub open spec fn cancel_spec(engine: ImeEngine, s: SessionView, n: SessionView, o: Result<Outcome, ImeError>) -> bool {
    let config = engine.configuration();
    let host = host_may_have_composition(s);
    let s1 = superseded_updates(s, config.limits.max_resolved_action_history as nat);
    if s.phase == SessionPhase::Idle {
        no_op(s, n, o)
    } else if host && s1.pending.len() >= config.limits.max_outstanding_actions {
        failed_with(
            ImeError::TooManyOutstandingActions { max: config.limits.max_outstanding_actions },
            n,
            s1,
            o,
        )
    } else if s.revision == u64::MAX {
        failed_with(ImeError::CounterExhausted("state_revision"), n, s1, o)
    } else {
        let mid = cleared(s1, (s.revision + 1) as u64);
        if marked_text(config) && host {
            exists|r: Result<Seq<ActionView>, ImeError>|
                issued_one(mid, n, config, ActionKindView::CancelComposition, None, r) && o
                    == succeeded(r)
        } else {
            n == mid && o == succeeded(Ok(Seq::empty()))
        }
    }
}

/// Selecting a candidate of the current revision commits its text.
pub open spec fn select_spec(
    engine: ImeEngine,
    s: SessionView,
    n: SessionView,
    candidate_id: CandidateId,
    revision: StateRevision,
    o: Result<Outcome, ImeError>,
) -> bool {
    if revision != StateRevision(s.revision) {
        failed_with(
            ImeError::StaleRevision { expected: StateRevision(s.revision), actual: revision },
            n,
            s,
            o,
        )
    } else if s.phase != SessionPhase::CandidateSelecting {
        unsupported(s, n, o)
    } else {
        match s.candidates.text_of(candidate_id) {
            None => failed_with(ImeError::UnknownCandidate(candidate_id), n, s, o),
            Some(t) => commit_text_spec(engine, s, n, t, CommitKind::Candidate, o),
        }
    }
}

/// Moving the candidate selection, clamped to the candidates; the old revision's
/// candidate identifiers stop being valid.
pub open spec fn move_selection_spec(s: SessionView, n: SessionView, delta: i32, o: Result<Outcome, ImeError>) -> bool {
    if s.phase != SessionPhase::CandidateSelecting {
        unsupported(s, n, o)
    } else {
        let k = s.candidates.selected->0;
        let next = crate::composer::clamp(k + delta, 0, s.candidates.proposals.len() - 1);
        if delta == 0 || next == k {
            no_op(s, n, o)
        } else if s.revision == u64::MAX {
            failed_with(ImeError::CounterExhausted("state_revision"), n, s, o)
        } else {
            n == with_revision(
                SessionView {
                    candidates: SnapshotView { selected: Some(next as nat), ..s.candidates },
                    ..s
                },
                (s.revision + 1) as u64,
            ) && o == succeeded(Ok(Seq::empty()))
        }
    }
}

/// What the Session keeps of a context after applying the privacy and capability policy,
/// or why it refuses it.
pub open spec fn sanitize_result(c: ContextView, limits: CoreLimits, capabilities: PlatformCapabilities) -> Result<
    ContextView,
    ImeError,
> {
    let v = sanitized_view(c, limits, capabilities);
    let max = context_budget(c.input_scope, limits);
    if byte_len(v.before_cursor) > max {
        Err(ImeError::ContextTextTooLong { field: "before_cursor_utf8", actual: byte_len(v.before_cursor) as usize, max: max as usize })
    } else if byte_len(v.selected_text) > max {
        Err(ImeError::ContextTextTooLong { field: "selected_text_utf8", actual: byte_len(v.selected_text) as usize, max: max as usize })
    } else if byte_len(v.after_cursor) > max {
        Err(ImeError::ContextTextTooLong { field: "after_cursor_utf8", actual: byte_len(v.after_cursor) as usize, max: max as usize })
    } else {
        Ok(v)
    }
}

/// A new context replaces the old one and ends any pending reconciliation.
pub open spec fn context_spec(engine: ImeEngine, s: SessionView, n: SessionView, c: ContextView, o: Result<Outcome, ImeError>) -> bool {
    let config = engine.configuration();
    match sanitize_result(c, config.limits, config.capabilities) {
        Err(e) => failed_with(e, n, s, o),
        Ok(v) => if v == s.context {
            no_op(s, n, o)
        } else if s.revision == u64::MAX {
            failed_with(ImeError::CounterExhausted("state_revision"), n, s, o)
        } else {
            n == with_revision(
                SessionView { context: v, reconciliation_required: false, ..s },
                (s.revision + 1) as u64,
            ) && o == succeeded(Ok(Seq::empty()))
        },
    }
}

/// Whether a reset changes the Session's own state.
pub open spec fn reset_changes_state(s: SessionView) -> bool {
    s.phase != SessionPhase::Idle || s.composer.text.len() > 0 || s.context != default_context_view()
        || s.reconciliation_required
}

/// A reset supersedes every pending action, clears composition, candidates and context,
/// and asks the host to reset when it may display composition text.
pub open spec fn reset_spec(engine: ImeEngine, s: SessionView, n: SessionView, o: Result<Outcome, ImeError>) -> bool {
    let config = engine.configuration();
    let changed = reset_changes_state(s);
    let host = host_may_have_composition(s);
    if changed && s.revision == u64::MAX {
        failed_with(ImeError::CounterExhausted("state_revision"), n, s, o)
    } else {
        let s1 = superseded_all(s, config.limits.max_resolved_action_history as nat);
        let base = SessionView {
            context: default_context_view(),
            reconciliation_required: false,
            ..cleared(s1, s.revision)
        };
        let mid = if changed {
            with_revision(base, (s.revision + 1) as u64)
        } else {
            base
        };
        if host {
            exists|r: Result<Seq<ActionView>, ImeError>|
                issued_one(
                    mid,
                    n,
                    config,
                    ActionKindView::RequestPlatformReset { reason: PlatformResetReason::ExplicitReset },
                    None,
                    r,
                ) && o == succeeded(r)
        } else if changed {
            n == mid && o == succeeded(Ok(Seq::empty()))
        } else {
            n == mid && o == quiet(ImeStatus::NoOp, EventHandling::Consumed)
        }
    }
}

/// A logical input.
pub open spec fn logical_spec(engine: ImeEngine, s: SessionView, n: SessionView, l: LogicalInputView, o: Result<Outcome, ImeError>) -> bool {
    match l {
        LogicalInputView::InsertText(t) => insert_spec(engine, s, n, t, o),
        LogicalInputView::Backspace { count } => backspace_spec(engine, s, n, count, o),
        LogicalInputView::DeleteForward { count } => delete_spec(engine, s, n, count, o),
        LogicalInputView::MoveCompositionCursor { grapheme_delta } => move_spec(engine, s, n, grapheme_delta, o),
        LogicalInputView::Commit => commit_spec(engine, s, n, o),
        LogicalInputView::Cancel => cancel_spec(engine, s, n, o),
    }
}

/// A hardware key: interpreted when the host forwards hardware keys, otherwise left to the
/// host.
pub open spec fn hardware_spec(engine: ImeEngine, s: SessionView, n: SessionView, e: HardwareKeyEvent, o: Result<Outcome, ImeError>) -> bool {
    if !engine.configuration().capabilities.hardware_key_support {
        passed(s, n, o)
    } else {
        match normalized_spec(e, s.phase != SessionPhase::Idle) {
            None => passed(s, n, o),
            Some(l) => logical_spec(engine, s, n, l, o),
        }
    }
}

impl ImeSession {
    fn commit_text(&mut self, text: String, commit_kind: CommitKind) -> (r: Result<ProcessOutcome, ImeError>)
        requires
            old(self).wf(),
        ensures
            final(self).wf(),
            final(self).engine() == old(self).engine(),
            commit_text_spec(old(self).engine(), old(self)@, final(self)@, text@, commit_kind, outcome_view(r)),
    {
        let ghost s0 = self@;
        self.supersede_pending_composition_updates();
        self.ensure_action_capacity()?;
        if self.state_revision.0 == u64::MAX {
            return Err(ImeError::CounterExhausted("state_revision"));
        }
        let composer = self.composer.recovery_snapshot();
        self.composer.clear();
        self.clear_candidates();
        self.phase = SessionPhase::Idle;
        let _ = self.bump_revision();
        let recovery = CommitRecovery {
            composer,
            post_commit_revision: self.state_revision,
            context_epoch: self.context.context_epoch(),
            input_sequence: self.input_sequence,
        };
        let ghost mid = self@;
        let ghost rv = recovery@;
        proof {
            let s1 = superseded_updates(s0, self.config().limits.max_resolved_action_history as nat);
            assert(mid.composer.text =~= Seq::<char>::empty());
            assert(mid == cleared(s1, (s0.revision + 1) as u64));
        }
        let kind = ImeActionKind::CommitText { text_utf8: text, commit_kind };
        let ghost kv = kind@;
        let allocated = self.allocate_action(kind, Some(recovery));
        let ghost a = single_view(allocated);
        proof {
            assert(issued_one(mid, self@, self.config(), kv, Some(rv), a));
        }
        match allocated {
            Ok(action) => {
                let mut actions: Vec<ImeAction> = Vec::new();
                actions.push(action);
                let r = ProcessOutcome::ok(actions);
                assert(action_views(actions@) =~= seq![action@]);
                assert(outcome_view(Ok(r)) == succeeded(a));
                Ok(r)
            },
            Err(e) => Err(e),
        }
    }
}

impl ImeSession {
    fn commit(&mut self) -> (r: Result<ProcessOutcome, ImeError>)
        requires
            old(self).wf(),
        ensures
            final(self).wf(),
            final(self).engine() == old(self).engine(),
            commit_spec(old(self).engine(), old(self)@, final(self)@, outcome_view(r)),
    {
        if self.phase == SessionPhase::Idle {
            return Ok(ProcessOutcome::no_op());
        }
        let text = self.composer.text().to_owned();
        self.commit_text(text, CommitKind::DirectInput)
    }

    fn cancel(&mut self) -> (r: Result<ProcessOutcome, ImeError>)
        requires
            old(self).wf(),
        ensures
            final(self).wf(),
            final(self).engine() == old(self).engine(),
            cancel_spec(old(self).engine(), old(self)@, final(self)@, outcome_view(r)),
    {
        if self.phase == SessionPhase::Idle {
            return Ok(ProcessOutcome::no_op());
        }
        let host_may_have_composition = self.platform_composition_active
            || self.has_pending_composition_update();
        self.supersede_pending_composition_updates();
        if host_may_have_composition {
            self.ensure_action_capacity()?;
        }
        if self.state_revision.0 == u64::MAX {
            return Err(ImeError::CounterExhausted("state_revision"));
        }
        let ghost s1 = self@;
        self.composer.clear();
        self.clear_candidates();
        self.phase = SessionPhase::Idle;
        let _ = self.bump_revision();
        let ghost mid = self@;
        proof {
            assert(mid.composer.text =~= Seq::<char>::empty());
            assert(mid == cleared(s1, (old(self)@.revision + 1) as u64));
        }
        if self.supports_marked_text() && host_may_have_composition {
            let allocated = self.allocate_action(ImeActionKind::CancelComposition, None);
            let ghost a = single_view(allocated);
            proof {
                assert(issued_one(mid, self@, self.config(), ActionKindView::CancelComposition, None, a));
            }
            match allocated {
                Ok(action) => {
                    let mut actions: Vec<ImeAction> = Vec::new();
                    actions.push(action);
                    let r = ProcessOutcome::ok(actions);
                    assert(action_views(actions@) =~= seq![action@]);
                    assert(outcome_view(Ok(r)) == succeeded(a));
                    Ok(r)
                },
                Err(e) => Err(e),
            }
        } else {
            let r = ProcessOutcome::ok(Vec::new());
            assert(r@.actions =~= Seq::<ActionView>::empty());
            Ok(r)
        }
    }

    fn select_candidate(&mut self, candidate_id: CandidateId, state_revision: StateRevision) -> (r:
        Result<ProcessOutcome, ImeError>)
        requires
            old(self).wf(),
        ensures
            final(self).wf(),
            final(self).engine() == old(self).engine(),
            select_spec(old(self).engine(), old(self)@, final(self)@, candidate_id, state_revision, outcome_view(r)),
    {
        if state_revision.0 != self.state_revision.0 {
            return Err(ImeError::StaleRevision { expected: self.state_revision, actual: state_revision });
        }
        if self.phase != SessionPhase::CandidateSelecting {
            return Ok(ProcessOutcome::unsupported());
        }
        if !self.candidate_snapshot.is_bound_to(self.session_id, self.state_revision) {
            return Err(
                ImeError::StaleRevision {
                    expected: self.state_revision,
                    actual: self.candidate_snapshot.revision(),
                },
            );
        }
        let text = match self.candidate_snapshot.candidate_text(candidate_id) {
            Some(t) => t.to_owned(),
            None => {
                return Err(ImeError::UnknownCandidate(candidate_id));
            },
        };
        self.commit_text(text, CommitKind::Candidate)
    }

    fn move_candidate_selection(&mut self, delta: i32) -> (r: Result<ProcessOutcome, ImeError>)
        requires
            old(self).wf(),
        ensures
            final(self).wf(),
            final(self).engine() == old(self).engine(),
            move_selection_spec(old(self)@, final(self)@, delta, outcome_view(r)),
    {
        if self.phase != SessionPhase::CandidateSelecting {
            return Ok(ProcessOutcome::unsupported());
        }
        if !self.candidate_snapshot.selection_moves(delta) {
            return Ok(ProcessOutcome::no_op());
        }
        if self.state_revision.0 == u64::MAX {
            return Err(ImeError::CounterExhausted("state_revision"));
        }
        if !self.candidate_snapshot.move_selection(delta) {
            return Ok(ProcessOutcome::no_op());
        }
        let _ = self.bump_revision();
        let r = ProcessOutcome::ok(Vec::new());
        assert(r@.actions =~= Seq::<ActionView>::empty());
        Ok(r)
    }
}

impl ImeSession {
    fn process_context_changed(&mut self, context: ContextSnapshot) -> (r: Result<ProcessOutcome, ImeError>)
        requires
            old(self).wf(),
        ensures
            final(self).wf(),
            final(self).engine() == old(self).engine(),
            context_spec(old(self).engine(), old(self)@, final(self)@, context@, outcome_view(r)),
    {
        let ghost c0 = context@;
        let sanitized = context.sanitized(&self.engine.config().limits, self.engine.config().capabilities);
        let context = match sanitized {
            Ok(c) => c,
            Err(e) => {
                return Err(e);
            },
        };
        if context.same_content(&self.context) {
            return Ok(ProcessOutcome::no_op());
        }
        if self.state_revision.0 == u64::MAX {
            return Err(ImeError::CounterExhausted("state_revision"));
        }
        self.context = context;
        self.reconciliation_required = false;
        let _ = self.bump_revision();
        let r = ProcessOutcome::ok(Vec::new());
        assert(r@.actions =~= Seq::<ActionView>::empty());
        Ok(r)
    }

    fn process_reset(&mut self) -> (r: Result<ProcessOutcome, ImeError>)
        requires
            old(self).wf(),
        ensures
            final(self).wf(),
            final(self).engine() == old(self).engine(),
            reset_spec(old(self).engine(), old(self)@, final(self)@, outcome_view(r)),
    {
        let host_may_have_composition = self.platform_composition_active
            || self.has_pending_composition_update();
        let default_context = ContextSnapshot::default();
        let state_changed = self.phase != SessionPhase::Idle || !self.composer.is_empty()
            || !self.context.same_content(&default_context) || self.reconciliation_required;
        if state_changed && self.state_revision.0 == u64::MAX {
            return Err(ImeError::CounterExhausted("state_revision"));
        }
        let ghost s0 = self@;
        self.supersede_all_pending();
        let ghost s1 = self@;
        self.composer.clear();
        self.clear_candidates();
        self.phase = SessionPhase::Idle;
        self.context = default_context;
        self.reconciliation_required = false;
        proof {
            assert(self@.composer.text =~= Seq::<char>::empty());
            assert(self@ == (SessionView {
                context: default_context_view(),
                reconciliation_required: false,
                ..cleared(s1, s0.revision)
            }));
        }
        if state_changed {
            let _ = self.bump_revision();
        }
        let ghost mid = self@;
        if host_may_have_composition {
            let allocated = self.allocate_action(
                ImeActionKind::RequestPlatformReset { reason: PlatformResetReason::ExplicitReset },
                None,
            );
            let ghost a = single_view(allocated);
            proof {
                assert(issued_one(
                    mid,
                    self@,
                    self.config(),
                    ActionKindView::RequestPlatformReset { reason: PlatformResetReason::ExplicitReset },
                    None,
                    a,
                ));
            }
            match allocated {
                Ok(action) => {
                    let mut actions: Vec<ImeAction> = Vec::new();
                    actions.push(action);
                    let r = ProcessOutcome::ok(actions);
                    assert(action_views(actions@) =~= seq![action@]);
                    assert(outcome_view(Ok(r)) == succeeded(a));
                    Ok(r)
                },
                Err(e) => Err(e),
            }
        } else if state_changed {
            let r = ProcessOutcome::ok(Vec::new());
            assert(r@.actions =~= Seq::<ActionView>::empty());
            Ok(r)
        } else {
            Ok(ProcessOutcome::no_op())
        }
    }

    fn process_logical(&mut self, input: LogicalInput) -> (r: Result<ProcessOutcome, ImeError>)
        requires
            old(self).wf(),
        ensures
            final(self).wf(),
            final(self).engine() == old(self).engine(),
            logical_spec(old(self).engine(), old(self)@, final(self)@, input@, outcome_view(r)),
    {
        match input {
            LogicalInput::InsertText(text) => self.insert_text(text),
            LogicalInput::Backspace { count } => self.backspace(count),
            LogicalInput::DeleteForward { count } => self.delete_forward(count),
            LogicalInput::MoveCompositionCursor { grapheme_delta } => self.move_composition_cursor(
                grapheme_delta,
            ),
            LogicalInput::Commit => self.commit(),
            LogicalInput::Cancel => self.cancel(),
        }
    }

    fn process_hardware_key(&mut self, event: HardwareKeyEvent) -> (r: Result<ProcessOutcome, ImeError>)
        requires
            old(self).wf(),
        ensures
            final(self).wf(),
            final(self).engine() == old(self).engine(),
            hardware_spec(old(self).engine(), old(self)@, final(self)@, event, outcome_view(r)),
    {
        if !self.engine.config().capabilities.hardware_key_support {
            return Ok(ProcessOutcome::pass_through());
        }
        match InputNormalizer.normalize(event, self.phase != SessionPhase::Idle) {
            NormalizedHardwareEvent::Logical(logical) => self.process_logical(logical),
            NormalizedHardwareEvent::PassThrough => Ok(ProcessOutcome::pass_through()),
        }
    }
}

/// What an event does to a Session once it is counted: the Session after counting it is
/// `s`, afterwards `n`, and `o` is what the event reported.
pub open spec fn event_spec(engine: ImeEngine, s: SessionView, n: SessionView, event: InputEvent, o: Result<Outcome, ImeError>) -> bool {
    match event {
        InputEvent::InsertText(t) => insert_spec(engine, s, n, t@, o),
        InputEvent::Backspace => backspace_spec(engine, s, n, 1, o),
        InputEvent::DeleteForward => delete_spec(engine, s, n, 1, o),
        InputEvent::MoveCompositionCursor { grapheme_delta } => move_spec(engine, s, n, grapheme_delta, o),
        InputEvent::HardwareKey(e) => hardware_spec(engine, s, n, e, o),
        InputEvent::Commit => commit_spec(engine, s, n, o),
        InputEvent::Cancel => cancel_spec(engine, s, n, o),
        InputEvent::SelectCandidate { candidate_id, state_revision } => select_spec(engine, s, n, candidate_id, state_revision, o),
        InputEvent::MoveCandidateSelection { delta } => move_selection_spec(s, n, delta, o),
        InputEvent::ContextChanged(c) => context_spec(engine, s, n, c@, o),
        InputEvent::Reset => reset_spec(engine, s, n, o),
        _ => unsupported(s, n, o),
    }
}

/// The Session once an event is counted: every pending commit recovery is dropped, since
/// the composition it would restore is no longer the latest input.
pub open spec fn counted(v: SessionView) -> SessionView {
    SessionView {
        input_sequence: (v.input_sequence + 1) as u64,
        pending: without_recoveries(v.pending),
        ..v
    }
}

/// The outcome a result reports.
pub open spec fn outcome_of(r: Result<ImeResult, ImeError>) -> Result<Outcome, ImeError> {
    match r {
        Ok(res) => Ok(Outcome { status: res.status, handling: res.event_handling, actions: action_views(res.actions@) }),
        Err(e) => Err(e),
    }
}

/// A result describes the Session `n` it leaves behind.
pub open spec fn result_describes(res: ImeResult, n: SessionView) -> bool {
    &&& res.session_id.0 == n.session_id
    &&& res.state_revision.0 == n.revision
    &&& res.resource_generation.0 == 0
    &&& state_matches(res.state, n)
    &&& res.degraded_components@ == n.degraded
    &&& res.result_flags@.len() == 0
}

impl ImeSession {
    fn copy_degraded(&self) -> (r: Vec<DegradedComponent>)
        ensures
            r@ == self@.degraded,
    {
        let mut out: Vec<DegradedComponent> = Vec::new();
        let mut i: usize = 0;
        while i < self.degraded_components.len()
            invariant
                i <= self.degraded_components@.len(),
                out@ == self.degraded_components@.take(i as int),
            decreases self.degraded_components@.len() - i,
        {
            out.push(self.degraded_components[i]);
            i = i + 1;
            assert(out@ =~= self.degraded_components@.take(i as int));
        }
        assert(out@ =~= self.degraded_components@);
        out
    }

    fn result(&self, outcome: ProcessOutcome) -> (r: ImeResult)
        requires
            self.wf(),
        ensures
            result_describes(r, self@),
            outcome_of(Ok(r)) == Ok::<Outcome, ImeError>(outcome@),
    {
        ImeResult {
            status: outcome.status,
            event_handling: outcome.event_handling,
            session_id: self.session_id,
            state_revision: self.state_revision,
            resource_generation: self.engine.resource_generation(),
            state: self.snapshot(),
            actions: outcome.actions,
            degraded_components: self.copy_degraded(),
            result_flags: Vec::new(),
        }
    }

    /// Processes one portable input event synchronously.
    ///
    /// The event is counted first (failing only when the event counter is used up), which
    /// drops every pending commit recovery; the event then acts as [`event_spec`] says. The
    /// Session stays consistent whatever happens, and a result describes the Session it
    /// leaves behind.
    pub fn process_event(&mut self, event: InputEvent) -> (r: Result<ImeResult, ImeError>)
        requires
            old(self).wf(),
        ensures
            final(self).wf(),
            final(self).engine() == old(self).engine(),
            old(self)@.input_sequence == u64::MAX ==> (r == Err::<ImeResult, ImeError>(
                ImeError::CounterExhausted("input_sequence"),
            ) && final(self)@ == old(self)@),
            old(self)@.input_sequence < u64::MAX ==> event_spec(
                old(self).engine(),
                counted(old(self)@),
                final(self)@,
                event,
                outcome_of(r),
            ),
            r matches Ok(res) ==> result_describes(res, final(self)@),
    {
        self.bump_input_sequence()?;
        self.invalidate_commit_recoveries();
        let outcome = match event {
            InputEvent::InsertText(text) => self.insert_text(text),
            InputEvent::Backspace => self.backspace(1),
            InputEvent::DeleteForward => self.delete_forward(1),
            InputEvent::MoveCompositionCursor { grapheme_delta } => self.move_composition_cursor(
                grapheme_delta,
            ),
            InputEvent::HardwareKey(e) => self.process_hardware_key(e),
            InputEvent::Commit => self.commit(),
            InputEvent::Cancel => self.cancel(),
            InputEvent::SelectCandidate { candidate_id, state_revision } => self.select_candidate(
                candidate_id,
                state_revision,
            ),
            InputEvent::MoveCandidateSelection { delta } => self.move_candidate_selection(delta),
            InputEvent::ContextChanged(context) => self.process_context_changed(context),
            InputEvent::Reset => self.process_reset(),
            _ => Ok(ProcessOutcome::unsupported()),
        };
        match outcome {
            Ok(o) => Ok(self.result(o)),
            Err(e) => Err(e),
        }
    }
}

/// The position of pending action `id`.
pub open spec fn pending_index(s: SessionView, id: u64) -> int {
    choose|i: int| 0 <= i < s.pending.len() && #[trigger] s.pending[i].action_id == id
}

/// The Session with `d` recorded for action `id`.
pub open spec fn recorded(v: SessionView, id: u64, d: ActionDisposition, config: EngineConfig) -> SessionView {
    SessionView {
        resolved: record(v.resolved, id, d, config.limits.max_resolved_action_history as nat),
        ..v
    }
}

/// The host failed to apply an action.
pub open spec fn is_failure(d: ActionDisposition) -> bool {
    d == ActionDisposition::Rejected || d == ActionDisposition::Unavailable || d
        == ActionDisposition::Failed
}

/// Acknowledging action `id` with `d`.
///
/// A pending action is resolved: its disposition is recorded and what the host displays is
/// tracked. A commit the host failed to apply restores its composition when nothing
/// happened since it was issued; otherwise the host and the Session must reconcile. An
/// already resolved action reports its recorded disposition and changes nothing; any
/// other identifier is unknown.
pub open spec fn ack_spec(
    engine: ImeEngine,
    s: SessionView,
    n: SessionView,
    id: ActionId,
    d: ActionDisposition,
    r: Result<AckOutcome, ImeError>,
) -> bool {
    let config = engine.configuration();
    if s.is_pending(id.0) {
        let i = pending_index(s, id.0);
        let p = s.pending[i];
        let s1 = platform_update(SessionView { pending: s.pending.remove(i), ..s }, p.kind, d);
        let ok = r == Ok::<AckOutcome, ImeError>(AckOutcome::Recorded { action_id: id, disposition: d });
        if !(p.kind is CommitText) || !is_failure(d) {
            ok && n == recorded(s1, id.0, d, config)
        } else {
            match p.recovery {
                Some(rc) => if can_restore(s1, rc) {
                    if s1.revision == u64::MAX {
                        r == Err::<AckOutcome, ImeError>(ImeError::CounterExhausted("state_revision")) && n == s1
                    } else {
                        let mid = SessionView {
                            composer: rc.composer,
                            revision: (s1.revision + 1) as u64,
                            phase: n.phase,
                            candidates: n.candidates,
                            degraded: n.degraded,
                            ..s1
                        };
                        ok && candidates_regenerated(engine, mid) && n == recorded(mid, id.0, d, config)
                    }
                } else {
                    ok && n == recorded(SessionView { reconciliation_required: true, ..s1 }, id.0, d, config)
                },
                None => ok && n == recorded(SessionView { reconciliation_required: true, ..s1 }, id.0, d, config),
            }
        }
    } else {
        n == s && match s.resolution(id.0) {
            Some(e) => r == Ok::<AckOutcome, ImeError>(AckOutcome::AlreadyResolved { action_id: id, disposition: e }),
            None => r == Err::<AckOutcome, ImeError>(ImeError::UnknownAction(id)),
        }
    }
}

impl ImeSession {
    /// Finds pending action `id`.
    fn find_pending(&self, id: u64) -> (r: Option<usize>)
        requires
            self.wf(),
        ensures
            r is Some <==> self@.is_pending(id),
            r matches Some(k) ==> k == pending_index(self@, id),
    {
        let ghost p = self@.pending;
        let mut k: usize = 0;
        while k < self.pending_actions.len()
            invariant
                k <= self.pending_actions@.len(),
                p == self@.pending,
                strictly_increasing(pending_ids(p)),
                forall|j: int| 0 <= j < k ==> (#[trigger] p[j]).action_id != id,
            decreases self.pending_actions@.len() - k,
        {
            if self.pending_actions[k].action.action_id.0 == id {
                proof {
                    assert(p[k as int].action_id == id);
                    let c = pending_index(self@, id);
                    assert(c == k) by {
                        if c != k {
                            assert(pending_ids(p)[c] != pending_ids(p)[k as int]) by {
                                if c < k {
                                    assert(pending_ids(p)[c] < pending_ids(p)[k as int]);
                                } else {
                                    assert(pending_ids(p)[k as int] < pending_ids(p)[c]);
                                }
                            }
                        }
                    }
                }
                return Some(k);
            }
            k = k + 1;
        }
        None
    }

    /// Finds the recorded disposition of action `id`.
    fn find_resolution(&self, id: u64) -> (r: Option<ActionDisposition>)
        ensures
            r == self@.resolution(id),
    {
        let ghost rs = self@.resolved;
        assert(rs.skip(0) =~= rs);
        let mut k: usize = 0;
        while k < self.resolved_actions.len()
            invariant
                k <= self.resolved_actions@.len(),
                rs == self@.resolved,
                resolution_in(rs, id) == resolution_in(rs.skip(k as int), id),
            decreases self.resolved_actions@.len() - k,
        {
            let ghost t = rs.skip(k as int);
            assert(t[0] == rs[k as int]);
            assert(t.drop_first() =~= rs.skip(k + 1));
            if self.resolved_actions[k].action_id == id {
                return Some(self.resolved_actions[k].disposition);
            }
            k = k + 1;
        }
        None
    }

    /// Records a weak platform acknowledgement.
    ///
    /// A failed commit may advance the state revision when its composition is safely
    /// restored.
    pub fn acknowledge_action(&mut self, action_id: ActionId, disposition: ActionDisposition) -> (r:
        Result<AckOutcome, ImeError>)
        requires
            old(self).wf(),
        ensures
            final(self).wf(),
            final(self).engine() == old(self).engine(),
            ack_spec(old(self).engine(), old(self)@, final(self)@, action_id, disposition, r),
    {
        match self.find_pending(action_id.0) {
            Some(k) => {
                let ghost s0 = self@;
                let pending = self.pending_actions.remove(k);
                proof {
                    assert(self@.pending =~= s0.pending.remove(k as int));
                    let p1 = self@.pending;
                    assert forall|a: int, b: int| 0 <= a < b < p1.len() implies pending_ids(p1)[a]
                        < pending_ids(p1)[b] by {
                        let a0 = if a < k { a } else { a + 1 };
                        let b0 = if b < k { b } else { b + 1 };
                        assert(p1[a] == s0.pending[a0] && p1[b] == s0.pending[b0]);
                        assert(pending_ids(s0.pending)[a0] < pending_ids(s0.pending)[b0]);
                    }
                    assert forall|a: int| 0 <= a < p1.len() implies (#[trigger] p1[a]).action_id
                        < self@.next_action_id && (p1[a].recovery matches Some(c) ==> c.composer.wf()) by {
                        let a0 = if a < k { a } else { a + 1 };
                        assert(p1[a] == s0.pending[a0]);
                    }
                    assert(pending@ == s0.pending[k as int]);
                }
                self.update_platform_composition_state(&pending.action.kind, disposition);
                let ghost s1 = self@;
                let is_commit = pending.action.kind.is_commit();
                let failure = disposition == ActionDisposition::Rejected || disposition
                    == ActionDisposition::Unavailable || disposition == ActionDisposition::Failed;
                if is_commit && failure {
                    let restore = match &pending.recovery {
                        Some(recovery) => self.can_restore_commit(recovery),
                        None => false,
                    };
                    if restore {
                        if self.state_revision.0 == u64::MAX {
                            return Err(ImeError::CounterExhausted("state_revision"));
                        }
                        let _ = self.bump_revision();
                        match pending.recovery {
                            Some(recovery) => {
                                self.composer.restore(recovery.composer);
                            },
                            None => {},
                        }
                        self.regenerate_candidates();
                    } else {
                        self.reconciliation_required = true;
                    }
                }
                self.record_resolved(action_id.0, disposition);
                Ok(AckOutcome::Recorded { action_id, disposition })
            },
            None => {
                match self.find_resolution(action_id.0) {
                    Some(existing) => Ok(AckOutcome::AlreadyResolved { action_id, disposition: existing }),
                    None => Err(ImeError::UnknownAction(action_id)),
                }
            },
        }
    }
}

} // verus!
