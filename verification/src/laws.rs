//! Properties of the Session and the candidate pipeline that span several calls.
use vstd::prelude::*;

use crate::cli::{command_for, strip_prefix, trim_line_end, CommandView};
use crate::candidate::{
    group_of, has_identity, is_deduplication, is_pipeline_output, lemma_group_nonempty, merge_all,
    CandidateEngine, MatchKind, ProposalView,
};
use crate::dictionary::{
    bounded, code_matches, entry_le, entry_order, lemma_entry_le_total_ordering, lookup_result,
    EntryView,
};
use crate::order::{lemma_text_le_reflexive, text_le};
use vstd::relations::sorted_by;
use crate::engine::ImeEngine;
use crate::error::ImeError;
use crate::input::{
    normalized_spec, HardwareKeyEvent, InputEvent, KeyPhase, LogicalInputView, LogicalKey,
};
use crate::order::{lemma_text_le_antisymmetric, text_lt};
use crate::ranking::{lemma_rank_le_total_ordering, rank_le, rank_order, score_of};
use crate::session::{
    ack_spec, can_restore, counted, move_spec, is_failure, state_matches, lemma_without_updates_len, event_spec, insert_resolution, pending_ids, pending_index,
    resolution_in, without_updates, Outcome, PendingView, SessionView,
};
use crate::state::{AckOutcome, ActionDisposition, ImeState, ImeStatus, SessionPhase};
use crate::text::{byte_len, lemma_byte_len_empty};
use crate::types::{
    context_budget, default_context_view, sanitized_view, ActionId, CandidateId, ContextView,
    CoreLimits, InputScope, PlatformCapabilities, StateRevision,
};

verus! {

/// Every event leaves the revision where it was or moves it to the next one.
pub proof fn law_revision_advances_by_at_most_one(
    engine: ImeEngine,
    s: SessionView,
    n: SessionView,
    event: InputEvent,
    o: Result<Outcome, ImeError>,
)
    requires
        event_spec(engine, s, n, event, o),
    ensures
        n.revision == s.revision || n.revision == s.revision + 1,
{
}

/// An event that reports no change (a no-op, an unsupported event, or one left to the
/// host) keeps the revision and the composition, and issues no action.
pub proof fn law_quiet_events_keep_state(
    engine: ImeEngine,
    s: SessionView,
    n: SessionView,
    event: InputEvent,
    out: Outcome,
)
    requires
        event_spec(engine, s, n, event, Ok(out)),
        out.status != ImeStatus::Success,
    ensures
        n.revision == s.revision,
        n.composer.text == s.composer.text,
        out.actions.len() == 0,
{
}

/// Actions carry fresh, increasing identifiers: an event issues at most one action, whose
/// identifier is the Session's next one, and the next identifier moves past it. The action
/// belongs to the Session and to the revision the event leaves behind.
pub proof fn law_actions_get_fresh_identifiers(
    engine: ImeEngine,
    s: SessionView,
    n: SessionView,
    event: InputEvent,
    out: Outcome,
)
    requires
        event_spec(engine, s, n, event, Ok(out)),
    ensures
        out.actions.len() <= 1,
        n.next_action_id == s.next_action_id + out.actions.len(),
        forall|i: int|
            0 <= i < out.actions.len() ==> {
                &&& (#[trigger] out.actions[i]).action_id == s.next_action_id + i
                &&& out.actions[i].session_id == s.session_id
                &&& out.actions[i].originating_revision == n.revision
            },
{
}

/// Every action kept by [`without_updates`] was pending before.
proof fn lemma_without_updates_from(p: Seq<PendingView>)
    ensures
        forall|i: int|
            0 <= i < without_updates(p).len() ==> exists|j: int|
                0 <= j < p.len() && #[trigger] without_updates(p)[i] == p[j],
    decreases p.len(),
{
    if p.len() > 0 {
        let q = p.drop_last();
        lemma_without_updates_from(q);
        assert forall|i: int| 0 <= i < without_updates(p).len() implies exists|j: int|
            0 <= j < p.len() && #[trigger] without_updates(p)[i] == p[j] by {
            if i < without_updates(q).len() {
                let j = choose|j: int| 0 <= j < q.len() && #[trigger] without_updates(q)[i] == q[j];
                assert(without_updates(p)[i] == p[j]);
            } else {
                assert(without_updates(p)[i] == p[p.len() - 1]);
            }
        }
    }
}

/// Once a later event is processed, no earlier action can restore a composition any more:
/// an earlier commit that the host then fails to apply leads to reconciliation instead of
/// overwriting newer input.
pub proof fn law_events_retire_earlier_recoveries(
    engine: ImeEngine,
    s: SessionView,
    n: SessionView,
    event: InputEvent,
    o: Result<Outcome, ImeError>,
)
    requires
        event_spec(engine, counted(s), n, event, o),
    ensures
        forall|i: int|
            0 <= i < n.pending.len() && (#[trigger] n.pending[i]).action_id < s.next_action_id
                ==> n.pending[i].recovery is None,
{
    let c = counted(s);
    lemma_without_updates_from(c.pending);
    assert forall|i: int|
        0 <= i < n.pending.len() && (#[trigger] n.pending[i]).action_id < s.next_action_id
            implies n.pending[i].recovery is None by {
        assert forall|j: int| 0 <= j < c.pending.len() implies (#[trigger] c.pending[j]).recovery is None by {}
        assert forall|k: int| 0 <= k < without_updates(c.pending).len() implies (#[trigger] without_updates(c.pending)[k]).recovery is None by {
            let j = choose|j: int| 0 <= j < c.pending.len() && #[trigger] without_updates(c.pending)[k] == c.pending[j];
        }
    }
}

/// `id` finds the disposition just inserted for it, and the history grows by at most one.
proof fn lemma_insert_resolution_finds(r: Seq<(u64, ActionDisposition)>, id: u64, d: ActionDisposition)
    ensures
        resolution_in(insert_resolution(r, id, d), id) == Some(d),
        insert_resolution(r, id, d).len() <= r.len() + 1,
    decreases r.len(),
{
    if r.len() > 0 && r[0].0 < id {
        lemma_insert_resolution_finds(r.drop_first(), id, d);
        let t = seq![r[0]] + insert_resolution(r.drop_first(), id, d);
        assert(t.drop_first() =~= insert_resolution(r.drop_first(), id, d));
    }
}

/// Acknowledging an action twice changes nothing the second time: the repeated
/// acknowledgement reports the disposition first recorded, whatever it says, as long as the
/// history had room for the first one.
pub proof fn law_acknowledgement_is_idempotent(
    engine: ImeEngine,
    s: SessionView,
    n: SessionView,
    n2: SessionView,
    id: ActionId,
    d: ActionDisposition,
    d2: ActionDisposition,
    r2: Result<AckOutcome, ImeError>,
)
    requires
        s.wf(engine.configuration()),
        s.resolved.len() < engine.configuration().limits.max_resolved_action_history,
        ack_spec(engine, s, n, id, d, Ok(AckOutcome::Recorded { action_id: id, disposition: d })),
        ack_spec(engine, n, n2, id, d2, r2),
    ensures
        n2 == n,
        r2 == Ok::<AckOutcome, ImeError>(AckOutcome::AlreadyResolved { action_id: id, disposition: d }),
{
    let config = engine.configuration();
    if s.is_pending(id.0) {
        let i = pending_index(s, id.0);
        lemma_insert_resolution_finds(s.resolved, id.0, d);
        assert(n.pending =~= s.pending.remove(i));
        assert(!n.is_pending(id.0)) by {
            if n.is_pending(id.0) {
                let j = choose|j: int| 0 <= j < n.pending.len() && #[trigger] n.pending[j].action_id == id.0;
                let j0 = if j < i { j } else { j + 1 };
                assert(n.pending[j] == s.pending[j0]);
                assert(pending_ids(s.pending)[j0] != pending_ids(s.pending)[i]) by {
                    if j0 < i {
                        assert(pending_ids(s.pending)[j0] < pending_ids(s.pending)[i]);
                    } else {
                        assert(pending_ids(s.pending)[i] < pending_ids(s.pending)[j0]);
                    }
                }
            }
        }
        assert(n.resolved == insert_resolution(s.resolved, id.0, d));
    }
}

/// A reset leaves nothing composed, no candidates, the default context, and at most the
/// host reset request pending.
pub proof fn law_reset_clears_session(
    engine: ImeEngine,
    s: SessionView,
    n: SessionView,
    out: Outcome,
)
    requires
        event_spec(engine, s, n, InputEvent::Reset, Ok(out)),
    ensures
        n.phase == SessionPhase::Idle,
        n.composer.text.len() == 0,
        n.candidates.proposals.len() == 0,
        n.context == default_context_view(),
        !n.reconciliation_required,
        n.pending.len() <= 1,
        forall|i: int| 0 <= i < n.pending.len() ==> (#[trigger] n.pending[i]).kind is RequestPlatformReset,
{
}

/// A candidate selection made for another revision is refused and changes nothing.
pub proof fn law_stale_selection_is_refused(
    engine: ImeEngine,
    s: SessionView,
    n: SessionView,
    candidate_id: CandidateId,
    revision: StateRevision,
    o: Result<Outcome, ImeError>,
)
    requires
        event_spec(engine, s, n, InputEvent::SelectCandidate { candidate_id, state_revision: revision }, o),
        revision.0 != s.revision,
    ensures
        n == s,
        o == Err::<Outcome, ImeError>(ImeError::StaleRevision { expected: StateRevision(s.revision), actual: revision }),
{
}

/// A commit the host failed to apply, acknowledged before anything else happened, brings
/// back the composition and cursor it committed, at the next revision.
pub proof fn law_failed_commit_restores_composition(
    engine: ImeEngine,
    s: SessionView,
    n: SessionView,
    id: ActionId,
    d: ActionDisposition,
    r: Result<AckOutcome, ImeError>,
)
    requires
        s.wf(engine.configuration()),
        ack_spec(engine, s, n, id, d, r),
        s.is_pending(id.0),
        s.pending[pending_index(s, id.0)].kind is CommitText,
        s.pending[pending_index(s, id.0)].recovery matches Some(rc) && can_restore(s, rc),
        d == ActionDisposition::Failed || d == ActionDisposition::Rejected || d
            == ActionDisposition::Unavailable,
        s.revision < u64::MAX,
    ensures
        r == Ok::<AckOutcome, ImeError>(AckOutcome::Recorded { action_id: id, disposition: d }),
        n.composer == s.pending[pending_index(s, id.0)].recovery->0.composer,
        n.revision == s.revision + 1,
        !n.reconciliation_required,
{
}

proof fn lemma_text_lt_asymmetric(a: Seq<char>, b: Seq<char>)
    requires
        text_lt(a, b),
    ensures
        !text_lt(b, a),
{
    if text_lt(b, a) {
        lemma_text_le_antisymmetric(a, b);
    }
}

/// Two identity-sorted sequences with the same identities hold them at the same places.
proof fn lemma_sorted_same_identities(a: Seq<(Seq<char>, ProposalView)>, b: Seq<(Seq<char>, ProposalView)>)
    requires
        forall|i: int, j: int| 0 <= i < j < a.len() ==> text_lt(a[i].0, a[j].0),
        forall|i: int, j: int| 0 <= i < j < b.len() ==> text_lt(b[i].0, b[j].0),
        forall|x: Seq<char>| #![trigger has_identity(a, x)] #![trigger has_identity(b, x)]
            has_identity(a, x) <==> has_identity(b, x),
    ensures
        a.len() == b.len(),
        forall|k: int| 0 <= k < a.len() ==> (#[trigger] a[k]).0 == b[k].0,
    decreases a.len(),
{
    if a.len() == 0 {
        if b.len() > 0 {
            assert(has_identity(b, b[0].0));
        }
    } else if b.len() == 0 {
        assert(has_identity(a, a[0].0));
    } else {
        assert(a[0].0 == b[0].0) by {
            if a[0].0 != b[0].0 {
                assert(has_identity(a, a[0].0));
                assert(has_identity(b, a[0].0));
                let j = choose|j: int| 0 <= j < b.len() && #[trigger] b[j].0 == a[0].0;
                assert(has_identity(b, b[0].0));
                assert(has_identity(a, b[0].0));
                let i = choose|i: int| 0 <= i < a.len() && #[trigger] a[i].0 == b[0].0;
                assert(j != 0 && i != 0);
                assert(text_lt(b[0].0, b[j].0));
                assert(text_lt(a[0].0, a[i].0));
                lemma_text_lt_asymmetric(b[0].0, a[0].0);
            }
        }
        let a1 = a.drop_first();
        let b1 = b.drop_first();
        assert forall|x: Seq<char>| #![trigger has_identity(a1, x)] #![trigger has_identity(b1, x)]
            has_identity(a1, x) <==> has_identity(b1, x) by {
            if has_identity(a1, x) {
                let i = choose|i: int| 0 <= i < a1.len() && #[trigger] a1[i].0 == x;
                assert(a1[i] == a[i + 1]);
                assert(text_lt(a[0].0, a[i + 1].0));
                assert(has_identity(a, x));
                assert(has_identity(b, x));
                let j = choose|j: int| 0 <= j < b.len() && #[trigger] b[j].0 == x;
                assert(j != 0);
                assert(b1[j - 1] == b[j]);
                assert(has_identity(b1, x));
            }
            if has_identity(b1, x) {
                let j = choose|j: int| 0 <= j < b1.len() && #[trigger] b1[j].0 == x;
                assert(b1[j] == b[j + 1]);
                assert(text_lt(b[0].0, b[j + 1].0));
                assert(has_identity(b, x));
                assert(has_identity(a, x));
                let i = choose|i: int| 0 <= i < a.len() && #[trigger] a[i].0 == x;
                assert(i != 0);
                assert(a1[i - 1] == a[i]);
                assert(has_identity(a1, x));
            }
        }
        assert forall|i: int, j: int| 0 <= i < j < a1.len() implies text_lt(a1[i].0, a1[j].0) by {
            assert(a1[i] == a[i + 1] && a1[j] == a[j + 1]);
        }
        assert forall|i: int, j: int| 0 <= i < j < b1.len() implies text_lt(b1[i].0, b1[j].0) by {
            assert(b1[i] == b[i + 1] && b1[j] == b[j + 1]);
        }
        lemma_sorted_same_identities(a1, b1);
        assert forall|k: int| 0 <= k < a.len() implies (#[trigger] a[k]).0 == b[k].0 by {
            if k > 0 {
                assert(a1[k - 1] == a[k] && b1[k - 1] == b[k]);
            }
        }
    }
}

/// The deduplication of a sequence of identified proposals is unique.
pub proof fn law_deduplication_is_unique(
    items: Seq<(Seq<char>, ProposalView)>,
    d1: Seq<(Seq<char>, ProposalView)>,
    d2: Seq<(Seq<char>, ProposalView)>,
)
    requires
        is_deduplication(items, d1),
        is_deduplication(items, d2),
    ensures
        d1 == d2,
{
    assert forall|x: Seq<char>| #![trigger has_identity(d1, x)] #![trigger has_identity(d2, x)]
        has_identity(d1, x) <==> has_identity(d2, x) by {
        assert(has_identity(d1, x) <==> has_identity(items, x));
        assert(has_identity(d2, x) <==> has_identity(items, x));
    }
    lemma_sorted_same_identities(d1, d2);
    assert forall|k: int| 0 <= k < d1.len() implies d1[k] == d2[k] by {
        assert(d1[k].0 == d2[k].0);
        assert(d1[k].1 == merge_all(group_of(items, d1[k].0)));
        assert(d2[k].1 == merge_all(group_of(items, d2[k].0)));
    }
    assert(d1 =~= d2);
}

/// The pipeline's output for given proposals is determined: generating candidates twice
/// for the same composition gives the same candidates.
pub proof fn law_generation_is_deterministic(
    keyed: Seq<(Seq<char>, ProposalView)>,
    k: nat,
    out1: Seq<ProposalView>,
    out2: Seq<ProposalView>,
)
    requires
        is_pipeline_output(keyed, k, out1),
        is_pipeline_output(keyed, k, out2),
    ensures
        out1 == out2,
{
    let d1 = choose|d: Seq<(Seq<char>, ProposalView)>|
        is_deduplication(keyed, d) && out1 == bounded(
            d.map_values(|x: (Seq<char>, ProposalView)| x.1).sort_by(rank_order()),
            k as int,
        );
    let d2 = choose|d: Seq<(Seq<char>, ProposalView)>|
        is_deduplication(keyed, d) && out2 == bounded(
            d.map_values(|x: (Seq<char>, ProposalView)| x.1).sort_by(rank_order()),
            k as int,
        );
    law_deduplication_is_unique(keyed, d1, d2);
}


/// Merging equivalent proposals keeps the highest frequency among them, never their sum.
pub proof fn law_merged_frequency_is_maximum(ps: Seq<ProposalView>)
    requires
        ps.len() >= 1,
    ensures
        forall|i: int| 0 <= i < ps.len() ==> (#[trigger] ps[i]).base_frequency
            <= merge_all(ps).base_frequency,
        exists|i: int|
            0 <= i < ps.len() && (#[trigger] ps[i]).base_frequency == merge_all(
                ps,
            ).base_frequency,
    decreases ps.len(),
{
    if ps.len() == 1 {
        assert(ps[0].base_frequency == merge_all(ps).base_frequency);
    } else {
        let front = ps.drop_last();
        law_merged_frequency_is_maximum(front);
        let w = choose|i: int|
            0 <= i < front.len() && (#[trigger] front[i]).base_frequency == merge_all(
                front,
            ).base_frequency;
        assert(front[w] == ps[w]);
        assert forall|i: int| 0 <= i < ps.len() implies (#[trigger] ps[i]).base_frequency
            <= merge_all(ps).base_frequency by {
            if i < ps.len() - 1 {
                assert(front[i] == ps[i]);
            }
        }
        if merge_all(ps).base_frequency == ps.last().base_frequency {
            assert(ps[ps.len() - 1].base_frequency == merge_all(ps).base_frequency);
        } else {
            assert(ps[w].base_frequency == merge_all(ps).base_frequency);
        }
    }
}

/// After ranking, every exact match stands before every prefix match, whatever their
/// frequencies.
pub proof fn law_exact_matches_rank_first(proposals: Seq<ProposalView>, top_k: int)
    requires
        0 <= top_k,
    ensures
        forall|i: int, j: int|
            0 <= i < j < bounded(proposals.sort_by(rank_order()), top_k).len() && (
            #[trigger] bounded(proposals.sort_by(rank_order()), top_k)[j]).match_kind
                == MatchKind::Exact ==> (#[trigger] bounded(
                proposals.sort_by(rank_order()),
                top_k,
            )[i]).match_kind == MatchKind::Exact,
{
    let sorted = proposals.sort_by(rank_order());
    let v = bounded(sorted, top_k);
    lemma_rank_le_total_ordering();
    proposals.lemma_sort_by_ensures(rank_order());
    assert forall|i: int, j: int|
        0 <= i < j < v.len() && (#[trigger] v[j]).match_kind == MatchKind::Exact implies (
        #[trigger] v[i]).match_kind == MatchKind::Exact by {
        assert(v.len() <= sorted.len());
        assert(v[i] == sorted[i] && v[j] == sorted[j]);
        assert(rank_order()(sorted[i], sorted[j]));
        assert(rank_le(sorted[i], sorted[j]));
        lemma_text_le_reflexive(sorted[i].input_code);
        lemma_text_le_reflexive(sorted[i].text);
        let a = v[i];
        let b = v[j];
        assert((score_of(a) == score_of(b) && a.match_kind == b.match_kind
            && a.base_frequency == b.base_frequency) ==> text_le(a.input_code, b.input_code));
        assert((score_of(a) == score_of(b) && a.match_kind == b.match_kind
            && a.base_frequency == b.base_frequency && a.input_code == b.input_code)
            ==> text_le(a.text, b.text));
        assert((score_of(a) == score_of(b) && a.match_kind == b.match_kind
            && a.base_frequency == b.base_frequency && a.input_code == b.input_code
            && a.text == b.text) ==> a.lexeme_id <= b.lexeme_id);
    }
}


/// A password or sensitive field shares no text with the Core: sanitizing its context
/// drops the text before, after and in the selection, and what is left always fits.
pub proof fn law_sensitive_scopes_keep_no_context(
    c: ContextView,
    limits: CoreLimits,
    capabilities: PlatformCapabilities,
)
    requires
        c.input_scope == InputScope::Password || c.input_scope == InputScope::Sensitive,
    ensures
        sanitized_view(c, limits, capabilities).before_cursor.len() == 0,
        sanitized_view(c, limits, capabilities).selected_text.len() == 0,
        sanitized_view(c, limits, capabilities).after_cursor.len() == 0,
        byte_len(sanitized_view(c, limits, capabilities).before_cursor) <= context_budget(
            c.input_scope,
            limits,
        ),
        byte_len(sanitized_view(c, limits, capabilities).selected_text) <= context_budget(
            c.input_scope,
            limits,
        ),
        byte_len(sanitized_view(c, limits, capabilities).after_cursor) <= context_budget(
            c.input_scope,
            limits,
        ),
{
    lemma_byte_len_empty();
    let s = sanitized_view(c, limits, capabilities);
    assert(s.before_cursor =~= Seq::<char>::empty());
    assert(s.selected_text =~= Seq::<char>::empty());
    assert(s.after_cursor =~= Seq::<char>::empty());
}


/// An event that fails, or that reports no change, leaves the session's observable state as
/// it was: revision, composition, phase, candidates, reconciliation flag and the number of
/// outstanding actions; it issues no action. This holds while the revision and action
/// counters have room, and for every event but a reset, which supersedes pending actions
/// even when nothing else changes.
pub proof fn law_refused_and_quiet_events_keep_state(
    engine: ImeEngine,
    s: SessionView,
    n: SessionView,
    event: InputEvent,
    o: Result<Outcome, ImeError>,
)
    requires
        event_spec(engine, s, n, event, o),
        o is Err || (o matches Ok(out) && out.status != ImeStatus::Success),
        !(event is Reset),
        s.next_action_id < u64::MAX,
        s.revision < u64::MAX,
        s.wf(engine.configuration()),
    ensures
        n.revision == s.revision,
        n.composer == s.composer,
        n.phase == s.phase,
        n.candidates == s.candidates,
        n.reconciliation_required == s.reconciliation_required,
        n.pending.len() == s.pending.len(),
        o matches Ok(out) ==> out.actions.len() == 0,
{
    lemma_without_updates_len(s.pending);
}


/// A session never holds more outstanding actions than its limit: every well-formed
/// session (a fresh one, and what each call leaves behind) respects it.
pub proof fn law_outstanding_actions_within_limit(engine: ImeEngine, s: SessionView)
    requires
        s.wf(engine.configuration()),
    ensures
        s.pending.len() <= engine.configuration().limits.max_outstanding_actions,
{
}

/// No input event raises the reconciliation flag: it is only ever cleared or kept.
pub proof fn law_events_never_raise_reconciliation(
    engine: ImeEngine,
    s: SessionView,
    n: SessionView,
    event: InputEvent,
    o: Result<Outcome, ImeError>,
)
    requires
        event_spec(engine, s, n, event, o),
        !s.reconciliation_required,
    ensures
        !n.reconciliation_required,
{
}

/// The reconciliation flag is raised only by acknowledging a pending commit with a failure
/// (rejected, unavailable or failed) whose composition could not be restored.
pub proof fn law_only_failed_commits_raise_reconciliation(
    engine: ImeEngine,
    s: SessionView,
    n: SessionView,
    id: ActionId,
    d: ActionDisposition,
    r: Result<AckOutcome, ImeError>,
)
    requires
        ack_spec(engine, s, n, id, d, r),
        !s.reconciliation_required,
        n.reconciliation_required,
    ensures
        s.is_pending(id.0),
        s.pending[pending_index(s, id.0)].kind is CommitText,
        is_failure(d),
        n.composer == s.composer,
{
}


/// An exact-code lookup in a dictionary built from `entries` returns entries of that list
/// that have exactly that code, at most `limit` of them; when it returns fewer than
/// `limit`, it returns every entry of the list with that code.
pub proof fn law_exact_lookup_draws_from_entries(
    entries: Seq<EntryView>,
    code: Seq<char>,
    limit: nat,
)
    requires
        code.len() > 0,
        limit > 0,
    ensures
        lookup_result(entries.sort_by(entry_order()), code, true, limit).len() <= limit,
        forall|i: int|
            0 <= i < lookup_result(entries.sort_by(entry_order()), code, true, limit).len() ==> {
                let e = #[trigger] lookup_result(entries.sort_by(entry_order()), code, true, limit)[i];
                e.input_code == code && entries.contains(e)
            },
        lookup_result(entries.sort_by(entry_order()), code, true, limit).len() < limit ==> forall|
            e: EntryView,
        |
            entries.contains(e) && e.input_code == code ==> #[trigger] lookup_result(
                entries.sort_by(entry_order()),
                code,
                true,
                limit,
            ).contains(e),
{
    broadcast use vstd::seq_lib::group_filter_ensures, vstd::seq_lib::group_to_multiset_ensures;

    let sorted = entries.sort_by(entry_order());
    lemma_entry_le_total_ordering();
    entries.lemma_sort_by_ensures(entry_order());
    let p = code_matches(code, true);
    let f = sorted.filter(p);
    let res = lookup_result(sorted, code, true, limit);
    assert forall|i: int| 0 <= i < res.len() implies {
        let e = #[trigger] res[i];
        e.input_code == code && entries.contains(e)
    } by {
        assert(res[i] == f[i]);
        assert(p(f[i]));
        assert(f.contains(f[i]));
        sorted.lemma_filter_contains_rev(p, f[i]);
        assert(sorted.to_multiset().count(f[i]) > 0);
        assert(entries.to_multiset().count(f[i]) > 0);
    }
    if res.len() < limit {
        assert(res == f);
        assert forall|e: EntryView| entries.contains(e) && e.input_code == code implies #[trigger] res.contains(
            e,
        ) by {
            assert(entries.to_multiset().count(e) > 0);
            assert(sorted.to_multiset().count(e) > 0);
            assert(sorted.contains(e));
            let k = choose|k: int| 0 <= k < sorted.len() && sorted[k] == e;
            assert(p(sorted[k]));
            sorted.lemma_filter_contains(p, k);
        }
    }
}


/// Every candidate the pipeline keeps stands for one identity of its input: it is the merge
/// of all proposals with that identity, and its frequency is the highest among them.
pub proof fn law_kept_candidates_merge_by_identity(
    items: Seq<(Seq<char>, ProposalView)>,
    k: nat,
    out: Seq<ProposalView>,
)
    requires
        is_pipeline_output(items, k, out),
    ensures
        forall|i: int|
            #![trigger out[i]]
            0 <= i < out.len() ==> exists|id: Seq<char>|
                #![trigger group_of(items, id)]
                has_identity(items, id) && out[i] == merge_all(group_of(items, id)) && forall|
                    m: int,
                |
                    0 <= m < group_of(items, id).len() ==> (#[trigger] group_of(items, id)[m]).base_frequency
                        <= out[i].base_frequency,
{
    broadcast use vstd::seq_lib::group_to_multiset_ensures;

    let d = choose|d: Seq<(Seq<char>, ProposalView)>|
        is_deduplication(items, d) && out == bounded(
            d.map_values(|x: (Seq<char>, ProposalView)| x.1).sort_by(rank_order()),
            k as int,
        );
    let values = d.map_values(|x: (Seq<char>, ProposalView)| x.1);
    let sorted = values.sort_by(rank_order());
    lemma_rank_le_total_ordering();
    values.lemma_sort_by_ensures(rank_order());
    assert forall|i: int| #![trigger out[i]] 0 <= i < out.len() implies exists|id: Seq<char>|
        #![trigger group_of(items, id)]
        has_identity(items, id) && out[i] == merge_all(group_of(items, id)) && forall|m: int|
            0 <= m < group_of(items, id).len() ==> (#[trigger] group_of(items, id)[m]).base_frequency
                <= out[i].base_frequency by {
        assert(out.len() <= sorted.len());
        assert(out[i] == sorted[i]);
        assert(sorted.contains(sorted[i]));
        assert(sorted.to_multiset().count(sorted[i]) > 0);
        assert(values.to_multiset().count(sorted[i]) > 0);
        assert(values.contains(sorted[i]));
        let p = choose|p: int| 0 <= p < values.len() && values[p] == sorted[i];
        let id = d[p].0;
        assert(values[p] == d[p].1);
        assert(has_identity(d, id));
        assert(has_identity(items, id));
        let b = choose|b: int| 0 <= b < items.len() && #[trigger] items[b].0 == id;
        lemma_group_nonempty(items, id, b);
        law_merged_frequency_is_maximum(group_of(items, id));
    }
}


/// A merge takes its text from one of the proposals it merges.
proof fn lemma_merge_all_text_from(ps: Seq<ProposalView>)
    requires
        ps.len() >= 1,
    ensures
        exists|m: int| 0 <= m < ps.len() && merge_all(ps).text == #[trigger] ps[m].text,
    decreases ps.len(),
{
    if ps.len() == 1 {
        assert(merge_all(ps).text == ps[0].text);
    } else {
        let front = ps.drop_last();
        lemma_merge_all_text_from(front);
        let m = choose|m: int| 0 <= m < front.len() && merge_all(front).text == #[trigger] front[m].text;
        assert(front[m] == ps[m]);
        if merge_all(ps).text == ps.last().text {
            assert(ps[ps.len() - 1].text == merge_all(ps).text);
        } else {
            assert(ps[m].text == merge_all(ps).text);
        }
    }
}

/// In proposals keyed by the engine's identity, every member of a group has that identity.
proof fn lemma_group_has_identity(
    engine: CandidateEngine,
    items: Seq<(Seq<char>, ProposalView)>,
    id: Seq<char>,
)
    requires
        forall|k: int| 0 <= k < items.len() ==> (#[trigger] items[k]).0 == engine.identity_for(
            items[k].1.text,
        ),
    ensures
        forall|m: int| 0 <= m < group_of(items, id).len() ==> engine.identity_for(
            (#[trigger] group_of(items, id)[m]).text,
        ) == id,
    decreases items.len(),
{
    if items.len() > 0 {
        let rest = items.drop_last();
        assert forall|k: int| 0 <= k < rest.len() implies (#[trigger] rest[k]).0 == engine.identity_for(
            rest[k].1.text,
        ) by {
            assert(rest[k] == items[k]);
        }
        lemma_group_has_identity(engine, rest, id);
        assert(items.last() == items[items.len() - 1]);
    }
}

/// The candidates the pipeline keeps have pairwise different identities: no two of them
/// are equivalent for the language.
pub proof fn law_kept_candidates_have_distinct_identities(
    engine: CandidateEngine,
    ps: Seq<ProposalView>,
    k: nat,
    out: Seq<ProposalView>,
)
    requires
        is_pipeline_output(engine.keyed(ps), k, out),
    ensures
        forall|i: int, j: int|
            0 <= i < j < out.len() ==> engine.identity_for(#[trigger] out[i].text)
                != engine.identity_for(#[trigger] out[j].text),
{
    broadcast use vstd::seq_lib::group_to_multiset_ensures;

    let items = engine.keyed(ps);
    assert forall|x: int| 0 <= x < items.len() implies (#[trigger] items[x]).0 == engine.identity_for(
        items[x].1.text,
    ) by {}
    let d = choose|d: Seq<(Seq<char>, ProposalView)>|
        is_deduplication(items, d) && out == bounded(
            d.map_values(|x: (Seq<char>, ProposalView)| x.1).sort_by(rank_order()),
            k as int,
        );
    let values = d.map_values(|x: (Seq<char>, ProposalView)| x.1);
    let sorted = values.sort_by(rank_order());
    lemma_rank_le_total_ordering();
    values.lemma_sort_by_ensures(rank_order());
    // each kept proposal carries the identity it was merged under
    assert forall|p: int| 0 <= p < d.len() implies engine.identity_for(
        (#[trigger] d[p]).1.text,
    ) == d[p].0 by {
        let id = d[p].0;
        assert(has_identity(d, id));
        assert(has_identity(items, id));
        let b = choose|b: int| 0 <= b < items.len() && #[trigger] items[b].0 == id;
        lemma_group_nonempty(items, id, b);
        lemma_group_has_identity(engine, items, id);
        lemma_merge_all_text_from(group_of(items, id));
        let m = choose|m: int|
            0 <= m < group_of(items, id).len() && merge_all(group_of(items, id)).text
                == #[trigger] group_of(items, id)[m].text;
        assert(engine.identity_for(group_of(items, id)[m].text) == id);
    }
    assert(values.no_duplicates()) by {
        assert forall|p: int, q: int|
            0 <= p < values.len() && 0 <= q < values.len() && p != q implies values[p]
            != values[q] by {
            assert(values[p] == d[p].1 && values[q] == d[q].1);
            if p < q {
                assert(text_lt(d[p].0, d[q].0));
            } else {
                assert(text_lt(d[q].0, d[p].0));
            }
        }
    }
    values.lemma_multiset_has_no_duplicates();
    sorted.lemma_multiset_has_no_duplicates_conv();
    assert forall|i: int, j: int| 0 <= i < j < out.len() implies engine.identity_for(
        #[trigger] out[i].text,
    ) != engine.identity_for(#[trigger] out[j].text) by {
        assert(out.len() <= sorted.len());
        assert(out[i] == sorted[i] && out[j] == sorted[j]);
        assert(sorted[i] != sorted[j]);
        assert(sorted.to_multiset().count(sorted[i]) > 0);
        assert(sorted.to_multiset().count(sorted[j]) > 0);
        assert(values.contains(sorted[i]));
        assert(values.contains(sorted[j]));
        let p = choose|p: int| 0 <= p < values.len() && values[p] == sorted[i];
        let q = choose|q: int| 0 <= q < values.len() && values[q] == sorted[j];
        assert(values[p] == d[p].1 && values[q] == d[q].1);
        assert(p != q);
        if p < q {
            assert(text_lt(d[p].0, d[q].0));
        } else {
            assert(text_lt(d[q].0, d[p].0));
        }
    }
}


/// What acknowledging action `id` answers: a pending action is recorded and stops being
/// outstanding; an action resolved earlier reports its first disposition and changes
/// nothing; any other identifier is unknown and changes nothing.
pub proof fn law_acknowledgement_outcomes(
    engine: ImeEngine,
    s: SessionView,
    n: SessionView,
    id: ActionId,
    d: ActionDisposition,
    r: Result<AckOutcome, ImeError>,
)
    requires
        ack_spec(engine, s, n, id, d, r),
        s.revision < u64::MAX,
    ensures
        s.is_pending(id.0) ==> {
            &&& r == Ok::<AckOutcome, ImeError>(AckOutcome::Recorded { action_id: id, disposition: d })
            &&& n.pending.len() == s.pending.len() - 1
        },
        !s.is_pending(id.0) ==> n == s && match s.resolution(id.0) {
            Some(e) => r == Ok::<AckOutcome, ImeError>(
                AckOutcome::AlreadyResolved { action_id: id, disposition: e },
            ),
            None => r == Err::<AckOutcome, ImeError>(ImeError::UnknownAction(id)),
        },
{
}

/// What acknowledging a pending action does to the composition: a commit the host failed
/// to apply brings its composition back at the next revision when nothing happened since,
/// and otherwise asks for reconciliation; every other acknowledgement leaves composition,
/// candidates and revision as they were.
pub proof fn law_acknowledgement_effects(
    engine: ImeEngine,
    s: SessionView,
    n: SessionView,
    id: ActionId,
    d: ActionDisposition,
    r: Result<AckOutcome, ImeError>,
)
    requires
        ack_spec(engine, s, n, id, d, r),
        s.is_pending(id.0),
        s.revision < u64::MAX,
    ensures
        ({
            let p = s.pending[pending_index(s, id.0)];
            if p.kind is CommitText && is_failure(d) {
                match p.recovery {
                    Some(rc) => if can_restore(s, rc) {
                        n.composer == rc.composer && n.revision == s.revision + 1
                    } else {
                        n.reconciliation_required && n.composer == s.composer && n.revision
                            == s.revision && n.candidates == s.candidates
                    },
                    None => n.reconciliation_required && n.composer == s.composer && n.revision
                        == s.revision && n.candidates == s.candidates,
                }
            } else {
                n.composer == s.composer && n.revision == s.revision && n.candidates == s.candidates
            }
        }),
{
}

/// No call changes the Session's input mode: events and acknowledgements keep it, so every
/// state a Session reports carries the mode it started with.
pub proof fn law_mode_never_changes(
    engine: ImeEngine,
    s: SessionView,
    n: SessionView,
    event: InputEvent,
    o: Result<Outcome, ImeError>,
    n2: SessionView,
    id: ActionId,
    d: ActionDisposition,
    r: Result<AckOutcome, ImeError>,
)
    requires
        event_spec(engine, s, n, event, o),
        ack_spec(engine, s, n2, id, d, r),
    ensures
        n.mode == s.mode,
        n2.mode == s.mode,
{
}

/// A Session's state is determined by the Session: any two states that describe it agree
/// in everything they show. So a snapshot equals the state of the last result, and taking
/// it twice gives the same state.
pub proof fn law_state_is_determined_by_session(st1: ImeState, st2: ImeState, v: SessionView)
    requires
        state_matches(st1, v),
        state_matches(st2, v),
    ensures
        st1.phase == st2.phase,
        st1.composition_utf8@ == st2.composition_utf8@,
        st1.composition_cursor_grapheme == st2.composition_cursor_grapheme,
        st1.composition_cursor_utf8_byte_offset == st2.composition_cursor_utf8_byte_offset,
        st1.candidates@.len() == st2.candidates@.len(),
        forall|i: int|
            0 <= i < st1.candidates@.len() ==> (#[trigger] st1.candidates@[i]).candidate_id
                == st2.candidates@[i].candidate_id && st1.candidates@[i].text@
                == st2.candidates@[i].text@,
        st1.selected_candidate == st2.selected_candidate,
        st1.mode == st2.mode,
{
}


/// While composing, the arrow keys move the cursor by the key's repeat count (at least
/// one): Left towards the start of the composition, Right towards its end.
pub proof fn law_arrow_keys_move_the_cursor_their_way(event: HardwareKeyEvent)
    requires
        event.phase == KeyPhase::Down,
        !event.modifiers.spec_has_command_modifier(),
    ensures
        event.logical_key == LogicalKey::ArrowLeft ==> (normalized_spec(event, true) matches Some(
            LogicalInputView::MoveCompositionCursor { grapheme_delta },
        ) && grapheme_delta < 0 && grapheme_delta == -(if event.repeat_count == 0 {
            1
        } else {
            event.repeat_count as int
        })),
        event.logical_key == LogicalKey::ArrowRight ==> (normalized_spec(event, true) matches Some(
            LogicalInputView::MoveCompositionCursor { grapheme_delta },
        ) && grapheme_delta > 0 && grapheme_delta == (if event.repeat_count == 0 {
            1
        } else {
            event.repeat_count as int
        })),
{
}

/// Merging equivalent proposals keeps an exact match whenever one of them is exact: an
/// exact match is always the better representative of a candidate than a prefix match.
pub proof fn law_merge_keeps_an_exact_match(ps: Seq<ProposalView>)
    requires
        ps.len() >= 1,
    ensures
        (merge_all(ps).match_kind == MatchKind::Exact) <==> (exists|i: int|
            0 <= i < ps.len() && (#[trigger] ps[i]).match_kind == MatchKind::Exact),
    decreases ps.len(),
{
    if ps.len() == 1 {
        assert(merge_all(ps) == ps[0]);
    } else {
        let front = ps.drop_last();
        law_merge_keeps_an_exact_match(front);
        assert forall|i: int| 0 <= i < front.len() implies #[trigger] front[i] == ps[i] by {}
        if merge_all(front).match_kind == MatchKind::Exact {
            let w = choose|i: int| 0 <= i < front.len() && (#[trigger] front[i]).match_kind == MatchKind::Exact;
            assert(ps[w].match_kind == MatchKind::Exact);
        }
        if ps.last().match_kind == MatchKind::Exact {
            assert(ps[ps.len() - 1].match_kind == MatchKind::Exact);
        }
        if exists|i: int| 0 <= i < ps.len() && (#[trigger] ps[i]).match_kind == MatchKind::Exact {
            let w = choose|i: int| 0 <= i < ps.len() && (#[trigger] ps[i]).match_kind == MatchKind::Exact;
            if w < ps.len() - 1 {
                assert(front[w].match_kind == MatchKind::Exact);
            }
        }
    }
}

/// `a` may stand before `b` in a ranking: it scores at least as high; on equal scores it is
/// an exact match if `b` is, then at least as frequent, then not after `b` by input code,
/// text and lexeme ID.
pub open spec fn ranked_in_order(a: ProposalView, b: ProposalView) -> bool {
    &&& score_of(a) >= score_of(b)
    &&& (score_of(a) == score_of(b) && b.match_kind == MatchKind::Exact) ==> a.match_kind
        == MatchKind::Exact
    &&& (score_of(a) == score_of(b) && a.match_kind == b.match_kind) ==> a.base_frequency
        >= b.base_frequency
    &&& (score_of(a) == score_of(b) && a.match_kind == b.match_kind && a.base_frequency
        == b.base_frequency) ==> text_le(a.input_code, b.input_code)
    &&& (score_of(a) == score_of(b) && a.match_kind == b.match_kind && a.base_frequency
        == b.base_frequency && a.input_code == b.input_code) ==> text_le(a.text, b.text)
    &&& (score_of(a) == score_of(b) && a.match_kind == b.match_kind && a.base_frequency
        == b.base_frequency && a.input_code == b.input_code && a.text == b.text) ==> a.lexeme_id
        <= b.lexeme_id
}

/// The ranked candidates come in order of decreasing score; among equal scores an exact
/// match comes first, then the more frequent one, then input code, text and lexeme ID in
/// increasing order.
pub proof fn law_ranking_prefers_score_then_kind_then_frequency(
    proposals: Seq<ProposalView>,
    top_k: int,
)
    requires
        0 <= top_k,
    ensures
        forall|i: int, j: int|
            0 <= i < j < bounded(proposals.sort_by(rank_order()), top_k).len() ==> ranked_in_order(
                #[trigger] bounded(proposals.sort_by(rank_order()), top_k)[i],
                #[trigger] bounded(proposals.sort_by(rank_order()), top_k)[j],
            ),
{
    let sorted = proposals.sort_by(rank_order());
    let v = bounded(sorted, top_k);
    lemma_rank_le_total_ordering();
    proposals.lemma_sort_by_ensures(rank_order());
    assert forall|i: int, j: int| 0 <= i < j < v.len() implies ranked_in_order(
        #[trigger] v[i],
        #[trigger] v[j],
    ) by {
        assert(v.len() <= sorted.len());
        assert(v[i] == sorted[i] && v[j] == sorted[j]);
        assert(rank_order()(sorted[i], sorted[j]));
        assert(rank_le(sorted[i], sorted[j]));
        lemma_text_le_reflexive(sorted[i].input_code);
        lemma_text_le_reflexive(sorted[i].text);
    }
}

/// Keeping the elements of a sorted sequence that satisfy a predicate keeps it sorted.
proof fn lemma_filter_keeps_sorted<A>(s: Seq<A>, leq: spec_fn(A, A) -> bool, p: spec_fn(A) -> bool)
    requires
        sorted_by(s, leq),
    ensures
        sorted_by(s.filter(p), leq),
    decreases s.len(),
{
    broadcast use vstd::seq_lib::group_filter_ensures;

    if s.len() > 0 {
        let front = s.drop_last();
        let last = s.last();
        assert(sorted_by(front, leq)) by {
            assert forall|i: int, j: int| 0 <= i < j < front.len() implies #[trigger] leq(
                front[i],
                front[j],
            ) by {
                assert(front[i] == s[i] && front[j] == s[j]);
            }
        }
        lemma_filter_keeps_sorted(front, leq, p);
        assert(s =~= front.push(last));
        front.lemma_filter_push(last, p);
        let f = front.filter(p);
        if p(last) {
            assert forall|i: int, j: int| 0 <= i < j < f.push(last).len() implies #[trigger] leq(
                f.push(last)[i],
                f.push(last)[j],
            ) by {
                if j == f.len() {
                    assert(f.contains(f[i]));
                    front.lemma_filter_contains_rev(p, f[i]);
                    let k = choose|k: int| 0 <= k < front.len() && front[k] == f[i];
                    assert(s[k] == front[k]);
                    assert(leq(s[k], s[s.len() - 1]));
                } else {
                    assert(f.push(last)[i] == f[i] && f.push(last)[j] == f[j]);
                }
            }
        }
    }
}

/// Dictionary lookups return records in the order of their input codes, so the records
/// whose code is the searched code itself come before longer codes it is a prefix of.
pub proof fn law_lookups_follow_code_order(
    entries: Seq<EntryView>,
    code: Seq<char>,
    exact: bool,
    limit: nat,
)
    ensures
        forall|i: int, j: int|
            0 <= i < j < lookup_result(entries.sort_by(entry_order()), code, exact, limit).len()
                ==> text_le(
                (#[trigger] lookup_result(entries.sort_by(entry_order()), code, exact, limit)[i]).input_code,
                (#[trigger] lookup_result(entries.sort_by(entry_order()), code, exact, limit)[j]).input_code,
            ),
{
    let sorted = entries.sort_by(entry_order());
    lemma_entry_le_total_ordering();
    entries.lemma_sort_by_ensures(entry_order());
    let p = code_matches(code, exact);
    lemma_filter_keeps_sorted(sorted, entry_order(), p);
    let f = sorted.filter(p);
    let res = lookup_result(sorted, code, exact, limit);
    assert forall|i: int, j: int| 0 <= i < j < res.len() implies text_le(
        (#[trigger] res[i]).input_code,
        (#[trigger] res[j]).input_code,
    ) by {
        assert(res.len() <= f.len());
        assert(res[i] == f[i] && res[j] == f[j]);
        assert(entry_order()(f[i], f[j]));
        assert(entry_le(f[i], f[j]));
        lemma_text_le_reflexive(f[i].input_code);
    }
}


/// A REPL line asks to commit exactly when, without its line ending, it is the word
/// `commit`, and to cancel exactly when it is the word `cancel`; `left` and `right` move
/// the cursor one grapheme back and forward.
pub proof fn law_commit_and_cancel_lines(line: Seq<char>)
    ensures
        (command_for(line) == CommandView::Commit) <==> (trim_line_end(line) == "commit"@),
        (command_for(line) == CommandView::Cancel) <==> (trim_line_end(line) == "cancel"@),
        (command_for(line) == CommandView::MoveCursor(-1i32)) <==> (trim_line_end(line) == "left"@),
        (command_for(line) == CommandView::MoveCursor(1i32)) <==> (trim_line_end(line) == "right"@),
{
    reveal_strlit("commit");
    reveal_strlit("cancel");
    reveal_strlit("quit");
    reveal_strlit("state");
    reveal_strlit("candidates");
    reveal_strlit("autoack ");
    reveal_strlit("ack ");
    reveal_strlit("text ");
    reveal_strlit("select ");
    reveal_strlit("backspace");
    reveal_strlit("delete");
    reveal_strlit("left");
    reveal_strlit("right");
    reveal_strlit("reset");
    reveal_strlit("cnext");
    reveal_strlit("cprev");
    let l = trim_line_end(line);
    if l == "commit"@ || l == "cancel"@ {
        assert(l[0] == 'c');
        assert(strip_prefix(l, "ack "@) is None) by {
            if l.len() >= 4 {
                assert(l.take(4)[0] != "ack "@[0]);
            }
        }
        assert(strip_prefix(l, "text "@) is None) by {
            if l.len() >= 5 {
                assert(l.take(5)[0] != "text "@[0]);
            }
        }
        assert(strip_prefix(l, "select "@) is None);
        assert(strip_prefix(l, "autoack "@) is None);
        assert("cancel"@ != "commit"@) by {
            assert("cancel"@[1] != "commit"@[1]);
        }
    }
    if l == "left"@ || l == "right"@ {
        assert(strip_prefix(l, "ack "@) is None) by {
            if l.len() >= 4 {
                assert(l.take(4)[0] != "ack "@[0]);
            }
        }
        assert(strip_prefix(l, "text "@) is None) by {
            if l.len() >= 5 {
                assert(l.take(5)[0] != "text "@[0]);
            }
        }
        assert(strip_prefix(l, "select "@) is None);
        assert(strip_prefix(l, "autoack "@) is None);
        assert("right"@ != "reset"@) by {
            assert("right"@[1] != "reset"@[1]);
        }
        assert("right"@ != "state"@) by {
            assert("right"@[0] != "state"@[0]);
        }
        assert("right"@ != "cnext"@) by {
            assert("right"@[0] != "cnext"@[0]);
        }
        assert("right"@ != "cprev"@) by {
            assert("right"@[0] != "cprev"@[0]);
        }
        assert("left"@ != "quit"@) by {
            assert("left"@[0] != "quit"@[0]);
        }
    }
}

/// A line means the same with or without a trailing line feed or carriage return.
pub proof fn law_line_endings_do_not_matter(line: Seq<char>)
    ensures
        command_for(line.push('\n')) == command_for(line),
        command_for(line.push('\r')) == command_for(line),
{
    assert(line.push('\n').drop_last() =~= line);
    assert(line.push('\r').drop_last() =~= line);
}


/// Key releases and shortcuts (Control, Alt or Meta held) are left to the host; outside a
/// composition only character keys are taken, each typing its character once per repeat.
pub proof fn law_hardware_keys_outside_composition(event: HardwareKeyEvent, composing: bool)
    ensures
        (event.phase != KeyPhase::Down || event.modifiers.spec_has_command_modifier())
            ==> normalized_spec(event, composing) is None,
        !composing && normalized_spec(event, composing) is Some ==> event.logical_key is Character,
        event.phase == KeyPhase::Down && !event.modifiers.spec_has_command_modifier()
            && event.logical_key is Character ==> (normalized_spec(event, composing) matches Some(
            LogicalInputView::InsertText(t),
        ) && t.len() == (if event.repeat_count == 0 {
            1
        } else {
            event.repeat_count as int
        }) && forall|i: int| 0 <= i < t.len() ==> #[trigger] t[i] == event.logical_key->Character_0),
{
}

/// While composing, Backspace and Delete remove one grapheme per repeat, Enter commits and
/// Escape cancels.
pub proof fn law_editing_keys_while_composing(event: HardwareKeyEvent)
    requires
        event.phase == KeyPhase::Down,
        !event.modifiers.spec_has_command_modifier(),
    ensures
        event.logical_key == LogicalKey::Backspace ==> normalized_spec(event, true) == Some(
            LogicalInputView::Backspace {
                count: if event.repeat_count == 0 {
                    1u16
                } else {
                    event.repeat_count
                },
            },
        ),
        event.logical_key == LogicalKey::Delete ==> normalized_spec(event, true) == Some(
            LogicalInputView::DeleteForward {
                count: if event.repeat_count == 0 {
                    1u16
                } else {
                    event.repeat_count
                },
            },
        ),
        event.logical_key == LogicalKey::Enter ==> normalized_spec(event, true) == Some(
            LogicalInputView::Commit,
        ),
        event.logical_key == LogicalKey::Escape ==> normalized_spec(event, true) == Some(
            LogicalInputView::Cancel,
        ),
{
}


/// Moving the composition cursor by a negative amount never moves it forward, and by a
/// positive amount never moves it back; the composition text stays as it was.
pub proof fn law_cursor_moves_in_the_direction_asked(
    engine: ImeEngine,
    s: SessionView,
    n: SessionView,
    delta: i32,
    o: Result<Outcome, ImeError>,
)
    requires
        move_spec(engine, s, n, delta, o),
        s.composer.wf(),
    ensures
        delta < 0 ==> n.composer.cursor <= s.composer.cursor,
        delta > 0 ==> n.composer.cursor >= s.composer.cursor,
        n.composer.text == s.composer.text,
{
}

} // verus!
