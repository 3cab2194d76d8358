//! Portable Session state, results, actions and acknowledgements.
use vstd::prelude::*;

use crate::types::{ActionId, CandidateId, ModeId, ResourceGeneration, SessionId, StateRevision};

verus! {

/// Portable session phase derived from composition and candidate state.
#[derive(Clone, Copy, Debug, PartialEq, Eq, Structural)]
pub enum SessionPhase {
    Idle,
    Composing,
    CandidateSelecting,
}

impl Default for SessionPhase {
    fn default() -> (r: Self)
        ensures r == SessionPhase::Idle,
    {
        SessionPhase::Idle
    }
}

/// Whether the platform should consume an original hardware event.
#[derive(Clone, Copy, Debug, PartialEq, Eq, Structural)]
pub enum EventHandling {
    Consumed,
    PassThrough,
}

/// High-level processing status for an otherwise valid event.
#[derive(Clone, Copy, Debug, PartialEq, Eq, Structural)]
pub enum ImeStatus {
    /// The event changed state or produced actions.
    Success,
    NoOp,
    Unsupported,
}

/// Why text is being committed.
#[derive(Clone, Copy, Debug, PartialEq, Eq, Structural)]
pub enum CommitKind {
    Candidate,
    RawFallback,
    DirectInput,
}

/// Why Core requests reconciliation with the platform text system.
#[derive(Clone, Copy, Debug, PartialEq, Eq, Structural)]
pub enum PlatformResetReason {
    ExplicitReset,
    StateMismatch,
}

/// A platform side effect requested by Core.
#[derive(Clone, Debug, PartialEq, Eq)]
pub enum ImeActionKind {
    SetCompositionText { text_utf8: String, cursor_utf8_byte_offset: usize },
    FinishComposition,
    CancelComposition,
    CommitText { text_utf8: String, commit_kind: CommitKind },
    DeleteBackward { operation_count: u16 },
    RequestPlatformReset { reason: PlatformResetReason },
}

/// Mathematical content of an [`ImeActionKind`].
pub enum ActionKindView {
    SetCompositionText { text: Seq<char>, cursor_utf8_byte_offset: usize },
    FinishComposition,
    CancelComposition,
    CommitText { text: Seq<char>, commit_kind: CommitKind },
    DeleteBackward { operation_count: u16 },
    RequestPlatformReset { reason: PlatformResetReason },
}

impl View for ImeActionKind {
    type V = ActionKindView;

    open spec fn view(&self) -> ActionKindView {
        match self {
            ImeActionKind::SetCompositionText { text_utf8, cursor_utf8_byte_offset } =>
                ActionKindView::SetCompositionText {
                text: text_utf8@,
                cursor_utf8_byte_offset: *cursor_utf8_byte_offset,
            },
            ImeActionKind::FinishComposition => ActionKindView::FinishComposition,
            ImeActionKind::CancelComposition => ActionKindView::CancelComposition,
            ImeActionKind::CommitText { text_utf8, commit_kind } => ActionKindView::CommitText {
                text: text_utf8@,
                commit_kind: *commit_kind,
            },
            ImeActionKind::DeleteBackward { operation_count } => ActionKindView::DeleteBackward {
                operation_count: *operation_count,
            },
            ImeActionKind::RequestPlatformReset { reason } => ActionKindView::RequestPlatformReset {
                reason: *reason,
            },
        }
    }
}

impl ImeActionKind {
    /// Returns whether this is a composition-text update.
    pub fn is_set_composition(&self) -> (r: bool)
        ensures r == (self@ is SetCompositionText),
    {
        matches!(self, ImeActionKind::SetCompositionText { .. })
    }

    /// Returns whether this is a text commit.
    pub fn is_commit(&self) -> (r: bool)
        ensures r == (self@ is CommitText),
    {
        matches!(self, ImeActionKind::CommitText { .. })
    }

}

/// A versioned Session action awaiting a platform disposition.
#[derive(Clone, Debug, PartialEq, Eq)]
pub struct ImeAction {
    pub action_id: ActionId,
    pub session_id: SessionId,
    pub originating_revision: StateRevision,
    pub kind: ImeActionKind,
}

/// Mathematical content of an [`ImeAction`].
pub struct ActionView {
    pub action_id: u64,
    pub session_id: u64,
    pub originating_revision: u64,
    pub kind: ActionKindView,
}

impl View for ImeAction {
    type V = ActionView;

    open spec fn view(&self) -> ActionView {
        ActionView {
            action_id: self.action_id.0,
            session_id: self.session_id.0,
            originating_revision: self.originating_revision.0,
            kind: self.kind@,
        }
    }
}

impl ImeActionKind {
    /// Returns an equal copy of this kind.
    pub fn duplicate(&self) -> (r: Self)
        ensures
            r@ == self@,
    {
        match self {
            ImeActionKind::SetCompositionText { text_utf8, cursor_utf8_byte_offset } =>
                ImeActionKind::SetCompositionText {
                text_utf8: text_utf8.clone(),
                cursor_utf8_byte_offset: *cursor_utf8_byte_offset,
            },
            ImeActionKind::FinishComposition => ImeActionKind::FinishComposition,
            ImeActionKind::CancelComposition => ImeActionKind::CancelComposition,
            ImeActionKind::CommitText { text_utf8, commit_kind } => ImeActionKind::CommitText {
                text_utf8: text_utf8.clone(),
                commit_kind: *commit_kind,
            },
            ImeActionKind::DeleteBackward { operation_count } => ImeActionKind::DeleteBackward {
                operation_count: *operation_count,
            },
            ImeActionKind::RequestPlatformReset { reason } => ImeActionKind::RequestPlatformReset {
                reason: *reason,
            },
        }
    }
}

impl ImeAction {
    /// Returns an equal copy of this action.
    pub fn duplicate(&self) -> (r: Self)
        ensures
            r@ == self@,
    {
        ImeAction {
            action_id: self.action_id,
            session_id: self.session_id,
            originating_revision: self.originating_revision,
            kind: self.kind.duplicate(),
        }
    }
}

/// The platform's weak acknowledgement of an action.
#[derive(Clone, Copy, Debug, PartialEq, Eq, Structural)]
pub enum ActionDisposition {
    Applied,
    Rejected,
    Unavailable,
    Superseded,
    Failed,
}

/// Result of recording an acknowledgement.
#[derive(Clone, Copy, Debug, PartialEq, Eq, Structural)]
pub enum AckOutcome {
    Recorded { action_id: ActionId, disposition: ActionDisposition },
    AlreadyResolved { action_id: ActionId, disposition: ActionDisposition },
}

/// Minimal candidate data exposed to platform renderers.
#[derive(Clone, Debug, PartialEq, Eq)]
pub struct CandidateView {
    /// Identifier valid only with the containing Session revision.
    pub candidate_id: CandidateId,
    /// UTF-8 text committed when this candidate is selected.
    pub text: String,
}

/// A renderable snapshot of portable Session state.
#[derive(Clone, Debug, PartialEq, Eq)]
pub struct ImeState {
    pub phase: SessionPhase,
    pub composition_utf8: String,
    pub composition_cursor_grapheme: usize,
    pub composition_cursor_utf8_byte_offset: usize,
    pub candidates: Vec<CandidateView>,
    pub selected_candidate: Option<CandidateId>,
    pub mode: ModeId,
}

/// Optional component that was unavailable while producing a result.
#[derive(Clone, Copy, Debug, PartialEq, Eq, Structural)]
pub enum DegradedComponent {
    Language,
    Dictionary,
    Candidate,
    Ranking,
}

/// Additional bounded-result information.
///
/// No flag is in use yet: results always carry an empty flag list, and the single
/// variant is a placeholder that no operation produces.
#[derive(Clone, Copy, Debug, PartialEq, Eq, Structural)]
pub enum ResultFlag {
    Reserved,
}

/// Complete output of one Core input operation.
#[derive(Clone, Debug, PartialEq, Eq)]
pub struct ImeResult {
    pub status: ImeStatus,
    pub event_handling: EventHandling,
    pub session_id: SessionId,
    pub state_revision: StateRevision,
    pub resource_generation: ResourceGeneration,
    pub state: ImeState,
    pub actions: Vec<ImeAction>,
    pub degraded_components: Vec<DegradedComponent>,
    pub result_flags: Vec<ResultFlag>,
}

} // verus!
