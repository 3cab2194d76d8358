//! Platform-independent foundations for the offline input-method engine.
mod error;
mod types;

pub mod abi;
pub mod candidate;
pub mod cli;
pub mod composer;
pub mod dictionary;
pub mod engine;
pub mod input;
pub mod language;
pub mod laws;
pub mod order;
pub mod ranking;
pub mod session;
pub mod state;
pub mod text;

pub use engine::{EngineConfig, ImeEngine};
pub use error::ImeError;
pub use input::{FocusChange, HardwareKeyEvent, InputEvent, KeyPhase, LogicalKey, Modifiers};
pub use session::ImeSession;
pub use state::{
    AckOutcome, ActionDisposition, CandidateView, CommitKind, DegradedComponent, EventHandling,
    ImeAction, ImeActionKind, ImeResult, ImeState, ImeStatus, PlatformResetReason, ResultFlag,
    SessionPhase,
};
pub use types::{
    ActionId, CandidateId, ContextSnapshot, ContextView, CoreLimits, DocumentIdentity, EngineId,
    InputScope, LexemeId, MarkedTextSupport, ModeId, PlatformCapabilities, ResourceGeneration,
    SessionId, StateRevision, SurroundingTextSupport,
};
