//! The C ABI's rules on plain values: version negotiation, structure sizes, status codes,
//! event decoding and the bounded wire form of results.
use vstd::prelude::*;

use crate::dictionary::{entry_order, entry_view, entry_views, DictionaryEntry, EntryView, InMemoryDictionary};
use crate::error::ImeError;
use crate::input::InputEvent;
use crate::state::{
    AckOutcome, ActionDisposition, ActionKindView, CandidateView, CommitKind, DegradedComponent,
    EventHandling, ImeAction, ImeActionKind, ImeResult, ImeState, ImeStatus, PlatformResetReason,
    SessionPhase,
};
use crate::session::{state_matches, ImeSession};
use crate::text::byte_len;
use crate::types::{CandidateId, LexemeId, StateRevision};

verus! {

/// ABI version `major << 16 | minor`.
pub const IME_ABI_VERSION: u32 = 0x0001_0000;

pub const IME_STATUS_OK: u32 = 0;
pub const IME_STATUS_INVALID_ARGUMENT: u32 = 1;
pub const IME_STATUS_NULL_POINTER: u32 = 2;
pub const IME_STATUS_INVALID_UTF8: u32 = 3;
pub const IME_STATUS_UNSUPPORTED: u32 = 4;
pub const IME_STATUS_STALE_REVISION: u32 = 5;
pub const IME_STATUS_BUDGET_EXCEEDED: u32 = 6;
pub const IME_STATUS_INTERNAL_PANIC: u32 = 7;
pub const IME_STATUS_INTERNAL_ERROR: u32 = 8;
pub const IME_STATUS_UNKNOWN_CANDIDATE: u32 = 9;
pub const IME_STATUS_UNKNOWN_ACTION: u32 = 10;
pub const IME_STATUS_UNSUPPORTED_ABI_VERSION: u32 = 11;

pub const IME_EVENT_INSERT_TEXT: u32 = 1;
pub const IME_EVENT_BACKSPACE: u32 = 2;
pub const IME_EVENT_DELETE_FORWARD: u32 = 3;
pub const IME_EVENT_MOVE_COMPOSITION_CURSOR: u32 = 4;
pub const IME_EVENT_SELECT_CANDIDATE: u32 = 5;
pub const IME_EVENT_MOVE_CANDIDATE_SELECTION: u32 = 6;
pub const IME_EVENT_COMMIT: u32 = 7;
pub const IME_EVENT_CANCEL: u32 = 8;
pub const IME_EVENT_RESET: u32 = 9;

pub const IME_EVENT_STATUS_OK: u32 = 0;
pub const IME_EVENT_STATUS_NO_OP: u32 = 1;
pub const IME_EVENT_STATUS_UNSUPPORTED: u32 = 2;

pub const IME_EVENT_HANDLING_CONSUMED: u32 = 0;
pub const IME_EVENT_HANDLING_PASS_THROUGH: u32 = 1;

pub const IME_PHASE_IDLE: u32 = 0;
pub const IME_PHASE_COMPOSING: u32 = 1;
pub const IME_PHASE_CANDIDATE_SELECTING: u32 = 2;

pub const IME_ACTION_SET_COMPOSITION_TEXT: u32 = 1;
pub const IME_ACTION_FINISH_COMPOSITION: u32 = 2;
pub const IME_ACTION_CANCEL_COMPOSITION: u32 = 3;
pub const IME_ACTION_COMMIT_TEXT: u32 = 4;
pub const IME_ACTION_DELETE_BACKWARD: u32 = 5;
pub const IME_ACTION_REQUEST_PLATFORM_RESET: u32 = 6;

pub const IME_COMMIT_CANDIDATE: u32 = 0;
pub const IME_COMMIT_RAW_FALLBACK: u32 = 1;
pub const IME_COMMIT_DIRECT_INPUT: u32 = 2;

pub const IME_ACTION_APPLIED: u32 = 0;
pub const IME_ACTION_REJECTED: u32 = 1;
pub const IME_ACTION_UNAVAILABLE: u32 = 2;
pub const IME_ACTION_SUPERSEDED: u32 = 3;
pub const IME_ACTION_FAILED: u32 = 4;

pub const IME_RESET_EXPLICIT: u32 = 0;
pub const IME_RESET_STATE_MISMATCH: u32 = 1;

pub const IME_DEGRADED_LANGUAGE: u32 = 1;
pub const IME_DEGRADED_DICTIONARY: u32 = 2;
pub const IME_DEGRADED_CANDIDATE: u32 = 3;
pub const IME_DEGRADED_RANKING: u32 = 4;

/// Input text is bounded to this many bytes.
pub const MAX_FFI_INPUT_BYTES: u64 = 4096;
/// Combined composition, candidate and action text of one result, in bytes.
pub const MAX_RESULT_TEXT_BYTES: usize = 65536;
/// Candidates of one result.
pub const MAX_RESULT_CANDIDATES: usize = 64;
/// Actions of one result.
pub const MAX_RESULT_ACTIONS: usize = 64;

/// Size of the common structure header.
pub const STRUCT_HEADER_SIZE: usize = 8;
/// Size of a version 1.0 input event.
pub const INPUT_EVENT_SIZE_V1_0: usize = 48;

/// Common prefix for every versioned C structure.
#[derive(Clone, Copy, Debug, PartialEq, Eq, Structural)]
pub struct ImeStructHeader {
    pub struct_size: u32,
    pub abi_version: u32,
}

/// The major part of an ABI version.
pub open spec fn abi_major(version: u32) -> u32 {
    (version / 65536) as u32
}

/// The minor part of an ABI version.
pub open spec fn abi_minor(version: u32) -> u32 {
    (version % 65536) as u32
}

/// A caller of ABI version `caller` may use a library of version `library`: same major,
/// and a minor no newer than the library's.
pub open spec fn abi_compatible(caller: u32, library: u32) -> bool {
    abi_major(caller) == abi_major(library) && abi_minor(caller) <= abi_minor(library)
}

/// Accepts a caller's ABI version for a library version; compatibility is directional.
pub fn validate_abi_version(caller_version: u32, library_version: u32) -> (r: Result<(), u32>)
    ensures
        r is Ok <==> abi_compatible(caller_version, library_version),
        r matches Err(s) ==> s == IME_STATUS_UNSUPPORTED_ABI_VERSION,
{
    let caller_major = caller_version >> 16;
    let caller_minor = caller_version & 0xffff;
    let library_major = library_version >> 16;
    let library_minor = library_version & 0xffff;
    assert(caller_major == abi_major(caller_version) && caller_minor == abi_minor(caller_version))
        by (bit_vector)
        requires
            caller_major == caller_version >> 16,
            caller_minor == caller_version & 0xffff,
    ;
    assert(library_major == abi_major(library_version) && library_minor == abi_minor(
        library_version,
    )) by (bit_vector)
        requires
            library_major == library_version >> 16,
            library_minor == library_version & 0xffff,
    ;
    if caller_major != library_major || caller_minor > library_minor {
        return Err(IME_STATUS_UNSUPPORTED_ABI_VERSION);
    }
    Ok(())
}

/// Accepts a declared structure size that covers the required prefix.
pub fn validate_struct_size(supplied_size: u32, minimum_required_size: usize) -> (r: Result<
    (),
    u32,
>)
    ensures
        r is Ok <==> supplied_size >= minimum_required_size,
        r matches Err(s) ==> s == IME_STATUS_INVALID_ARGUMENT,
{
    if (supplied_size as u64) < (minimum_required_size as u64) {
        return Err(IME_STATUS_INVALID_ARGUMENT);
    }
    Ok(())
}

/// The input-event prefix a caller of `caller_version` must supply.
pub fn minimum_input_event_size(caller_version: u32) -> (r: Result<usize, u32>)
    ensures
        caller_version == IME_ABI_VERSION ==> r == Ok::<usize, u32>(INPUT_EVENT_SIZE_V1_0),
        caller_version != IME_ABI_VERSION ==> r == Err::<usize, u32>(
            IME_STATUS_UNSUPPORTED_ABI_VERSION,
        ),
{
    if caller_version == IME_ABI_VERSION {
        Ok(INPUT_EVENT_SIZE_V1_0)
    } else {
        Err(IME_STATUS_UNSUPPORTED_ABI_VERSION)
    }
}

/// Checks an input event's header: it must cover the header, carry a compatible version,
/// and cover that version's event prefix.
pub fn validate_event_header(header: ImeStructHeader) -> (r: Result<(), u32>)
    ensures
        header.struct_size < STRUCT_HEADER_SIZE ==> r == Err::<(), u32>(
            IME_STATUS_INVALID_ARGUMENT,
        ),
        header.struct_size >= STRUCT_HEADER_SIZE && !abi_compatible(
            header.abi_version,
            IME_ABI_VERSION,
        ) ==> r == Err::<(), u32>(IME_STATUS_UNSUPPORTED_ABI_VERSION),
        header.struct_size >= STRUCT_HEADER_SIZE && abi_compatible(
            header.abi_version,
            IME_ABI_VERSION,
        ) && header.abi_version != IME_ABI_VERSION ==> r == Err::<(), u32>(
            IME_STATUS_UNSUPPORTED_ABI_VERSION,
        ),
        header.struct_size >= STRUCT_HEADER_SIZE && header.abi_version == IME_ABI_VERSION ==> (r
            is Ok <==> header.struct_size >= INPUT_EVENT_SIZE_V1_0),
        header.struct_size >= STRUCT_HEADER_SIZE && header.abi_version == IME_ABI_VERSION
            && header.struct_size < INPUT_EVENT_SIZE_V1_0 ==> r == Err::<(), u32>(
            IME_STATUS_INVALID_ARGUMENT,
        ),
{
    validate_struct_size(header.struct_size, STRUCT_HEADER_SIZE)?;
    validate_abi_version(header.abi_version, IME_ABI_VERSION)?;
    let minimum = minimum_input_event_size(header.abi_version)?;
    validate_struct_size(header.struct_size, minimum)
}

/// Checks a string view's length: empty views need no storage, a null pointer with a
/// positive length is refused, and input text is bounded. Returns the byte count to read.
pub fn check_input_string_view(is_null: bool, len: u64) -> (r: Result<usize, u32>)
    ensures
        len == 0 ==> r == Ok::<usize, u32>(0),
        len > 0 && is_null ==> r == Err::<usize, u32>(IME_STATUS_NULL_POINTER),
        len > 0 && !is_null && len > MAX_FFI_INPUT_BYTES ==> r == Err::<usize, u32>(
            IME_STATUS_BUDGET_EXCEEDED,
        ),
        len > 0 && !is_null && len <= MAX_FFI_INPUT_BYTES ==> r == Ok::<usize, u32>(
            len as usize,
        ),
{
    if len == 0 {
        return Ok(0);
    }
    if is_null {
        return Err(IME_STATUS_NULL_POINTER);
    }
    if len > MAX_FFI_INPUT_BYTES {
        return Err(IME_STATUS_BUDGET_EXCEEDED);
    }
    Ok(len as usize)
}

/// Decodes UTF-8 input bytes.
///
/// Calls `std::str::from_utf8`, which accepts exactly the well-formed UTF-8 byte
/// sequences (no overlong forms, no surrogates, nothing above U+10FFFF); the contract
/// claims that it accepts exactly those and that accepted text encodes back to the same
/// bytes.
#[verifier::external_body]
fn utf8_text(bytes: &[u8]) -> (r: Option<String>)
    ensures
        r is Some <==> vstd::utf8::valid_utf8(bytes@),
        r matches Some(s) ==> vstd::utf8::encode_utf8(s@) == bytes@,
{
    match std::str::from_utf8(bytes) {
        Ok(text) => Some(text.to_owned()),
        Err(_) => None,
    }
}

/// Decodes input text, refusing malformed UTF-8.
pub fn decode_input_text(bytes: &[u8]) -> (r: Result<String, u32>)
    ensures
        r is Ok <==> vstd::utf8::valid_utf8(bytes@),
        r matches Ok(s) ==> vstd::utf8::encode_utf8(s@) == bytes@,
        r matches Err(s) ==> s == IME_STATUS_INVALID_UTF8,
{
    match utf8_text(bytes) {
        Some(text) => Ok(text),
        None => Err(IME_STATUS_INVALID_UTF8),
    }
}

/// Builds the Core event for a wire tag; only insert-text events use `text`.
pub fn event_from_wire(
    tag: u32,
    text: String,
    delta: i32,
    candidate_id: u32,
    state_revision: u64,
) -> (r: Result<InputEvent, u32>)
    ensures
        tag == IME_EVENT_INSERT_TEXT ==> (r matches Ok(InputEvent::InsertText(t)) && t@ == text@),
        tag == IME_EVENT_BACKSPACE ==> r == Ok::<InputEvent, u32>(InputEvent::Backspace),
        tag == IME_EVENT_DELETE_FORWARD ==> r == Ok::<InputEvent, u32>(InputEvent::DeleteForward),
        tag == IME_EVENT_MOVE_COMPOSITION_CURSOR ==> r == Ok::<InputEvent, u32>(
            InputEvent::MoveCompositionCursor { grapheme_delta: delta },
        ),
        tag == IME_EVENT_SELECT_CANDIDATE ==> r == Ok::<InputEvent, u32>(
            InputEvent::SelectCandidate {
                candidate_id: CandidateId(candidate_id),
                state_revision: StateRevision(state_revision),
            },
        ),
        tag == IME_EVENT_MOVE_CANDIDATE_SELECTION ==> r == Ok::<InputEvent, u32>(
            InputEvent::MoveCandidateSelection { delta },
        ),
        tag == IME_EVENT_COMMIT ==> r == Ok::<InputEvent, u32>(InputEvent::Commit),
        tag == IME_EVENT_CANCEL ==> r == Ok::<InputEvent, u32>(InputEvent::Cancel),
        tag == IME_EVENT_RESET ==> r == Ok::<InputEvent, u32>(InputEvent::Reset),
        (tag < IME_EVENT_INSERT_TEXT || tag > IME_EVENT_RESET) ==> r == Err::<InputEvent, u32>(
            IME_STATUS_UNSUPPORTED,
        ),
{
    if tag == IME_EVENT_INSERT_TEXT {
        Ok(InputEvent::InsertText(text))
    } else if tag == IME_EVENT_BACKSPACE {
        Ok(InputEvent::Backspace)
    } else if tag == IME_EVENT_DELETE_FORWARD {
        Ok(InputEvent::DeleteForward)
    } else if tag == IME_EVENT_MOVE_COMPOSITION_CURSOR {
        Ok(InputEvent::MoveCompositionCursor { grapheme_delta: delta })
    } else if tag == IME_EVENT_SELECT_CANDIDATE {
        Ok(
            InputEvent::SelectCandidate {
                candidate_id: CandidateId::new(candidate_id),
                state_revision: StateRevision::new(state_revision),
            },
        )
    } else if tag == IME_EVENT_MOVE_CANDIDATE_SELECTION {
        Ok(InputEvent::MoveCandidateSelection { delta })
    } else if tag == IME_EVENT_COMMIT {
        Ok(InputEvent::Commit)
    } else if tag == IME_EVENT_CANCEL {
        Ok(InputEvent::Cancel)
    } else if tag == IME_EVENT_RESET {
        Ok(InputEvent::Reset)
    } else {
        Err(IME_STATUS_UNSUPPORTED)
    }
}

/// Decodes an acknowledgement disposition.
pub fn parse_action_disposition(value: u32) -> (r: Result<ActionDisposition, u32>)
    ensures
        value == IME_ACTION_APPLIED ==> r == Ok::<ActionDisposition, u32>(ActionDisposition::Applied),
        value == IME_ACTION_REJECTED ==> r == Ok::<ActionDisposition, u32>(ActionDisposition::Rejected),
        value == IME_ACTION_UNAVAILABLE ==> r == Ok::<ActionDisposition, u32>(
            ActionDisposition::Unavailable,
        ),
        value == IME_ACTION_SUPERSEDED ==> r == Ok::<ActionDisposition, u32>(
            ActionDisposition::Superseded,
        ),
        value == IME_ACTION_FAILED ==> r == Ok::<ActionDisposition, u32>(ActionDisposition::Failed),
        value > IME_ACTION_FAILED ==> r == Err::<ActionDisposition, u32>(IME_STATUS_INVALID_ARGUMENT),
{
    match value {
        0 => Ok(ActionDisposition::Applied),
        1 => Ok(ActionDisposition::Rejected),
        2 => Ok(ActionDisposition::Unavailable),
        3 => Ok(ActionDisposition::Superseded),
        4 => Ok(ActionDisposition::Failed),
        _ => Err(IME_STATUS_INVALID_ARGUMENT),
    }
}

/// Wire code of an event status.
pub fn map_event_status(status: ImeStatus) -> (r: u32)
    ensures
        r == match status {
            ImeStatus::Success => IME_EVENT_STATUS_OK,
            ImeStatus::NoOp => IME_EVENT_STATUS_NO_OP,
            ImeStatus::Unsupported => IME_EVENT_STATUS_UNSUPPORTED,
        },
{
    match status {
        ImeStatus::Success => IME_EVENT_STATUS_OK,
        ImeStatus::NoOp => IME_EVENT_STATUS_NO_OP,
        ImeStatus::Unsupported => IME_EVENT_STATUS_UNSUPPORTED,
    }
}

/// Wire code of event handling.
pub fn map_event_handling(handling: EventHandling) -> (r: u32)
    ensures
        r == match handling {
            EventHandling::Consumed => IME_EVENT_HANDLING_CONSUMED,
            EventHandling::PassThrough => IME_EVENT_HANDLING_PASS_THROUGH,
        },
{
    match handling {
        EventHandling::Consumed => IME_EVENT_HANDLING_CONSUMED,
        EventHandling::PassThrough => IME_EVENT_HANDLING_PASS_THROUGH,
    }
}

/// Wire code of a session phase.
pub fn map_phase(phase: SessionPhase) -> (r: u32)
    ensures
        r == match phase {
            SessionPhase::Idle => IME_PHASE_IDLE,
            SessionPhase::Composing => IME_PHASE_COMPOSING,
            SessionPhase::CandidateSelecting => IME_PHASE_CANDIDATE_SELECTING,
        },
{
    match phase {
        SessionPhase::Idle => IME_PHASE_IDLE,
        SessionPhase::Composing => IME_PHASE_COMPOSING,
        SessionPhase::CandidateSelecting => IME_PHASE_CANDIDATE_SELECTING,
    }
}

/// Wire code of a commit kind.
pub fn map_commit_kind(kind: CommitKind) -> (r: u32)
    ensures
        r == match kind {
            CommitKind::Candidate => IME_COMMIT_CANDIDATE,
            CommitKind::RawFallback => IME_COMMIT_RAW_FALLBACK,
            CommitKind::DirectInput => IME_COMMIT_DIRECT_INPUT,
        },
{
    match kind {
        CommitKind::Candidate => IME_COMMIT_CANDIDATE,
        CommitKind::RawFallback => IME_COMMIT_RAW_FALLBACK,
        CommitKind::DirectInput => IME_COMMIT_DIRECT_INPUT,
    }
}

/// Wire code of a platform reset reason.
pub fn map_reset_reason(reason: PlatformResetReason) -> (r: u32)
    ensures
        r == match reason {
            PlatformResetReason::ExplicitReset => IME_RESET_EXPLICIT,
            PlatformResetReason::StateMismatch => IME_RESET_STATE_MISMATCH,
        },
{
    match reason {
        PlatformResetReason::ExplicitReset => IME_RESET_EXPLICIT,
        PlatformResetReason::StateMismatch => IME_RESET_STATE_MISMATCH,
    }
}

/// Wire code of a degraded component.
pub fn map_degraded_component(component: DegradedComponent) -> (r: u32)
    ensures
        r == degraded_code(component),
{
    match component {
        DegradedComponent::Language => IME_DEGRADED_LANGUAGE,
        DegradedComponent::Dictionary => IME_DEGRADED_DICTIONARY,
        DegradedComponent::Candidate => IME_DEGRADED_CANDIDATE,
        DegradedComponent::Ranking => IME_DEGRADED_RANKING,
    }
}

/// Wire code of a degraded component.
pub open spec fn degraded_code(component: DegradedComponent) -> u32 {
    match component {
        DegradedComponent::Language => IME_DEGRADED_LANGUAGE,
        DegradedComponent::Dictionary => IME_DEGRADED_DICTIONARY,
        DegradedComponent::Candidate => IME_DEGRADED_CANDIDATE,
        DegradedComponent::Ranking => IME_DEGRADED_RANKING,
    }
}

/// Status code of a Core error.
pub fn map_core_error(error: &ImeError) -> (r: u32)
    ensures
        r == error_status(*error),
{
    match error {
        ImeError::InvalidConfig(_) => IME_STATUS_INVALID_ARGUMENT,
        ImeError::EventTextTooLong { .. } => IME_STATUS_BUDGET_EXCEEDED,
        ImeError::CompositionTooLong { .. } => IME_STATUS_BUDGET_EXCEEDED,
        ImeError::ContextTextTooLong { .. } => IME_STATUS_BUDGET_EXCEEDED,
        ImeError::TooManyOutstandingActions { .. } => IME_STATUS_BUDGET_EXCEEDED,
        ImeError::UnknownAction(_) => IME_STATUS_UNKNOWN_ACTION,
        ImeError::StaleRevision { .. } => IME_STATUS_STALE_REVISION,
        ImeError::UnknownCandidate(_) => IME_STATUS_UNKNOWN_CANDIDATE,
        ImeError::CounterExhausted(_) => IME_STATUS_INTERNAL_ERROR,
    }
}

/// Status code of a Core error: configuration errors are invalid arguments, limit
/// violations exceed the budget, exhausted counters are internal errors.
pub open spec fn error_status(error: ImeError) -> u32 {
    match error {
        ImeError::InvalidConfig(_) => IME_STATUS_INVALID_ARGUMENT,
        ImeError::EventTextTooLong { .. } => IME_STATUS_BUDGET_EXCEEDED,
        ImeError::CompositionTooLong { .. } => IME_STATUS_BUDGET_EXCEEDED,
        ImeError::ContextTextTooLong { .. } => IME_STATUS_BUDGET_EXCEEDED,
        ImeError::TooManyOutstandingActions { .. } => IME_STATUS_BUDGET_EXCEEDED,
        ImeError::UnknownAction(_) => IME_STATUS_UNKNOWN_ACTION,
        ImeError::StaleRevision { .. } => IME_STATUS_STALE_REVISION,
        ImeError::UnknownCandidate(_) => IME_STATUS_UNKNOWN_CANDIDATE,
        ImeError::CounterExhausted(_) => IME_STATUS_INTERNAL_ERROR,
    }
}

/// The wire form of an action kind, with its text as UTF-8 bytes.
pub struct WireActionKind {
    pub tag: u32,
    pub commit_kind: u32,
    pub text: Vec<u8>,
    pub cursor_utf8_byte_offset: u64,
    pub operation_count: u32,
    pub reset_reason: u32,
}

/// The UTF-8 bytes of a text.
fn text_bytes(text: &String) -> (r: Vec<u8>)
    ensures
        r@ == vstd::utf8::encode_utf8(text@),
{
    text.as_str().as_bytes_vec()
}

/// The wire form of an action kind.
pub open spec fn wire_kind_matches(w: WireActionKind, k: ActionKindView) -> bool {
    match k {
        ActionKindView::SetCompositionText { text, cursor_utf8_byte_offset } => w.tag
            == IME_ACTION_SET_COMPOSITION_TEXT && w.commit_kind == 0 && w.text@
            == vstd::utf8::encode_utf8(text) && w.cursor_utf8_byte_offset == cursor_utf8_byte_offset
            && w.operation_count == 0 && w.reset_reason == 0,
        ActionKindView::FinishComposition => w.tag == IME_ACTION_FINISH_COMPOSITION
            && w.commit_kind == 0 && w.text@.len() == 0 && w.cursor_utf8_byte_offset == 0
            && w.operation_count == 0 && w.reset_reason == 0,
        ActionKindView::CancelComposition => w.tag == IME_ACTION_CANCEL_COMPOSITION
            && w.commit_kind == 0 && w.text@.len() == 0 && w.cursor_utf8_byte_offset == 0
            && w.operation_count == 0 && w.reset_reason == 0,
        ActionKindView::CommitText { text, commit_kind } => w.tag == IME_ACTION_COMMIT_TEXT
            && w.commit_kind == commit_code(commit_kind) && w.text@ == vstd::utf8::encode_utf8(text)
            && w.cursor_utf8_byte_offset == 0 && w.operation_count == 0 && w.reset_reason == 0,
        ActionKindView::DeleteBackward { operation_count } => w.tag == IME_ACTION_DELETE_BACKWARD
            && w.commit_kind == 0 && w.text@.len() == 0 && w.cursor_utf8_byte_offset == 0
            && w.operation_count == operation_count && w.reset_reason == 0,
        ActionKindView::RequestPlatformReset { reason } => w.tag
            == IME_ACTION_REQUEST_PLATFORM_RESET && w.commit_kind == 0 && w.text@.len() == 0
            && w.cursor_utf8_byte_offset == 0 && w.operation_count == 0 && w.reset_reason
            == reset_code(reason),
    }
}

/// Wire code of a commit kind.
pub open spec fn commit_code(kind: CommitKind) -> u32 {
    match kind {
        CommitKind::Candidate => IME_COMMIT_CANDIDATE,
        CommitKind::RawFallback => IME_COMMIT_RAW_FALLBACK,
        CommitKind::DirectInput => IME_COMMIT_DIRECT_INPUT,
    }
}

/// Wire code of a reset reason.
pub open spec fn reset_code(reason: PlatformResetReason) -> u32 {
    match reason {
        PlatformResetReason::ExplicitReset => IME_RESET_EXPLICIT,
        PlatformResetReason::StateMismatch => IME_RESET_STATE_MISMATCH,
    }
}

/// Converts an action kind to its wire form.
pub fn map_action_kind(kind: ImeActionKind) -> (r: Result<WireActionKind, u32>)
    ensures
        r matches Ok(w) && wire_kind_matches(w, kind@),
{
    match kind {
        ImeActionKind::SetCompositionText { text_utf8, cursor_utf8_byte_offset } => Ok(
            WireActionKind {
                tag: IME_ACTION_SET_COMPOSITION_TEXT,
                commit_kind: 0,
                text: text_bytes(&text_utf8),
                cursor_utf8_byte_offset: cursor_utf8_byte_offset as u64,
                operation_count: 0,
                reset_reason: 0,
            },
        ),
        ImeActionKind::FinishComposition => Ok(
            WireActionKind {
                tag: IME_ACTION_FINISH_COMPOSITION,
                commit_kind: 0,
                text: Vec::new(),
                cursor_utf8_byte_offset: 0,
                operation_count: 0,
                reset_reason: 0,
            },
        ),
        ImeActionKind::CancelComposition => Ok(
            WireActionKind {
                tag: IME_ACTION_CANCEL_COMPOSITION,
                commit_kind: 0,
                text: Vec::new(),
                cursor_utf8_byte_offset: 0,
                operation_count: 0,
                reset_reason: 0,
            },
        ),
        ImeActionKind::CommitText { text_utf8, commit_kind } => Ok(
            WireActionKind {
                tag: IME_ACTION_COMMIT_TEXT,
                commit_kind: map_commit_kind(commit_kind),
                text: text_bytes(&text_utf8),
                cursor_utf8_byte_offset: 0,
                operation_count: 0,
                reset_reason: 0,
            },
        ),
        ImeActionKind::DeleteBackward { operation_count } => Ok(
            WireActionKind {
                tag: IME_ACTION_DELETE_BACKWARD,
                commit_kind: 0,
                text: Vec::new(),
                cursor_utf8_byte_offset: 0,
                operation_count: operation_count as u32,
                reset_reason: 0,
            },
        ),
        ImeActionKind::RequestPlatformReset { reason } => Ok(
            WireActionKind {
                tag: IME_ACTION_REQUEST_PLATFORM_RESET,
                commit_kind: 0,
                text: Vec::new(),
                cursor_utf8_byte_offset: 0,
                operation_count: 0,
                reset_reason: map_reset_reason(reason),
            },
        ),
    }
}

/// Header fields of a wire result.
pub struct ResultMetadata {
    pub status: u32,
    pub event_handling: u32,
    pub session_id: u64,
    pub state_revision: u64,
    pub resource_generation: u64,
    pub reconciliation_required: bool,
}

/// One candidate in wire form.
pub struct WireCandidate {
    pub candidate_id: u32,
    pub text: Vec<u8>,
}

/// One action in wire form.
pub struct WireAction {
    pub action_id: u64,
    pub session_id: u64,
    pub originating_revision: u64,
    pub kind: WireActionKind,
}

/// Everything a wire result holds, as plain values.
pub struct ResultParts {
    pub metadata: ResultMetadata,
    pub phase: u32,
    pub composition: Vec<u8>,
    pub composition_cursor_grapheme: u64,
    pub composition_cursor_utf8_byte_offset: u64,
    pub candidates: Vec<WireCandidate>,
    pub has_selected_candidate: u32,
    pub selected_candidate_id: u32,
    pub actions: Vec<WireAction>,
    pub degraded_components: Vec<u32>,
}

/// The bytes of text an action carries.
pub open spec fn action_text_bytes(k: ActionKindView) -> nat {
    match k {
        ActionKindView::SetCompositionText { text, .. } => byte_len(text),
        ActionKindView::CommitText { text, .. } => byte_len(text),
        _ => 0,
    }
}

/// Bytes of candidate texts.
pub open spec fn candidate_text_bytes(c: Seq<CandidateView>) -> nat
    decreases c.len(),
{
    if c.len() == 0 {
        0
    } else {
        candidate_text_bytes(c.drop_last()) + byte_len(c.last().text@)
    }
}

/// Bytes of action texts.
pub open spec fn actions_text_bytes(a: Seq<ImeAction>) -> nat
    decreases a.len(),
{
    if a.len() == 0 {
        0
    } else {
        actions_text_bytes(a.drop_last()) + action_text_bytes(a.last().kind@)
    }
}

/// A result fits its wire budget: at most 64 candidates, 64 actions, and 64 KiB of
/// composition, candidate and action text together.
pub open spec fn within_budget(state: ImeState, actions: Seq<ImeAction>) -> bool {
    &&& state.candidates@.len() <= MAX_RESULT_CANDIDATES
    &&& actions.len() <= MAX_RESULT_ACTIONS
    &&& byte_len(state.composition_utf8@) + candidate_text_bytes(state.candidates@)
        + actions_text_bytes(actions) <= MAX_RESULT_TEXT_BYTES
}

/// Adds a byte count to a running total, failing beyond the text budget.
fn add_text_bytes(total: usize, bytes: usize) -> (r: Result<usize, u32>)
    requires
        total <= MAX_RESULT_TEXT_BYTES,
    ensures
        total + bytes <= MAX_RESULT_TEXT_BYTES ==> r == Ok::<usize, u32>((total + bytes) as usize),
        total + bytes > MAX_RESULT_TEXT_BYTES ==> r == Err::<usize, u32>(IME_STATUS_BUDGET_EXCEEDED),
{
    if bytes > MAX_RESULT_TEXT_BYTES - total {
        return Err(IME_STATUS_BUDGET_EXCEEDED);
    }
    Ok(total + bytes)
}

/// Checks a result against its wire budget.
pub fn check_result_budget(state: &ImeState, actions: &Vec<ImeAction>) -> (r: Result<(), u32>)
    ensures
        r is Ok <==> within_budget(*state, actions@),
        r matches Err(s) ==> s == IME_STATUS_BUDGET_EXCEEDED,
{
    if state.candidates.len() > MAX_RESULT_CANDIDATES || actions.len() > MAX_RESULT_ACTIONS {
        return Err(IME_STATUS_BUDGET_EXCEEDED);
    }
    let composition = crate::text::utf8_len(state.composition_utf8.as_str());
    if composition > MAX_RESULT_TEXT_BYTES {
        return Err(IME_STATUS_BUDGET_EXCEEDED);
    }
    let mut total: usize = composition;
    let ghost cs = state.candidates@;
    let mut i: usize = 0;
    while i < state.candidates.len()
        invariant
            i <= cs.len(),
            cs == state.candidates@,
            total == byte_len(state.composition_utf8@) + candidate_text_bytes(cs.take(i as int)),
            total <= MAX_RESULT_TEXT_BYTES,
        decreases cs.len() - i,
    {
        let bytes = crate::text::utf8_len(state.candidates[i].text.as_str());
        proof {
            assert(cs.take(i + 1).drop_last() =~= cs.take(i as int));
            assert(cs.take(i + 1).last() == cs[i as int]);
        }
        match add_text_bytes(total, bytes) {
            Ok(t) => {
                total = t;
            },
            Err(e) => {
                proof {
                    lemma_candidate_bytes_monotone(cs, i + 1);
                    assert(cs.take(cs.len() as int) =~= cs);
                }
                return Err(e);
            },
        }
        i = i + 1;
    }
    assert(cs.take(cs.len() as int) =~= cs);
    let ghost acts = actions@;
    let mut j: usize = 0;
    while j < actions.len()
        invariant
            j <= acts.len(),
            acts == actions@,
            total == byte_len(state.composition_utf8@) + candidate_text_bytes(state.candidates@)
                + actions_text_bytes(acts.take(j as int)),
            total <= MAX_RESULT_TEXT_BYTES,
        decreases acts.len() - j,
    {
        let bytes: usize = match &actions[j].kind {
            ImeActionKind::SetCompositionText { text_utf8, .. } => crate::text::utf8_len(
                text_utf8.as_str(),
            ),
            ImeActionKind::CommitText { text_utf8, .. } => crate::text::utf8_len(
                text_utf8.as_str(),
            ),
            _ => 0,
        };
        proof {
            assert(acts.take(j + 1).drop_last() =~= acts.take(j as int));
            assert(acts.take(j + 1).last() == acts[j as int]);
        }
        match add_text_bytes(total, bytes) {
            Ok(t) => {
                total = t;
            },
            Err(e) => {
                proof {
                    lemma_action_bytes_monotone(acts, j + 1);
                    assert(acts.take(acts.len() as int) =~= acts);
                }
                return Err(e);
            },
        }
        j = j + 1;
    }
    assert(acts.take(acts.len() as int) =~= acts);
    Ok(())
}

proof fn lemma_candidate_bytes_monotone(c: Seq<CandidateView>, n: int)
    requires
        0 <= n <= c.len(),
    ensures
        candidate_text_bytes(c.take(n)) <= candidate_text_bytes(c),
    decreases c.len() - n,
{
    if n < c.len() {
        lemma_candidate_bytes_monotone(c, n + 1);
        assert(c.take(n + 1).drop_last() =~= c.take(n));
    } else {
        assert(c.take(n) =~= c);
    }
}

proof fn lemma_action_bytes_monotone(a: Seq<ImeAction>, n: int)
    requires
        0 <= n <= a.len(),
    ensures
        actions_text_bytes(a.take(n)) <= actions_text_bytes(a),
    decreases a.len() - n,
{
    if n < a.len() {
        lemma_action_bytes_monotone(a, n + 1);
        assert(a.take(n + 1).drop_last() =~= a.take(n));
    } else {
        assert(a.take(n) =~= a);
    }
}

/// Wire code of a phase.
pub open spec fn phase_code(phase: SessionPhase) -> u32 {
    match phase {
        SessionPhase::Idle => IME_PHASE_IDLE,
        SessionPhase::Composing => IME_PHASE_COMPOSING,
        SessionPhase::CandidateSelecting => IME_PHASE_CANDIDATE_SELECTING,
    }
}

/// `parts` is the wire form of a result with `metadata`, `state`, `actions` and `degraded`.
pub open spec fn parts_match(
    parts: ResultParts,
    metadata: ResultMetadata,
    state: ImeState,
    actions: Seq<ImeAction>,
    degraded: Seq<DegradedComponent>,
) -> bool {
    &&& parts.metadata == metadata
    &&& parts.phase == phase_code(state.phase)
    &&& parts.composition@ == vstd::utf8::encode_utf8(state.composition_utf8@)
    &&& parts.composition_cursor_grapheme == state.composition_cursor_grapheme
    &&& parts.composition_cursor_utf8_byte_offset == state.composition_cursor_utf8_byte_offset
    &&& parts.candidates@.len() == state.candidates@.len()
    &&& forall|i: int|
        0 <= i < parts.candidates@.len() ==> {
            &&& (#[trigger] parts.candidates@[i]).candidate_id == state.candidates@[i].candidate_id.0
            &&& parts.candidates@[i].text@ == vstd::utf8::encode_utf8(state.candidates@[i].text@)
        }
    &&& match state.selected_candidate {
        Some(id) => parts.has_selected_candidate == 1 && parts.selected_candidate_id == id.0,
        None => parts.has_selected_candidate == 0 && parts.selected_candidate_id == 0,
    }
    &&& parts.actions@.len() == actions.len()
    &&& forall|i: int|
        0 <= i < actions.len() ==> {
            &&& (#[trigger] parts.actions@[i]).action_id == actions[i].action_id.0
            &&& parts.actions@[i].session_id == actions[i].session_id.0
            &&& parts.actions@[i].originating_revision == actions[i].originating_revision.0
            &&& wire_kind_matches(parts.actions@[i].kind, actions[i].kind@)
        }
    &&& parts.degraded_components@ == degraded.map_values(|c: DegradedComponent| degraded_code(c))
}

/// Builds the wire form of a result, refusing one beyond the wire budget rather than
/// producing part of it.
pub fn build_result_parts(
    metadata: ResultMetadata,
    state: ImeState,
    actions: Vec<ImeAction>,
    degraded_components: Vec<DegradedComponent>,
) -> (r: Result<ResultParts, u32>)
    ensures
        r is Ok <==> within_budget(state, actions@),
        r matches Err(s) ==> s == IME_STATUS_BUDGET_EXCEEDED,
        r matches Ok(parts) ==> parts_match(parts, metadata, state, actions@, degraded_components@),
{
    check_result_budget(&state, &actions)?;
    let composition = text_bytes(&state.composition_utf8);
    let mut candidates: Vec<WireCandidate> = Vec::new();
    let mut i: usize = 0;
    while i < state.candidates.len()
        invariant
            i <= state.candidates@.len(),
            candidates@.len() == i,
            forall|k: int|
                0 <= k < i ==> {
                    &&& (#[trigger] candidates@[k]).candidate_id == state.candidates@[k].candidate_id.0
                    &&& candidates@[k].text@ == vstd::utf8::encode_utf8(state.candidates@[k].text@)
                },
        decreases state.candidates@.len() - i,
    {
        let c = &state.candidates[i];
        candidates.push(WireCandidate { candidate_id: c.candidate_id.0, text: text_bytes(&c.text) });
        i = i + 1;
    }
    let mut wire_actions: Vec<WireAction> = Vec::new();
    let mut j: usize = 0;
    while j < actions.len()
        invariant
            j <= actions@.len(),
            wire_actions@.len() == j,
            forall|k: int|
                0 <= k < j ==> {
                    &&& (#[trigger] wire_actions@[k]).action_id == actions@[k].action_id.0
                    &&& wire_actions@[k].session_id == actions@[k].session_id.0
                    &&& wire_actions@[k].originating_revision == actions@[k].originating_revision.0
                    &&& wire_kind_matches(wire_actions@[k].kind, actions@[k].kind@)
                },
        decreases actions@.len() - j,
    {
        let a = &actions[j];
        let kind = match map_action_kind(a.kind.duplicate()) {
            Ok(k) => k,
            Err(e) => {
                return Err(e);
            },
        };
        wire_actions.push(
            WireAction {
                action_id: a.action_id.0,
                session_id: a.session_id.0,
                originating_revision: a.originating_revision.0,
                kind,
            },
        );
        j = j + 1;
    }
    let mut degraded: Vec<u32> = Vec::new();
    let mut k: usize = 0;
    while k < degraded_components.len()
        invariant
            k <= degraded_components@.len(),
            degraded@ == degraded_components@.take(k as int).map_values(
                |c: DegradedComponent| degraded_code(c),
            ),
        decreases degraded_components@.len() - k,
    {
        degraded.push(map_degraded_component(degraded_components[k]));
        k = k + 1;
        assert(degraded@ =~= degraded_components@.take(k as int).map_values(
            |c: DegradedComponent| degraded_code(c),
        ));
    }
    assert(degraded_components@.take(k as int) =~= degraded_components@);
    let (has_selected_candidate, selected_candidate_id): (u32, u32) = match state.selected_candidate {
        Some(id) => (1, id.0),
        None => (0, 0),
    };
    Ok(
        ResultParts {
            metadata,
            phase: map_phase(state.phase),
            composition,
            composition_cursor_grapheme: state.composition_cursor_grapheme as u64,
            composition_cursor_utf8_byte_offset: state.composition_cursor_utf8_byte_offset as u64,
            candidates,
            has_selected_candidate,
            selected_candidate_id,
            actions: wire_actions,
            degraded_components: degraded,
        },
    )
}

/// The records of the reference dictionary, in the order they are listed.
pub open spec fn reference_entries() -> Seq<EntryView> {
    seq![
        entry_view(1, "ni"@, "你"@, 1000),
        entry_view(2, "ni"@, "尼"@, 300),
        entry_view(3, "ni"@, "呢"@, 200),
        entry_view(4, "nih"@, "你好"@, 100),
        entry_view(5, "nihao"@, "你好"@, 3000),
        entry_view(6, "nihao"@, "你号"@, 100),
        entry_view(7, "hao"@, "好"@, 2000),
        entry_view(8, "hao"@, "号"@, 800),
        entry_view(9, "zhong"@, "中"@, 2000),
        entry_view(10, "zhongguo"@, "中国"@, 5000),
        entry_view(11, "zhongguo"@, "中国"@, 4500),
        entry_view(12, "wo"@, "我"@, 4000),
    ]
}

/// The reference dictionary loaded by engines created through the C ABI.
pub fn reference_dictionary() -> (r: InMemoryDictionary)
    ensures
        r@ == reference_entries().sort_by(entry_order()),
        r@.len() == 12,
{
    let entries = vec![
        DictionaryEntry::new(LexemeId::new(1), "ni", "你", 1000),
        DictionaryEntry::new(LexemeId::new(2), "ni", "尼", 300),
        DictionaryEntry::new(LexemeId::new(3), "ni", "呢", 200),
        DictionaryEntry::new(LexemeId::new(4), "nih", "你好", 100),
        DictionaryEntry::new(LexemeId::new(5), "nihao", "你好", 3000),
        DictionaryEntry::new(LexemeId::new(6), "nihao", "你号", 100),
        DictionaryEntry::new(LexemeId::new(7), "hao", "好", 2000),
        DictionaryEntry::new(LexemeId::new(8), "hao", "号", 800),
        DictionaryEntry::new(LexemeId::new(9), "zhong", "中", 2000),
        DictionaryEntry::new(LexemeId::new(10), "zhongguo", "中国", 5000),
        DictionaryEntry::new(LexemeId::new(11), "zhongguo", "中国", 4500),
        DictionaryEntry::new(LexemeId::new(12), "wo", "我", 4000),
    ];
    assert(entry_views(entries@) =~= reference_entries());
    InMemoryDictionary::new(entries)
}

/// Wire code of an event status.
pub open spec fn status_code(status: ImeStatus) -> u32 {
    match status {
        ImeStatus::Success => IME_EVENT_STATUS_OK,
        ImeStatus::NoOp => IME_EVENT_STATUS_NO_OP,
        ImeStatus::Unsupported => IME_EVENT_STATUS_UNSUPPORTED,
    }
}

/// Wire code of event handling.
pub open spec fn handling_code(handling: EventHandling) -> u32 {
    match handling {
        EventHandling::Consumed => IME_EVENT_HANDLING_CONSUMED,
        EventHandling::PassThrough => IME_EVENT_HANDLING_PASS_THROUGH,
    }
}

/// The wire form of an event's result.
pub fn build_process_result(result: ImeResult, reconciliation_required: bool) -> (r: Result<
    ResultParts,
    u32,
>)
    ensures
        r is Ok <==> within_budget(result.state, result.actions@),
        r matches Err(s) ==> s == IME_STATUS_BUDGET_EXCEEDED,
        r matches Ok(parts) ==> parts_match(
            parts,
            ResultMetadata {
                status: status_code(result.status),
                event_handling: handling_code(result.event_handling),
                session_id: result.session_id.0,
                state_revision: result.state_revision.0,
                resource_generation: result.resource_generation.0,
                reconciliation_required,
            },
            result.state,
            result.actions@,
            result.degraded_components@,
        ),
{
    let metadata = ResultMetadata {
        status: map_event_status(result.status),
        event_handling: map_event_handling(result.event_handling),
        session_id: result.session_id.0,
        state_revision: result.state_revision.0,
        resource_generation: result.resource_generation.0,
        reconciliation_required,
    };
    build_result_parts(metadata, result.state, result.actions, result.degraded_components)
}

/// Candidate lists with the same texts carry the same number of text bytes.
proof fn lemma_candidate_bytes_same_texts(a: Seq<CandidateView>, b: Seq<CandidateView>)
    requires
        a.len() == b.len(),
        forall|i: int| 0 <= i < a.len() ==> (#[trigger] a[i]).text@ == b[i].text@,
    ensures
        candidate_text_bytes(a) == candidate_text_bytes(b),
    decreases a.len(),
{
    if a.len() > 0 {
        let a1 = a.drop_last();
        let b1 = b.drop_last();
        assert forall|i: int| 0 <= i < a1.len() implies (#[trigger] a1[i]).text@ == b1[i].text@ by {
            assert(a1[i] == a[i] && b1[i] == b[i]);
        }
        lemma_candidate_bytes_same_texts(a1, b1);
        assert(a.last() == a[a.len() - 1]);
    }
}

/// The wire form of a Session snapshot: a successful, consumed result without actions.
///
/// It succeeds exactly when the Session's state fits the wire budget.
pub fn build_snapshot_result(session: &ImeSession) -> (r: Result<ResultParts, u32>)
    requires
        session.wf(),
    ensures
        r is Ok <==> (forall|st: ImeState|
            state_matches(st, session@) ==> #[trigger] within_budget(st, Seq::empty())),
        r matches Ok(parts) ==> {
            &&& parts.metadata.status == IME_EVENT_STATUS_OK
            &&& parts.metadata.event_handling == IME_EVENT_HANDLING_CONSUMED
            &&& parts.metadata.session_id == session@.session_id
            &&& parts.metadata.state_revision == session@.revision
            &&& parts.metadata.resource_generation == 0
            &&& parts.metadata.reconciliation_required == session@.reconciliation_required
            &&& parts.actions@.len() == 0
            &&& parts.degraded_components@ == session@.degraded.map_values(
                |c: DegradedComponent| degraded_code(c),
            )
            &&& exists|state: ImeState|
                state_matches(state, session@) && parts_match(
                    parts,
                    parts.metadata,
                    state,
                    Seq::empty(),
                    session@.degraded,
                )
        },
        r matches Err(s) ==> s == IME_STATUS_BUDGET_EXCEEDED,
{
    let metadata = ResultMetadata {
        status: IME_EVENT_STATUS_OK,
        event_handling: IME_EVENT_HANDLING_CONSUMED,
        session_id: session.id().0,
        state_revision: session.state_revision().0,
        resource_generation: session.resource_generation().0,
        reconciliation_required: session.reconciliation_required(),
    };
    let state = session.snapshot();
    let ghost sv = state;
    let degraded = copy_components(session.degraded_components());
    let actions: Vec<ImeAction> = Vec::new();
    let r = build_result_parts(metadata, state, actions, degraded);
    assert(state_matches(sv, session@));
    proof {
        assert forall|st: ImeState| state_matches(st, session@) implies #[trigger] within_budget(
            st,
            Seq::empty(),
        ) == within_budget(sv, Seq::empty()) by {
            assert(st.candidates@.len() == sv.candidates@.len());
            assert forall|i: int| 0 <= i < st.candidates@.len() implies (
            #[trigger] st.candidates@[i]).text@ == sv.candidates@[i].text@ by {}
            lemma_candidate_bytes_same_texts(st.candidates@, sv.candidates@);
        }
    }
    r
}

fn copy_components(components: &[DegradedComponent]) -> (r: Vec<DegradedComponent>)
    ensures
        r@ == components@,
{
    let mut out: Vec<DegradedComponent> = Vec::new();
    let mut i: usize = 0;
    while i < components.len()
        invariant
            i <= components@.len(),
            out@ == components@.take(i as int),
        decreases components@.len() - i,
    {
        out.push(components[i]);
        i = i + 1;
        assert(out@ =~= components@.take(i as int));
    }
    assert(out@ =~= components@);
    out
}

/// Status of an acknowledgement: a recorded disposition succeeds, while an identifier
/// that is unknown or already resolved is reported as an unknown action.
pub open spec fn ack_status(r: Result<AckOutcome, ImeError>) -> u32 {
    match r {
        Ok(AckOutcome::Recorded { .. }) => IME_STATUS_OK,
        Ok(AckOutcome::AlreadyResolved { .. }) => IME_STATUS_UNKNOWN_ACTION,
        Err(e) => error_status(e),
    }
}

/// Maps the result of an acknowledgement to its status code.
pub fn map_ack_result(r: &Result<AckOutcome, ImeError>) -> (s: u32)
    ensures
        s == ack_status(*r),
{
    match r {
        Ok(AckOutcome::Recorded { .. }) => IME_STATUS_OK,
        Ok(AckOutcome::AlreadyResolved { .. }) => IME_STATUS_UNKNOWN_ACTION,
        Err(e) => map_core_error(e),
    }
}

} // verus!
