use std::sync::Arc;

use vstd::prelude::{nat, Seq};

use ime_core::candidate::{CandidateProposal, CandidateProvider, ProposalView};
use ime_core::dictionary::{DictionaryEntry, InMemoryDictionary};
use ime_core::language::{LanguageEngine, ParsedInput, ReferenceLanguageEngine};
use ime_core::ranking::RankingEngine;
use ime_core::{
    AckOutcome, ActionDisposition, ActionId, CandidateId, CommitKind, ContextSnapshot, CoreLimits,
    DegradedComponent, EngineConfig, EventHandling, FocusChange, HardwareKeyEvent, ImeAction,
    ImeActionKind, ImeEngine, ImeError, ImeStatus, InputEvent, InputScope, KeyPhase, LexemeId,
    LogicalKey, MarkedTextSupport, Modifiers, PlatformCapabilities, ResourceGeneration,
    SessionPhase, SurroundingTextSupport,
};

fn engine_with_hardware() -> ImeEngine {
    ImeEngine::new(EngineConfig {
        capabilities: PlatformCapabilities {
            hardware_key_support: true,
            ..PlatformCapabilities::default()
        },
        ..EngineConfig::default()
    })
    .expect("test config is valid")
}

fn default_engine() -> ImeEngine {
    ImeEngine::new(EngineConfig::default()).expect("default test config is valid")
}

fn engine_with_candidates() -> ImeEngine {
    ImeEngine::with_reference_dictionary(
        EngineConfig::default(),
        InMemoryDictionary::new(vec![
            DictionaryEntry::new(LexemeId::new(1), "ni", "你", 1000),
            DictionaryEntry::new(LexemeId::new(2), "nih", "你好", 100),
            DictionaryEntry::new(LexemeId::new(3), "nihao", "你好", 3000),
            DictionaryEntry::new(LexemeId::new(4), "nihao", "你号", 100),
            DictionaryEntry::new(LexemeId::new(5), "nihaoma", "你好吗", 500),
        ]),
    )
    .expect("candidate test config is valid")
}

#[derive(Debug)]
struct FailingProvider;

impl CandidateProvider for FailingProvider {
    fn proposals_for(&self, _code: Seq<char>, _limit: nat) -> Option<Seq<ProposalView>> {
        None
    }

    fn component(&self) -> DegradedComponent {
        DegradedComponent::Candidate
    }

    fn generate(
        &self,
        _input: &ParsedInput,
        _limit: usize,
    ) -> Result<Vec<CandidateProposal>, ImeError> {
        Err(ImeError::InvalidConfig("injected candidate failure"))
    }

    fn degraded_component(&self) -> DegradedComponent {
        DegradedComponent::Candidate
    }
}

fn engine_with_marked_text() -> ImeEngine {
    ImeEngine::new(EngineConfig {
        capabilities: PlatformCapabilities {
            marked_text_support: MarkedTextSupport::Basic,
            ..PlatformCapabilities::default()
        },
        ..EngineConfig::default()
    })
    .expect("test config is valid")
}

fn hardware(logical_key: LogicalKey) -> HardwareKeyEvent {
    HardwareKeyEvent {
        physical_code: 0,
        logical_key,
        modifiers: Modifiers::empty(),
        phase: KeyPhase::Down,
        repeat_count: 1,
    }
}

#[test]
fn state_machine_insert_commit_and_cancel() {
    let engine = default_engine();
    let mut session = engine.new_session().expect("session id is available");

    let inserted = session
        .process_event(InputEvent::InsertText("abc".into()))
        .expect("insert succeeds");
    assert_eq!(inserted.state.phase, SessionPhase::Composing);
    assert_eq!(inserted.state.composition_utf8, "abc");

    let committed = session
        .process_event(InputEvent::Commit)
        .expect("commit succeeds");
    assert_eq!(committed.state.phase, SessionPhase::Idle);
    assert!(matches!(
        committed.actions.as_slice(),
        [ImeAction {
            kind: ImeActionKind::CommitText { .. },
            ..
        }]
    ));

    session
        .process_event(InputEvent::InsertText("x".into()))
        .expect("insert succeeds");
    let cancelled = session
        .process_event(InputEvent::Cancel)
        .expect("cancel succeeds");
    assert_eq!(cancelled.state.phase, SessionPhase::Idle);
    assert!(cancelled.state.composition_utf8.is_empty());
}

#[test]
fn deleting_last_grapheme_returns_to_idle() {
    let engine = default_engine();
    let mut session = engine.new_session().expect("session id is available");
    session
        .process_event(InputEvent::InsertText("😀".into()))
        .expect("insert succeeds");

    let result = session
        .process_event(InputEvent::Backspace)
        .expect("backspace succeeds");
    assert_eq!(result.state.phase, SessionPhase::Idle);
    assert!(result.state.composition_utf8.is_empty());
}

#[test]
fn reset_clears_state() {
    let engine = default_engine();
    let mut session = engine.new_session().expect("session id is available");
    session
        .process_event(InputEvent::InsertText("abc".into()))
        .expect("insert succeeds");

    let result = session
        .process_event(InputEvent::Reset)
        .expect("reset succeeds");
    assert_eq!(result.state.phase, SessionPhase::Idle);
    assert!(result.state.composition_utf8.is_empty());
}

#[test]
fn hardware_event_handling_obeys_composition_state() {
    let engine = engine_with_hardware();
    let mut session = engine.new_session().expect("session id is available");

    for key in [
        LogicalKey::Unknown,
        LogicalKey::Enter,
        LogicalKey::Backspace,
    ] {
        let result = session
            .process_event(InputEvent::HardwareKey(hardware(key)))
            .expect("hardware event succeeds");
        assert_eq!(result.event_handling, EventHandling::PassThrough);
    }

    let inserted = session
        .process_event(InputEvent::HardwareKey(hardware(LogicalKey::Character(
            'a',
        ))))
        .expect("character succeeds");
    assert_eq!(inserted.event_handling, EventHandling::Consumed);

    let committed = session
        .process_event(InputEvent::HardwareKey(hardware(LogicalKey::Enter)))
        .expect("enter succeeds");
    assert_eq!(committed.event_handling, EventHandling::Consumed);
    assert!(matches!(
        committed.actions[0].kind,
        ImeActionKind::CommitText { .. }
    ));
}

#[test]
fn logical_backspace_is_consumed_when_idle() {
    let engine = default_engine();
    let mut session = engine.new_session().expect("session id is available");
    let result = session
        .process_event(InputEvent::Backspace)
        .expect("logical backspace succeeds");

    assert_eq!(result.event_handling, EventHandling::Consumed);
    assert!(matches!(
        result.actions[0].kind,
        ImeActionKind::DeleteBackward { operation_count: 1 }
    ));
}

#[test]
fn revision_changes_only_when_session_state_changes() {
    let engine = engine_with_hardware();
    let mut session = engine.new_session().expect("session id is available");

    let pass = session
        .process_event(InputEvent::HardwareKey(hardware(LogicalKey::Unknown)))
        .expect("unknown key succeeds");
    assert_eq!(pass.state_revision.get(), 0);

    let insert = session
        .process_event(InputEvent::InsertText("a".into()))
        .expect("insert succeeds");
    assert_eq!(insert.state_revision.get(), 1);

    let no_op = session
        .process_event(InputEvent::MoveCompositionCursor { grapheme_delta: 9 })
        .expect("clamped movement succeeds");
    assert_eq!(no_op.status, ImeStatus::NoOp);
    assert_eq!(no_op.state_revision.get(), 1);
}

#[test]
fn action_ids_are_monotonic_and_duplicate_ack_is_idempotent() {
    let engine = default_engine();
    let mut session = engine.new_session().expect("session id is available");

    let first = session
        .process_event(InputEvent::Backspace)
        .expect("first action succeeds")
        .actions
        .remove(0);
    let second = session
        .process_event(InputEvent::Backspace)
        .expect("second action succeeds")
        .actions
        .remove(0);
    assert_eq!(first.action_id.get(), 1);
    assert_eq!(second.action_id.get(), 2);

    let recorded = session
        .acknowledge_action(first.action_id, ActionDisposition::Applied)
        .expect("ack succeeds");
    let duplicate = session
        .acknowledge_action(first.action_id, ActionDisposition::Failed)
        .expect("duplicate ack is safe");
    assert!(matches!(recorded, AckOutcome::Recorded { .. }));
    assert!(matches!(
        duplicate,
        AckOutcome::AlreadyResolved {
            disposition: ActionDisposition::Applied,
            ..
        }
    ));
}

#[test]
fn applied_commit_discards_recovery_and_stays_idle() {
    let engine = default_engine();
    let mut session = engine.new_session().expect("session id is available");
    session
        .process_event(InputEvent::InsertText("nihao".into()))
        .expect("insert succeeds");
    let action = session
        .process_event(InputEvent::Commit)
        .expect("commit succeeds")
        .actions
        .remove(0);
    let committed_revision = session.state_revision();

    let outcome = session
        .acknowledge_action(action.action_id, ActionDisposition::Applied)
        .expect("commit acknowledgement succeeds");
    assert!(matches!(outcome, AckOutcome::Recorded { .. }));
    assert_eq!(session.snapshot().phase, SessionPhase::Idle);
    assert!(session.snapshot().composition_utf8.is_empty());
    assert_eq!(session.outstanding_action_count(), 0);
    assert_eq!(session.state_revision(), committed_revision);

    let duplicate = session
        .acknowledge_action(action.action_id, ActionDisposition::Applied)
        .expect("duplicate acknowledgement is idempotent");
    assert!(matches!(
        duplicate,
        AckOutcome::AlreadyResolved {
            disposition: ActionDisposition::Applied,
            ..
        }
    ));
    assert_eq!(session.state_revision(), committed_revision);
}

#[test]
fn failed_commit_restores_text_and_grapheme_cursor() {
    let engine = default_engine();
    let mut session = engine.new_session().expect("session id is available");
    session
        .process_event(InputEvent::InsertText("nihao".into()))
        .expect("insert succeeds");
    session
        .process_event(InputEvent::MoveCompositionCursor { grapheme_delta: -2 })
        .expect("cursor move succeeds");
    let action = session
        .process_event(InputEvent::Commit)
        .expect("commit succeeds")
        .actions
        .remove(0);
    let post_commit_revision = action.originating_revision;
    assert_eq!(session.state_revision(), post_commit_revision);

    session
        .acknowledge_action(action.action_id, ActionDisposition::Failed)
        .expect("failed acknowledgement is recorded");
    let state = session.snapshot();
    assert_eq!(state.phase, SessionPhase::Composing);
    assert_eq!(state.composition_utf8, "nihao");
    assert_eq!(state.composition_cursor_grapheme, 3);
    assert_eq!(
        session.state_revision().get(),
        post_commit_revision.get() + 1
    );
    assert!(!session.reconciliation_required());
}

#[test]
fn rejected_commit_restores_composition() {
    let engine = default_engine();
    let mut session = engine.new_session().expect("session id is available");
    session
        .process_event(InputEvent::InsertText("nihao".into()))
        .expect("insert succeeds");
    let action = session
        .process_event(InputEvent::Commit)
        .expect("commit succeeds")
        .actions
        .remove(0);

    session
        .acknowledge_action(action.action_id, ActionDisposition::Rejected)
        .expect("rejected acknowledgement is recorded");
    assert_eq!(session.snapshot().phase, SessionPhase::Composing);
    assert_eq!(session.snapshot().composition_utf8, "nihao");
}

#[test]
fn unavailable_commit_restores_composition_without_forcing_reset() {
    let engine = default_engine();
    let mut session = engine.new_session().expect("session id is available");
    session
        .process_event(InputEvent::InsertText("nihao".into()))
        .expect("insert succeeds");
    let action = session
        .process_event(InputEvent::Commit)
        .expect("commit succeeds")
        .actions
        .remove(0);

    session
        .acknowledge_action(action.action_id, ActionDisposition::Unavailable)
        .expect("unavailable acknowledgement is recorded");
    assert_eq!(session.snapshot().phase, SessionPhase::Composing);
    assert_eq!(session.snapshot().composition_utf8, "nihao");
    assert!(!session.reconciliation_required());
}

#[test]
fn superseded_commit_does_not_restore_composition() {
    let engine = default_engine();
    let mut session = engine.new_session().expect("session id is available");
    session
        .process_event(InputEvent::InsertText("nihao".into()))
        .expect("insert succeeds");
    let action = session
        .process_event(InputEvent::Commit)
        .expect("commit succeeds")
        .actions
        .remove(0);

    session
        .acknowledge_action(action.action_id, ActionDisposition::Superseded)
        .expect("superseded acknowledgement is recorded");
    assert_eq!(session.snapshot().phase, SessionPhase::Idle);
    assert!(session.snapshot().composition_utf8.is_empty());
    assert!(!session.reconciliation_required());
}

#[test]
fn stale_commit_failure_never_overwrites_new_input() {
    let engine = default_engine();
    let mut session = engine.new_session().expect("session id is available");
    session
        .process_event(InputEvent::InsertText("abc".into()))
        .expect("first insert succeeds");
    let action = session
        .process_event(InputEvent::Commit)
        .expect("commit succeeds")
        .actions
        .remove(0);
    session
        .process_event(InputEvent::InsertText("x".into()))
        .expect("new input succeeds");

    session
        .acknowledge_action(action.action_id, ActionDisposition::Failed)
        .expect("stale failure is recorded");
    let state = session.snapshot();
    assert_eq!(state.phase, SessionPhase::Composing);
    assert_eq!(state.composition_utf8, "x");
    assert!(session.reconciliation_required());
}

#[test]
fn focus_change_makes_commit_recovery_stale() {
    let engine = default_engine();
    let mut session = engine.new_session().expect("session id is available");
    session
        .process_event(InputEvent::InsertText("abc".into()))
        .expect("insert succeeds");
    let action = session
        .process_event(InputEvent::Commit)
        .expect("commit succeeds")
        .actions
        .remove(0);
    session
        .process_event(InputEvent::FocusChanged(FocusChange {
            focused: false,
            context_epoch: 1,
        }))
        .expect("focus notification is handled structurally");

    session
        .acknowledge_action(action.action_id, ActionDisposition::Failed)
        .expect("stale failure is recorded");
    assert_eq!(session.snapshot().phase, SessionPhase::Idle);
    assert!(session.snapshot().composition_utf8.is_empty());
    assert!(session.reconciliation_required());

    let stale_revision = session.state_revision();
    session
        .process_event(InputEvent::Reset)
        .expect("reset clears reconciliation marker");
    assert!(!session.reconciliation_required());
    assert_eq!(session.state_revision().get(), stale_revision.get() + 1);
}

#[test]
fn context_change_makes_commit_recovery_stale() {
    let engine = default_engine();
    let mut session = engine.new_session().expect("session id is available");
    session
        .process_event(InputEvent::InsertText("abc".into()))
        .expect("insert succeeds");
    let action = session
        .process_event(InputEvent::Commit)
        .expect("commit succeeds")
        .actions
        .remove(0);
    session
        .process_event(InputEvent::ContextChanged(ContextSnapshot::empty(
            InputScope::Normal,
            1,
        )))
        .expect("context change succeeds");

    session
        .acknowledge_action(action.action_id, ActionDisposition::Rejected)
        .expect("stale rejection is recorded");
    assert_eq!(session.snapshot().phase, SessionPhase::Idle);
    assert!(session.snapshot().composition_utf8.is_empty());
    assert!(session.reconciliation_required());
}

#[test]
fn reset_supersedes_pending_commit_recovery() {
    let engine = default_engine();
    let mut session = engine.new_session().expect("session id is available");
    session
        .process_event(InputEvent::InsertText("abc".into()))
        .expect("insert succeeds");
    let action = session
        .process_event(InputEvent::Commit)
        .expect("commit succeeds")
        .actions
        .remove(0);

    session
        .process_event(InputEvent::Reset)
        .expect("reset succeeds");
    let outcome = session
        .acknowledge_action(action.action_id, ActionDisposition::Failed)
        .expect("old commit remains known as superseded");
    assert!(matches!(
        outcome,
        AckOutcome::AlreadyResolved {
            disposition: ActionDisposition::Superseded,
            ..
        }
    ));
    assert_eq!(session.snapshot().phase, SessionPhase::Idle);
    assert!(session.snapshot().composition_utf8.is_empty());
    assert!(!session.reconciliation_required());
}

#[test]
fn duplicate_failed_ack_restores_only_once() {
    let engine = default_engine();
    let mut session = engine.new_session().expect("session id is available");
    session
        .process_event(InputEvent::InsertText("abc".into()))
        .expect("insert succeeds");
    let action = session
        .process_event(InputEvent::Commit)
        .expect("commit succeeds")
        .actions
        .remove(0);
    session
        .acknowledge_action(action.action_id, ActionDisposition::Failed)
        .expect("first failure is recorded");
    let restored_revision = session.state_revision();

    let duplicate = session
        .acknowledge_action(action.action_id, ActionDisposition::Failed)
        .expect("duplicate failure is idempotent");
    assert!(matches!(
        duplicate,
        AckOutcome::AlreadyResolved {
            disposition: ActionDisposition::Failed,
            ..
        }
    ));
    assert_eq!(session.state_revision(), restored_revision);
    assert_eq!(session.snapshot().composition_utf8, "abc");
}

#[test]
fn pending_commit_recovery_obeys_outstanding_action_limit() {
    let engine = ImeEngine::new(EngineConfig {
        limits: CoreLimits {
            max_outstanding_actions: 2,
            ..CoreLimits::default()
        },
        ..EngineConfig::default()
    })
    .expect("test config is valid");
    let mut session = engine.new_session().expect("session id is available");

    for text in ["a", "b"] {
        session
            .process_event(InputEvent::InsertText(text.into()))
            .expect("insert succeeds");
        session
            .process_event(InputEvent::Commit)
            .expect("bounded commit succeeds");
    }
    session
        .process_event(InputEvent::InsertText("c".into()))
        .expect("third insert succeeds");

    assert_eq!(
        session.process_event(InputEvent::Commit),
        Err(ImeError::TooManyOutstandingActions { max: 2 })
    );
    assert_eq!(session.outstanding_action_count(), 2);
    assert_eq!(session.snapshot().composition_utf8, "c");
}

#[test]
fn failed_set_composition_ack_does_not_mutate_composer() {
    let engine = engine_with_marked_text();
    let mut session = engine.new_session().expect("session id is available");
    let action = session
        .process_event(InputEvent::InsertText("a".into()))
        .expect("insert succeeds")
        .actions
        .remove(0);

    session
        .acknowledge_action(action.action_id, ActionDisposition::Failed)
        .expect("failure is recorded");
    assert_eq!(session.snapshot().composition_utf8, "a");
    assert_eq!(session.outstanding_action_count(), 0);

    let duplicate = session
        .acknowledge_action(action.action_id, ActionDisposition::Applied)
        .expect("duplicate acknowledgement is idempotent");
    assert!(matches!(
        duplicate,
        AckOutcome::AlreadyResolved {
            disposition: ActionDisposition::Failed,
            ..
        }
    ));
    assert_eq!(session.snapshot().composition_utf8, "a");
}

#[test]
fn marked_text_action_uses_utf8_byte_cursor() {
    let engine = engine_with_marked_text();
    let mut session = engine.new_session().expect("session id is available");
    let result = session
        .process_event(InputEvent::InsertText("😀".into()))
        .expect("insert succeeds");

    assert!(matches!(
        result.actions.as_slice(),
        [ImeAction {
            kind: ImeActionKind::SetCompositionText {
                text_utf8,
                cursor_utf8_byte_offset: 4,
            },
            ..
        }] if text_utf8 == "😀"
    ));
}

#[test]
fn acknowledged_platform_composition_is_cancelled_explicitly() {
    let engine = engine_with_marked_text();
    let mut session = engine.new_session().expect("session id is available");
    let set_action = session
        .process_event(InputEvent::InsertText("a".into()))
        .expect("insert succeeds")
        .actions
        .remove(0);
    session
        .acknowledge_action(set_action.action_id, ActionDisposition::Applied)
        .expect("set composition ack succeeds");

    let cancelled = session
        .process_event(InputEvent::Cancel)
        .expect("cancel succeeds");
    assert!(matches!(
        cancelled.actions.as_slice(),
        [ImeAction {
            kind: ImeActionKind::CancelComposition,
            ..
        }]
    ));
}

#[test]
fn event_and_composition_limits_are_structured_errors() {
    let engine = ImeEngine::new(EngineConfig {
        limits: CoreLimits {
            max_event_text_bytes: 4,
            max_composition_text_bytes: 4,
            ..CoreLimits::default()
        },
        ..EngineConfig::default()
    })
    .expect("test config is valid");
    let mut session = engine.new_session().expect("session id is available");

    assert_eq!(
        session.process_event(InputEvent::InsertText("12345".into())),
        Err(ImeError::EventTextTooLong { actual: 5, max: 4 })
    );
    session
        .process_event(InputEvent::InsertText("1234".into()))
        .expect("maximum-size event succeeds");
    assert_eq!(
        session.process_event(InputEvent::InsertText("x".into())),
        Err(ImeError::CompositionTooLong { actual: 5, max: 4 })
    );
    assert_eq!(session.state_revision().get(), 1);
}

#[test]
fn context_capabilities_and_limits_are_enforced() {
    let engine = ImeEngine::new(EngineConfig {
        limits: CoreLimits {
            max_context_text_bytes: 3,
            ..CoreLimits::default()
        },
        capabilities: PlatformCapabilities {
            surrounding_text_support: SurroundingTextSupport::Bidirectional,
            selected_text_read_support: true,
            ..PlatformCapabilities::default()
        },
    })
    .expect("test config is valid");
    let mut session = engine.new_session().expect("session id is available");
    let context = ContextSnapshot::new("1234", "", "", InputScope::Normal, 1);

    assert_eq!(
        session.process_event(InputEvent::ContextChanged(context)),
        Err(ImeError::ContextTextTooLong {
            field: "before_cursor_utf8",
            actual: 4,
            max: 3,
        })
    );
    assert_eq!(session.state_revision().get(), 0);
}

#[test]
fn command_modified_hardware_character_passes_through() {
    let engine = engine_with_hardware();
    let mut session = engine.new_session().expect("session id is available");
    let mut event = hardware(LogicalKey::Character('c'));
    event.modifiers = Modifiers::control();

    let result = session
        .process_event(InputEvent::HardwareKey(event))
        .expect("modified key succeeds");
    assert_eq!(result.event_handling, EventHandling::PassThrough);
    assert!(result.actions.is_empty());
    assert_eq!(result.state_revision.get(), 0);
}

#[test]
fn unknown_ack_is_an_error() {
    let engine = default_engine();
    let mut session = engine.new_session().expect("session id is available");

    assert_eq!(
        session.acknowledge_action(ActionId::new(99), ActionDisposition::Applied),
        Err(ImeError::UnknownAction(ActionId::new(99)))
    );
}

#[test]
fn reset_supersedes_pending_action() {
    let engine = engine_with_marked_text();
    let mut session = engine.new_session().expect("session id is available");
    let action = session
        .process_event(InputEvent::InsertText("a".into()))
        .expect("insert succeeds")
        .actions
        .remove(0);

    session
        .process_event(InputEvent::Reset)
        .expect("reset succeeds");
    let outcome = session
        .acknowledge_action(action.action_id, ActionDisposition::Applied)
        .expect("superseded action remains known");
    assert!(matches!(
        outcome,
        AckOutcome::AlreadyResolved {
            disposition: ActionDisposition::Superseded,
            ..
        }
    ));
}

#[test]
fn sensitive_context_is_discarded() {
    for scope in [InputScope::Password, InputScope::Sensitive] {
        let engine = default_engine();
        let mut session = engine.new_session().expect("session id is available");
        let context =
            ContextSnapshot::new("secret-before", "secret-selected", "secret-after", scope, 1);

        session
            .process_event(InputEvent::ContextChanged(context))
            .expect("sensitive context is accepted and discarded");
        assert!(session.context().before_cursor_utf8().is_empty());
        assert!(session.context().selected_text_utf8().is_empty());
        assert!(session.context().after_cursor_utf8().is_empty());
    }
}

#[test]
fn unknown_scope_uses_conservative_policy() {
    assert!(!InputScope::Unknown.permits_persistent_learning());
    assert!(!InputScope::Unknown.permits_private_history_prediction());

    let engine = default_engine();
    let mut session = engine.new_session().expect("session id is available");
    let context =
        ContextSnapshot::new("private", "selection", "context", InputScope::Unknown, 1);
    session
        .process_event(InputEvent::ContextChanged(context))
        .expect("unknown context is accepted conservatively");
    assert!(session.context().before_cursor_utf8().is_empty());
}

#[test]
fn sessions_are_isolated_and_share_engine_identity() {
    let engine = default_engine();
    let mut first = engine.new_session().expect("first session id is available");
    let second = engine
        .new_session()
        .expect("second session id is available");

    first
        .process_event(InputEvent::InsertText("first".into()))
        .expect("insert succeeds");

    assert_ne!(first.id(), second.id());
    assert_eq!(first.engine_id(), second.engine_id());
    assert_eq!(first.snapshot().composition_utf8, "first");
    assert!(second.snapshot().composition_utf8.is_empty());
    assert_eq!(
        engine.resource_generation(),
        ResourceGeneration::new(0)
    );
}

#[test]
fn engine_handle_can_drop_before_session() {
    let mut session = {
        let engine = default_engine();
        engine.new_session().expect("session id is available")
    };

    let result = session
        .process_event(InputEvent::InsertText("still alive".into()))
        .expect("session retains EngineInner");
    assert_eq!(result.state.composition_utf8, "still alive");
}

#[test]
fn typing_generates_deterministic_case_normalized_candidates() {
    let engine = engine_with_candidates();
    let mut lowercase = engine.new_session().expect("session id is available");
    let mut uppercase = engine.new_session().expect("session id is available");

    let lower = lowercase
        .process_event(InputEvent::InsertText("nihao".into()))
        .expect("lowercase insert succeeds");
    let upper = uppercase
        .process_event(InputEvent::InsertText("NIHAO".into()))
        .expect("uppercase insert succeeds");

    assert_eq!(lower.state.phase, SessionPhase::CandidateSelecting);
    assert_eq!(upper.state.phase, SessionPhase::CandidateSelecting);
    let lower_text: Vec<_> = lower
        .state
        .candidates
        .iter()
        .map(|candidate| candidate.text.as_str())
        .collect();
    let upper_text: Vec<_> = upper
        .state
        .candidates
        .iter()
        .map(|candidate| candidate.text.as_str())
        .collect();
    assert_eq!(lower_text, upper_text);
    assert_eq!(lower_text, ["你好", "你号", "你好吗"]);
}

#[test]
fn editing_regenerates_candidates_and_rejects_old_revision() {
    let engine = engine_with_candidates();
    let mut session = engine.new_session().expect("session id is available");
    let first = session
        .process_event(InputEvent::InsertText("ni".into()))
        .expect("first insert succeeds");
    let old_revision = first.state_revision;

    let edited = session
        .process_event(InputEvent::InsertText("hao".into()))
        .expect("editing succeeds");
    assert_ne!(edited.state_revision, old_revision);
    assert_eq!(edited.state.candidates[0].text, "你好");

    let stale = session.process_event(InputEvent::SelectCandidate {
        candidate_id: CandidateId::new(1),
        state_revision: old_revision,
    });
    assert!(matches!(stale, Err(ImeError::StaleRevision { .. })));
}

#[test]
fn candidate_selection_commits_candidate_and_applied_finishes_idle() {
    let engine = engine_with_candidates();
    let mut session = engine.new_session().expect("session id is available");
    let generated = session
        .process_event(InputEvent::InsertText("nihao".into()))
        .expect("insert succeeds");
    let committed = session
        .process_event(InputEvent::SelectCandidate {
            candidate_id: CandidateId::new(1),
            state_revision: generated.state_revision,
        })
        .expect("selection succeeds");

    assert!(matches!(
        &committed.actions[0].kind,
        ImeActionKind::CommitText {
            text_utf8,
            commit_kind: CommitKind::Candidate,
        } if text_utf8 == "你好"
    ));
    assert_eq!(committed.state.phase, SessionPhase::Idle);
    assert!(committed.state.candidates.is_empty());

    session
        .acknowledge_action(committed.actions[0].action_id, ActionDisposition::Applied)
        .expect("candidate commit acknowledgement succeeds");
    assert_eq!(session.snapshot().phase, SessionPhase::Idle);
    assert!(session.snapshot().candidates.is_empty());
}

#[test]
fn failed_candidate_commit_restores_raw_input_with_new_snapshot() {
    let engine = engine_with_candidates();
    let mut session = engine.new_session().expect("session id is available");
    let generated = session
        .process_event(InputEvent::InsertText("nihao".into()))
        .expect("insert succeeds");
    let old_revision = generated.state_revision;
    let action = session
        .process_event(InputEvent::SelectCandidate {
            candidate_id: CandidateId::new(1),
            state_revision: old_revision,
        })
        .expect("selection succeeds")
        .actions
        .remove(0);
    let post_commit_revision = session.state_revision();

    session
        .acknowledge_action(action.action_id, ActionDisposition::Failed)
        .expect("failed commit is recovered");
    let restored = session.snapshot();
    assert_eq!(restored.phase, SessionPhase::CandidateSelecting);
    assert_eq!(restored.composition_utf8, "nihao");
    assert_eq!(restored.candidates[0].candidate_id, CandidateId::new(1));
    assert!(session.state_revision() > post_commit_revision);

    let stale = session.process_event(InputEvent::SelectCandidate {
        candidate_id: CandidateId::new(1),
        state_revision: old_revision,
    });
    assert!(matches!(stale, Err(ImeError::StaleRevision { .. })));
}

#[test]
fn stale_candidate_commit_failure_does_not_overwrite_new_input() {
    let engine = engine_with_candidates();
    let mut session = engine.new_session().expect("session id is available");
    let generated = session
        .process_event(InputEvent::InsertText("nihao".into()))
        .expect("insert succeeds");
    let action = session
        .process_event(InputEvent::SelectCandidate {
            candidate_id: CandidateId::new(1),
            state_revision: generated.state_revision,
        })
        .expect("selection succeeds")
        .actions
        .remove(0);
    session
        .process_event(InputEvent::InsertText("x".into()))
        .expect("new input succeeds");

    session
        .acknowledge_action(action.action_id, ActionDisposition::Failed)
        .expect("stale failure is recorded");
    assert_eq!(session.snapshot().composition_utf8, "x");
    assert!(session.reconciliation_required());
}

#[test]
fn raw_commit_remains_direct_input_when_candidates_exist() {
    let engine = engine_with_candidates();
    let mut session = engine.new_session().expect("session id is available");
    session
        .process_event(InputEvent::InsertText("nihao".into()))
        .expect("insert succeeds");
    let committed = session
        .process_event(InputEvent::Commit)
        .expect("raw commit succeeds");
    assert!(matches!(
        &committed.actions[0].kind,
        ImeActionKind::CommitText {
            text_utf8,
            commit_kind: CommitKind::DirectInput,
        } if text_utf8 == "nihao"
    ));
}

#[test]
fn moving_candidate_selection_clamps_and_invalidates_old_revision() {
    let engine = engine_with_candidates();
    let mut session = engine.new_session().expect("session id is available");
    let generated = session
        .process_event(InputEvent::InsertText("nihao".into()))
        .expect("insert succeeds");
    assert_eq!(
        generated.state.selected_candidate,
        Some(CandidateId::new(1))
    );

    let moved = session
        .process_event(InputEvent::MoveCandidateSelection { delta: 1 })
        .expect("selection movement succeeds");
    assert_eq!(moved.state.selected_candidate, Some(CandidateId::new(2)));
    assert!(moved.state_revision > generated.state_revision);

    let clamped = session
        .process_event(InputEvent::MoveCandidateSelection { delta: 99 })
        .expect("clamped movement succeeds");
    assert_eq!(clamped.state.selected_candidate, Some(CandidateId::new(3)));
    let no_op = session
        .process_event(InputEvent::MoveCandidateSelection { delta: 1 })
        .expect("boundary movement succeeds");
    assert_eq!(no_op.status, ImeStatus::NoOp);

    let stale = session.process_event(InputEvent::SelectCandidate {
        candidate_id: CandidateId::new(1),
        state_revision: generated.state_revision,
    });
    assert!(matches!(stale, Err(ImeError::StaleRevision { .. })));
}

#[test]
fn cancel_and_reset_clear_candidates() {
    let engine = engine_with_candidates();
    let mut session = engine.new_session().expect("session id is available");
    session
        .process_event(InputEvent::InsertText("nihao".into()))
        .expect("insert succeeds");
    let cancelled = session
        .process_event(InputEvent::Cancel)
        .expect("cancel succeeds");
    assert!(cancelled.state.candidates.is_empty());

    session
        .process_event(InputEvent::InsertText("nihao".into()))
        .expect("insert succeeds");
    let reset = session
        .process_event(InputEvent::Reset)
        .expect("reset succeeds");
    assert!(reset.state.candidates.is_empty());
}

#[test]
fn recoverable_pipeline_failure_keeps_direct_input_available() {
    let language: Arc<dyn LanguageEngine> = Arc::new(ReferenceLanguageEngine);
    let provider: Arc<dyn CandidateProvider> = Arc::new(FailingProvider);
    let engine = ImeEngine::with_candidate_pipeline(
        EngineConfig::default(),
        language,
        vec![provider],
        RankingEngine,
    )
    .expect("failure test engine is valid");
    let mut session = engine.new_session().expect("session id is available");
    let inserted = session
        .process_event(InputEvent::InsertText("raw".into()))
        .expect("raw input survives pipeline failure");
    assert_eq!(inserted.state.phase, SessionPhase::Composing);
    assert!(inserted.state.candidates.is_empty());
    assert_eq!(inserted.degraded_components, [DegradedComponent::Candidate]);

    let committed = session
        .process_event(InputEvent::Commit)
        .expect("direct commit remains available");
    assert!(matches!(
        &committed.actions[0].kind,
        ImeActionKind::CommitText {
            text_utf8,
            commit_kind: CommitKind::DirectInput,
        } if text_utf8 == "raw"
    ));
}

#[test]
fn candidate_events_are_structured_unsupported() {
    let engine = default_engine();
    let mut session = engine.new_session().expect("session id is available");
    let result = session
        .process_event(InputEvent::SelectCandidate {
            candidate_id: CandidateId::new(1),
            state_revision: session.state_revision(),
        })
        .expect("unsupported event does not panic");

    assert_eq!(result.status, ImeStatus::Unsupported);
    assert_eq!(result.event_handling, EventHandling::Consumed);
    assert_eq!(result.state_revision.get(), 0);
}
