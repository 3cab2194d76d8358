use std::sync::Arc;

use ime_core::candidate::{
    CandidateEngine, CandidateProvider, DictionaryCandidateProvider, MatchKind,
};
use ime_core::dictionary::{DictionaryEntry, InMemoryDictionary};
use ime_core::language::{LanguageEngine, ReferenceLanguageEngine};
use ime_core::{
    AckOutcome, ActionDisposition, CandidateId, EngineConfig, HardwareKeyEvent, ImeActionKind,
    ImeEngine, ImeError, ImeStatus, InputEvent, KeyPhase, LogicalKey, MarkedTextSupport,
    Modifiers, PlatformCapabilities, SessionPhase, StateRevision,
};

fn marked_engine() -> ImeEngine {
    ImeEngine::new(EngineConfig {
        capabilities: PlatformCapabilities {
            marked_text_support: MarkedTextSupport::Basic,
            hardware_key_support: true,
            ..PlatformCapabilities::default()
        },
        ..EngineConfig::default()
    })
    .expect("config is valid")
}

#[test]
fn each_event_moves_the_revision_by_at_most_one() {
    let engine = marked_engine();
    let mut session = engine.new_session().expect("session");
    let events = vec![
        InputEvent::InsertText("ab".into()),
        InputEvent::MoveCompositionCursor { grapheme_delta: -1 },
        InputEvent::Backspace,
        InputEvent::DeleteForward,
        InputEvent::Commit,
        InputEvent::Backspace,
        InputEvent::Reset,
        InputEvent::NextCandidatePage,
    ];
    let mut previous = session.state_revision().get();
    for event in events {
        let result = session.process_event(event).expect("event succeeds");
        let now = result.state_revision.get();
        assert!(now == previous || now == previous + 1);
        assert_eq!(now, session.state_revision().get());
        previous = now;
    }
}

#[test]
fn quiet_events_keep_revision_and_composition() {
    let engine = marked_engine();
    let mut session = engine.new_session().expect("session");
    session.process_event(InputEvent::InsertText("abc".into())).expect("insert");
    let before = session.snapshot();
    let revision = session.state_revision();
    for event in [
        InputEvent::MoveCompositionCursor { grapheme_delta: 5 },
        InputEvent::DeleteForward,
        InputEvent::PreviousCandidatePage,
        InputEvent::MoveCandidateSelection { delta: 1 },
    ] {
        let result = session.process_event(event).expect("event succeeds");
        assert_ne!(result.status, ImeStatus::Success);
        assert!(result.actions.is_empty());
        assert_eq!(result.state_revision, revision);
        assert_eq!(result.state.composition_utf8, before.composition_utf8);
    }
}

#[test]
fn issued_actions_have_consecutive_fresh_identifiers() {
    let engine = marked_engine();
    let mut session = engine.new_session().expect("session");
    let mut ids = Vec::new();
    for event in [
        InputEvent::InsertText("a".into()),
        InputEvent::InsertText("b".into()),
        InputEvent::Commit,
        InputEvent::Backspace,
    ] {
        let result = session.process_event(event).expect("event succeeds");
        assert!(result.actions.len() <= 1);
        for action in &result.actions {
            assert_eq!(action.originating_revision, result.state_revision);
            ids.push(action.action_id.get());
        }
    }
    assert_eq!(ids, vec![1, 2, 3, 4]);
}

#[test]
fn a_later_event_retires_an_earlier_commit_recovery() {
    let engine = marked_engine();
    let mut session = engine.new_session().expect("session");
    session.process_event(InputEvent::InsertText("abc".into())).expect("insert");
    let commit = session.process_event(InputEvent::Commit).expect("commit").actions.remove(0);
    let key = HardwareKeyEvent {
        physical_code: 0,
        logical_key: LogicalKey::Unknown,
        modifiers: Modifiers::empty(),
        phase: KeyPhase::Down,
        repeat_count: 1,
    };
    session.process_event(InputEvent::HardwareKey(key)).expect("key passes through");
    session
        .acknowledge_action(commit.action_id, ActionDisposition::Failed)
        .expect("failure recorded");
    assert!(session.reconciliation_required());
    assert!(session.snapshot().composition_utf8.is_empty());
}

#[test]
fn second_acknowledgement_reports_the_first_disposition() {
    let engine = marked_engine();
    let mut session = engine.new_session().expect("session");
    let action = session
        .process_event(InputEvent::InsertText("a".into()))
        .expect("insert")
        .actions
        .remove(0);
    let first = session
        .acknowledge_action(action.action_id, ActionDisposition::Rejected)
        .expect("recorded");
    assert_eq!(
        first,
        AckOutcome::Recorded { action_id: action.action_id, disposition: ActionDisposition::Rejected }
    );
    let state = session.snapshot();
    let second = session
        .acknowledge_action(action.action_id, ActionDisposition::Applied)
        .expect("already resolved");
    assert_eq!(
        second,
        AckOutcome::AlreadyResolved {
            action_id: action.action_id,
            disposition: ActionDisposition::Rejected
        }
    );
    assert_eq!(session.snapshot(), state);
}

#[test]
fn reset_leaves_only_the_reset_request_pending() {
    let engine = marked_engine();
    let mut session = engine.new_session().expect("session");
    session.process_event(InputEvent::InsertText("a".into())).expect("insert");
    session.process_event(InputEvent::InsertText("b".into())).expect("insert");
    let reset = session.process_event(InputEvent::Reset).expect("reset");
    assert_eq!(reset.state.phase, SessionPhase::Idle);
    assert!(reset.state.composition_utf8.is_empty());
    assert_eq!(session.outstanding_action_count(), 1);
    assert!(matches!(
        reset.actions[0].kind,
        ImeActionKind::RequestPlatformReset { .. }
    ));
}

#[test]
fn a_stale_selection_changes_nothing() {
    let engine = marked_engine();
    let mut session = engine.new_session().expect("session");
    session.process_event(InputEvent::InsertText("a".into())).expect("insert");
    let state = session.snapshot();
    let revision = session.state_revision();
    let result = session.process_event(InputEvent::SelectCandidate {
        candidate_id: CandidateId::new(1),
        state_revision: StateRevision::new(revision.get() + 5),
    });
    assert_eq!(
        result,
        Err(ImeError::StaleRevision {
            expected: revision,
            actual: StateRevision::new(revision.get() + 5),
        })
    );
    assert_eq!(session.snapshot(), state);
    assert_eq!(session.state_revision(), revision);
}

#[test]
fn failed_commit_brings_back_text_cursor_and_next_revision() {
    let engine = marked_engine();
    let mut session = engine.new_session().expect("session");
    session.process_event(InputEvent::InsertText("你好吗".into())).expect("insert");
    session
        .process_event(InputEvent::MoveCompositionCursor { grapheme_delta: -1 })
        .expect("move");
    let commit = session.process_event(InputEvent::Commit).expect("commit").actions.remove(0);
    let revision = session.state_revision();
    session
        .acknowledge_action(commit.action_id, ActionDisposition::Unavailable)
        .expect("recorded");
    let state = session.snapshot();
    assert_eq!(state.composition_utf8, "你好吗");
    assert_eq!(state.composition_cursor_grapheme, 2);
    assert_eq!(state.composition_cursor_utf8_byte_offset, 6);
    assert_eq!(session.state_revision().get(), revision.get() + 1);
    assert!(!session.reconciliation_required());
}

#[test]
fn hardware_backspace_repeats_within_the_composition() {
    let engine = marked_engine();
    let mut session = engine.new_session().expect("session");
    session.process_event(InputEvent::InsertText("abcd".into())).expect("insert");
    let key = HardwareKeyEvent {
        physical_code: 0,
        logical_key: LogicalKey::Backspace,
        modifiers: Modifiers::empty(),
        phase: KeyPhase::Down,
        repeat_count: 3,
    };
    let result = session.process_event(InputEvent::HardwareKey(key)).expect("backspace");
    assert_eq!(result.state.composition_utf8, "a");
    let again = HardwareKeyEvent { repeat_count: 9, ..key };
    let result = session.process_event(InputEvent::HardwareKey(again)).expect("backspace");
    assert_eq!(result.state.phase, SessionPhase::Idle);
    assert!(matches!(result.actions[0].kind, ImeActionKind::CancelComposition));
}

fn ranked_proposal(
    id: u64,
    text: &str,
    frequency: u64,
    match_kind: MatchKind,
) -> ime_core::candidate::CandidateProposal {
    ime_core::candidate::CandidateProposal {
        lexeme_id: ime_core::LexemeId::new(id),
        text: text.to_owned(),
        input_code: "code".to_owned(),
        source: ime_core::candidate::CandidateSource::SystemDictionary,
        base_frequency: frequency,
        match_kind,
    }
}

#[test]
fn exact_matches_stand_before_every_prefix_match() {
    let ranked = ime_core::ranking::RankingEngine
        .rank(
            vec![
                ranked_proposal(1, "p1", u64::MAX, MatchKind::Prefix),
                ranked_proposal(2, "e1", 0, MatchKind::Exact),
                ranked_proposal(3, "p2", 500, MatchKind::Prefix),
                ranked_proposal(4, "e2", 7, MatchKind::Exact),
            ],
            10,
        )
        .expect("ranking succeeds");
    let kinds: Vec<MatchKind> = ranked.iter().map(|r| r.proposal.match_kind).collect();
    assert_eq!(
        kinds,
        vec![MatchKind::Exact, MatchKind::Exact, MatchKind::Prefix, MatchKind::Prefix]
    );
    assert_eq!(ranked[0].proposal.text, "e2");
    assert_eq!(ranked[2].proposal.text, "p1");
}

#[test]
fn merging_keeps_the_highest_frequency() {
    let provider: Arc<dyn CandidateProvider> = Arc::new(DictionaryCandidateProvider::system(
        Arc::new(InMemoryDictionary::new(vec![
            DictionaryEntry::new(ime_core::LexemeId::new(1), "ma", "马", 5),
            DictionaryEntry::new(ime_core::LexemeId::new(2), "ma", "马", 9),
            DictionaryEntry::new(ime_core::LexemeId::new(3), "ma", "马", 7),
        ])),
    ));
    let language: Arc<dyn LanguageEngine> = Arc::new(ReferenceLanguageEngine);
    let engine = CandidateEngine::new(Some(language), vec![provider], ime_core::ranking::RankingEngine);
    let snapshot = engine
        .generate(
            ime_core::SessionId::new(1),
            StateRevision::new(1),
            "ma",
            &ime_core::CoreLimits::default(),
        )
        .expect("pipeline succeeds");
    assert_eq!(snapshot.len(), 1);
    assert_eq!(snapshot.proposal_at(0).expect("one candidate").base_frequency, 9);
}
