use ime_core::abi::{map_ack_result, IME_STATUS_OK, IME_STATUS_UNKNOWN_ACTION};
use ime_core::AckOutcome;
use ime_core::abi::{
    build_result_parts, check_input_string_view, decode_input_text, event_from_wire,
    map_action_kind, map_core_error, parse_action_disposition, reference_dictionary,
    validate_abi_version, validate_event_header, validate_struct_size, ImeStructHeader,
    ResultMetadata, IME_ABI_VERSION, IME_ACTION_COMMIT_TEXT, IME_COMMIT_CANDIDATE,
    IME_EVENT_BACKSPACE, IME_EVENT_INSERT_TEXT, IME_EVENT_SELECT_CANDIDATE,
    IME_STATUS_BUDGET_EXCEEDED, IME_STATUS_INTERNAL_ERROR, IME_STATUS_INVALID_ARGUMENT,
    IME_STATUS_INVALID_UTF8, IME_STATUS_NULL_POINTER, IME_STATUS_STALE_REVISION,
    IME_STATUS_UNSUPPORTED, IME_STATUS_UNSUPPORTED_ABI_VERSION, INPUT_EVENT_SIZE_V1_0,
};
use ime_core::abi::{
    build_process_result, build_snapshot_result, IME_EVENT_STATUS_OK,
    IME_PHASE_CANDIDATE_SELECTING,
};
use ime_core::dictionary::Dictionary;
use ime_core::{EngineConfig, ImeEngine};
use ime_core::{
    ActionDisposition, ActionId, CandidateId, CandidateView, CommitKind, ImeAction, ImeActionKind,
    ImeError, ImeState, InputEvent, ModeId, SessionId, SessionPhase, StateRevision,
};

#[test]
fn abi_version_compatibility_is_directional() {
    assert_eq!(validate_abi_version(0x0001_0000, 0x0001_0000), Ok(()));
    assert_eq!(
        validate_abi_version(0x0001_0001, 0x0001_0000),
        Err(IME_STATUS_UNSUPPORTED_ABI_VERSION)
    );
    assert_eq!(
        validate_abi_version(0x0001_ffff, 0x0001_0000),
        Err(IME_STATUS_UNSUPPORTED_ABI_VERSION)
    );
    assert_eq!(
        validate_abi_version(0x0002_0000, 0x0001_0000),
        Err(IME_STATUS_UNSUPPORTED_ABI_VERSION)
    );

    let synthetic_library_v1_1 = 0x0001_0001;
    assert_eq!(validate_abi_version(0x0001_0000, synthetic_library_v1_1), Ok(()));
    assert_eq!(validate_abi_version(0x0001_0001, synthetic_library_v1_1), Ok(()));
    assert_eq!(
        validate_abi_version(0x0001_0002, synthetic_library_v1_1),
        Err(IME_STATUS_UNSUPPORTED_ABI_VERSION)
    );
    assert_eq!(
        validate_abi_version(0x0002_0000, synthetic_library_v1_1),
        Err(IME_STATUS_UNSUPPORTED_ABI_VERSION)
    );
}

#[test]
fn struct_size_must_cover_the_required_prefix() {
    assert_eq!(validate_struct_size(48, 48), Ok(()));
    assert_eq!(validate_struct_size(64, 48), Ok(()));
    assert_eq!(validate_struct_size(47, 48), Err(IME_STATUS_INVALID_ARGUMENT));
}

#[test]
fn event_header_checks_size_then_version_then_prefix() {
    let header = |struct_size, abi_version| ImeStructHeader { struct_size, abi_version };
    assert_eq!(validate_event_header(header(48, IME_ABI_VERSION)), Ok(()));
    assert_eq!(validate_event_header(header(64, IME_ABI_VERSION)), Ok(()));
    assert_eq!(
        validate_event_header(header(47, IME_ABI_VERSION)),
        Err(IME_STATUS_INVALID_ARGUMENT)
    );
    assert_eq!(
        validate_event_header(header(7, 0x0002_0000)),
        Err(IME_STATUS_INVALID_ARGUMENT)
    );
    assert_eq!(
        validate_event_header(header(48, 0x0002_0000)),
        Err(IME_STATUS_UNSUPPORTED_ABI_VERSION)
    );
    assert_eq!(
        validate_event_header(header(64, IME_ABI_VERSION + 1)),
        Err(IME_STATUS_UNSUPPORTED_ABI_VERSION)
    );
    assert_eq!(INPUT_EVENT_SIZE_V1_0, 48);
}

#[test]
fn string_views_are_checked_before_reading() {
    assert_eq!(check_input_string_view(true, 0), Ok(0));
    assert_eq!(check_input_string_view(false, 0), Ok(0));
    assert_eq!(check_input_string_view(true, 1), Err(IME_STATUS_NULL_POINTER));
    assert_eq!(check_input_string_view(false, 4096), Ok(4096));
    assert_eq!(check_input_string_view(false, 4097), Err(IME_STATUS_BUDGET_EXCEEDED));
}

#[test]
fn input_text_must_be_utf8() {
    assert_eq!(decode_input_text("ni\0hao".as_bytes()), Ok("ni\0hao".to_owned()));
    assert_eq!(decode_input_text(&[0xff, 0xfe]), Err(IME_STATUS_INVALID_UTF8));
    assert_eq!(decode_input_text(&[0xc0, 0x80]), Err(IME_STATUS_INVALID_UTF8));
    assert_eq!(decode_input_text(&[0xed, 0xa0, 0x80]), Err(IME_STATUS_INVALID_UTF8));
    assert_eq!(decode_input_text(&[0xe4, 0xbd, 0xa0]), Ok("你".to_owned()));
}

#[test]
fn wire_tags_decode_to_events() {
    assert!(matches!(
        event_from_wire(IME_EVENT_INSERT_TEXT, "ni".to_owned(), 0, 0, 0),
        Ok(InputEvent::InsertText(text)) if text == "ni"
    ));
    assert!(matches!(
        event_from_wire(IME_EVENT_BACKSPACE, String::new(), 0, 0, 0),
        Ok(InputEvent::Backspace)
    ));
    assert!(matches!(
        event_from_wire(IME_EVENT_SELECT_CANDIDATE, String::new(), 0, 2, 9),
        Ok(InputEvent::SelectCandidate { candidate_id, state_revision })
            if candidate_id == CandidateId::new(2) && state_revision == StateRevision::new(9)
    ));
    assert!(matches!(
        event_from_wire(999, String::new(), 0, 0, 0),
        Err(IME_STATUS_UNSUPPORTED)
    ));
}

#[test]
fn dispositions_and_errors_map_to_codes() {
    assert_eq!(parse_action_disposition(0), Ok(ActionDisposition::Applied));
    assert_eq!(parse_action_disposition(4), Ok(ActionDisposition::Failed));
    assert_eq!(parse_action_disposition(999), Err(IME_STATUS_INVALID_ARGUMENT));
    assert_eq!(
        map_core_error(&ImeError::StaleRevision {
            expected: StateRevision::new(2),
            actual: StateRevision::new(1),
        }),
        IME_STATUS_STALE_REVISION
    );
    assert_eq!(
        map_core_error(&ImeError::TooManyOutstandingActions { max: 1 }),
        IME_STATUS_BUDGET_EXCEEDED
    );
    assert_eq!(
        map_core_error(&ImeError::CounterExhausted("action_id")),
        IME_STATUS_INTERNAL_ERROR
    );
}

#[test]
fn commit_action_maps_to_wire_bytes() {
    let wire = map_action_kind(ImeActionKind::CommitText {
        text_utf8: "你好".to_owned(),
        commit_kind: CommitKind::Candidate,
    })
    .expect("mapping succeeds");
    assert_eq!(wire.tag, IME_ACTION_COMMIT_TEXT);
    assert_eq!(wire.commit_kind, IME_COMMIT_CANDIDATE);
    assert_eq!(wire.text, "你好".as_bytes().to_vec());
}

fn state(composition: &str, candidates: Vec<CandidateView>) -> ImeState {
    ImeState {
        phase: SessionPhase::Composing,
        composition_utf8: composition.to_owned(),
        composition_cursor_grapheme: 1,
        composition_cursor_utf8_byte_offset: composition.len(),
        candidates,
        selected_candidate: Some(CandidateId::new(1)),
        mode: ModeId::new(0),
    }
}

fn metadata() -> ResultMetadata {
    ResultMetadata {
        status: 0,
        event_handling: 0,
        session_id: 1,
        state_revision: 2,
        resource_generation: 0,
        reconciliation_required: false,
    }
}

#[test]
fn result_parts_carry_the_state_and_actions() {
    let candidates = vec![CandidateView {
        candidate_id: CandidateId::new(1),
        text: "你".to_owned(),
    }];
    let actions = vec![ImeAction {
        action_id: ActionId::new(5),
        session_id: SessionId::new(1),
        originating_revision: StateRevision::new(2),
        kind: ImeActionKind::DeleteBackward { operation_count: 1 },
    }];
    let parts = build_result_parts(metadata(), state("ni", candidates), actions, Vec::new())
        .expect("within budget");
    assert_eq!(parts.composition, b"ni".to_vec());
    assert_eq!(parts.candidates.len(), 1);
    assert_eq!(parts.candidates[0].text, "你".as_bytes().to_vec());
    assert_eq!(parts.has_selected_candidate, 1);
    assert_eq!(parts.selected_candidate_id, 1);
    assert_eq!(parts.actions[0].action_id, 5);
    assert_eq!(parts.actions[0].kind.operation_count, 1);
}

#[test]
fn oversized_results_are_refused_whole() {
    let many: Vec<CandidateView> = (1..=65)
        .map(|id| CandidateView {
            candidate_id: CandidateId::new(id),
            text: "x".to_owned(),
        })
        .collect();
    assert_eq!(
        build_result_parts(metadata(), state("ni", many), Vec::new(), Vec::new()).err(),
        Some(IME_STATUS_BUDGET_EXCEEDED)
    );
    let long = "a".repeat(65_537);
    assert_eq!(
        build_result_parts(metadata(), state(&long, Vec::new()), Vec::new(), Vec::new()).err(),
        Some(IME_STATUS_BUDGET_EXCEEDED)
    );
    let exact = "a".repeat(65_536);
    assert!(build_result_parts(metadata(), state(&exact, Vec::new()), Vec::new(), Vec::new()).is_ok());
}

#[test]
fn reference_dictionary_holds_the_development_entries() {
    let dictionary = reference_dictionary();
    let matches = dictionary.lookup_exact("zhongguo", 10).expect("lookup works");
    assert_eq!(matches.len(), 2);
    assert_eq!(matches[0].lexeme_id.get(), 10);
}

#[test]
fn snapshot_and_event_results_describe_the_session() {
    let engine = ImeEngine::with_reference_dictionary(EngineConfig::default(), reference_dictionary())
        .expect("config is valid");
    let mut session = engine.new_session().expect("session");
    let result = session
        .process_event(InputEvent::InsertText("nihao".to_owned()))
        .expect("insert succeeds");
    let parts = build_process_result(result, false).expect("within budget");
    assert_eq!(parts.metadata.status, IME_EVENT_STATUS_OK);
    assert_eq!(parts.metadata.state_revision, 1);
    assert_eq!(parts.phase, IME_PHASE_CANDIDATE_SELECTING);
    assert_eq!(parts.candidates.len(), 2);
    assert_eq!(parts.candidates[0].text, "你好".as_bytes().to_vec());

    let snapshot = build_snapshot_result(&session).expect("within budget");
    assert_eq!(snapshot.composition, b"nihao".to_vec());
    assert_eq!(snapshot.composition_cursor_utf8_byte_offset, 5);
    assert_eq!(snapshot.has_selected_candidate, 1);
    assert_eq!(snapshot.selected_candidate_id, 1);
    assert!(snapshot.actions.is_empty());
}

#[test]
fn acknowledgement_results_map_to_status_codes() {
    let recorded: Result<AckOutcome, ImeError> = Ok(AckOutcome::Recorded {
        action_id: ActionId::new(1),
        disposition: ActionDisposition::Applied,
    });
    assert_eq!(map_ack_result(&recorded), IME_STATUS_OK);
    let repeated: Result<AckOutcome, ImeError> = Ok(AckOutcome::AlreadyResolved {
        action_id: ActionId::new(1),
        disposition: ActionDisposition::Applied,
    });
    assert_eq!(map_ack_result(&repeated), IME_STATUS_UNKNOWN_ACTION);
    let unknown: Result<AckOutcome, ImeError> = Err(ImeError::UnknownAction(ActionId::new(9)));
    assert_eq!(map_ack_result(&unknown), IME_STATUS_UNKNOWN_ACTION);
}
