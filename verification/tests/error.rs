use ime_core::{ActionId, CandidateId, ImeError, StateRevision};

#[test]
fn messages_describe_each_error() {
    assert_eq!(
        ImeError::InvalidConfig("bad").message(),
        "invalid engine config: bad"
    );
    assert_eq!(
        ImeError::EventTextTooLong { actual: 5, max: 4 }.message(),
        "event text is 5 bytes; maximum is 4"
    );
    assert_eq!(
        ImeError::CompositionTooLong { actual: 16385, max: 16384 }.message(),
        "composition would be 16385 bytes; maximum is 16384"
    );
    assert_eq!(
        ImeError::ContextTextTooLong { field: "before_cursor_utf8", actual: 4, max: 3 }.message(),
        "context field before_cursor_utf8 is 4 bytes; maximum is 3"
    );
    assert_eq!(
        ImeError::TooManyOutstandingActions { max: 64 }.message(),
        "too many outstanding actions; maximum is 64"
    );
    assert_eq!(
        ImeError::UnknownAction(ActionId::new(99)).message(),
        "unknown action id 99"
    );
    assert_eq!(
        ImeError::StaleRevision { expected: StateRevision::new(10), actual: StateRevision::new(0) }
            .message(),
        "stale state revision 0; current revision is 10"
    );
    assert_eq!(
        ImeError::UnknownCandidate(CandidateId::new(7)).message(),
        "unknown candidate id 7"
    );
    assert_eq!(
        ImeError::CounterExhausted("action_id").message(),
        "action_id counter exhausted"
    );
    assert_eq!(
        ImeError::UnknownAction(ActionId::new(u64::MAX)).message(),
        "unknown action id 18446744073709551615"
    );
}
