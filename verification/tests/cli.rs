use ime_core::cli::{
    development_dictionary, parse_ack_arguments, parse_command, parse_disposition,
    AckArgumentError, Command,
};
use ime_core::dictionary::Dictionary;
use ime_core::{ActionDisposition, InputEvent};

#[test]
fn dispositions_are_read_by_name() {
    assert_eq!(parse_disposition("applied"), Some(ActionDisposition::Applied));
    assert_eq!(parse_disposition("failed"), Some(ActionDisposition::Failed));
    assert_eq!(parse_disposition("rejected"), Some(ActionDisposition::Rejected));
    assert_eq!(parse_disposition("unavailable"), Some(ActionDisposition::Unavailable));
    assert_eq!(parse_disposition("superseded"), Some(ActionDisposition::Superseded));
    assert_eq!(parse_disposition("Applied"), None);
    assert_eq!(parse_disposition(""), None);
}

#[test]
fn development_dictionary_has_every_entry() {
    let dictionary = development_dictionary();
    assert_eq!(dictionary.lookup_prefix("n", 100).expect("lookup works").len(), 6);
    assert_eq!(dictionary.lookup_exact("wo", 10).expect("lookup works")[0].text, "我");
}

#[test]
fn ack_arguments_need_an_id_and_a_disposition() {
    assert!(matches!(
        parse_ack_arguments("7 failed"),
        Ok((id, ActionDisposition::Failed)) if id.get() == 7
    ));
    assert!(matches!(
        parse_ack_arguments("  +12\tapplied  "),
        Ok((id, ActionDisposition::Applied)) if id.get() == 12
    ));
    assert!(matches!(parse_ack_arguments(""), Err(AckArgumentError::Usage)));
    assert!(matches!(parse_ack_arguments("7"), Err(AckArgumentError::Usage)));
    assert!(matches!(parse_ack_arguments("7 failed now"), Err(AckArgumentError::Usage)));
    assert!(matches!(
        parse_ack_arguments("x failed"),
        Err(AckArgumentError::InvalidActionId(text)) if text == "x"
    ));
    assert!(matches!(
        parse_ack_arguments("18446744073709551616 failed"),
        Err(AckArgumentError::InvalidActionId(_))
    ));
    assert!(matches!(
        parse_ack_arguments("7 broken"),
        Err(AckArgumentError::InvalidDisposition(text)) if text == "broken"
    ));
}

#[test]
fn commands_are_read_from_lines() {
    assert!(matches!(parse_command("quit\n"), Command::Quit));
    assert!(matches!(parse_command("state\r\n"), Command::State));
    assert!(matches!(parse_command("candidates"), Command::Candidates));
    assert!(matches!(parse_command("autoack on"), Command::AutoAck(true)));
    assert!(matches!(parse_command("autoack off"), Command::AutoAck(false)));
    assert!(matches!(parse_command("autoack maybe"), Command::AutoAckUsage));
    assert!(matches!(parse_command("ack 1 failed"), Command::Acknowledge(a) if a == "1 failed"));
    assert!(matches!(
        parse_command("text NIHAO"),
        Command::Event(InputEvent::InsertText(t)) if t == "NIHAO"
    ));
    assert!(matches!(parse_command("select 2"), Command::SelectCandidate(2)));
    assert!(matches!(parse_command("select two"), Command::InvalidCandidate(t) if t == "two"));
    assert!(matches!(parse_command("select 4294967296"), Command::InvalidCandidate(_)));
    assert!(matches!(parse_command("backspace"), Command::Event(InputEvent::Backspace)));
    assert!(matches!(
        parse_command("left"),
        Command::Event(InputEvent::MoveCompositionCursor { grapheme_delta: -1 })
    ));
    assert!(matches!(
        parse_command("cnext"),
        Command::Event(InputEvent::MoveCandidateSelection { delta: 1 })
    ));
    assert!(matches!(parse_command(""), Command::Empty));
    assert!(matches!(parse_command("dance"), Command::Unknown(t) if t == "dance"));
}
