use ime_core::dictionary::{Dictionary, DictionaryEntry, InMemoryDictionary};
use ime_core::LexemeId;

fn dictionary() -> InMemoryDictionary {
    InMemoryDictionary::new(vec![
        DictionaryEntry::new(LexemeId::new(3), "nihao", "你号", 100),
        DictionaryEntry::new(LexemeId::new(1), "ni", "你", 1000),
        DictionaryEntry::new(LexemeId::new(2), "nihao", "你好", 3000),
        DictionaryEntry::new(LexemeId::new(4), "nihao", "你好", 2500),
    ])
}

#[test]
fn exact_lookup_is_stable_and_preserves_duplicates() {
    let dictionary = dictionary();
    let first = dictionary.lookup_exact("nihao", 10).expect("lookup works");
    let second = dictionary.lookup_exact("nihao", 10).expect("lookup works");
    assert_eq!(first, second);
    assert_eq!(first.len(), 3);
    assert_eq!(first[0].text, "你好");
    assert_eq!(first[0].lexeme_id, LexemeId::new(2));
}

#[test]
fn prefix_lookup_is_bounded_and_unknown_safe() {
    let dictionary = dictionary();
    let matches = dictionary.lookup_prefix("ni", 2).expect("lookup works");
    assert_eq!(matches.len(), 2);
    assert!(matches.iter().all(|entry| entry.input_code.starts_with("ni")));
    assert!(dictionary
        .lookup_prefix("unknown", 10)
        .expect("lookup works")
        .is_empty());
}

#[test]
fn empty_prefix_never_dumps_dictionary() {
    let dictionary = dictionary();
    assert!(dictionary
        .lookup_prefix("", usize::MAX)
        .expect("lookup works")
        .is_empty());
    assert!(dictionary
        .lookup_exact("", usize::MAX)
        .expect("lookup works")
        .is_empty());
}

#[test]
fn storage_order_is_code_then_lexeme_id() {
    let dictionary = dictionary();
    let all = dictionary.lookup_prefix("n", 10).expect("lookup works");
    let ids: Vec<u64> = all.iter().map(|entry| entry.lexeme_id.get()).collect();
    assert_eq!(ids, vec![1, 2, 3, 4]);
}

#[test]
fn zero_limit_returns_nothing() {
    let dictionary = dictionary();
    assert!(dictionary.lookup_exact("ni", 0).expect("lookup works").is_empty());
    assert!(dictionary.lookup_prefix("ni", 0).expect("lookup works").is_empty());
}
