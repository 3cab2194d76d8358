use ime_core::language::{CandidateIdentity, LanguageEngine, ReferenceLanguageEngine};

#[test]
fn normalizes_ascii_uppercase() {
    let normalized = ReferenceLanguageEngine
        .normalize_input("NIHAO")
        .expect("normalization succeeds");
    assert_eq!(normalized.code(), "nihao");
}

#[test]
fn preserves_ascii_lowercase() {
    let normalized = ReferenceLanguageEngine
        .normalize_input("nihao")
        .expect("normalization succeeds");
    assert_eq!(normalized.code(), "nihao");
}

#[test]
fn preserves_other_unicode() {
    let normalized = ReferenceLanguageEngine
        .normalize_input("你好Ü")
        .expect("normalization succeeds");
    assert_eq!(normalized.code(), "你好Ü");
}

#[test]
fn accepts_empty_input() {
    let normalized = ReferenceLanguageEngine
        .normalize_input("")
        .expect("normalization succeeds");
    let parsed = ReferenceLanguageEngine
        .parse_input(&normalized)
        .expect("parsing succeeds");
    assert!(parsed.normalized_code().is_empty());
}

#[test]
fn identity_is_the_candidate_text() {
    let identity = ReferenceLanguageEngine.candidate_identity("你好");
    assert_eq!(identity, CandidateIdentity::from_text("你好"));
    assert_eq!(identity.as_str(), "你好");
}

#[test]
fn mixed_case_folds_only_ascii_letters() {
    let normalized = ReferenceLanguageEngine
        .normalize_input("NiHao-Z9É")
        .expect("normalization succeeds");
    assert_eq!(normalized.code(), "nihao-z9É");
}
