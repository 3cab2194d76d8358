use std::sync::Arc;

use ime_core::candidate::{
    CandidateEngine, CandidateProvider, DictionaryCandidateProvider, MatchKind,
};
use ime_core::dictionary::{DictionaryEntry, InMemoryDictionary};
use ime_core::language::{LanguageEngine, ParsedInput, ReferenceLanguageEngine};
use ime_core::ranking::RankingEngine;
use ime_core::{CoreLimits, LexemeId, SessionId, StateRevision};

fn engine() -> CandidateEngine {
    let provider: Arc<dyn CandidateProvider> = Arc::new(DictionaryCandidateProvider::system(
        Arc::new(InMemoryDictionary::new(vec![
            DictionaryEntry::new(LexemeId::new(1), "nihao", "你好", 3000),
            DictionaryEntry::new(LexemeId::new(2), "nihao", "你好", 4500),
            DictionaryEntry::new(LexemeId::new(3), "nihaoma", "你好吗", 100),
            DictionaryEntry::new(LexemeId::new(4), "nihao", "你号", 100),
        ])),
    ));
    let language: Arc<dyn LanguageEngine> = Arc::new(ReferenceLanguageEngine);
    CandidateEngine::new(Some(language), vec![provider], RankingEngine)
}

#[test]
fn deduplicates_without_summing_frequency_and_assigns_ids() {
    let snapshot = engine()
        .generate(
            SessionId::new(7),
            StateRevision::new(3),
            "NIHAO",
            &CoreLimits::default(),
        )
        .expect("pipeline succeeds");
    let views = snapshot.views();
    assert_eq!(views.len(), 3);
    assert_eq!(views[0].candidate_id.get(), 1);
    let first = snapshot.proposal_at(0).expect("first candidate");
    assert_eq!(first.text, "你好");
    assert_eq!(first.base_frequency, 4500);
    assert_eq!(first.match_kind, MatchKind::Exact);
    assert_eq!(snapshot.proposal_at(1).expect("second candidate").text, "你号");
    assert_eq!(snapshot.proposal_at(2).expect("third candidate").text, "你好吗");
}

#[test]
fn empty_input_and_visible_limit_are_bounded() {
    let limits = CoreLimits {
        max_visible_candidates: 1,
        ..CoreLimits::default()
    };
    let empty = engine()
        .generate(SessionId::new(1), StateRevision::new(1), "", &limits)
        .expect("pipeline succeeds");
    assert!(empty.is_empty());

    let bounded = engine()
        .generate(SessionId::new(1), StateRevision::new(2), "nihao", &limits)
        .expect("pipeline succeeds");
    assert_eq!(bounded.len(), 1);
}

#[test]
fn repeated_generation_is_deterministic() {
    let first = engine()
        .generate(
            SessionId::new(1),
            StateRevision::new(1),
            "nihao",
            &CoreLimits::default(),
        )
        .expect("pipeline succeeds")
        .views();
    let second = engine()
        .generate(
            SessionId::new(1),
            StateRevision::new(1),
            "nihao",
            &CoreLimits::default(),
        )
        .expect("pipeline succeeds")
        .views();
    assert_eq!(first, second);
}

#[test]
fn generates_exact_and_prefix_proposals() {
    let provider = DictionaryCandidateProvider::system(Arc::new(InMemoryDictionary::new(vec![
        DictionaryEntry::new(LexemeId::new(1), "ni", "你", 1000),
        DictionaryEntry::new(LexemeId::new(2), "nihao", "你好", 3000),
    ])));
    let proposals = provider
        .generate(&ParsedInput::new("ni".to_owned()), 10)
        .expect("generation succeeds");
    assert_eq!(proposals.len(), 2);
    assert_eq!(proposals[0].match_kind, MatchKind::Exact);
    assert_eq!(proposals[1].match_kind, MatchKind::Prefix);
}

#[test]
fn reference_pipeline_matches_shared_dictionary_pipeline() {
    let dictionary = || {
        InMemoryDictionary::new(vec![
            DictionaryEntry::new(LexemeId::new(1), "nihao", "你好", 3000),
            DictionaryEntry::new(LexemeId::new(2), "nihao", "你好", 4500),
            DictionaryEntry::new(LexemeId::new(3), "nihaoma", "你好吗", 100),
            DictionaryEntry::new(LexemeId::new(4), "nihao", "你号", 100),
        ])
    };
    let reference = CandidateEngine::reference(dictionary())
        .generate(SessionId::new(1), StateRevision::new(1), "NiHao", &CoreLimits::default())
        .expect("pipeline succeeds")
        .views();
    let shared = engine()
        .generate(SessionId::new(1), StateRevision::new(1), "NiHao", &CoreLimits::default())
        .expect("pipeline succeeds")
        .views();
    assert_eq!(reference, shared);
    let texts: Vec<&str> = reference.iter().map(|c| c.text.as_str()).collect();
    assert_eq!(texts, vec!["你好", "你号", "你好吗"]);
}

#[test]
fn generation_limit_caps_provider_output() {
    let limits = CoreLimits {
        max_generated_candidates: 1,
        ..CoreLimits::default()
    };
    let snapshot = engine()
        .generate(SessionId::new(1), StateRevision::new(1), "nihao", &limits)
        .expect("pipeline succeeds");
    assert_eq!(snapshot.len(), 1);
}

#[test]
fn selection_moves_and_clamps() {
    let mut snapshot = engine()
        .generate(SessionId::new(1), StateRevision::new(1), "nihao", &CoreLimits::default())
        .expect("pipeline succeeds");
    assert_eq!(snapshot.selected_candidate_id().map(|id| id.get()), Some(1));
    assert!(snapshot.move_selection(5));
    assert_eq!(snapshot.selected_candidate_id().map(|id| id.get()), Some(3));
    assert!(!snapshot.move_selection(1));
    assert!(snapshot.move_selection(-10));
    assert_eq!(snapshot.selected_candidate_id().map(|id| id.get()), Some(1));
    assert_eq!(snapshot.candidate_text(ime_core::CandidateId::new(2)), Some("你号"));
    assert_eq!(snapshot.candidate_text(ime_core::CandidateId::new(9)), None);
}
