use ime_core::candidate::{CandidateProposal, CandidateSource, MatchKind};
use ime_core::ranking::{score, RankingEngine};
use ime_core::LexemeId;

fn proposal(id: u64, text: &str, frequency: u64, match_kind: MatchKind) -> CandidateProposal {
    CandidateProposal {
        lexeme_id: LexemeId::new(id),
        text: text.to_owned(),
        input_code: "code".to_owned(),
        source: CandidateSource::SystemDictionary,
        base_frequency: frequency,
        match_kind,
    }
}

#[test]
fn exact_match_precedes_prefix_even_with_extreme_frequency() {
    let ranked = RankingEngine
        .rank(
            vec![
                proposal(1, "prefix", u64::MAX, MatchKind::Prefix),
                proposal(2, "exact", 0, MatchKind::Exact),
            ],
            10,
        )
        .expect("ranking succeeds");
    assert_eq!(ranked[0].proposal.text, "exact");
}

#[test]
fn frequency_and_lexeme_id_are_deterministic_ties() {
    let ranked = RankingEngine
        .rank(
            vec![
                proposal(3, "same", 10, MatchKind::Exact),
                proposal(1, "same", 10, MatchKind::Exact),
                proposal(2, "higher", 11, MatchKind::Exact),
            ],
            10,
        )
        .expect("ranking succeeds");
    assert_eq!(ranked[0].proposal.text, "higher");
    assert_eq!(ranked[1].proposal.lexeme_id, LexemeId::new(1));
    assert_eq!(ranked[2].proposal.lexeme_id, LexemeId::new(3));
}

#[test]
fn ranking_is_bounded() {
    let ranked = RankingEngine
        .rank(
            vec![
                proposal(1, "a", 1, MatchKind::Exact),
                proposal(2, "b", 2, MatchKind::Exact),
            ],
            1,
        )
        .expect("ranking succeeds");
    assert_eq!(ranked.len(), 1);
    assert_eq!(ranked[0].proposal.text, "b");
}

#[test]
fn score_adds_exact_bonus_capped_frequency_and_priority() {
    assert_eq!(score(&proposal(1, "a", 5, MatchKind::Exact)), 2_000_000 + 5 + 100);
    assert_eq!(score(&proposal(1, "a", u64::MAX, MatchKind::Prefix)), 1_000_000 + 100);
    assert_eq!(score(&proposal(1, "a", 0, MatchKind::Prefix)), 100);
}

#[test]
fn ranked_candidates_carry_their_scores() {
    let ranked = RankingEngine
        .rank(vec![proposal(1, "a", 7, MatchKind::Prefix)], 5)
        .expect("ranking succeeds");
    assert_eq!(ranked[0].score, 107);
}
