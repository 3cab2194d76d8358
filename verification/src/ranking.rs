//! Deterministic integer ranking for bounded candidate sets.
use vstd::prelude::*;
use vstd::relations::*;

use crate::candidate::{CandidateProposal, CandidateSource, MatchKind, ProposalView};
use crate::dictionary::bounded;
use crate::error::ImeError;
use crate::order::{
    lemma_text_le_antisymmetric, lemma_text_le_reflexive, lemma_text_le_total,
    lemma_text_le_transitive, text_eq, text_le, text_le_exec,
};

verus! {

broadcast use vstd::seq_lib::group_to_multiset_ensures;

/// Bonus that places every exact match above every prefix match.
pub const EXACT_MATCH_BONUS: i64 = 2_000_000;

/// Frequencies above this value all score the same.
pub const MAX_FREQUENCY_SCORE: i64 = 1_000_000;

/// Priority added for a proposal's source.
pub open spec fn source_priority(source: CandidateSource) -> int {
    match source {
        CandidateSource::SystemDictionary => 100,
    }
}

/// The integer score of a proposal: exact-match bonus, capped frequency and source priority.
pub open spec fn score_of(p: ProposalView) -> int {
    (if p.match_kind == MatchKind::Exact {
        EXACT_MATCH_BONUS as int
    } else {
        0
    }) + (if p.base_frequency > MAX_FREQUENCY_SCORE {
        MAX_FREQUENCY_SCORE as int
    } else {
        p.base_frequency as int
    }) + source_priority(p.source)
}

/// Numeric rank of a match kind: exact matches rank above prefix matches.
pub open spec fn match_rank(m: MatchKind) -> int {
    match m {
        MatchKind::Prefix => 0,
        MatchKind::Exact => 1,
    }
}

/// Ranking order: higher score, then exact before prefix, then higher frequency, then
/// input code, text and lexeme ID ascending.
pub open spec fn rank_le(a: ProposalView, b: ProposalView) -> bool {
    if score_of(a) != score_of(b) {
        score_of(a) > score_of(b)
    } else if a.match_kind != b.match_kind {
        match_rank(a.match_kind) > match_rank(b.match_kind)
    } else if a.base_frequency != b.base_frequency {
        a.base_frequency > b.base_frequency
    } else if a.input_code != b.input_code {
        text_le(a.input_code, b.input_code)
    } else if a.text != b.text {
        text_le(a.text, b.text)
    } else {
        a.lexeme_id <= b.lexeme_id
    }
}

/// The ranking order as a relation.
pub open spec fn rank_order() -> spec_fn(ProposalView, ProposalView) -> bool {
    |a: ProposalView, b: ProposalView| rank_le(a, b)
}

proof fn lemma_rank_le_transitive(a: ProposalView, b: ProposalView, c: ProposalView)
    requires
        rank_le(a, b),
        rank_le(b, c),
    ensures
        rank_le(a, c),
{
    lemma_text_le_reflexive(a.input_code);
    lemma_text_le_reflexive(b.input_code);
    lemma_text_le_reflexive(a.text);
    lemma_text_le_reflexive(b.text);
    if score_of(a) == score_of(b) && score_of(b) == score_of(c) && a.match_kind == b.match_kind
        && b.match_kind == c.match_kind && a.base_frequency == b.base_frequency
        && b.base_frequency == c.base_frequency {
        if a.input_code == b.input_code && b.input_code == c.input_code {
            if a.text == b.text && b.text == c.text {
            } else {
                lemma_text_le_transitive(a.text, b.text, c.text);
                if a.text == c.text {
                    lemma_text_le_antisymmetric(a.text, b.text);
                }
            }
        } else {
            lemma_text_le_transitive(a.input_code, b.input_code, c.input_code);
            if a.input_code == c.input_code {
                lemma_text_le_antisymmetric(a.input_code, b.input_code);
            }
        }
    }
}

proof fn lemma_rank_le_total(a: ProposalView, b: ProposalView)
    ensures
        rank_le(a, b) || rank_le(b, a),
{
    lemma_text_le_total(a.input_code, b.input_code);
    lemma_text_le_total(a.text, b.text);
}

/// The ranking order is a total order.
pub proof fn lemma_rank_le_total_ordering()
    ensures
        total_ordering(rank_order()),
{
    let f = rank_order();
    assert forall|a: ProposalView| #[trigger] f(a, a) by {}
    assert forall|a: ProposalView, b: ProposalView| #[trigger] f(a, b) && #[trigger] f(
        b,
        a,
    ) implies a == b by {
        if a.input_code != b.input_code {
            lemma_text_le_antisymmetric(a.input_code, b.input_code);
        } else if a.text != b.text {
            lemma_text_le_antisymmetric(a.text, b.text);
        }
        assert(a.source == b.source);
    }
    assert forall|a: ProposalView, b: ProposalView, c: ProposalView| #[trigger] f(a, b)
        && #[trigger] f(b, c) implies f(a, c) by {
        lemma_rank_le_transitive(a, b, c);
    }
    assert forall|a: ProposalView, b: ProposalView| #[trigger] f(a, b) || #[trigger] f(b, a) by {
        lemma_rank_le_total(a, b);
    }
}

/// Explainable, platform-independent ranking.
#[derive(Clone, Copy, Debug, Default)]
pub struct RankingEngine;

/// A proposal with its score.
#[derive(Clone, Debug, PartialEq, Eq)]
pub struct RankedCandidate {
    pub proposal: CandidateProposal,
    pub score: i64,
}

/// The proposals held by ranked candidates.
pub open spec fn ranked_proposals(s: Seq<RankedCandidate>) -> Seq<ProposalView> {
    s.map_values(|r: RankedCandidate| r.proposal@)
}

/// Returns the score of a proposal.
pub fn score(candidate: &CandidateProposal) -> (r: i64)
    ensures
        r == score_of(candidate@),
{
    let exact: i64 = if candidate.match_kind == MatchKind::Exact {
        EXACT_MATCH_BONUS
    } else {
        0
    };
    let frequency: i64 = if candidate.base_frequency > 1_000_000 {
        MAX_FREQUENCY_SCORE
    } else {
        candidate.base_frequency as i64
    };
    let priority = candidate.source.priority();
    exact + frequency + priority
}

/// Returns whether `left` ranks before or equal to `right`.
pub fn compare_ranked(left: &RankedCandidate, right: &RankedCandidate) -> (r: bool)
    requires
        left.score == score_of(left.proposal@),
        right.score == score_of(right.proposal@),
    ensures
        r == rank_le(left.proposal@, right.proposal@),
{
    let a = &left.proposal;
    let b = &right.proposal;
    if left.score != right.score {
        return left.score > right.score;
    }
    if a.match_kind != b.match_kind {
        return a.match_kind == MatchKind::Exact;
    }
    if a.base_frequency != b.base_frequency {
        return a.base_frequency > b.base_frequency;
    }
    if !text_eq(a.input_code.as_str(), b.input_code.as_str()) {
        return text_le_exec(a.input_code.as_str(), b.input_code.as_str());
    }
    if !text_eq(a.text.as_str(), b.text.as_str()) {
        return text_le_exec(a.text.as_str(), b.text.as_str());
    }
    a.lexeme_id.0 <= b.lexeme_id.0
}

/// Inserts `c` into the ranked vector `out` after every candidate that ranks before or with it.
fn insert_ranked(out: &mut Vec<RankedCandidate>, c: RankedCandidate)
    requires
        sorted_by(ranked_proposals(old(out)@), rank_order()),
        forall|i: int| 0 <= i < old(out)@.len() ==> (#[trigger] old(out)@[i]).score == score_of(
            old(out)@[i].proposal@,
        ),
        c.score == score_of(c.proposal@),
    ensures
        sorted_by(ranked_proposals(final(out)@), rank_order()),
        forall|i: int| 0 <= i < final(out)@.len() ==> (#[trigger] final(out)@[i]).score
            == score_of(final(out)@[i].proposal@),
        ranked_proposals(final(out)@).to_multiset() == ranked_proposals(
            old(out)@,
        ).to_multiset().insert(c.proposal@),
{
    let ghost leq = rank_order();
    let mut j: usize = 0;
    while j < out.len() && compare_ranked(&out[j], &c)
        invariant
            j <= out@.len(),
            forall|i: int| 0 <= i < out@.len() ==> (#[trigger] out@[i]).score == score_of(
                out@[i].proposal@,
            ),
            c.score == score_of(c.proposal@),
            forall|k: int| 0 <= k < j ==> rank_le(#[trigger] out@[k].proposal@, c.proposal@),
        decreases out@.len() - j,
    {
        j = j + 1;
    }
    let ghost before = ranked_proposals(out@);
    let ghost e = c.proposal@;
    let ghost old_out = out@;
    out.insert(j, c);
    proof {
        let after = ranked_proposals(out@);
        assert(after =~= before.insert(j as int, e));
        vstd::seq_lib::to_multiset_insert(before, j as int, e);
        assert forall|i: int| 0 <= i < out@.len() implies (#[trigger] out@[i]).score == score_of(
            out@[i].proposal@,
        ) by {
            if i < j {
                assert(out@[i] == old_out[i]);
            } else if i > j {
                assert(out@[i] == old_out[i - 1]);
            }
        }
        assert forall|x: int, y: int| 0 <= x < y < after.len() implies #[trigger] leq(
            after[x],
            after[y],
        ) by {
            if j < before.len() {
                assert(!rank_le(before[j as int], e));
                lemma_rank_le_total(before[j as int], e);
            }
            if y > j && y - 1 > j {
                assert(leq(before[j as int], before[y - 1]));
                lemma_rank_le_transitive(e, before[j as int], before[y - 1]);
            }
            if y == j {
                assert(rank_le(before[x], e));
            } else if x == j {
            } else if x < j && y > j {
                lemma_rank_le_transitive(before[x], e, before[y - 1]);
            } else if x > j {
                assert(leq(before[x - 1], before[y - 1]));
            } else {
                assert(leq(before[x], before[y]));
            }
        }
    }
}

impl RankingEngine {
    /// Ranks proposals with a stable total ordering and returns at most `top_k` entries.
    ///
    /// The result is the proposals sorted by [`rank_le`], cut to `top_k`, each carrying
    /// its score.
    pub fn rank(&self, proposals: Vec<CandidateProposal>, top_k: usize) -> (r: Result<
        Vec<RankedCandidate>,
        ImeError,
    >)
        ensures
            r matches Ok(v) && ranked_proposals(v@) == bounded(
                proposals@.map_values(|p: CandidateProposal| p@).sort_by(rank_order()),
                top_k as int,
            ) && (forall|i: int| 0 <= i < v@.len() ==> (#[trigger] v@[i]).score == score_of(
                v@[i].proposal@,
            )),
    {
        let ghost input = proposals@.map_values(|p: CandidateProposal| p@);
        let mut ranked: Vec<RankedCandidate> = Vec::new();
        let mut rest = proposals;
        let ghost total = rest@;
        let mut i: usize = 0;
        let n = rest.len();
        // consume proposals from the front, keeping the ranked prefix sorted
        while rest.len() > 0
            invariant
                total.len() == n,
                rest@ == total.skip(i as int),
                i <= n,
                input == total.map_values(|p: CandidateProposal| p@),
                sorted_by(ranked_proposals(ranked@), rank_order()),
                forall|k: int| 0 <= k < ranked@.len() ==> (#[trigger] ranked@[k]).score == score_of(
                    ranked@[k].proposal@,
                ),
                ranked_proposals(ranked@).to_multiset() == input.take(i as int).to_multiset(),
            decreases rest@.len(),
        {
            let p = rest.remove(0);
            assert(p == total[i as int]);
            let s = score(&p);
            insert_ranked(&mut ranked, RankedCandidate { proposal: p, score: s });
            proof {
                assert(input.take(i + 1) =~= input.take(i as int).push(input[i as int]));
                vstd::seq_lib::to_multiset_build(input.take(i as int), input[i as int]);
                assert(rest@ =~= total.skip(i + 1));
            }
            i = i + 1;
        }
        proof {
            assert(input.take(n as int) =~= input);
            lemma_rank_le_total_ordering();
            input.lemma_sort_by_ensures(rank_order());
            vstd::seq_lib::lemma_sorted_unique(
                ranked_proposals(ranked@),
                input.sort_by(rank_order()),
                rank_order(),
            );
        }
        if ranked.len() > top_k {
            ranked.truncate(top_k);
        }
        proof {
            let v = ranked_proposals(ranked@);
            assert(v =~= bounded(input.sort_by(rank_order()), top_k as int));
        }
        Ok(ranked)
    }
}

} // verus!
