//! Bounded candidate generation, deduplication, ranking, and revision-scoped snapshots.
use vstd::prelude::*;
use vstd::relations::*;

use std::sync::Arc;

use crate::dictionary::{
    bounded, code_matches, entry_views, Dictionary, DictionaryEntry, EntryView,
    InMemoryDictionary,
};
use crate::error::ImeError;
use crate::language::{
    ascii_lower_text, CandidateIdentity, LanguageEngine, ParsedInput, ReferenceLanguageEngine,
};
use crate::order::{
    lemma_text_le_antisymmetric, lemma_text_le_reflexive, lemma_text_le_total,
    lemma_text_le_transitive, text_eq, text_le, text_le_exec, text_lt,
};
use crate::ranking::{rank_order, ranked_proposals, score_of, source_priority, RankedCandidate, RankingEngine};
use crate::state::{CandidateView, DegradedComponent};
use crate::types::{CandidateId, CoreLimits, LexemeId, SessionId, StateRevision};

verus! {

broadcast use vstd::seq_lib::group_to_multiset_ensures;

/// Origin of an unranked candidate proposal.
#[derive(Clone, Copy, Debug, PartialEq, Eq, Structural, PartialOrd, Ord)]
pub enum CandidateSource {
    SystemDictionary,
}

impl CandidateSource {
    /// Ranking priority of the source.
    pub fn priority(self) -> (r: i64)
        ensures
            r == source_priority(self),
    {
        match self {
            CandidateSource::SystemDictionary => 100,
        }
    }
}

/// Relationship between the composition and a dictionary input code.
#[derive(Clone, Copy, Debug, PartialEq, Eq, Structural, PartialOrd, Ord)]
pub enum MatchKind {
    Prefix,
    Exact,
}

/// Unranked output from a candidate provider.
#[derive(Clone, Debug, PartialEq, Eq)]
pub struct CandidateProposal {
    /// Stable identity from the source dictionary.
    pub lexeme_id: LexemeId,
    /// UTF-8 text proposed for commit.
    pub text: String,
    /// Normalized code matched by the provider.
    pub input_code: String,
    /// Provider category used for ranking priority.
    pub source: CandidateSource,
    /// Non-negative source frequency; duplicate proposals use the maximum, never the sum.
    pub base_frequency: u64,
    /// Whether the input code matched exactly or by prefix.
    pub match_kind: MatchKind,
}

/// Mathematical content of a [`CandidateProposal`].
pub struct ProposalView {
    pub lexeme_id: u64,
    pub text: Seq<char>,
    pub input_code: Seq<char>,
    pub source: CandidateSource,
    pub base_frequency: u64,
    pub match_kind: MatchKind,
}

impl View for CandidateProposal {
    type V = ProposalView;

    open spec fn view(&self) -> ProposalView {
        ProposalView {
            lexeme_id: self.lexeme_id.0,
            text: self.text@,
            input_code: self.input_code@,
            source: self.source,
            base_frequency: self.base_frequency,
            match_kind: self.match_kind,
        }
    }
}

/// The views of a sequence of proposals.
pub open spec fn proposal_views(s: Seq<CandidateProposal>) -> Seq<ProposalView> {
    s.map_values(|p: CandidateProposal| p@)
}

impl CandidateProposal {
    /// Returns an equal copy of this proposal.
    pub fn duplicate(&self) -> (r: Self)
        ensures
            r@ == self@,
    {
        CandidateProposal {
            lexeme_id: self.lexeme_id,
            text: self.text.clone(),
            input_code: self.input_code.clone(),
            source: self.source,
            base_frequency: self.base_frequency,
            match_kind: self.match_kind,
        }
    }
}

/// Recoverable pipeline failure. The Session retains raw composition on failure.
#[derive(Clone, Copy, Debug, PartialEq, Eq, Structural)]
pub struct CandidatePipelineFailure {
    pub component: DegradedComponent,
}

/// Converts parsed language input into bounded, unranked proposals.
///
/// A provider is deterministic: what it proposes is a function of the parsed code and the
/// limit, named by [`CandidateProvider::proposals_for`].
pub trait CandidateProvider {
    /// The proposals made for a parsed code within `limit`, or `None` where the provider fails.
    spec fn proposals_for(&self, code: Seq<char>, limit: nat) -> Option<Seq<ProposalView>>;

    /// The component reported when this provider fails.
    spec fn component(&self) -> DegradedComponent;

    /// Produces at most `limit` unranked proposals.
    fn generate(&self, input: &ParsedInput, limit: usize) -> (r: Result<
        Vec<CandidateProposal>,
        ImeError,
    >)
        ensures
            match r {
                Ok(v) => self.proposals_for(input@, limit as nat) == Some(proposal_views(v@))
                    && v@.len() <= limit,
                Err(_) => self.proposals_for(input@, limit as nat) is None,
            },
    ;

    /// Identifies the degraded component reported if this provider fails.
    fn degraded_component(&self) -> (r: DegradedComponent)
        ensures
            r == self.component(),
    ;
}

/// Provider backed by one read-only dictionary.
///
/// The dictionary is either an in-memory dictionary, whose lookups are known exactly, or
/// any other implementation of [`Dictionary`].
pub struct DictionaryCandidateProvider {
    in_memory: Option<Arc<InMemoryDictionary>>,
    shared: Option<Arc<dyn Dictionary>>,
    source: CandidateSource,
}

/// The proposal made for a dictionary record matched by `code`.
pub open spec fn proposal_for_entry(e: EntryView, code: Seq<char>) -> ProposalView {
    ProposalView {
        lexeme_id: e.lexeme_id,
        text: e.text,
        input_code: e.input_code,
        source: CandidateSource::SystemDictionary,
        base_frequency: e.base_frequency,
        match_kind: if e.input_code == code {
            MatchKind::Exact
        } else {
            MatchKind::Prefix
        },
    }
}

/// Converts dictionary records matched by `code` into proposals.
fn proposals_from_entries(entries: Vec<DictionaryEntry>, code: &str) -> (r: Vec<CandidateProposal>)
    ensures
        proposal_views(r@) == entry_views(entries@).map_values(
            |e: EntryView| proposal_for_entry(e, code@),
        ),
{
    let mut out: Vec<CandidateProposal> = Vec::new();
    let mut i: usize = 0;
    while i < entries.len()
        invariant
            i <= entries@.len(),
            proposal_views(out@) == entry_views(entries@).take(i as int).map_values(
                |e: EntryView| proposal_for_entry(e, code@),
            ),
        decreases entries@.len() - i,
    {
        let e = &entries[i];
        let exact = text_eq(e.input_code.as_str(), code);
        let p = CandidateProposal {
            match_kind: if exact {
                MatchKind::Exact
            } else {
                MatchKind::Prefix
            },
            lexeme_id: e.lexeme_id,
            text: e.text.clone(),
            input_code: e.input_code.clone(),
            source: CandidateSource::SystemDictionary,
            base_frequency: e.base_frequency,
        };
        let ghost prev = out@;
        let ghost pv = p@;
        assert(entry_views(entries@)[i as int] == entries@[i as int]@);
        assert(pv == proposal_for_entry(entries@[i as int]@, code@));
        out.push(p);
        assert(proposal_views(out@) =~= proposal_views(prev).push(pv));
        assert(entry_views(entries@).take(i + 1) =~= entry_views(entries@).take(i as int).push(
            entries@[i as int]@,
        ));
        i = i + 1;
        assert(proposal_views(out@) =~= entry_views(entries@).take(i as int).map_values(
            |e: EntryView| proposal_for_entry(e, code@),
        ));
    }
    assert(entry_views(entries@).take(entries@.len() as int) =~= entry_views(entries@));
    out
}

impl DictionaryCandidateProvider {
    /// Creates a system-dictionary provider over any dictionary.
    pub fn system(dictionary: Arc<dyn Dictionary>) -> (r: Self)
        ensures
            r.in_memory_records() is None,
            r.shared_dictionary() == Some(dictionary),
            r.source() == CandidateSource::SystemDictionary,
    {
        let shared = Some(dictionary);
        DictionaryCandidateProvider {
            in_memory: None,
            shared,
            source: CandidateSource::SystemDictionary,
        }
    }

    /// Creates a system-dictionary provider over an in-memory dictionary.
    pub fn in_memory(dictionary: Arc<InMemoryDictionary>) -> (r: Self)
        ensures
            r.in_memory_records() == Some(dictionary@),
    {
        DictionaryCandidateProvider {
            in_memory: Some(dictionary),
            shared: None,
            source: CandidateSource::SystemDictionary,
        }
    }

    /// The dictionary the provider reads through the `Dictionary` trait, if any.
    pub closed spec fn shared_dictionary(&self) -> Option<Arc<dyn Dictionary>> {
        self.shared
    }

    /// The source the provider's proposals are attributed to.
    pub closed spec fn source(&self) -> CandidateSource {
        self.source
    }

    /// The records of the dictionary, when it is an in-memory dictionary.
    pub closed spec fn in_memory_records(&self) -> Option<Seq<EntryView>> {
        match self.in_memory {
            Some(d) => Some(d@),
            None => None,
        }
    }
}

/// The proposals an in-memory provider makes for `code`: every record whose code starts
/// with `code`, in storage order, at most `limit`.
pub open spec fn in_memory_proposals(records: Seq<EntryView>, code: Seq<char>, limit: nat) -> Seq<
    ProposalView,
> {
    if code.len() == 0 || limit == 0 {
        Seq::empty()
    } else {
        bounded(records.filter(code_matches(code, false)), limit as int).map_values(
            |e: EntryView| proposal_for_entry(e, code),
        )
    }
}

impl CandidateProvider for DictionaryCandidateProvider {
    /// An in-memory dictionary gives [`in_memory_proposals`]; any other dictionary is asked
    /// for its prefix matches of `code` within `limit`, each made into a proposal.
    open spec fn proposals_for(&self, code: Seq<char>, limit: nat) -> Option<Seq<ProposalView>> {
        if code.len() == 0 || limit == 0 {
            Some(Seq::empty())
        } else {
            match self.in_memory_records() {
                Some(records) => Some(in_memory_proposals(records, code, limit)),
                None => match self.shared_dictionary() {
                    Some(d) => match d.prefix_entries(code, limit) {
                        Some(es) => Some(es.map_values(|e: EntryView| proposal_for_entry(e, code))),
                        None => None,
                    },
                    None => Some(Seq::empty()),
                },
            }
        }
    }

    open spec fn component(&self) -> DegradedComponent {
        DegradedComponent::Dictionary
    }

    fn generate(&self, input: &ParsedInput, limit: usize) -> (r: Result<
        Vec<CandidateProposal>,
        ImeError,
    >)
        ensures
            (input@.len() == 0 || limit == 0) ==> (r matches Ok(v) && v@.len() == 0),
            self.in_memory_records() matches Some(records) ==> (r matches Ok(v) && proposal_views(
                v@,
            ) == in_memory_proposals(records, input@, limit as nat)),
    {
        let code = input.normalized_code();
        if code.is_empty() || limit == 0 {
            let v: Vec<CandidateProposal> = Vec::new();
            assert(proposal_views(v@) =~= Seq::<ProposalView>::empty());
            return Ok(v);
        }
        let entries = match &self.in_memory {
            Some(d) => d.lookup_prefix(code, limit)?,
            None => match &self.shared {
                Some(d) => d.lookup_prefix(code, limit)?,
                None => Vec::new(),
            },
        };
        assert(entries@.len() <= limit);
        let v = proposals_from_entries(entries, code);
        assert(proposal_views(v@).len() == v@.len());
        assert(entry_views(entries@).len() == entries@.len());
        proof {
            if self.in_memory_records() is None && self.shared_dictionary() is None {
                assert(entry_views(entries@) =~= Seq::<EntryView>::empty());
                assert(proposal_views(v@) =~= Seq::<ProposalView>::empty());
            }
        }
        Ok(v)
    }

    fn degraded_component(&self) -> (r: DegradedComponent)
        ensures
            r == DegradedComponent::Dictionary,
    {
        DegradedComponent::Dictionary
    }
}

// ---------------------------------------------------------------------------------------
// Deduplication
// ---------------------------------------------------------------------------------------

/// `left` is the better representative of two equivalent proposals: exact before prefix,
/// then higher frequency, then lower lexeme ID.
pub open spec fn canonical_precedes(left: ProposalView, right: ProposalView) -> bool {
    if left.match_kind != right.match_kind {
        left.match_kind == MatchKind::Exact
    } else if left.base_frequency != right.base_frequency {
        left.base_frequency > right.base_frequency
    } else {
        left.lexeme_id < right.lexeme_id
    }
}

/// Merges an incoming proposal into an existing equivalent one: the better representative
/// is kept, and the frequency is the maximum of the two, never the sum.
pub open spec fn merged(existing: ProposalView, incoming: ProposalView) -> ProposalView {
    let best = if canonical_precedes(incoming, existing) {
        incoming
    } else {
        existing
    };
    ProposalView {
        base_frequency: if existing.base_frequency >= incoming.base_frequency {
            existing.base_frequency
        } else {
            incoming.base_frequency
        },
        ..best
    }
}

/// Merges equivalent proposals in the order they arrived.
pub open spec fn merge_all(ps: Seq<ProposalView>) -> ProposalView
    decreases ps.len(),
{
    if ps.len() <= 1 {
        ps[0]
    } else {
        merged(merge_all(ps.drop_last()), ps.last())
    }
}

/// The proposals, in arrival order, whose identity is `id`.
pub open spec fn group_of(items: Seq<(Seq<char>, ProposalView)>, id: Seq<char>) -> Seq<
    ProposalView,
>
    decreases items.len(),
{
    if items.len() == 0 {
        Seq::empty()
    } else {
        let earlier = group_of(items.drop_last(), id);
        if items.last().0 == id {
            earlier.push(items.last().1)
        } else {
            earlier
        }
    }
}

/// Some item of `s` has identity `id`.
pub open spec fn has_identity(s: Seq<(Seq<char>, ProposalView)>, id: Seq<char>) -> bool {
    exists|i: int| 0 <= i < s.len() && #[trigger] s[i].0 == id
}

/// `out` is the deduplication of `items`: one entry per distinct identity, in increasing
/// identity order, each the merge of all proposals with that identity.
pub open spec fn is_deduplication(
    items: Seq<(Seq<char>, ProposalView)>,
    out: Seq<(Seq<char>, ProposalView)>,
) -> bool {
    &&& forall|i: int, j: int| 0 <= i < j < out.len() ==> text_lt(out[i].0, out[j].0)
    &&& forall|id: Seq<char>|
        #![trigger has_identity(out, id)]
        #![trigger has_identity(items, id)]
        has_identity(out, id) <==> has_identity(items, id)
    &&& forall|i: int| 0 <= i < out.len() ==> (#[trigger] out[i]).1 == merge_all(
        group_of(items, out[i].0),
    )
}

/// A proposal together with its merge identity.
pub struct IdentifiedProposal {
    pub identity: CandidateIdentity,
    pub proposal: CandidateProposal,
}

/// The (identity, proposal) content of identified proposals.
pub open spec fn identified_views(s: Seq<IdentifiedProposal>) -> Seq<(Seq<char>, ProposalView)> {
    s.map_values(|x: IdentifiedProposal| (x.identity@, x.proposal@))
}

/// Merges an incoming proposal into an existing one.
pub fn merge_proposal(existing: &mut CandidateProposal, incoming: CandidateProposal)
    ensures
        final(existing)@ == merged(old(existing)@, incoming@),
{
    let maximum_frequency = if existing.base_frequency >= incoming.base_frequency {
        existing.base_frequency
    } else {
        incoming.base_frequency
    };
    if canonical_precedes_exec(&incoming, existing) {
        *existing = incoming;
    }
    existing.base_frequency = maximum_frequency;
}

/// Returns whether `left` is the better representative of two equivalent proposals.
pub fn canonical_precedes_exec(left: &CandidateProposal, right: &CandidateProposal) -> (r: bool)
    ensures
        r == canonical_precedes(left@, right@),
{
    if left.match_kind != right.match_kind {
        return left.match_kind == MatchKind::Exact;
    }
    if left.base_frequency != right.base_frequency {
        return left.base_frequency > right.base_frequency;
    }
    left.lexeme_id.0 < right.lexeme_id.0
}

proof fn lemma_group_step(items: Seq<(Seq<char>, ProposalView)>, i: int, id: Seq<char>)
    requires
        0 <= i < items.len(),
    ensures
        group_of(items.take(i + 1), id) == if items[i].0 == id {
            group_of(items.take(i), id).push(items[i].1)
        } else {
            group_of(items.take(i), id)
        },
{
    assert(items.take(i + 1).drop_last() =~= items.take(i));
    assert(items.take(i + 1).last() == items[i]);
}

proof fn lemma_group_empty(items: Seq<(Seq<char>, ProposalView)>, id: Seq<char>)
    requires
        forall|k: int| 0 <= k < items.len() ==> (#[trigger] items[k]).0 != id,
    ensures
        group_of(items, id).len() == 0,
    decreases items.len(),
{
    if items.len() > 0 {
        let rest = items.drop_last();
        assert forall|k: int| 0 <= k < rest.len() implies (#[trigger] rest[k]).0 != id by {
            assert(rest[k] == items[k]);
        }
        lemma_group_empty(rest, id);
        assert(items.last() == items[items.len() - 1]);
    }
}

proof fn lemma_merge_all_push(ps: Seq<ProposalView>, p: ProposalView)
    requires
        ps.len() > 0,
    ensures
        merge_all(ps.push(p)) == merged(merge_all(ps), p),
{
    assert(ps.push(p).drop_last() =~= ps);
}

/// Deduplicates identified proposals: one proposal per identity, in identity order.
pub fn deduplicate_identified(items: Vec<IdentifiedProposal>) -> (r: Vec<IdentifiedProposal>)
    ensures
        is_deduplication(identified_views(items@), identified_views(r@)),
{
    let ghost all = identified_views(items@);
    let mut out: Vec<IdentifiedProposal> = Vec::new();
    let mut rest = items;
    let ghost total = rest@;
    let n = rest.len();
    let mut i: usize = 0;
    while rest.len() > 0
        invariant
            i <= n,
            n == total.len(),
            rest@ == total.skip(i as int),
            all == identified_views(total),
            is_deduplication(all.take(i as int), identified_views(out@)),
        decreases rest@.len(),
    {
        let item = rest.remove(0);
        assert(item == total[i as int]);
        let ghost ov = identified_views(out@);
        let ghost x = (item.identity@, item.proposal@);
        assert(all[i as int] == x);
        // find the first entry whose identity is not smaller than the item's
        let mut k: usize = 0;
        while k < out.len() && !text_le_exec(item.identity.as_str(), out[k].identity.as_str())
            invariant
                k <= out@.len(),
                ov == identified_views(out@),
                x == (item.identity@, item.proposal@),
                forall|j: int| 0 <= j < k ==> !text_le(x.0, (#[trigger] ov[j]).0),
            decreases out@.len() - k,
        {
            k = k + 1;
        }
        let found = k < out.len() && text_eq(out[k].identity.as_str(), item.identity.as_str());
        proof {
            lemma_dedup_step_facts(all, i as int, ov, k as int);
        }
        if found {
            let ghost before = out@;
            let mut slot = out.remove(k);
            merge_proposal(&mut slot.proposal, item.proposal);
            out.insert(k, slot);
            proof {
                assert(identified_views(out@) =~= ov.update(k as int, (ov[k as int].0, merged(ov[k as int].1, x.1))));
                lemma_dedup_merge_step(all, i as int, ov, identified_views(out@), k as int);
            }
        } else {
            out.insert(k, item);
            proof {
                assert(identified_views(out@) =~= ov.insert(k as int, x));
                lemma_dedup_insert_step(all, i as int, ov, identified_views(out@), k as int);
            }
        }
        assert(rest@ =~= total.skip(i + 1));
        i = i + 1;
    }
    assert(all.take(n as int) =~= all);
    out
}

/// Facts about the search position used by one deduplication step.
proof fn lemma_dedup_step_facts(
    all: Seq<(Seq<char>, ProposalView)>,
    i: int,
    ov: Seq<(Seq<char>, ProposalView)>,
    k: int,
)
    requires
        0 <= i < all.len(),
        0 <= k <= ov.len(),
        is_deduplication(all.take(i), ov),
        forall|j: int| 0 <= j < k ==> !text_le(all[i].0, (#[trigger] ov[j]).0),
        k < ov.len() ==> text_le(all[i].0, ov[k].0),
    ensures
        forall|j: int| 0 <= j < k ==> text_lt((#[trigger] ov[j]).0, all[i].0),
        k < ov.len() && ov[k].0 != all[i].0 ==> text_lt(all[i].0, ov[k].0),
{
    assert forall|j: int| 0 <= j < k implies text_lt((#[trigger] ov[j]).0, all[i].0) by {
        lemma_text_le_total(all[i].0, ov[j].0);
        lemma_text_le_reflexive(all[i].0);
    }
}

proof fn lemma_dedup_merge_step(
    all: Seq<(Seq<char>, ProposalView)>,
    i: int,
    ov: Seq<(Seq<char>, ProposalView)>,
    nv: Seq<(Seq<char>, ProposalView)>,
    k: int,
)
    requires
        0 <= i < all.len(),
        0 <= k < ov.len(),
        is_deduplication(all.take(i), ov),
        ov[k].0 == all[i].0,
        nv.len() == ov.len(),
        forall|j: int| 0 <= j < nv.len() && j != k ==> nv[j] == ov[j],
        nv[k] == (ov[k].0, merged(ov[k].1, all[i].1)),
    ensures
        is_deduplication(all.take(i + 1), nv),
{
    let id = all[i].0;
    let pre = all.take(i);
    let post = all.take(i + 1);
    assert(post =~= pre.push(all[i]));
    assert forall|a: int, b: int| 0 <= a < b < nv.len() implies text_lt(nv[a].0, nv[b].0) by {
        assert(text_lt(ov[a].0, ov[b].0));
    }
    assert forall|x: Seq<char>|
        #![trigger has_identity(nv, x)]
        #![trigger has_identity(post, x)]
        has_identity(nv, x) <==> has_identity(post, x) by {
        if has_identity(nv, x) {
            let a = choose|a: int| 0 <= a < nv.len() && #[trigger] nv[a].0 == x;
            assert(ov[a].0 == x);
            assert(has_identity(ov, x));
            assert(has_identity(pre, x));
            let b = choose|b: int| 0 <= b < pre.len() && #[trigger] pre[b].0 == x;
            assert(post[b] == pre[b]);
            assert(has_identity(post, x));
        }
        if has_identity(post, x) {
            let b = choose|b: int| 0 <= b < post.len() && #[trigger] post[b].0 == x;
            if b < i {
                assert(pre[b] == post[b]);
                assert(has_identity(pre, x));
                assert(has_identity(ov, x));
                let a = choose|a: int| 0 <= a < ov.len() && #[trigger] ov[a].0 == x;
                assert(nv[a].0 == x);
            } else {
                assert(nv[k].0 == x);
            }
            assert(has_identity(nv, x));
        }
    }
    assert forall|a: int| 0 <= a < nv.len() implies (#[trigger] nv[a]).1 == merge_all(
        group_of(post, nv[a].0),
    ) by {
        lemma_group_step(all, i, nv[a].0);
        if a == k {
            assert(ov[k].1 == merge_all(group_of(pre, id)));
            // the identity is present, so its group is not empty
            assert(has_identity(ov, id));
            assert(has_identity(pre, id));
            let b = choose|b: int| 0 <= b < pre.len() && #[trigger] pre[b].0 == id;
            lemma_group_nonempty(pre, id, b);
            lemma_merge_all_push(group_of(pre, id), all[i].1);
        } else {
            assert(ov[a].0 != id) by {
                if ov[a].0 == id {
                    assert(text_lt(ov[a].0, ov[k].0) || text_lt(ov[k].0, ov[a].0));
                }
            }
        }
    }
}

pub(crate) proof fn lemma_group_nonempty(items: Seq<(Seq<char>, ProposalView)>, id: Seq<char>, b: int)
    requires
        0 <= b < items.len(),
        items[b].0 == id,
    ensures
        group_of(items, id).len() > 0,
    decreases items.len(),
{
    if b < items.len() - 1 {
        let rest = items.drop_last();
        assert(rest[b] == items[b]);
        lemma_group_nonempty(rest, id, b);
    }
}

proof fn lemma_dedup_insert_step(
    all: Seq<(Seq<char>, ProposalView)>,
    i: int,
    ov: Seq<(Seq<char>, ProposalView)>,
    nv: Seq<(Seq<char>, ProposalView)>,
    k: int,
)
    requires
        0 <= i < all.len(),
        0 <= k <= ov.len(),
        is_deduplication(all.take(i), ov),
        forall|j: int| 0 <= j < k ==> text_lt((#[trigger] ov[j]).0, all[i].0),
        k < ov.len() ==> text_lt(all[i].0, ov[k].0),
        nv == ov.insert(k, all[i]),
    ensures
        is_deduplication(all.take(i + 1), nv),
{
    let id = all[i].0;
    let pre = all.take(i);
    let post = all.take(i + 1);
    assert(post =~= pre.push(all[i]));
    // the identity is new
    assert forall|b: int| 0 <= b < pre.len() implies (#[trigger] pre[b]).0 != id by {
        if pre[b].0 == id {
            assert(has_identity(pre, id));
            assert(has_identity(ov, id));
            let a = choose|a: int| 0 <= a < ov.len() && #[trigger] ov[a].0 == id;
            assert(text_lt(ov[a].0, id) ==> ov[a].0 != id);
            if a < k {
                assert(text_lt(ov[a].0, id));
            } else {
                if a > k {
                    assert(text_lt(ov[k].0, ov[a].0));
                    lemma_text_le_transitive(id, ov[k].0, ov[a].0);
                    lemma_text_le_antisymmetric(id, ov[k].0);
                }
            }
        }
    }
    assert forall|a: int, b: int| 0 <= a < b < nv.len() implies text_lt(nv[a].0, nv[b].0) by {
        if a < k && b == k {
        } else if a == k && b > k {
            if b - 1 > k {
                assert(text_lt(ov[k].0, ov[b - 1].0));
                lemma_text_le_transitive(id, ov[k].0, ov[b - 1].0);
                if id == ov[b - 1].0 {
                    lemma_text_le_antisymmetric(id, ov[k].0);
                }
            }
        } else if a < k && b > k {
            assert(text_lt(ov[a].0, id));
            if b - 1 > k {
                assert(text_lt(ov[k].0, ov[b - 1].0));
                lemma_text_le_transitive(id, ov[k].0, ov[b - 1].0);
                if id == ov[b - 1].0 {
                    lemma_text_le_antisymmetric(id, ov[k].0);
                }
            }
            lemma_text_le_transitive(ov[a].0, id, ov[b - 1].0);
            if ov[a].0 == ov[b - 1].0 {
                lemma_text_le_antisymmetric(ov[a].0, id);
            }
        } else if a > k {
            assert(text_lt(ov[a - 1].0, ov[b - 1].0));
        } else {
            assert(text_lt(ov[a].0, ov[b].0));
        }
    }
    assert forall|x: Seq<char>|
        #![trigger has_identity(nv, x)]
        #![trigger has_identity(post, x)]
        has_identity(nv, x) <==> has_identity(post, x) by {
        if has_identity(nv, x) {
            let a = choose|a: int| 0 <= a < nv.len() && #[trigger] nv[a].0 == x;
            if a == k {
                assert(post[i].0 == x);
            } else {
                let a2 = if a < k {
                    a
                } else {
                    a - 1
                };
                assert(ov[a2].0 == x);
                assert(has_identity(ov, x));
                assert(has_identity(pre, x));
                let b = choose|b: int| 0 <= b < pre.len() && #[trigger] pre[b].0 == x;
                assert(post[b] == pre[b]);
            }
            assert(has_identity(post, x));
        }
        if has_identity(post, x) {
            let b = choose|b: int| 0 <= b < post.len() && #[trigger] post[b].0 == x;
            if b < i {
                assert(pre[b] == post[b]);
                assert(has_identity(pre, x));
                assert(has_identity(ov, x));
                let a = choose|a: int| 0 <= a < ov.len() && #[trigger] ov[a].0 == x;
                if a < k {
                    assert(nv[a].0 == x);
                } else {
                    assert(nv[a + 1].0 == x);
                }
            } else {
                assert(nv[k].0 == x);
            }
            assert(has_identity(nv, x));
        }
    }
    assert forall|a: int| 0 <= a < nv.len() implies (#[trigger] nv[a]).1 == merge_all(
        group_of(post, nv[a].0),
    ) by {
        lemma_group_step(all, i, nv[a].0);
        if a == k {
            lemma_group_empty(pre, id);
            assert(group_of(pre, id).push(all[i].1) =~= seq![all[i].1]);
        } else {
            let a2 = if a < k {
                a
            } else {
                a - 1
            };
            assert(nv[a] == ov[a2]);
            assert(ov[a2].0 != id) by {
                if ov[a2].0 == id {
                    assert(has_identity(ov, id));
                    assert(has_identity(pre, id));
                    let b = choose|b: int| 0 <= b < pre.len() && #[trigger] pre[b].0 == id;
                    assert(pre[b].0 != id);
                }
            }
        }
    }
}

// ---------------------------------------------------------------------------------------
// Snapshots
// ---------------------------------------------------------------------------------------

/// One candidate of a snapshot.
#[derive(Clone, Debug)]
struct SnapshotEntry {
    candidate_id: CandidateId,
    ranked: RankedCandidate,
}

/// Candidates valid only for one Session revision.
#[derive(Clone, Debug)]
pub struct CandidateSnapshot {
    session_id: SessionId,
    revision: StateRevision,
    entries: Vec<SnapshotEntry>,
    selected_index: Option<usize>,
}

/// Mathematical content of a [`CandidateSnapshot`].
pub struct SnapshotView {
    pub session_id: SessionId,
    pub revision: StateRevision,
    pub ids: Seq<u32>,
    pub proposals: Seq<ProposalView>,
    pub selected: Option<nat>,
}

/// The identifier given to the candidate at `index`: its one-based position.
pub open spec fn candidate_id_for(index: int) -> u32 {
    if index + 1 <= u32::MAX {
        (index + 1) as u32
    } else {
        u32::MAX
    }
}

/// The first position holding candidate `id`.
pub open spec fn index_of_id(ids: Seq<u32>, id: u32) -> Option<nat> {
    if exists|i: int| 0 <= i < ids.len() && ids[i] == id {
        Some(
            (choose|i: int|
                0 <= i < ids.len() && ids[i] == id && forall|j: int|
                    0 <= j < i ==> ids[j] != id) as nat,
        )
    } else {
        None
    }
}

impl View for CandidateSnapshot {
    type V = SnapshotView;

    closed spec fn view(&self) -> SnapshotView {
        SnapshotView {
            session_id: self.session_id,
            revision: self.revision,
            ids: self.entries@.map_values(|e: SnapshotEntry| e.candidate_id.0),
            proposals: self.entries@.map_values(|e: SnapshotEntry| e.ranked.proposal@),
            selected: match self.selected_index {
                Some(i) => Some(i as nat),
                None => None,
            },
        }
    }
}

impl SnapshotView {
    /// Identifiers are one-based positions, and a candidate is selected exactly when there
    /// are candidates.
    pub open spec fn wf(self) -> bool {
        &&& self.ids.len() == self.proposals.len()
        &&& forall|i: int| 0 <= i < self.ids.len() ==> #[trigger] self.ids[i] == candidate_id_for(
            i,
        )
        &&& match self.selected {
            Some(k) => k < self.proposals.len(),
            None => self.proposals.len() == 0,
        }
    }

    /// The selected candidate's identifier.
    pub open spec fn selected_id(self) -> Option<CandidateId> {
        match self.selected {
            Some(k) => Some(CandidateId(self.ids[k as int])),
            None => None,
        }
    }

    /// The text of candidate `id`, if it is in the snapshot.
    pub open spec fn text_of(self, id: CandidateId) -> Option<Seq<char>> {
        match index_of_id(self.ids, id.0) {
            Some(i) => Some(self.proposals[i as int].text),
            None => None,
        }
    }
}

/// The candidate views a renderer receives for a snapshot.
pub open spec fn candidate_views_match(v: Seq<CandidateView>, s: SnapshotView) -> bool {
    &&& v.len() == s.ids.len()
    &&& forall|i: int|
        0 <= i < v.len() ==> (#[trigger] v[i]).candidate_id.0 == s.ids[i] && v[i].text@
            == s.proposals[i].text
}

impl CandidateSnapshot {
    /// An empty snapshot bound to a Session revision.
    pub fn empty(session_id: SessionId, revision: StateRevision) -> (r: Self)
        ensures
            r@.session_id == session_id,
            r@.revision == revision,
            r@.proposals.len() == 0,
            r@.ids.len() == 0,
            r@.selected is None,
            r@.wf(),
    {
        CandidateSnapshot { session_id, revision, entries: Vec::new(), selected_index: None }
    }

    /// Numbers ranked candidates from one and selects the first.
    pub fn from_ranked(
        session_id: SessionId,
        revision: StateRevision,
        ranked: Vec<RankedCandidate>,
    ) -> (r: Self)
        ensures
            r@.session_id == session_id,
            r@.revision == revision,
            r@.proposals == ranked_proposals(ranked@),
            r@.wf(),
            r@.proposals.len() > 0 ==> r@.selected == Some(0nat),
    {
        let mut entries: Vec<SnapshotEntry> = Vec::new();
        let mut rest = ranked;
        let ghost total = rest@;
        let count: usize = rest.len();
        let mut index: usize = 0;
        while rest.len() > 0
            invariant
                index + rest@.len() == total.len(),
                total.len() == count,
                rest@ == total.skip(index as int),
                entries@.len() == index,
                entries@.map_values(|e: SnapshotEntry| e.ranked.proposal@) == ranked_proposals(
                    total.take(index as int),
                ),
                forall|i: int| 0 <= i < index ==> #[trigger] entries@[i].candidate_id.0
                    == candidate_id_for(i),
            decreases rest@.len(),
        {
            let r = rest.remove(0);
            let id: u32 = if index < 4294967295 {
                (index + 1) as u32
            } else {
                4294967295
            };
            let ghost prev = entries@;
            assert(r == total[index as int]);
            entries.push(SnapshotEntry { candidate_id: CandidateId::new(id), ranked: r });
            proof {
                assert(entries@.map_values(|e: SnapshotEntry| e.ranked.proposal@) =~= prev.map_values(
                    |e: SnapshotEntry| e.ranked.proposal@,
                ).push(total[index as int].proposal@));
                assert(total.take(index + 1) =~= total.take(index as int).push(total[index as int]));
                assert(rest@ =~= total.skip(index + 1));
            }
            index = index + 1;
            assert(entries@.map_values(|e: SnapshotEntry| e.ranked.proposal@) =~= ranked_proposals(
                total.take(index as int),
            ));
        }
        assert(total.take(total.len() as int) =~= total);
        let selected_index = if entries.len() > 0 {
            Some(0)
        } else {
            None
        };
        CandidateSnapshot { session_id, revision, entries, selected_index }
    }

    /// Returns the number of candidates.
    pub fn len(&self) -> (r: usize)
        ensures
            r == self@.proposals.len(),
    {
        self.entries.len()
    }

    /// Returns the proposal of the candidate at `index`.
    pub fn proposal_at(&self, index: usize) -> (r: Option<&CandidateProposal>)
        ensures
            match r {
                Some(p) => index < self@.proposals.len() && p@ == self@.proposals[index as int],
                None => index >= self@.proposals.len(),
            },
    {
        if index < self.entries.len() {
            Some(&self.entries[index].ranked.proposal)
        } else {
            None
        }
    }

    /// Returns whether the snapshot holds no candidates.
    pub fn is_empty(&self) -> (r: bool)
        ensures
            r == (self@.proposals.len() == 0),
    {
        self.entries.len() == 0
    }

    /// Returns whether the snapshot was produced for this Session revision.
    pub fn is_bound_to(&self, session_id: SessionId, revision: StateRevision) -> (r: bool)
        ensures
            r == (self@.session_id == session_id && self@.revision == revision),
    {
        self.session_id.0 == session_id.0 && self.revision.0 == revision.0
    }

    /// Returns the revision the snapshot is bound to.
    pub fn revision(&self) -> (r: StateRevision)
        ensures
            r == self@.revision,
    {
        self.revision
    }

    /// Moves the binding to a new revision without changing the candidates.
    pub fn rebind_revision(&mut self, revision: StateRevision)
        ensures
            final(self)@ == (SnapshotView { revision, ..old(self)@ }),
    {
        self.revision = revision;
    }

    /// Returns the renderable candidates.
    pub fn views(&self) -> (r: Vec<CandidateView>)
        ensures
            candidate_views_match(r@, self@),
    {
        let mut out: Vec<CandidateView> = Vec::new();
        let mut i: usize = 0;
        while i < self.entries.len()
            invariant
                i <= self.entries@.len(),
                out@.len() == i,
                forall|k: int|
                    0 <= k < i ==> (#[trigger] out@[k]).candidate_id.0 == self@.ids[k]
                        && out@[k].text@ == self@.proposals[k].text,
            decreases self.entries@.len() - i,
        {
            let e = &self.entries[i];
            out.push(
                CandidateView { candidate_id: e.candidate_id, text: e.ranked.proposal.text.clone() },
            );
            i = i + 1;
        }
        out
    }

    /// Returns the selected candidate's identifier.
    pub fn selected_candidate_id(&self) -> (r: Option<CandidateId>)
        requires
            self@.wf(),
        ensures
            r == self@.selected_id(),
    {
        match self.selected_index {
            Some(index) => Some(self.entries[index].candidate_id),
            None => None,
        }
    }

    /// Returns the text of candidate `candidate_id`.
    pub fn candidate_text(&self, candidate_id: CandidateId) -> (r: Option<&str>)
        ensures
            match r {
                Some(t) => self@.text_of(candidate_id) == Some(t@),
                None => self@.text_of(candidate_id) is None,
            },
    {
        let ghost ids = self@.ids;
        let mut i: usize = 0;
        while i < self.entries.len()
            invariant
                i <= self.entries@.len(),
                ids == self@.ids,
                forall|j: int| 0 <= j < i ==> ids[j] != candidate_id.0,
            decreases self.entries@.len() - i,
        {
            if self.entries[i].candidate_id.0 == candidate_id.0 {
                proof {
                    assert(ids[i as int] == candidate_id.0);
                    let c = choose|k: int|
                        0 <= k < ids.len() && ids[k] == candidate_id.0 && forall|j: int|
                            0 <= j < k ==> ids[j] != candidate_id.0;
                    assert(c == i) by {
                        if c < i {
                            assert(ids[c] != candidate_id.0);
                        }
                        if c > i {
                            assert(ids[i as int] != candidate_id.0);
                        }
                    }
                }
                return Some(self.entries[i].ranked.proposal.text.as_str());
            }
            i = i + 1;
        }
        None
    }

    /// Returns whether moving the selection by `delta` would change it.
    pub fn selection_moves(&self, delta: i32) -> (r: bool)
        requires
            self@.wf(),
        ensures
            r == match self@.selected {
                None => false,
                Some(k) => delta != 0 && crate::composer::clamp(
                    k + delta,
                    0,
                    self@.proposals.len() - 1,
                ) != k,
            },
    {
        let current = match self.selected_index {
            Some(c) => c,
            None => {
                return false;
            },
        };
        if delta == 0 {
            return false;
        }
        let maximum = self.entries.len() - 1;
        let next: usize = if delta < 0 {
            let back = (-(delta as i64)) as usize;
            if back >= current {
                0
            } else {
                current - back
            }
        } else {
            let forward = delta as usize;
            if forward >= maximum - current {
                maximum
            } else {
                current + forward
            }
        };
        next != current
    }

    /// Moves the selection by `delta`, clamped to the candidates.
    pub fn move_selection(&mut self, delta: i32) -> (r: bool)
        requires
            old(self)@.wf(),
        ensures
            final(self)@.wf(),
            final(self)@.ids == old(self)@.ids,
            final(self)@.proposals == old(self)@.proposals,
            final(self)@.session_id == old(self)@.session_id,
            final(self)@.revision == old(self)@.revision,
            match old(self)@.selected {
                None => !r && final(self)@ == old(self)@,
                Some(k) => {
                    let next = crate::composer::clamp(
                        k + delta,
                        0,
                        old(self)@.proposals.len() - 1,
                    );
                    &&& r == (delta != 0 && next != k)
                    &&& final(self)@.selected == if r {
                        Some(next as nat)
                    } else {
                        Some(k)
                    }
                },
            },
    {
        let current = match self.selected_index {
            Some(c) => c,
            None => {
                return false;
            },
        };
        if delta == 0 {
            return false;
        }
        let maximum = self.entries.len() - 1;
        let next: usize = if delta < 0 {
            let back = (-(delta as i64)) as usize;
            if back >= current {
                0
            } else {
                current - back
            }
        } else {
            let forward = delta as usize;
            if forward >= maximum - current {
                maximum
            } else {
                current + forward
            }
        };
        if next == current {
            return false;
        }
        self.selected_index = Some(next);
        true
    }
}

// ---------------------------------------------------------------------------------------
// Pipeline
// ---------------------------------------------------------------------------------------

/// Full candidate pipeline: normalization, providers, deduplication and ranking.
///
/// Without a custom language engine the reference engine is used. The in-memory provider,
/// when present, runs before the other providers.
pub struct CandidateEngine {
    language: Option<Arc<dyn LanguageEngine>>,
    reference_provider: Option<DictionaryCandidateProvider>,
    providers: Vec<Arc<dyn CandidateProvider>>,
    ranking: RankingEngine,
}

impl CandidateEngine {
    /// Creates a pipeline from explicit components; without a language engine the reference
    /// engine is used.
    pub fn new(
        language: Option<Arc<dyn LanguageEngine>>,
        providers: Vec<Arc<dyn CandidateProvider>>,
        ranking: RankingEngine,
    ) -> (r: Self)
        ensures
            r.provider_count() == providers@.len(),
            r.uses_reference_language() == (language is None),
            r.language_engine() == language,
            r.dictionary_provider() is None,
            r.provider_list() == providers@,
    {
        CandidateEngine { language, reference_provider: None, providers, ranking }
    }

    /// Creates the reference pipeline: ASCII case folding and one in-memory dictionary.
    pub fn reference(dictionary: InMemoryDictionary) -> (r: Self)
        ensures
            r.reference_records() == Some(dictionary@),
            r.provider_count() == 1,
            r.uses_reference_language(),
    {
        let provider = DictionaryCandidateProvider::in_memory(Arc::new(dictionary));
        CandidateEngine {
            language: None,
            reference_provider: Some(provider),
            providers: Vec::new(),
            ranking: RankingEngine,
        }
    }

    /// The number of candidate providers.
    pub closed spec fn provider_count(&self) -> nat {
        (if self.reference_provider is Some {
            1nat
        } else {
            0nat
        }) + self.providers@.len()
    }

    /// Whether the reference language engine is used.
    pub closed spec fn uses_reference_language(&self) -> bool {
        self.language is None
    }

    /// The language engine, or `None` for the reference one.
    pub closed spec fn language_engine(&self) -> Option<Arc<dyn LanguageEngine>> {
        self.language
    }

    /// The built-in dictionary provider, asked before the other providers.
    pub closed spec fn dictionary_provider(&self) -> Option<DictionaryCandidateProvider> {
        self.reference_provider
    }

    /// The explicit providers, in the order they are asked.
    pub closed spec fn provider_list(&self) -> Seq<Arc<dyn CandidateProvider>> {
        self.providers@
    }

    /// The parsed code of a composition, or `None` where the language fails on it.
    pub open spec fn parsed_code(&self, composition: Seq<char>) -> Option<Seq<char>> {
        match self.language_engine() {
            None => Some(ascii_lower_text(composition)),
            Some(l) => match l.normalized(composition) {
                Some(n) => l.parsed(n),
                None => None,
            },
        }
    }

    /// The merge identity of a candidate text.
    pub open spec fn identity_for(&self, text: Seq<char>) -> Seq<char> {
        match self.language_engine() {
            None => text,
            Some(l) => l.identity(text),
        }
    }

    /// Proposals keyed by their merge identities.
    pub open spec fn keyed(&self, ps: Seq<ProposalView>) -> Seq<(Seq<char>, ProposalView)> {
        ps.map_values(|p: ProposalView| (self.identity_for(p.text), p))
    }

    /// What the built-in dictionary provider contributes for `code` within `max`.
    pub open spec fn first_proposals(&self, code: Seq<char>, max: nat) -> Result<
        Seq<ProposalView>,
        DegradedComponent,
    > {
        match self.dictionary_provider() {
            Some(p) => if max > 0 {
                match p.proposals_for(code, max) {
                    Some(g) => Ok(g),
                    None => Err(p.component()),
                }
            } else {
                Ok(Seq::empty())
            },
            None => Ok(Seq::empty()),
        }
    }

    /// Every proposal collected for `code`, at most `max` in all, or the component of the
    /// first provider that failed.
    pub open spec fn collected(&self, code: Seq<char>, max: nat) -> Result<
        Seq<ProposalView>,
        DegradedComponent,
    > {
        match self.first_proposals(code, max) {
            Ok(g) => collect_from(self.provider_list(), code, max, g),
            Err(c) => Err(c),
        }
    }

    /// The identified proposals the pipeline deduplicates and ranks for a composition, or
    /// the component that failed.
    pub open spec fn pipeline_items(&self, composition: Seq<char>, limits: CoreLimits) -> Result<
        Seq<(Seq<char>, ProposalView)>,
        DegradedComponent,
    > {
        match self.parsed_code(composition) {
            None => Err(DegradedComponent::Language),
            Some(code) => match self.collected(code, limits.max_generated_candidates as nat) {
                Ok(ps) => Ok(self.keyed(ps)),
                Err(c) => Err(c),
            },
        }
    }

    fn normalize_and_parse(&self, composition: &str) -> (r: Result<ParsedInput, ImeError>)
        ensures
            self.language is None ==> (r matches Ok(p) && p@ == ascii_lower_text(composition@)),
            match r {
                Ok(p) => self.parsed_code(composition@) == Some(p@),
                Err(_) => self.parsed_code(composition@) is None,
            },
    {
        match &self.language {
            None => {
                let l = ReferenceLanguageEngine;
                let n = l.normalize_input(composition)?;
                l.parse_input(&n)
            },
            Some(l) => {
                let n = l.normalize_input(composition)?;
                l.parse_input(&n)
            },
        }
    }

    fn identity_of(&self, text: &str) -> (r: CandidateIdentity)
        ensures
            r@ == self.identity_for(text@),
    {
        match &self.language {
            None => ReferenceLanguageEngine.candidate_identity(text),
            Some(l) => l.candidate_identity(text),
        }
    }

    /// Appends at most `remaining` of `generated` to `proposals`.
    fn append_bounded(
        proposals: &mut Vec<CandidateProposal>,
        generated: Vec<CandidateProposal>,
        remaining: usize,
    )
        ensures
            final(proposals)@ == old(proposals)@ + generated@.take(
                if generated@.len() < remaining {
                    generated@.len() as int
                } else {
                    remaining as int
                },
            ),
    {
        let ghost start = proposals@;
        let ghost g = generated@;
        let mut taken: usize = 0;
        let mut rest = generated;
        while rest.len() > 0 && taken < remaining
            invariant
                taken <= remaining,
                taken <= g.len(),
                rest@ == g.skip(taken as int),
                proposals@ == start + g.take(taken as int),
            decreases rest@.len(),
        {
            let p = rest.remove(0);
            proposals.push(p);
            proof {
                assert(g.take(taken + 1) =~= g.take(taken as int).push(g[taken as int]));
                assert(rest@ =~= g.skip(taken + 1));
            }
            taken = taken + 1;
        }
        proof {
            if taken < remaining {
                assert(taken == g.len());
            }
        }
    }

    /// The records of the in-memory dictionary of the reference pipeline.
    pub closed spec fn reference_records(&self) -> Option<Seq<EntryView>> {
        if self.language is None && self.providers@.len() == 0 {
            match self.reference_provider {
                Some(p) => p.in_memory_records(),
                None => None,
            }
        } else {
            None
        }
    }

    /// Collects at most `max_generated_candidates` proposals from the providers, in
    /// provider order.
    fn collect_proposals(&self, parsed: &ParsedInput, limits: &CoreLimits) -> (r: Result<
        Vec<CandidateProposal>,
        CandidatePipelineFailure,
    >)
        ensures
            r matches Ok(v) ==> v@.len() <= limits.max_generated_candidates,
            self.reference_records() matches Some(records) ==> (r matches Ok(v) && proposal_views(
                v@,
            ) == in_memory_proposals(records, parsed@, limits.max_generated_candidates as nat)),
            match r {
                Ok(v) => self.collected(parsed@, limits.max_generated_candidates as nat) == Ok::<
                    Seq<ProposalView>,
                    DegradedComponent,
                >(proposal_views(v@)),
                Err(f) => self.collected(parsed@, limits.max_generated_candidates as nat) == Err::<
                    Seq<ProposalView>,
                    DegradedComponent,
                >(f.component),
            },
    {
        let mut proposals: Vec<CandidateProposal> = Vec::new();
        let max = limits.max_generated_candidates;
        let ghost code = parsed@;
        if let Some(p) = &self.reference_provider {
            if max > 0 {
                let generated = match p.generate(parsed, max) {
                    Ok(v) => v,
                    Err(_) => {
                        return Err(CandidatePipelineFailure { component: p.degraded_component() });
                    },
                };
                proof {
                    assert(proposal_views(generated@).len() == generated@.len());
                }
                Self::append_bounded(&mut proposals, generated, max);
                proof {
                    assert(generated@.take(generated@.len() as int) =~= generated@);
                    assert(proposals@ =~= generated@);
                }
            }
        }
        proof {
            assert(proposal_views(proposals@).len() == proposals@.len());
            if !(self.reference_provider is Some && max > 0) {
                assert(proposal_views(proposals@) =~= Seq::<ProposalView>::empty());
            }
            assert(self.first_proposals(code, max as nat) == Ok::<
                Seq<ProposalView>,
                DegradedComponent,
            >(proposal_views(proposals@)));
            assert(self.providers@.skip(0) =~= self.providers@);
        }
        let ghost after_reference = proposals@;
        let mut i: usize = 0;
        while i < self.providers.len() && proposals.len() < max
            invariant
                i <= self.providers@.len(),
                proposals@.len() <= max,
                max == limits.max_generated_candidates,
                code == parsed@,
                self.providers@.len() == 0 ==> proposals@ == after_reference,
                self.collected(code, max as nat) == collect_from(
                    self.providers@.skip(i as int),
                    code,
                    max as nat,
                    proposal_views(proposals@),
                ),
            decreases self.providers@.len() - i,
        {
            let remaining = max - proposals.len();
            let p = &self.providers[i];
            let ghost acc = proposal_views(proposals@);
            let ghost rest = self.providers@.skip(i as int);
            proof {
                assert(acc.len() == proposals@.len());
                assert(rest[0] == self.providers@[i as int]);
                assert(rest.drop_first() =~= self.providers@.skip(i + 1));
            }
            let generated = match p.generate(parsed, remaining) {
                Ok(v) => v,
                Err(_) => {
                    return Err(CandidatePipelineFailure { component: p.degraded_component() });
                },
            };
            let ghost g = generated@;
            Self::append_bounded(&mut proposals, generated, remaining);
            proof {
                assert(g.take(g.len() as int) =~= g);
                assert(proposal_views(proposals@) =~= acc + proposal_views(g));
            }
            i = i + 1;
        }
        proof {
            assert(proposal_views(proposals@).len() == proposals@.len());
            if i == self.providers.len() {
                assert(self.providers@.skip(i as int).len() == 0);
            }
        }
        Ok(proposals)
    }

    /// Runs the pipeline for one composition.
    ///
    /// An empty composition yields an empty snapshot. Otherwise the snapshot holds at most
    /// `max_visible_candidates` candidates, in ranking order, numbered from one, with the
    /// first selected. In general they are the deduplication (by the language's identity,
    /// keeping the highest frequency), ranked and bounded, of what the providers propose for
    /// the parsed composition, each asked for what is left of the generation budget (see
    /// [`CandidateEngine::pipeline_items`]); a failing language or provider is reported
    /// instead. For the reference pipeline the candidates are exactly the deduplicated,
    /// ranked and bounded dictionary matches of the case-folded composition.
    pub fn generate(
        &self,
        session_id: SessionId,
        revision: StateRevision,
        composition: &str,
        limits: &CoreLimits,
    ) -> (r: Result<CandidateSnapshot, CandidatePipelineFailure>)
        ensures
            composition@.len() == 0 ==> (r matches Ok(s) && s@.proposals.len() == 0),
            r matches Ok(s) ==> {
                &&& s@.session_id == session_id
                &&& s@.revision == revision
                &&& s@.wf()
                &&& s@.proposals.len() <= limits.max_visible_candidates
                &&& sorted_by(s@.proposals, rank_order())
                &&& s@.proposals.len() > 0 ==> s@.selected == Some(0nat)
            },
            self.reference_records() matches Some(records) ==> (r matches Ok(s)
                && is_pipeline_output(
                keyed_by_text(
                    in_memory_proposals(
                        records,
                        ascii_lower_text(composition@),
                        limits.max_generated_candidates as nat,
                    ),
                ),
                limits.max_visible_candidates as nat,
                s@.proposals,
            )),
            composition@.len() > 0 ==> match r {
                Ok(s) => self.pipeline_items(composition@, *limits) matches Ok(items)
                    && is_pipeline_output(items, limits.max_visible_candidates as nat, s@.proposals),
                Err(f) => self.pipeline_items(composition@, *limits) == Err::<
                    Seq<(Seq<char>, ProposalView)>,
                    DegradedComponent,
                >(f.component),
            },
    {
        if composition.is_empty() {
            let r = CandidateSnapshot::empty(session_id, revision);
            proof {
                if let Some(records) = self.reference_records() {
                    let keyed = keyed_by_text(
                        in_memory_proposals(
                            records,
                            ascii_lower_text(composition@),
                            limits.max_generated_candidates as nat,
                        ),
                    );
                    let d = Seq::<(Seq<char>, ProposalView)>::empty();
                    assert(ascii_lower_text(composition@).len() == 0);
                    assert(keyed.len() == 0);
                    assert(is_deduplication(keyed, d));
                    let values = d.map_values(|x: (Seq<char>, ProposalView)| x.1);
                    assert(values.len() == 0);
                    crate::ranking::lemma_rank_le_total_ordering();
                    values.lemma_sort_by_ensures(rank_order());
                    assert(values.sort_by(rank_order()).to_multiset().len() == 0);
                    assert(values.sort_by(rank_order()).len() == 0);
                    assert(r@.proposals =~= bounded(
                        values.sort_by(rank_order()),
                        limits.max_visible_candidates as int,
                    ));
                }
            }
            return Ok(r);
        }
        let parsed = match self.normalize_and_parse(composition) {
            Ok(p) => p,
            Err(_) => {
                return Err(CandidatePipelineFailure { component: DegradedComponent::Language });
            },
        };
        let proposals = match self.collect_proposals(&parsed, limits) {
            Ok(v) => v,
            Err(f) => {
                return Err(f);
            },
        };
        let ghost collected = proposal_views(proposals@);
        let deduplicated = self.deduplicate(proposals);
        let ranked = match self.ranking.rank(deduplicated, limits.max_visible_candidates) {
            Ok(v) => v,
            Err(_) => {
                return Err(CandidatePipelineFailure { component: DegradedComponent::Ranking });
            },
        };
        proof {
            let input = proposal_views(deduplicated@);
            assert(input =~= deduplicated@.map_values(|p: CandidateProposal| p@));
            crate::ranking::lemma_rank_le_total_ordering();
            input.lemma_sort_by_ensures(rank_order());
            lemma_bounded_sorted(input.sort_by(rank_order()), limits.max_visible_candidates as int);
        }
        let r = CandidateSnapshot::from_ranked(session_id, revision, ranked);
        proof {
            let d = choose|d: Seq<(Seq<char>, ProposalView)>|
                is_deduplication(self.keyed(collected), d) && proposal_views(deduplicated@)
                    == d.map_values(|x: (Seq<char>, ProposalView)| x.1);
            assert(proposal_views(deduplicated@) =~= deduplicated@.map_values(
                |p: CandidateProposal| p@,
            ));
            assert(is_pipeline_output(self.keyed(collected), limits.max_visible_candidates as nat, r@.proposals));
            if let Some(records) = self.reference_records() {
                assert(self.keyed(collected) =~= keyed_by_text(collected));
            }
        }
        Ok(r)
    }

    /// Merges proposals whose texts the language considers equivalent.
    fn deduplicate(&self, proposals: Vec<CandidateProposal>) -> (r: Vec<CandidateProposal>)
        ensures
            exists|d: Seq<(Seq<char>, ProposalView)>|
                is_deduplication(self.keyed(proposal_views(proposals@)), d) && proposal_views(
                    r@,
                ) == d.map_values(|x: (Seq<char>, ProposalView)| x.1),
    {
        let ghost input = proposal_views(proposals@);
        let mut items: Vec<IdentifiedProposal> = Vec::new();
        let mut rest = proposals;
        let ghost total = rest@;
        let count: usize = rest.len();
        let mut i: usize = 0;
        while rest.len() > 0
            invariant
                i <= total.len(),
                total.len() == count,
                rest@ == total.skip(i as int),
                input == proposal_views(total),
                items@.len() == i,
                identified_views(items@) == self.keyed(input.take(i as int)),
            decreases rest@.len(),
        {
            let p = rest.remove(0);
            assert(p == total[i as int]);
            let identity = self.identity_of(p.text.as_str());
            let ghost prev = items@;
            let ghost pair = (identity@, p@);
            items.push(IdentifiedProposal { identity, proposal: p });
            proof {
                assert(rest@ =~= total.skip(i + 1));
                assert(input.take(i + 1) =~= input.take(i as int).push(input[i as int]));
                assert(identified_views(items@) =~= identified_views(prev).push(pair));
                assert(self.keyed(input.take(i + 1)) =~= self.keyed(input.take(i as int)).push(
                    (self.identity_for(input[i as int].text), input[i as int]),
                ));
            }
            i = i + 1;
        }
        proof {
            assert(input.take(i as int) =~= input);
        }
        let merged = deduplicate_identified(items);
        let ghost mv = identified_views(merged@);
        let mut out: Vec<CandidateProposal> = Vec::new();
        let mut rest2 = merged;
        let ghost total2 = rest2@;
        let count2: usize = rest2.len();
        let mut j: usize = 0;
        while rest2.len() > 0
            invariant
                j <= total2.len(),
                total2.len() == count2,
                rest2@ == total2.skip(j as int),
                mv == identified_views(total2),
                proposal_views(out@) == mv.take(j as int).map_values(
                    |x: (Seq<char>, ProposalView)| x.1,
                ),
            decreases rest2@.len(),
        {
            let x = rest2.remove(0);
            assert(x == total2[j as int]);
            let ghost prev = out@;
            let ghost pair = (x.identity@, x.proposal@);
            assert(mv[j as int] == pair);
            out.push(x.proposal);
            proof {
                assert(proposal_views(out@) =~= proposal_views(prev).push(pair.1));
                assert(mv.take(j + 1) =~= mv.take(j as int).push(pair));
                assert(rest2@ =~= total2.skip(j + 1));
                assert(proposal_views(out@) =~= mv.take(j + 1).map_values(
                    |x: (Seq<char>, ProposalView)| x.1,
                ));
            }
            j = j + 1;
        }
        proof {
            assert(mv.take(j as int) =~= mv);
        }
        out
    }
}

/// Asks `providers` in order, each for at most what is left of `max`, appending what they
/// propose to `acc`; stops early once `max` proposals are collected, and at the first
/// provider that fails.
pub open spec fn collect_from(
    providers: Seq<Arc<dyn CandidateProvider>>,
    code: Seq<char>,
    max: nat,
    acc: Seq<ProposalView>,
) -> Result<Seq<ProposalView>, DegradedComponent>
    decreases providers.len(),
{
    if providers.len() == 0 || acc.len() >= max {
        Ok(acc)
    } else {
        let remaining = (max - acc.len()) as nat;
        match providers[0].proposals_for(code, remaining) {
            Some(g) => collect_from(providers.drop_first(), code, max, acc + g),
            None => Err(providers[0].component()),
        }
    }
}

/// Keys each proposal by its text, the identity the reference language gives it.
pub open spec fn keyed_by_text(ps: Seq<ProposalView>) -> Seq<(Seq<char>, ProposalView)> {
    ps.map_values(|p: ProposalView| (p.text, p))
}

/// `out` is what the pipeline makes of `keyed` proposals: their deduplication, sorted by
/// rank and cut to `k`.
pub open spec fn is_pipeline_output(
    keyed: Seq<(Seq<char>, ProposalView)>,
    k: nat,
    out: Seq<ProposalView>,
) -> bool {
    exists|d: Seq<(Seq<char>, ProposalView)>|
        is_deduplication(keyed, d) && out == bounded(
            d.map_values(|x: (Seq<char>, ProposalView)| x.1).sort_by(rank_order()),
            k as int,
        )
}

/// A prefix of a sorted sequence is sorted.
proof fn lemma_bounded_sorted(s: Seq<ProposalView>, n: int)
    requires
        sorted_by(s, rank_order()),
        n >= 0,
    ensures
        sorted_by(bounded(s, n), rank_order()),
{
    let b = bounded(s, n);
    assert forall|i: int, j: int| 0 <= i < j < b.len() implies #[trigger] rank_order()(
        b[i],
        b[j],
    ) by {
        assert(b[i] == s[i] && b[j] == s[j]);
    }
}

} // verus!
