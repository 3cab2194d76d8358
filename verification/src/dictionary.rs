//! Read-only dictionary abstractions for candidate generation.
use vstd::prelude::*;
use vstd::relations::*;

use crate::error::ImeError;
use crate::order::{
    lemma_text_le_antisymmetric, lemma_text_le_reflexive, lemma_text_le_total, lemma_text_le_transitive, text_eq, text_le,
    text_le_exec, text_starts_with,
};
use crate::types::LexemeId;

verus! {

broadcast use vstd::seq_lib::group_to_multiset_ensures;

/// One immutable dictionary record.
#[derive(Clone, Debug, PartialEq, Eq)]
pub struct DictionaryEntry {
    /// Stable dictionary identity, separate from revision-scoped candidate IDs.
    pub lexeme_id: LexemeId,
    /// Normalized input code used for lookup.
    pub input_code: String,
    /// UTF-8 text proposed for commit.
    pub text: String,
    /// Non-negative corpus-derived weight supplied by the dictionary builder.
    pub base_frequency: u64,
}

/// Mathematical content of a [`DictionaryEntry`].
pub struct EntryView {
    pub lexeme_id: u64,
    pub input_code: Seq<char>,
    pub text: Seq<char>,
    pub base_frequency: u64,
}

impl View for DictionaryEntry {
    type V = EntryView;

    open spec fn view(&self) -> EntryView {
        EntryView {
            lexeme_id: self.lexeme_id.0,
            input_code: self.input_code@,
            text: self.text@,
            base_frequency: self.base_frequency,
        }
    }
}

/// The record with the given fields.
pub open spec fn entry_view(lexeme_id: u64, input_code: Seq<char>, text: Seq<char>, base_frequency: u64) -> EntryView {
    EntryView { lexeme_id, input_code, text, base_frequency }
}

/// The views of a sequence of entries.
pub open spec fn entry_views(s: Seq<DictionaryEntry>) -> Seq<EntryView> {
    s.map_values(|e: DictionaryEntry| e@)
}

/// The first `n` elements of `s`, or all of `s` when it is shorter.
pub open spec fn bounded<A>(s: Seq<A>, n: int) -> Seq<A> {
    if s.len() <= n {
        s
    } else {
        s.take(n)
    }
}

/// The storage order as a relation.
pub open spec fn entry_order() -> spec_fn(EntryView, EntryView) -> bool {
    |a: EntryView, b: EntryView| entry_le(a, b)
}

/// The records a lookup selects: an exact code match, or a code starting with the prefix.
pub open spec fn code_matches(code: Seq<char>, exact: bool) -> spec_fn(EntryView) -> bool {
    |e: EntryView|
        if exact {
            e.input_code == code
        } else {
            code.is_prefix_of(e.input_code)
        }
}

/// Storage order of a dictionary: by input code, then lexeme ID, then text, then
/// decreasing frequency.
pub open spec fn entry_le(a: EntryView, b: EntryView) -> bool {
    if a.input_code != b.input_code {
        text_le(a.input_code, b.input_code)
    } else if a.lexeme_id != b.lexeme_id {
        a.lexeme_id < b.lexeme_id
    } else if a.text != b.text {
        text_le(a.text, b.text)
    } else {
        a.base_frequency >= b.base_frequency
    }
}

/// The storage order is a total order.
pub proof fn lemma_entry_le_total_ordering()
    ensures
        total_ordering(entry_order()),
{
    let f = |a: EntryView, b: EntryView| entry_le(a, b);
    assert forall|a: EntryView| #[trigger] f(a, a) by {}
    assert forall|a: EntryView, b: EntryView| #[trigger] f(a, b) && #[trigger] f(b, a) implies a
        == b by {
        if a.input_code != b.input_code {
            lemma_text_le_antisymmetric(a.input_code, b.input_code);
        } else if a.lexeme_id == b.lexeme_id && a.text != b.text {
            lemma_text_le_antisymmetric(a.text, b.text);
        }
    }
    assert forall|a: EntryView, b: EntryView, c: EntryView| #[trigger] f(a, b) && #[trigger] f(
        b,
        c,
    ) implies f(a, c) by {
        lemma_entry_le_transitive(a, b, c);
    }
    assert forall|a: EntryView, b: EntryView| #[trigger] f(a, b) || #[trigger] f(b, a) by {
        lemma_text_le_total(a.input_code, b.input_code);
        lemma_text_le_total(a.text, b.text);
    }
}

proof fn lemma_entry_le_transitive(a: EntryView, b: EntryView, c: EntryView)
    requires
        entry_le(a, b),
        entry_le(b, c),
    ensures
        entry_le(a, c),
{
    lemma_text_le_reflexive(a.input_code);
    lemma_text_le_reflexive(b.input_code);
    lemma_text_le_reflexive(a.text);
    lemma_text_le_reflexive(b.text);
    if a.input_code == b.input_code && b.input_code == c.input_code {
        if a.lexeme_id == b.lexeme_id && b.lexeme_id == c.lexeme_id {
            if a.text == b.text && b.text == c.text {
            } else {
                assert(text_le(a.text, b.text));
                assert(text_le(b.text, c.text));
                lemma_text_le_transitive(a.text, b.text, c.text);
                if a.text == c.text {
                    lemma_text_le_antisymmetric(a.text, b.text);
                }
            }
        } else {
            assert(a.lexeme_id <= b.lexeme_id);
            assert(b.lexeme_id <= c.lexeme_id);
        }
    } else {
        assert(text_le(a.input_code, b.input_code));
        assert(text_le(b.input_code, c.input_code));
        lemma_text_le_transitive(a.input_code, b.input_code, c.input_code);
        if a.input_code == c.input_code {
            lemma_text_le_antisymmetric(a.input_code, b.input_code);
        }
    }
}

proof fn lemma_entry_le_total(a: EntryView, b: EntryView)
    ensures
        entry_le(a, b) || entry_le(b, a),
{
    lemma_text_le_total(a.input_code, b.input_code);
    lemma_text_le_total(a.text, b.text);
}

/// Compares two entries in storage order.
fn entry_le_exec(a: &DictionaryEntry, b: &DictionaryEntry) -> (r: bool)
    ensures
        r == entry_le(a@, b@),
{
    if !text_eq(a.input_code.as_str(), b.input_code.as_str()) {
        return text_le_exec(a.input_code.as_str(), b.input_code.as_str());
    }
    if a.lexeme_id.0 != b.lexeme_id.0 {
        return a.lexeme_id.0 < b.lexeme_id.0;
    }
    if !text_eq(a.text.as_str(), b.text.as_str()) {
        return text_le_exec(a.text.as_str(), b.text.as_str());
    }
    a.base_frequency >= b.base_frequency
}

impl DictionaryEntry {
    /// Creates a dictionary entry. No language-specific validation is performed.
    pub fn new(lexeme_id: LexemeId, input_code: &str, text: &str, base_frequency: u64) -> (r:
        Self)
        ensures
            r@ == (EntryView {
                lexeme_id: lexeme_id.0,
                input_code: input_code@,
                text: text@,
                base_frequency,
            }),
    {
        DictionaryEntry {
            lexeme_id,
            input_code: input_code.to_owned(),
            text: text.to_owned(),
            base_frequency,
        }
    }

    /// Returns an equal copy of this entry.
    pub fn duplicate(&self) -> (r: Self)
        ensures
            r@ == self@,
    {
        DictionaryEntry {
            lexeme_id: self.lexeme_id,
            input_code: self.input_code.clone(),
            text: self.text.clone(),
            base_frequency: self.base_frequency,
        }
    }
}

/// Synchronous, deterministic, bounded, and read-only dictionary access.
///
/// Each lookup is a function of its arguments, named by the spec functions below, and
/// returns at most `limit` entries.
pub trait Dictionary {
    /// The entries a lookup by exact code returns, or `None` where it fails.
    spec fn exact_entries(&self, code: Seq<char>, limit: nat) -> Option<Seq<EntryView>>;

    /// The entries a lookup by code prefix returns, or `None` where it fails.
    spec fn prefix_entries(&self, prefix: Seq<char>, limit: nat) -> Option<Seq<EntryView>>;

    /// Returns at most `limit` entries whose input code exactly matches `input_code`.
    fn lookup_exact(&self, input_code: &str, limit: usize) -> (r: Result<
        Vec<DictionaryEntry>,
        ImeError,
    >)
        ensures
            match r {
                Ok(v) => self.exact_entries(input_code@, limit as nat) == Some(entry_views(v@))
                    && v@.len() <= limit,
                Err(_) => self.exact_entries(input_code@, limit as nat) is None,
            },
    ;

    /// Returns at most `limit` entries whose input code starts with `input_prefix`.
    fn lookup_prefix(&self, input_prefix: &str, limit: usize) -> (r: Result<
        Vec<DictionaryEntry>,
        ImeError,
    >)
        ensures
            match r {
                Ok(v) => self.prefix_entries(input_prefix@, limit as nat) == Some(entry_views(v@))
                    && v@.len() <= limit,
                Err(_) => self.prefix_entries(input_prefix@, limit as nat) is None,
            },
    ;
}

/// Small deterministic dictionary used by tests and the development CLI.
///
/// Entries are kept in storage order (see [`entry_le`]), so every lookup is deterministic.
#[derive(Clone, Debug)]
pub struct InMemoryDictionary {
    entries: Vec<DictionaryEntry>,
}

impl View for InMemoryDictionary {
    type V = Seq<EntryView>;

    closed spec fn view(&self) -> Seq<EntryView> {
        entry_views(self.entries@)
    }
}

/// Inserts `e` into the sorted vector `out` after every entry that is not greater than it.
fn insert_sorted(out: &mut Vec<DictionaryEntry>, e: DictionaryEntry)
    requires
        sorted_by(entry_views(old(out)@), entry_order()),
    ensures
        sorted_by(entry_views(final(out)@), entry_order()),
        entry_views(final(out)@).to_multiset() == entry_views(old(out)@).to_multiset().insert(
            e@,
        ),
{
    let ghost leq = entry_order();
    proof {
        lemma_entry_le_total_ordering();
    }
    let mut j: usize = 0;
    while j < out.len() && entry_le_exec(&out[j], &e)
        invariant
            j <= out@.len(),
            forall|k: int| 0 <= k < j ==> entry_le(#[trigger] out@[k]@, e@),
        decreases out@.len() - j,
    {
        j = j + 1;
    }
    let ghost before = entry_views(out@);
    out.insert(j, e);
    proof {
        let after = entry_views(out@);
        assert(after =~= before.insert(j as int, e@));
        vstd::seq_lib::to_multiset_insert(before, j as int, e@);
        assert forall|x: int, y: int| 0 <= x < y < after.len() implies #[trigger] leq(
            after[x],
            after[y],
        ) by {
            if j < before.len() {
                // every entry from position j on is greater than e
                assert(!entry_le(before[j as int], e@));
                lemma_entry_le_total(before[j as int], e@);
                assert(entry_le(e@, before[j as int]));
            }
            if y > j && y - 1 > j {
                assert(leq(before[j as int], before[y - 1]));
                lemma_entry_le_transitive(e@, before[j as int], before[y - 1]);
            }
            if y == j {
                assert(entry_le(before[x], e@));
            } else if x == j {
            } else if x < j && y > j {
                lemma_entry_le_transitive(before[x], e@, before[y - 1]);
            } else if x > j {
                assert(leq(before[x - 1], before[y - 1]));
            } else {
                assert(leq(before[x], before[y]));
            }
        }
    }
}

/// Keeping only the elements that satisfy `p` in a growing prefix.
proof fn lemma_filter_take_step<A>(s: Seq<A>, p: spec_fn(A) -> bool, i: int)
    requires
        0 <= i < s.len(),
    ensures
        s.take(i + 1).filter(p) == if p(s[i]) {
            s.take(i).filter(p).push(s[i])
        } else {
            s.take(i).filter(p)
        },
{
    reveal(Seq::filter);
    assert(s.take(i + 1).drop_last() =~= s.take(i));
    assert(s.take(i + 1).last() == s[i]);
}

proof fn lemma_bounded_push<A>(f: Seq<A>, x: A, n: int)
    requires
        n >= 0,
    ensures
        bounded(f.push(x), n) == if f.len() < n {
            bounded(f, n).push(x)
        } else {
            bounded(f, n)
        },
{
    if f.len() < n {
        assert(bounded(f.push(x), n) =~= f.push(x));
    } else {
        assert(bounded(f.push(x), n) =~= bounded(f, n));
    }
}

impl Default for InMemoryDictionary {
    fn default() -> (r: Self)
        ensures
            r@.len() == 0,
    {
        InMemoryDictionary { entries: Vec::new() }
    }
}

impl InMemoryDictionary {
    /// Entries are kept in storage order.
    pub closed spec fn wf(&self) -> bool {
        sorted_by(self@, |a: EntryView, b: EntryView| entry_le(a, b))
    }

    /// Builds an immutable dictionary with a stable record order.
    pub fn new(entries: Vec<DictionaryEntry>) -> (r: Self)
        ensures
            r.wf(),
            r@ == entry_views(entries@).sort_by(entry_order()),
            r@.len() == entries@.len(),
    {
        let ghost leq = entry_order();
        let mut out: Vec<DictionaryEntry> = Vec::new();
        let mut i: usize = 0;
        while i < entries.len()
            invariant
                i <= entries@.len(),
                leq == entry_order(),
                sorted_by(entry_views(out@), leq),
                entry_views(out@).to_multiset() == entry_views(entries@).take(
                    i as int,
                ).to_multiset(),
            decreases entries@.len() - i,
        {
            let e = entries[i].duplicate();
            insert_sorted(&mut out, e);
            proof {
                let v = entry_views(entries@);
                assert(v.take(i + 1) =~= v.take(i as int).push(v[i as int]));
                vstd::seq_lib::to_multiset_build(v.take(i as int), v[i as int]);
            }
            i = i + 1;
        }
        proof {
            let v = entry_views(entries@);
            assert(v.take(v.len() as int) =~= v);
            lemma_entry_le_total_ordering();
            v.lemma_sort_by_ensures(leq);
            vstd::seq_lib::lemma_sorted_unique(entry_views(out@), v.sort_by(leq), leq);
            assert(v.sort_by(leq).to_multiset().len() == v.to_multiset().len());
            assert(v.len() == entries@.len());
        }
        InMemoryDictionary { entries: out }
    }

    /// Entries, in storage order, that satisfy `select` on their input code, at most `limit`.
    fn collect_bounded(&self, code: &str, exact: bool, limit: usize) -> (r: Vec<DictionaryEntry>)
        ensures
            entry_views(r@) == bounded(self@.filter(code_matches(code@, exact)), limit as int),
    {
        let ghost pred = code_matches(code@, exact);
        let ghost all = self@;
        let mut out: Vec<DictionaryEntry> = Vec::new();
        let mut i: usize = 0;
        assert(all.take(0).filter(pred) =~= Seq::<EntryView>::empty()) by {
            reveal(Seq::filter);
        }
        while i < self.entries.len()
            invariant
                i <= self.entries@.len(),
                all == self@,
                pred == code_matches(code@, exact),
                all.len() == self.entries@.len(),
                entry_views(out@) == bounded(all.take(i as int).filter(pred), limit as int),
            decreases self.entries@.len() - i,
        {
            let e = &self.entries[i];
            let matches = if exact {
                text_eq(e.input_code.as_str(), code)
            } else {
                text_starts_with(e.input_code.as_str(), code)
            };
            proof {
                assert(all[i as int] == e@);
                assert(matches == pred(e@));
                lemma_filter_take_step(all, pred, i as int);
                lemma_bounded_push(all.take(i as int).filter(pred), e@, limit as int);
                assert(entry_views(out@).len() == out@.len());
                assert(out@.len() < limit <==> all.take(i as int).filter(pred).len() < limit);
            }
            if matches && out.len() < limit {
                let copy = e.duplicate();
                let ghost prev = out@;
                out.push(copy);
                assert(entry_views(out@) =~= entry_views(prev).push(e@));
            }
            i = i + 1;
        }
        assert(all.take(all.len() as int) =~= all);
        out
    }
}

/// The entries of `records` that a lookup by `code` returns: none for an empty code or a
/// zero limit, else the matching records in storage order, at most `limit`.
pub open spec fn lookup_result(records: Seq<EntryView>, code: Seq<char>, exact: bool, limit: nat) -> Seq<
    EntryView,
> {
    if code.len() == 0 || limit == 0 {
        Seq::empty()
    } else {
        bounded(records.filter(code_matches(code, exact)), limit as int)
    }
}

impl Dictionary for InMemoryDictionary {
    open spec fn exact_entries(&self, code: Seq<char>, limit: nat) -> Option<Seq<EntryView>> {
        Some(lookup_result(self@, code, true, limit))
    }

    open spec fn prefix_entries(&self, prefix: Seq<char>, limit: nat) -> Option<Seq<EntryView>> {
        Some(lookup_result(self@, prefix, false, limit))
    }

    fn lookup_exact(&self, input_code: &str, limit: usize) -> (r: Result<
        Vec<DictionaryEntry>,
        ImeError,
    >)
        ensures
            r matches Ok(v) && entry_views(v@) == lookup_result(self@, input_code@, true, limit as nat),
    {
        if input_code.is_empty() || limit == 0 {
            let v: Vec<DictionaryEntry> = Vec::new();
            assert(entry_views(v@) =~= Seq::<EntryView>::empty());
            assert(self.exact_entries(input_code@, limit as nat) == Some(entry_views(v@)));
            return Ok(v);
        }
        let v = self.collect_bounded(input_code, true, limit);
        assert(entry_views(v@).len() == v@.len());
        assert(self.exact_entries(input_code@, limit as nat) == Some(entry_views(v@)));
        Ok(v)
    }

    fn lookup_prefix(&self, input_prefix: &str, limit: usize) -> (r: Result<
        Vec<DictionaryEntry>,
        ImeError,
    >)
        ensures
            r matches Ok(v) && entry_views(v@) == lookup_result(self@, input_prefix@, false, limit as nat),
    {
        if input_prefix.is_empty() || limit == 0 {
            let v: Vec<DictionaryEntry> = Vec::new();
            assert(entry_views(v@) =~= Seq::<EntryView>::empty());
            assert(self.prefix_entries(input_prefix@, limit as nat) == Some(entry_views(v@)));
            return Ok(v);
        }
        let v = self.collect_bounded(input_prefix, false, limit);
        assert(entry_views(v@).len() == v@.len());
        assert(self.prefix_entries(input_prefix@, limit as nat) == Some(entry_views(v@)));
        Ok(v)
    }
}

} // verus!
