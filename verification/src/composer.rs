//! Unicode-grapheme-aware editing of uncommitted composition text.
use vstd::prelude::*;

use unicode_segmentation::UnicodeSegmentation;

use crate::text::{byte_len, char_count, char_slice, concat3, utf8_len};

verus! {

/// The extended grapheme clusters of `text`, in order, as segmented by `unicode-segmentation`.
pub uninterp spec fn grapheme_clusters(text: Seq<char>) -> Seq<Seq<char>>;

/// The texts held by a vector of strings.
pub open spec fn string_views(v: Seq<String>) -> Seq<Seq<char>> {
    v.map_values(|g: String| g@)
}

/// Splits `text` into its extended grapheme clusters.
///
/// Calls `UnicodeSegmentation::graphemes(text, true)` and copies each cluster. The contract
/// claims that the result is the named segmentation of `text`, that the clusters are non-empty
/// and that, concatenated in order, they give back `text` (the iterator walks from one
/// boundary to the next, from the first byte to the last).
#[verifier::external_body]
fn graphemes_of(text: &str) -> (r: Vec<String>)
    ensures
        string_views(r@) == grapheme_clusters(text@),
        string_views(r@).flatten() == text@,
        forall|i: int| 0 <= i < r@.len() ==> (#[trigger] r@[i])@.len() > 0,
{
    text.graphemes(true).map(|g| g.to_owned()).collect()
}

/// Character offset at which cluster `n` starts (the total length of clusters `0..n`).
pub open spec fn cluster_offset(gs: Seq<Seq<char>>, n: int) -> int
    decreases n,
{
    if n <= 0 {
        0
    } else {
        cluster_offset(gs, n - 1) + gs[n - 1].len()
    }
}

/// The grapheme cursor that lands after character offset `target`, scanning from cluster `i`.
pub open spec fn cursor_after_from(gs: Seq<Seq<char>>, target: int, i: int) -> nat
    decreases gs.len() - i,
{
    if i >= gs.len() || i < 0 {
        gs.len()
    } else if target <= cluster_offset(gs, i) {
        i as nat
    } else if target <= cluster_offset(gs, i) + gs[i].len() {
        (i + 1) as nat
    } else {
        cursor_after_from(gs, target, i + 1)
    }
}

/// The grapheme cursor placed after character offset `target`: the index of the first
/// cluster that ends at or after `target`, plus one, or zero when `target` is zero.
pub open spec fn cursor_after(gs: Seq<Seq<char>>, target: int) -> nat {
    if target == 0 {
        0
    } else {
        cursor_after_from(gs, target, 0)
    }
}

/// Clamps an integer into `lo..=hi`.
pub open spec fn clamp(x: int, lo: int, hi: int) -> int {
    if x < lo {
        lo
    } else if x > hi {
        hi
    } else {
        x
    }
}

proof fn lemma_cluster_offset_mono(gs: Seq<Seq<char>>, a: int, b: int)
    requires
        0 <= a <= b,
    ensures
        cluster_offset(gs, a) <= cluster_offset(gs, b),
    decreases b,
{
    if a < b {
        lemma_cluster_offset_mono(gs, a, b - 1);
    }
}

proof fn lemma_cluster_offset_prefix(gs: Seq<Seq<char>>, k: int, n: int)
    requires
        0 <= n <= k <= gs.len(),
    ensures
        cluster_offset(gs, n) == cluster_offset(gs.take(k), n),
    decreases n,
{
    if n > 0 {
        lemma_cluster_offset_prefix(gs, k, n - 1);
    }
}

/// The clusters of a text add up to its whole length.
proof fn lemma_cluster_offset_total(gs: Seq<Seq<char>>)
    ensures
        cluster_offset(gs, gs.len() as int) == gs.flatten().len(),
    decreases gs.len(),
{
    gs.lemma_flatten_and_flatten_alt_are_equivalent();
    if gs.len() > 0 {
        let d = gs.drop_last();
        lemma_cluster_offset_total(d);
        d.lemma_flatten_and_flatten_alt_are_equivalent();
        assert(d =~= gs.take(gs.len() - 1));
        lemma_cluster_offset_prefix(gs, gs.len() - 1, gs.len() - 1);
    }
}

proof fn lemma_cursor_after_from_bound(gs: Seq<Seq<char>>, target: int, i: int)
    ensures
        cursor_after_from(gs, target, i) <= gs.len(),
    decreases gs.len() - i,
{
    if 0 <= i < gs.len() {
        lemma_cursor_after_from_bound(gs, target, i + 1);
    }
}

proof fn lemma_cursor_after_bound(gs: Seq<Seq<char>>, target: int)
    ensures
        cursor_after(gs, target) <= gs.len(),
{
    lemma_cursor_after_from_bound(gs, target, 0);
}

/// Editable composition text with a cursor measured in grapheme clusters.
#[derive(Clone, Debug, PartialEq, Eq)]
pub struct Composer {
    text: String,
    cursor_grapheme: usize,
}

/// Mathematical content of a [`Composer`]: its text and grapheme cursor.
pub struct ComposerView {
    pub text: Seq<char>,
    pub cursor: nat,
}

impl ComposerView {
    /// The grapheme clusters of the text.
    pub open spec fn clusters(self) -> Seq<Seq<char>> {
        grapheme_clusters(self.text)
    }

    /// The cursor never passes the last cluster.
    pub open spec fn wf(self) -> bool {
        self.cursor <= self.clusters().len()
    }

    /// The character offset of the cursor.
    pub open spec fn cursor_offset(self) -> int {
        cluster_offset(self.clusters(), self.cursor as int)
    }
}

/// The composer after inserting `t` at the cursor; the cursor follows the inserted text.
pub open spec fn after_insert(c: ComposerView, t: Seq<char>) -> ComposerView {
    if t.len() == 0 {
        c
    } else {
        let p = c.cursor_offset();
        let text = c.text.take(p) + t + c.text.skip(p);
        ComposerView { text, cursor: cursor_after(grapheme_clusters(text), p + t.len()) }
    }
}

/// The composer after deleting the cluster before the cursor.
pub open spec fn after_backspace(c: ComposerView) -> ComposerView {
    if c.cursor == 0 {
        c
    } else {
        let gs = c.clusters();
        let start = cluster_offset(gs, c.cursor - 1);
        let end = cluster_offset(gs, c.cursor as int);
        let text = c.text.take(start) + c.text.skip(end);
        ComposerView { text, cursor: cursor_after(grapheme_clusters(text), start) }
    }
}

/// The composer after deleting the cluster after the cursor.
pub open spec fn after_delete(c: ComposerView) -> ComposerView {
    if c.cursor >= c.clusters().len() {
        c
    } else {
        let gs = c.clusters();
        let start = cluster_offset(gs, c.cursor as int);
        let end = cluster_offset(gs, c.cursor + 1int);
        let text = c.text.take(start) + c.text.skip(end);
        ComposerView { text, cursor: cursor_after(grapheme_clusters(text), start) }
    }
}

/// The composer after moving the cursor by `delta` clusters, clamped to the text.
pub open spec fn after_move(c: ComposerView, delta: i32) -> ComposerView {
    ComposerView { cursor: clamp(c.cursor + delta, 0, c.clusters().len() as int) as nat, ..c }
}

/// Minimal state required to restore an immediately failed commit.
#[derive(Clone, Debug, PartialEq, Eq)]
pub struct ComposerSnapshot {
    text: String,
    cursor_grapheme: usize,
}

impl View for Composer {
    type V = ComposerView;

    closed spec fn view(&self) -> ComposerView {
        ComposerView { text: self.text@, cursor: self.cursor_grapheme as nat }
    }
}

impl View for ComposerSnapshot {
    type V = ComposerView;

    closed spec fn view(&self) -> ComposerView {
        ComposerView { text: self.text@, cursor: self.cursor_grapheme as nat }
    }
}

/// Character offset of cluster `n`, computed from the segmentation `gs` of `text`.
fn offset_for(gs: &Vec<String>, n: usize, Ghost(text): Ghost<Seq<char>>) -> (r: usize)
    requires
        string_views(gs@).flatten() == text,
        n <= gs@.len(),
        text.len() <= usize::MAX,
    ensures
        r == cluster_offset(string_views(gs@), n as int),
        r <= text.len(),
{
    let ghost v = string_views(gs@);
    proof {
        lemma_cluster_offset_total(v);
        lemma_cluster_offset_mono(v, n as int, v.len() as int);
    }
    let mut sum: usize = 0;
    let mut i: usize = 0;
    while i < n
        invariant
            i <= n <= gs@.len(),
            v == string_views(gs@),
            sum == cluster_offset(v, i as int),
            cluster_offset(v, n as int) <= text.len() <= usize::MAX,
        decreases n - i,
    {
        proof {
            lemma_cluster_offset_mono(v, (i + 1) as int, n as int);
        }
        let len = char_count(gs[i].as_str());
        sum = sum + len;
        i = i + 1;
    }
    sum
}

/// The grapheme cursor after character offset `target` in the segmentation `gs` of `text`.
fn cursor_after_offset(gs: &Vec<String>, target: usize, Ghost(text): Ghost<Seq<char>>) -> (r:
    usize)
    requires
        string_views(gs@).flatten() == text,
        text.len() <= usize::MAX,
    ensures
        r == cursor_after(string_views(gs@), target as int),
{
    let ghost v = string_views(gs@);
    if target == 0 {
        return 0;
    }
    proof {
        lemma_cluster_offset_total(v);
    }
    let mut start: usize = 0;
    let mut index: usize = 0;
    while index < gs.len()
        invariant
            index <= gs@.len(),
            v == string_views(gs@),
            start == cluster_offset(v, index as int),
            cluster_offset(v, gs@.len() as int) <= text.len() <= usize::MAX,
            cursor_after_from(v, target as int, 0) == cursor_after_from(
                v,
                target as int,
                index as int,
            ),
        decreases gs@.len() - index,
    {
        proof {
            lemma_cluster_offset_mono(v, (index + 1) as int, gs@.len() as int);
        }
        if target <= start {
            return index;
        }
        let len = char_count(gs[index].as_str());
        if target <= start + len {
            return index + 1;
        }
        start = start + len;
        index = index + 1;
    }
    gs.len()
}

impl Default for Composer {
    fn default() -> (r: Self)
        ensures
            r@.text == Seq::<char>::empty(),
            r@.cursor == 0,
    {
        Composer { text: String::new(), cursor_grapheme: 0 }
    }
}

impl Composer {
    /// Creates an empty Composer.
    pub fn new() -> (r: Self)
        ensures
            r@.text == Seq::<char>::empty(),
            r@.cursor == 0,
            r@.wf(),
    {
        Composer { text: String::new(), cursor_grapheme: 0 }
    }

    /// Segments the current text.
    fn clusters(&self) -> (r: Vec<String>)
        ensures
            string_views(r@) == self@.clusters(),
            string_views(r@).flatten() == self@.text,
            self@.text.len() <= usize::MAX,
            forall|i: int| 0 <= i < r@.len() ==> (#[trigger] string_views(r@)[i]).len() > 0,
    {
        let _ = char_count(self.text.as_str());
        graphemes_of(self.text.as_str())
    }

    /// Inserts an arbitrary UTF-8 string at the grapheme cursor.
    ///
    /// The text is spliced in at the cursor's character offset and the cursor moves to
    /// the cluster boundary after the inserted text, so a combining mark that joins the
    /// preceding cluster leaves the cursor on a valid boundary.
    pub fn insert_text(&mut self, inserted: &str)
        requires
            old(self)@.wf(),
        ensures
            final(self)@.wf(),
            final(self)@ == after_insert(old(self)@, inserted@),
            inserted@.len() == 0 ==> final(self)@ == old(self)@,
            inserted@.len() > 0 ==> {
                let p = old(self)@.cursor_offset();
                let t = old(self)@.text.take(p) + inserted@ + old(self)@.text.skip(p);
                &&& final(self)@.text == t
                &&& final(self)@.cursor == cursor_after(grapheme_clusters(t), p + inserted@.len())
            },
    {
        let inserted_len = char_count(inserted);
        if inserted_len == 0 {
            return;
        }
        let gs = self.clusters();
        let p = offset_for(&gs, self.cursor_grapheme, Ghost(self.text@));
        let total = char_count(self.text.as_str());
        let before = char_slice(self.text.as_str(), 0, p);
        let after = char_slice(self.text.as_str(), p, total);
        let new_text = concat3(before.as_str(), inserted, after.as_str());
        assert(self.text@.subrange(0, p as int) =~= self.text@.take(p as int));
        assert(self.text@.subrange(p as int, total as int) =~= self.text@.skip(p as int));
        let new_gs = graphemes_of(new_text.as_str());
        let new_total = char_count(new_text.as_str());
        let target = p + inserted_len;
        let cursor = cursor_after_offset(&new_gs, target, Ghost(new_text@));
        proof {
            lemma_cursor_after_bound(string_views(new_gs@), target as int);
        }
        self.text = new_text;
        self.cursor_grapheme = cursor;
    }

    /// Deletes one complete grapheme before the cursor.
    pub fn backspace(&mut self) -> (r: bool)
        requires
            old(self)@.wf(),
        ensures
            final(self)@.wf(),
            final(self)@ == after_backspace(old(self)@),
            r == (old(self)@.cursor > 0),
            !r ==> final(self)@ == old(self)@,
            r ==> {
                let gs = old(self)@.clusters();
                let start = cluster_offset(gs, old(self)@.cursor - 1);
                let end = cluster_offset(gs, old(self)@.cursor as int);
                let t = old(self)@.text.take(start) + old(self)@.text.skip(end);
                &&& final(self)@.text == t
                &&& final(self)@.cursor == cursor_after(grapheme_clusters(t), start)
            },
    {
        if self.cursor_grapheme == 0 {
            return false;
        }
        let gs = self.clusters();
        let end = offset_for(&gs, self.cursor_grapheme, Ghost(self.text@));
        let start = offset_for(&gs, self.cursor_grapheme - 1, Ghost(self.text@));
        proof {
            lemma_cluster_offset_mono(
                string_views(gs@),
                self.cursor_grapheme - 1,
                self.cursor_grapheme as int,
            );
        }
        self.remove_chars(start, end);
        true
    }

    /// Deletes one complete grapheme after the cursor.
    pub fn delete_forward(&mut self) -> (r: bool)
        requires
            old(self)@.wf(),
        ensures
            final(self)@.wf(),
            final(self)@ == after_delete(old(self)@),
            r == (old(self)@.cursor < old(self)@.clusters().len()),
            !r ==> final(self)@ == old(self)@,
            r ==> {
                let gs = old(self)@.clusters();
                let start = cluster_offset(gs, old(self)@.cursor as int);
                let end = cluster_offset(gs, old(self)@.cursor + 1int);
                let t = old(self)@.text.take(start) + old(self)@.text.skip(end);
                &&& final(self)@.text == t
                &&& final(self)@.cursor == cursor_after(grapheme_clusters(t), start)
            },
    {
        let gs = self.clusters();
        if self.cursor_grapheme >= gs.len() {
            return false;
        }
        let start = offset_for(&gs, self.cursor_grapheme, Ghost(self.text@));
        let end = offset_for(&gs, self.cursor_grapheme + 1, Ghost(self.text@));
        proof {
            lemma_cluster_offset_mono(
                string_views(gs@),
                self.cursor_grapheme as int,
                self.cursor_grapheme + 1,
            );
        }
        self.remove_chars(start, end);
        true
    }

    /// Removes the characters `start..end` and places the cursor after `start`.
    fn remove_chars(&mut self, start: usize, end: usize)
        requires
            start <= end <= old(self)@.text.len(),
        ensures
            final(self)@.wf(),
            final(self)@.text == old(self)@.text.take(start as int) + old(self)@.text.skip(
                end as int,
            ),
            final(self)@.cursor == cursor_after(grapheme_clusters(final(self)@.text), start as int),
    {
        let total = char_count(self.text.as_str());
        let before = char_slice(self.text.as_str(), 0, start);
        let after = char_slice(self.text.as_str(), end, total);
        let new_text = concat3(before.as_str(), "", after.as_str());
        proof {
            reveal_strlit("");
        }
        assert(self.text@.subrange(0, start as int) =~= self.text@.take(start as int));
        assert(self.text@.subrange(end as int, total as int) =~= self.text@.skip(end as int));
        assert(new_text@ =~= self.text@.take(start as int) + self.text@.skip(end as int));
        let new_gs = graphemes_of(new_text.as_str());
        let _ = char_count(new_text.as_str());
        let cursor = cursor_after_offset(&new_gs, start, Ghost(new_text@));
        proof {
            lemma_cursor_after_bound(string_views(new_gs@), start as int);
        }
        self.text = new_text;
        self.cursor_grapheme = cursor;
    }

    /// Moves the cursor by grapheme clusters and clamps it to the composition.
    pub fn move_cursor(&mut self, grapheme_delta: i32) -> (r: bool)
        requires
            old(self)@.wf(),
        ensures
            final(self)@.wf(),
            final(self)@ == after_move(old(self)@, grapheme_delta),
            final(self)@.text == old(self)@.text,
            final(self)@.cursor == clamp(
                old(self)@.cursor + grapheme_delta,
                0,
                old(self)@.clusters().len() as int,
            ),
            r == (final(self)@.cursor != old(self)@.cursor),
    {
        let old_cursor = self.cursor_grapheme;
        let count = self.grapheme_count();
        let next: usize = if grapheme_delta < 0 {
            let back = (-(grapheme_delta as i64)) as usize;
            if back >= old_cursor {
                0
            } else {
                old_cursor - back
            }
        } else {
            let forward = grapheme_delta as usize;
            if forward >= count - old_cursor {
                count
            } else {
                old_cursor + forward
            }
        };
        self.cursor_grapheme = next;
        self.cursor_grapheme != old_cursor
    }

    /// Clears text and returns the cursor to zero.
    pub fn clear(&mut self)
        ensures
            final(self)@.text == Seq::<char>::empty(),
            final(self)@.cursor == 0,
            final(self)@.wf(),
    {
        self.text = String::new();
        self.cursor_grapheme = 0;
    }

    /// Returns the current UTF-8 composition.
    pub fn text(&self) -> (r: &str)
        ensures
            r@ == self@.text,
    {
        self.text.as_str()
    }

    /// Returns the cursor in extended grapheme clusters.
    pub fn cursor_grapheme(&self) -> (r: usize)
        ensures
            r == self@.cursor,
    {
        self.cursor_grapheme
    }

    /// Returns the cursor as a UTF-8 byte offset into `text()`.
    pub fn cursor_utf8_byte_offset(&self) -> (r: usize)
        requires
            self@.wf(),
        ensures
            r == byte_len(self@.text.take(self@.cursor_offset())),
    {
        let gs = self.clusters();
        let p = offset_for(&gs, self.cursor_grapheme, Ghost(self.text@));
        let prefix = char_slice(self.text.as_str(), 0, p);
        assert(self.text@.subrange(0, p as int) =~= self.text@.take(p as int));
        utf8_len(prefix.as_str())
    }

    /// Returns whether the composition is empty.
    pub fn is_empty(&self) -> (r: bool)
        ensures
            r == (self@.text.len() == 0),
    {
        self.text.as_str().is_empty()
    }

    /// Returns the number of extended grapheme clusters.
    pub fn grapheme_count(&self) -> (r: usize)
        ensures
            r == self@.clusters().len(),
            (r == 0) == (self@.text.len() == 0),
    {
        let gs = self.clusters();
        proof {
            lemma_clusters_empty_iff(string_views(gs@), self@.text);
        }
        gs.len()
    }

    /// Captures text and cursor for a later [`Composer::restore`].
    pub fn recovery_snapshot(&self) -> (r: ComposerSnapshot)
        ensures
            r@ == self@,
    {
        ComposerSnapshot { text: self.text.clone(), cursor_grapheme: self.cursor_grapheme }
    }

    /// Restores text and cursor captured by [`Composer::recovery_snapshot`].
    pub fn restore(&mut self, snapshot: ComposerSnapshot)
        ensures
            final(self)@ == snapshot@,
    {
        self.text = snapshot.text;
        self.cursor_grapheme = snapshot.cursor_grapheme;
    }
}

/// Every non-empty text has at least one cluster; the empty text has none.
pub proof fn lemma_clusters_empty_iff(gs: Seq<Seq<char>>, text: Seq<char>)
    requires
        gs.flatten() == text,
        forall|i: int| 0 <= i < gs.len() ==> (#[trigger] gs[i]).len() > 0,
    ensures
        (gs.len() == 0) <==> (text.len() == 0),
{
    if gs.len() > 0 {
        assert(gs.flatten() =~= gs[0] + gs.drop_first().flatten());
    }
}

} // verus!
