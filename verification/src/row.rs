//! A single editable line of text, addressed by grapheme.

use crate::filetype::HighlightingOptions;
use crate::grapheme::{grapheme_clusters, is_partition, segment, unit_seqs};
use crate::highlighting::Type;
use crate::syntax::{classify, line_open, line_spans};
use crate::units::{
    alpha_from, delete_at, delete_in, find_from, found_in, head_of, insert_at, insert_in,
    lemma_flatten_empty, lemma_flatten_step, min_int, render, render_of, run_end, skip_to_alpha,
    skip_to_space, split_at, tail_of,
};
use vstd::prelude::*;
use vstd::string::*;
use vstd::utf8::encode_utf8;

verus! {

/// The text after one scalar value is put in front of the grapheme at `at`,
/// or at the end where the line has no such grapheme.
pub open spec fn insert_text(text: Seq<char>, at: int, c: char) -> Seq<char> {
    insert_in(grapheme_clusters(text), at, c)
}

/// The text without the grapheme at `at`; the text itself where there is no
/// such grapheme.
pub open spec fn delete_text(text: Seq<char>, at: int) -> Seq<char> {
    delete_in(grapheme_clusters(text), at)
}

/// The graphemes of the text before position `at`.
pub open spec fn head_text(text: Seq<char>, at: int) -> Seq<char> {
    head_of(grapheme_clusters(text), at)
}

/// The graphemes of the text from position `at` on.
pub open spec fn tail_text(text: Seq<char>, at: int) -> Seq<char> {
    tail_of(grapheme_clusters(text), at)
}

/// The graphemes `[start, end)` of the text as shown, both bounds clamped
/// to the line.
pub open spec fn render_text(text: Seq<char>, start: int, end: int) -> Seq<char> {
    render_of(grapheme_clusters(text), start, end)
}

/// The non-empty `query` begins with grapheme `k` of the text.
pub open spec fn found_at(text: Seq<char>, query: Seq<char>, k: int) -> bool {
    found_in(grapheme_clusters(text), query, k)
}

/// Where the run of graphemes that are not white space and begins at `x`
/// ends; `x` itself where it lies beyond the line.
pub open spec fn word_end(text: Seq<char>, x: int) -> int {
    run_end(grapheme_clusters(text), x)
}

/// Where the first alphabetic grapheme at or after `x` stands, or the length
/// of the line; `x` itself where it lies beyond the line.
pub open spec fn alpha_start(text: Seq<char>, x: int) -> int {
    alpha_from(grapheme_clusters(text), x)
}

/// The graphemes of the search word; none where no search is active.
pub open spec fn word_units(word: Option<String>) -> Seq<Seq<char>> {
    match word {
        Some(w) => grapheme_clusters(w@),
        None => Seq::empty(),
    }
}

/// One line of the buffer: its text, the number of grapheme clusters in it,
/// and the highlight classes last computed for it.
pub struct Row {
    string: String,
    len: usize,
    highlighting: Vec<Type>,
    is_highlighted: bool,
}

impl Default for Row {
    /// The empty line.
    fn default() -> (row: Row)
        ensures
            row.wf(),
            row.text() == Seq::<char>::empty(),
            row.count() == 0,
            row.spans() == Seq::<Type>::empty(),
            !row.fresh(),
    {
        let text = String::new();
        let units = segment(text.as_str());
        proof {
            lemma_flatten_empty(unit_seqs(units@));
        }
        Row { string: text, len: units.len(), highlighting: Vec::new(), is_highlighted: false }
    }
}

impl Row {
    /// The scalar values of the line.
    pub closed spec fn text(&self) -> Seq<char> {
        self.string@
    }

    /// The cached number of grapheme clusters.
    pub closed spec fn count(&self) -> nat {
        self.len as nat
    }

    /// The highlight classes stored with the line, one per grapheme once
    /// the line has been highlighted.
    pub closed spec fn spans(&self) -> Seq<Type> {
        self.highlighting@
    }

    /// Whether the stored classes were computed from the current text.
    pub closed spec fn fresh(&self) -> bool {
        self.is_highlighted
    }

    /// The grapheme clusters of the line.
    pub open spec fn clusters(&self) -> Seq<Seq<char>> {
        grapheme_clusters(self.text())
    }

    /// Validity of a line: the cached count is the number of grapheme
    /// clusters of the text, and those clusters cut the text into
    /// non-empty consecutive pieces.
    #[verifier::type_invariant]
    pub closed spec fn wf(&self) -> bool {
        &&& self.len as nat == grapheme_clusters(self.string@).len()
        &&& is_partition(grapheme_clusters(self.string@), self.string@)
    }

    /// What `wf` says, over the public spec functions.
    pub proof fn lemma_wf(&self)
        requires
            self.wf(),
        ensures
            self.count() == self.clusters().len(),
            is_partition(self.clusters(), self.text()),
    {
    }

    /// A line holding `slice`, not yet highlighted.
    pub fn from(slice: &str) -> (row: Row)
        ensures
            row.wf(),
            row.text() == slice@,
            row.spans() == Seq::<Type>::empty(),
            !row.fresh(),
    {
        let units = segment(slice);
        Row {
            string: String::from_str(slice),
            len: units.len(),
            highlighting: Vec::new(),
            is_highlighted: false,
        }
    }

    /// The line that holds `text`, with its graphemes counted anew and no
    /// highlighting.
    fn recounted(text: String) -> (row: Row)
        ensures
            row.wf(),
            row.text() == text@,
            row.spans() == Seq::<Type>::empty(),
            !row.fresh(),
    {
        let count = segment(text.as_str()).len();
        Row { string: text, len: count, highlighting: Vec::new(), is_highlighted: false }
    }

    /// The number of grapheme clusters in the line.
    pub fn len(&self) -> (n: usize)
        ensures
            n == self.count(),
            n == self.clusters().len(),
    {
        proof {
            use_type_invariant(self);
        }
        self.len
    }

    /// Whether the line holds no grapheme.
    pub fn is_empty(&self) -> (b: bool)
        ensures
            b == (self.clusters().len() == 0),
            b == (self.text().len() == 0),
    {
        proof {
            use_type_invariant(self);
            lemma_flatten_empty(self.clusters());
        }
        self.len == 0
    }

    /// The line's text.
    pub fn as_str(&self) -> (text: &str)
        ensures
            text@ == self.text(),
    {
        self.string.as_str()
    }

    /// The line's text as UTF-8.
    pub fn as_bytes(&self) -> (bytes: &[u8])
        ensures
            bytes@ == encode_utf8(self.text()),
    {
        self.string.as_str().as_bytes()
    }

    /// Puts `c` in front of the grapheme at `at`; at the end of the line
    /// where `at` is at or beyond its length. The grapheme count is taken
    /// anew from the new text, and the stored highlighting is dropped.
    pub fn insert(&mut self, at: usize, c: char)
        ensures
            final(self).wf(),
            final(self).text() == insert_text(old(self).text(), at as int, c),
            final(self).spans() == Seq::<Type>::empty(),
            !final(self).fresh(),
    {
        let units = segment(self.string.as_str());
        *self = Row::recounted(insert_at(&units, at, c));
    }

    /// Removes the grapheme at `at`, takes the grapheme count anew and drops
    /// the stored highlighting. Does nothing where `at` is at or beyond the
    /// line's length.
    pub fn delete(&mut self, at: usize)
        ensures
            final(self).wf(),
            final(self).text() == delete_text(old(self).text(), at as int),
            at >= old(self).count() ==> *final(self) == *old(self),
            at < old(self).count() ==> final(self).spans() == Seq::<Type>::empty(),
            at < old(self).count() ==> !final(self).fresh(),
    {
        proof {
            use_type_invariant(&*self);
        }
        if at >= self.len {
            return ;
        }
        let units = segment(self.string.as_str());
        *self = Row::recounted(delete_at(&units, at));
    }

    /// Cuts the line at grapheme `at`: the line keeps the graphemes before
    /// it, and those from it on are returned as a line of their own. Both
    /// have their graphemes counted anew and no highlighting.
    pub fn split(&mut self, at: usize) -> (rest: Row)
        ensures
            final(self).wf(),
            rest.wf(),
            final(self).text() == head_text(old(self).text(), at as int),
            rest.text() == tail_text(old(self).text(), at as int),
            final(self).spans() == Seq::<Type>::empty(),
            !final(self).fresh(),
            rest.spans() == Seq::<Type>::empty(),
            !rest.fresh(),
    {
        let units = segment(self.string.as_str());
        let (head, tail) = split_at(&units, at);
        *self = Row::recounted(head);
        Row::recounted(tail)
    }

    /// Adds the text of `new` at the end of the line, takes the grapheme
    /// count anew and drops the stored highlighting.
    pub fn append(&mut self, new: &Row)
        ensures
            final(self).wf(),
            final(self).text() == old(self).text() + new.text(),
            final(self).spans() == Seq::<Type>::empty(),
            !final(self).fresh(),
    {
        let mut result: String = String::new();
        result.append(self.string.as_str());
        result.append(new.string.as_str());
        *self = Row::recounted(result);
    }

    /// The graphemes `[start, end)` of the line, each tab shown as four
    /// spaces. Bounds beyond the line are clamped to it.
    pub fn render(&self, start: usize, end: usize) -> (out: String)
        ensures
            out@ == render_text(self.text(), start as int, end as int),
    {
        let units = segment(self.string.as_str());
        render(&units, start, end)
    }

    /// The classes stored with the line.
    pub fn highlighting(&self) -> (spans: &Vec<Type>)
        ensures
            spans@ == self.spans(),
    {
        &self.highlighting
    }

    /// Whether the stored classes were computed from the current text.
    pub fn is_highlighted(&self) -> (b: bool)
        ensures
            b == self.fresh(),
    {
        self.is_highlighted
    }

    /// Marks the stored classes as stale; the text stays as it is.
    pub fn unhighlight(&mut self)
        ensures
            final(self).wf(),
            final(self).text() == old(self).text(),
            final(self).count() == old(self).count(),
            final(self).spans() == old(self).spans(),
            !final(self).fresh(),
    {
        proof {
            use_type_invariant(&*self);
        }
        self.is_highlighted = false;
    }

    /// Classifies the graphemes of the line anew. `word` is the active
    /// search word, `start_with_comment` says that the line before ended
    /// inside a multiline comment. What was stored before is replaced.
    /// Returns whether this line ends inside a multiline comment.
    pub fn highlight(
        &mut self,
        opts: &HighlightingOptions,
        word: &Option<String>,
        start_with_comment: bool,
    ) -> (carry: bool)
        ensures
            final(self).wf(),
            final(self).text() == old(self).text(),
            final(self).count() == old(self).count(),
            final(self).spans() == line_spans(
                old(self).clusters(),
                opts@,
                word_units(*word),
                start_with_comment,
            ),
            final(self).spans().len() == old(self).count(),
            final(self).fresh(),
            carry == line_open(old(self).clusters(), opts@, word_units(*word), start_with_comment),
    {
        proof {
            use_type_invariant(&*self);
        }
        let units = segment(self.string.as_str());
        let needle: Vec<Vec<char>> = match word {
            Some(w) => segment(w.as_str()),
            None => Vec::new(),
        };
        assert(unit_seqs(needle@) =~= word_units(*word));
        let (spans, carry) = classify(&units, opts, &needle, start_with_comment);
        self.highlighting = spans;
        self.is_highlighted = true;
        carry
    }

    /// The first grapheme position at or after `at` with which `query`
    /// begins; `None` where there is none, or where `query` is empty.
    pub fn find(&self, query: &str, at: usize) -> (found: Option<usize>)
        ensures
            match found {
                Some(x) => at <= x < self.count() && found_at(self.text(), query@, x as int)
                    && forall|k: int| at <= k < x ==> !found_at(self.text(), query@, k),
                None => forall|k: int| at <= k ==> !found_at(self.text(), query@, k),
            },
    {
        proof {
            use_type_invariant(self);
        }
        let units = segment(self.string.as_str());
        find_from(&units, query, at)
    }

    /// The end of the run of graphemes that are not white space and begins
    /// at `x`: the position of the next white space at or after `x`, or the
    /// length of the line. `x` itself where it lies beyond the line.
    pub fn peek_white(&self, x: usize) -> (end: usize)
        ensures
            end == word_end(self.text(), x as int),
            end <= self.count() || end == x,
    {
        proof {
            use_type_invariant(self);
        }
        let units = segment(self.string.as_str());
        skip_to_space(&units, x)
    }

    /// The position of the first alphabetic grapheme at or after `x`, or the
    /// length of the line. `x` itself where it lies beyond the line.
    pub fn peek_alpha(&self, x: usize) -> (start: usize)
        ensures
            start == alpha_start(self.text(), x as int),
            start <= self.count() || start == x,
    {
        proof {
            use_type_invariant(self);
        }
        let units = segment(self.string.as_str());
        skip_to_alpha(&units, x)
    }
}

/// Cutting a line at any grapheme position and joining the two pieces again
/// gives the text of the line back.
pub proof fn law_split_then_append(row: Row, at: nat)
    requires
        row.wf(),
    ensures
        head_text(row.text(), at as int) + tail_text(row.text(), at as int) == row.text(),
{
    let parts = grapheme_clusters(row.text());
    let cut = min_int(at as int, parts.len() as int);
    vstd::seq_lib::lemma_flatten_concat(parts.take(cut), parts.skip(cut));
    assert(parts.take(cut) + parts.skip(cut) =~= parts);
}

/// Inserting a scalar value at a grapheme position of a line and then
/// deleting at the same position gives back the text and the grapheme count,
/// wherever the inserted scalar value stands in the new line as a grapheme of
/// its own, at that position, behind the graphemes that stood before it.
/// `mid` is the line after the insertion.
pub proof fn law_insert_then_delete(row: Row, mid: Row, at: int, c: char)
    requires
        row.wf(),
        mid.wf(),
        0 <= at <= row.count(),
        mid.text() == insert_text(row.text(), at, c),
        at < mid.clusters().len(),
        mid.clusters()[at] == seq![c],
        mid.clusters().take(at).flatten() == row.clusters().take(at).flatten(),
    ensures
        delete_text(mid.text(), at) == row.text(),
        grapheme_clusters(delete_text(mid.text(), at)).len() == row.count(),
{
    let parts = row.clusters();
    let after = mid.clusters();
    let before = parts.take(at).flatten();
    let behind = parts.skip(at).flatten();
    let rest = after.skip(at + 1).flatten();
    vstd::seq_lib::lemma_flatten_concat(parts.take(at), parts.skip(at));
    assert(parts.take(at) + parts.skip(at) =~= parts);
    assert(row.text() == before + behind);
    if at == parts.len() {
        assert(parts.skip(at) =~= Seq::<Seq<char>>::empty());
        assert(behind =~= Seq::<char>::empty());
        assert(parts.take(at) =~= parts);
    }
    assert(mid.text() =~= before.push(c) + behind);
    vstd::seq_lib::lemma_flatten_concat(after.take(at + 1), after.skip(at + 1));
    assert(after.take(at + 1) + after.skip(at + 1) =~= after);
    lemma_flatten_step(after, 0, at);
    assert(after.take(at + 1) =~= after.subrange(0, at + 1));
    assert(after.take(at) =~= after.subrange(0, at));
    assert(mid.text() =~= before + seq![c] + rest);
    assert(rest =~= behind) by {
        assert(rest.len() == behind.len());
        assert forall|i: int| 0 <= i < rest.len() implies rest[i] == behind[i] by {
            assert((before + seq![c] + rest)[before.len() + 1 + i] == rest[i]);
            assert((before.push(c) + behind)[before.len() + 1 + i] == behind[i]);
        }
    }
    vstd::seq_lib::lemma_flatten_concat(after.take(at), after.skip(at + 1));
    assert(after.remove(at) =~= after.take(at) + after.skip(at + 1));
}

} // verus!
