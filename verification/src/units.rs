//! Work on a line that has been cut into graphemes: the edits, the window
//! that is shown, the search and the word motions, each over the graphemes
//! as they are given.

use crate::grapheme::chars_of;
use crate::grapheme::unit_seqs;
use vstd::prelude::*;
use vstd::string::*;

verus! {

/// `String::push` appends one scalar value (per its documentation).
pub assume_specification[ std::string::String::push ](s: &mut std::string::String, ch: char)
    ensures
        final(s)@ == old(s)@.push(ch),
;

/// Whether `c` has the Unicode property White_Space, as `char::is_whitespace`
/// tells.
pub uninterp spec fn white_space(c: char) -> bool;

/// Whether `c` has the Unicode property Alphabetic, as `char::is_alphabetic`
/// tells.
pub uninterp spec fn alphabetic(c: char) -> bool;

/// `char::is_whitespace` depends on the scalar value alone; its result is
/// named [`white_space`].
pub assume_specification[ char::is_whitespace ](c: char) -> (b: bool)
    ensures
        b == white_space(c),
;

/// `char::is_alphabetic` depends on the scalar value alone; its result is
/// named [`alphabetic`].
pub assume_specification[ char::is_alphabetic ](c: char) -> (b: bool)
    ensures
        b == alphabetic(c),
;

/// The smaller of two numbers.
pub open spec fn min_int(a: int, b: int) -> int {
    if a <= b {
        a
    } else {
        b
    }
}

/// The text with one scalar value put in front of grapheme `at`, or at the
/// end where there is no such grapheme.
pub open spec fn insert_in(parts: Seq<Seq<char>>, at: int, c: char) -> Seq<char> {
    if at >= parts.len() {
        parts.flatten().push(c)
    } else {
        parts.take(at).flatten().push(c) + parts.skip(at).flatten()
    }
}

/// The text without grapheme `at`; all of it where there is no such
/// grapheme.
pub open spec fn delete_in(parts: Seq<Seq<char>>, at: int) -> Seq<char> {
    if at >= parts.len() {
        parts.flatten()
    } else {
        parts.remove(at).flatten()
    }
}

/// The graphemes before position `at`.
pub open spec fn head_of(parts: Seq<Seq<char>>, at: int) -> Seq<char> {
    parts.take(min_int(at, parts.len() as int)).flatten()
}

/// The graphemes from position `at` on.
pub open spec fn tail_of(parts: Seq<Seq<char>>, at: int) -> Seq<char> {
    parts.skip(min_int(at, parts.len() as int)).flatten()
}

/// How one grapheme is shown: a tab as four spaces, anything else as itself.
pub open spec fn shown(part: Seq<char>) -> Seq<char> {
    if part == seq!['\t'] {
        seq![' ', ' ', ' ', ' ']
    } else {
        part
    }
}

/// The graphemes `[start, end)` as shown, both bounds clamped to the line.
pub open spec fn render_of(parts: Seq<Seq<char>>, start: int, end: int) -> Seq<char> {
    let hi = min_int(end, parts.len() as int);
    let lo = min_int(start, hi);
    parts.subrange(lo, hi).map_values(|p: Seq<char>| shown(p)).flatten()
}

/// How many scalar values stand before grapheme `k`.
pub open spec fn offset_of(parts: Seq<Seq<char>>, k: int) -> int {
    parts.take(k).flatten().len() as int
}

/// `query` stands in `text` at scalar offset `off`.
pub open spec fn occurs_at(text: Seq<char>, query: Seq<char>, off: int) -> bool {
    0 <= off && off + query.len() <= text.len() && text.subrange(off, off + query.len()) == query
}

/// The non-empty `query` begins with grapheme `k`.
pub open spec fn found_in(parts: Seq<Seq<char>>, query: Seq<char>, k: int) -> bool {
    &&& query.len() > 0
    &&& 0 <= k < parts.len()
    &&& occurs_at(parts.flatten(), query, offset_of(parts, k))
}

/// A grapheme counts as white space where its first scalar value does.
pub open spec fn is_space(part: Seq<char>) -> bool {
    part.len() > 0 && white_space(part[0])
}

/// A grapheme counts as alphabetic where its first scalar value does.
pub open spec fn is_alpha(part: Seq<char>) -> bool {
    part.len() > 0 && alphabetic(part[0])
}

/// How many graphemes from `from` on stand before the next white space; up
/// to the end of the line where there is none.
pub open spec fn gap_to_space(parts: Seq<Seq<char>>, from: int) -> nat
    decreases parts.len() - from,
{
    if from < 0 || from >= parts.len() || is_space(parts[from]) {
        0
    } else {
        1 + gap_to_space(parts, from + 1)
    }
}

/// How many graphemes from `from` on stand before the next alphabetic one;
/// up to the end of the line where there is none.
pub open spec fn gap_to_alpha(parts: Seq<Seq<char>>, from: int) -> nat
    decreases parts.len() - from,
{
    if from < 0 || from >= parts.len() || is_alpha(parts[from]) {
        0
    } else {
        1 + gap_to_alpha(parts, from + 1)
    }
}

/// Where the run of graphemes that are not white space and begins at `x`
/// ends: at the next white space at or after `x`, or at the end of the line.
/// `x` itself where it lies beyond the line.
pub open spec fn run_end(parts: Seq<Seq<char>>, x: int) -> int {
    if x < 0 || x >= parts.len() {
        x
    } else {
        x + gap_to_space(parts, x)
    }
}

/// Where the first alphabetic grapheme at or after `x` stands, or the length
/// of the line; `x` itself where it lies beyond the line.
pub open spec fn alpha_from(parts: Seq<Seq<char>>, x: int) -> int {
    if x < 0 || x >= parts.len() {
        x
    } else {
        x + gap_to_alpha(parts, x)
    }
}

/// Flattening a longer window adds the next piece at the end.
pub proof fn lemma_flatten_step(parts: Seq<Seq<char>>, lo: int, k: int)
    requires
        0 <= lo <= k < parts.len(),
    ensures
        parts.subrange(lo, k + 1).flatten() == parts.subrange(lo, k).flatten() + parts[k],
{
    broadcast use Seq::lemma_flatten_push;

    assert(parts.subrange(lo, k + 1) =~= parts.subrange(lo, k).push(parts[k]));
}

/// Pieces that are all non-empty make up the empty text only where there is
/// no piece.
pub proof fn lemma_flatten_empty(parts: Seq<Seq<char>>)
    requires
        forall|i: int| 0 <= i < parts.len() ==> (#[trigger] parts[i]).len() > 0,
    ensures
        (parts.len() == 0) == (parts.flatten().len() == 0),
    decreases parts.len(),
{
    if parts.len() > 0 {
        assert(parts[0].len() > 0);
        assert(parts.flatten() == parts.first() + parts.drop_first().flatten());
    }
}

/// The graphemes before position `k` take up no more than the whole text.
pub proof fn lemma_offset_within(parts: Seq<Seq<char>>, k: int)
    requires
        0 <= k <= parts.len(),
    ensures
        offset_of(parts, k) <= parts.flatten().len(),
{
    vstd::seq_lib::lemma_flatten_concat(parts.take(k), parts.skip(k));
    assert(parts.take(k) + parts.skip(k) =~= parts);
}

/// Appends the scalar values of one grapheme to `dst`.
fn push_unit(dst: &mut String, unit: &Vec<char>)
    ensures
        final(dst)@ == old(dst)@ + unit@,
{
    let mut i: usize = 0;
    while i < unit.len()
        invariant
            i <= unit.len(),
            dst@ == old(dst)@ + unit@.take(i as int),
        decreases unit.len() - i,
    {
        dst.push(unit[i]);
        i += 1;
        assert(unit@.take(i as int) =~= unit@.take(i as int - 1).push(unit@[i as int - 1]));
    }
    assert(unit@.take(unit.len() as int) =~= unit@);
}

/// Appends the graphemes `[from, to)` to `dst`.
pub fn push_units(dst: &mut String, units: &Vec<Vec<char>>, from: usize, to: usize)
    requires
        from <= to <= units.len(),
    ensures
        final(dst)@ == old(dst)@ + unit_seqs(units@).subrange(from as int, to as int).flatten(),
{
    let ghost parts = unit_seqs(units@);
    let mut k: usize = from;
    assert(parts.subrange(from as int, from as int).flatten() =~= Seq::<char>::empty());
    while k < to
        invariant
            from <= k <= to <= units.len(),
            parts == unit_seqs(units@),
            dst@ == old(dst)@ + parts.subrange(from as int, k as int).flatten(),
        decreases to - k,
    {
        push_unit(dst, &units[k]);
        proof {
            lemma_flatten_step(parts, from as int, k as int);
        }
        k += 1;
    }
}

/// The text of the graphemes with `c` put in front of grapheme `at`, or at
/// the end where `at` is at or beyond their number.
pub fn insert_at(units: &Vec<Vec<char>>, at: usize, c: char) -> (text: String)
    ensures
        text@ == insert_in(unit_seqs(units@), at as int, c),
{
    let ghost parts = unit_seqs(units@);
    let cut: usize = if at < units.len() {
        at
    } else {
        units.len()
    };
    let mut text: String = String::new();
    push_units(&mut text, units, 0, cut);
    text.push(c);
    push_units(&mut text, units, cut, units.len());
    proof {
        assert(parts.subrange(0, cut as int) =~= parts.take(cut as int));
        assert(parts.subrange(cut as int, parts.len() as int) =~= parts.skip(cut as int));
        if at >= units.len() {
            assert(parts.take(cut as int) =~= parts);
            assert(parts.skip(cut as int).flatten() =~= Seq::<char>::empty());
        }
        assert(text@ =~= insert_in(parts, at as int, c));
    }
    text
}

/// The text of the graphemes without grapheme `at`; of all of them where
/// `at` is at or beyond their number.
pub fn delete_at(units: &Vec<Vec<char>>, at: usize) -> (text: String)
    ensures
        text@ == delete_in(unit_seqs(units@), at as int),
{
    let ghost parts = unit_seqs(units@);
    let mut text: String = String::new();
    if at >= units.len() {
        push_units(&mut text, units, 0, units.len());
        assert(parts.subrange(0, parts.len() as int) =~= parts);
        return text;
    }
    push_units(&mut text, units, 0, at);
    push_units(&mut text, units, at + 1, units.len());
    proof {
        vstd::seq_lib::lemma_flatten_concat(
            parts.subrange(0, at as int),
            parts.subrange(at + 1, parts.len() as int),
        );
        assert(parts.remove(at as int) =~= parts.subrange(0, at as int) + parts.subrange(
            at + 1,
            parts.len() as int,
        ));
    }
    text
}

/// The text of the graphemes before position `at`, and of those from it on.
pub fn split_at(units: &Vec<Vec<char>>, at: usize) -> (texts: (String, String))
    ensures
        texts.0@ == head_of(unit_seqs(units@), at as int),
        texts.1@ == tail_of(unit_seqs(units@), at as int),
{
    let ghost parts = unit_seqs(units@);
    let cut: usize = if at < units.len() {
        at
    } else {
        units.len()
    };
    let mut head: String = String::new();
    let mut tail: String = String::new();
    push_units(&mut head, units, 0, cut);
    push_units(&mut tail, units, cut, units.len());
    proof {
        assert(parts.subrange(0, cut as int) =~= parts.take(cut as int));
        assert(parts.subrange(cut as int, parts.len() as int) =~= parts.skip(cut as int));
    }
    (head, tail)
}

/// The graphemes `[start, end)` as shown, each tab as four spaces. Bounds
/// beyond the line are clamped to it.
pub fn render(units: &Vec<Vec<char>>, start: usize, end: usize) -> (out: String)
    ensures
        out@ == render_of(unit_seqs(units@), start as int, end as int),
{
    let hi: usize = if end < units.len() {
        end
    } else {
        units.len()
    };
    let lo: usize = if start < hi {
        start
    } else {
        hi
    };
    let ghost parts = unit_seqs(units@).subrange(lo as int, hi as int).map_values(
        |p: Seq<char>| shown(p),
    );
    let mut out: String = String::new();
    let mut k: usize = lo;
    assert(parts.take(0).flatten() =~= Seq::<char>::empty());
    while k < hi
        invariant
            lo <= k <= hi <= units.len(),
            parts == unit_seqs(units@).subrange(lo as int, hi as int).map_values(
                |p: Seq<char>| shown(p),
            ),
            out@ == parts.take(k - lo).flatten(),
        decreases hi - k,
    {
        let unit = &units[k];
        if unit.len() == 1 && unit[0] == '\t' {
            assert(unit@ =~= seq!['\t']);
            out.push(' ');
            out.push(' ');
            out.push(' ');
            out.push(' ');
            assert(out@ =~= parts.take(k - lo).flatten() + seq![' ', ' ', ' ', ' ']);
        } else {
            assert(unit@ != seq!['\t']) by {
                if unit@ == seq!['\t'] {
                    assert(unit@.len() == 1);
                    assert(unit@[0] == seq!['\t'][0]);
                }
            }
            push_unit(&mut out, unit);
        }
        proof {
            lemma_flatten_step(parts, 0, k - lo);
            assert(parts.take(k - lo + 1) =~= parts.subrange(0, k - lo + 1));
            assert(parts.take(k - lo) =~= parts.subrange(0, k - lo));
        }
        k += 1;
    }
    assert(parts.take(hi - lo) =~= parts);
    out
}

/// The scalar values of all the graphemes, in order.
fn flat(units: &Vec<Vec<char>>) -> (text: Vec<char>)
    ensures
        text@ == unit_seqs(units@).flatten(),
{
    let ghost parts = unit_seqs(units@);
    let mut text: Vec<char> = Vec::new();
    let mut k: usize = 0;
    assert(parts.subrange(0, 0).flatten() =~= Seq::<char>::empty());
    while k < units.len()
        invariant
            k <= units.len(),
            parts == unit_seqs(units@),
            text@ == parts.subrange(0, k as int).flatten(),
        decreases units.len() - k,
    {
        let unit = &units[k];
        let ghost before = text@;
        let mut i: usize = 0;
        while i < unit.len()
            invariant
                i <= unit.len(),
                text@ == before + unit@.take(i as int),
            decreases unit.len() - i,
        {
            text.push(unit[i]);
            i += 1;
            assert(unit@.take(i as int) =~= unit@.take(i as int - 1).push(unit@[i as int - 1]));
        }
        assert(unit@.take(unit.len() as int) =~= unit@);
        proof {
            lemma_flatten_step(parts, 0, k as int);
        }
        k += 1;
    }
    assert(parts.subrange(0, parts.len() as int) =~= parts);
    text
}

/// Whether `pattern` stands in `text` at offset `off`.
fn stands_at(text: &Vec<char>, pattern: &Vec<char>, off: usize) -> (r: bool)
    requires
        off <= text.len(),
    ensures
        r == occurs_at(text@, pattern@, off as int),
{
    if pattern.len() > text.len() - off {
        return false;
    }
    let mut k: usize = 0;
    while k < pattern.len()
        invariant
            off + pattern.len() <= text.len(),
            k <= pattern.len(),
            forall|j: int| 0 <= j < k ==> text@[off + j] == pattern@[j],
        decreases pattern.len() - k,
    {
        if text[off + k] != pattern[k] {
            assert(text@.subrange(off as int, off + pattern.len())[k as int] == text@[off + k]);
            return false;
        }
        k += 1;
    }
    assert(text@.subrange(off as int, off + pattern.len()) =~= pattern@);
    true
}

/// The first grapheme position at or after `at` with which `query` begins;
/// `None` where there is none, or where `query` is empty.
pub fn find_from(units: &Vec<Vec<char>>, query: &str, at: usize) -> (found: Option<usize>)
    ensures
        match found {
            Some(x) => at <= x < units@.len() && found_in(unit_seqs(units@), query@, x as int)
                && forall|k: int| at <= k < x ==> !found_in(unit_seqs(units@), query@, k),
            None => forall|k: int| at <= k ==> !found_in(unit_seqs(units@), query@, k),
        },
{
    let text = flat(units);
    let pattern = chars_of(query);
    if pattern.len() == 0 {
        return None;
    }
    let ghost parts = unit_seqs(units@);
    let mut k: usize = 0;
    let mut off: usize = 0;
    assert(parts.take(0).flatten() =~= Seq::<char>::empty());
    while k < units.len()
        invariant
            k <= units.len(),
            parts == unit_seqs(units@),
            text@ == parts.flatten(),
            pattern@ == query@,
            pattern.len() > 0,
            off == offset_of(parts, k as int),
            off <= text.len(),
            forall|j: int| at <= j < k ==> !found_in(parts, query@, j),
        decreases units.len() - k,
    {
        if k >= at && stands_at(&text, &pattern, off) {
            return Some(k);
        }
        proof {
            lemma_flatten_step(parts, 0, k as int);
            assert(parts.take(k as int) =~= parts.subrange(0, k as int));
            assert(parts.take(k + 1) =~= parts.subrange(0, k + 1));
            lemma_offset_within(parts, k + 1);
        }
        off += units[k].len();
        k += 1;
    }
    None
}

/// The position of the next white space at or after `x`, or the number of
/// graphemes; `x` itself where it lies beyond them.
pub fn skip_to_space(units: &Vec<Vec<char>>, x: usize) -> (end: usize)
    ensures
        end == run_end(unit_seqs(units@), x as int),
        x <= end,
        end <= units@.len() || end == x,
{
    if x >= units.len() {
        return x;
    }
    let ghost parts = unit_seqs(units@);
    let mut j: usize = x;
    while j < units.len()
        invariant
            x <= j <= units.len(),
            x < units.len(),
            parts == unit_seqs(units@),
            x + gap_to_space(parts, x as int) == j + gap_to_space(parts, j as int),
        decreases units.len() - j,
    {
        let unit = &units[j];
        if unit.len() > 0 && unit[0].is_whitespace() {
            return j;
        }
        j += 1;
    }
    j
}

/// The position of the first alphabetic grapheme at or after `x`, or the
/// number of graphemes; `x` itself where it lies beyond them.
pub fn skip_to_alpha(units: &Vec<Vec<char>>, x: usize) -> (start: usize)
    ensures
        start == alpha_from(unit_seqs(units@), x as int),
        x <= start,
        start <= units@.len() || start == x,
{
    if x >= units.len() {
        return x;
    }
    let ghost parts = unit_seqs(units@);
    let mut j: usize = x;
    while j < units.len()
        invariant
            x <= j <= units.len(),
            x < units.len(),
            parts == unit_seqs(units@),
            x + gap_to_alpha(parts, x as int) == j + gap_to_alpha(parts, j as int),
        decreases units.len() - j,
    {
        let unit = &units[j];
        if unit.len() > 0 && unit[0].is_alphabetic() {
            return j;
        }
        j += 1;
    }
    j
}

} // verus!
