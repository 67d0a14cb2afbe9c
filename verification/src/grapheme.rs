//! Segmentation of text into extended grapheme clusters.
//!
//! The segmentation itself is done by `unicode-segmentation`; this module
//! gives its result a name and states what the rest of the crate relies on:
//! the clusters are not empty and, laid end to end, are the text.

use unicode_segmentation::UnicodeSegmentation;
use vstd::prelude::*;
use vstd::string::*;

verus! {

/// The scalar values of a string slice, one by one.
pub fn chars_of(s: &str) -> (v: Vec<char>)
    ensures
        v@ == s@,
{
    broadcast use vstd::string::group_string_axioms;

    let mut v: Vec<char> = Vec::new();
    for c in it: s.chars()
        invariant
            it.seq() == s@,
            v@ == s@.take(it.index() as int),
    {
        v.push(c);
        assert(s@.take(it.index() + 1) =~= s@.take(it.index() as int).push(c));
    }
    assert(s@.take(s@.len() as int) =~= s@);
    v
}

/// The extended grapheme clusters of `text`, in order, each as the scalar
/// values it is made of. This is what
/// `unicode_segmentation::UnicodeSegmentation::graphemes(text, true)` yields.
pub uninterp spec fn grapheme_clusters(text: Seq<char>) -> Seq<Seq<char>>;

/// `parts` cuts `text` into consecutive non-empty pieces.
pub open spec fn is_partition(parts: Seq<Seq<char>>, text: Seq<char>) -> bool {
    &&& parts.flatten() == text
    &&& forall|i: int| 0 <= i < parts.len() ==> (#[trigger] parts[i]).len() > 0
}

/// What a vector of units stands for: each unit as the sequence of its scalar
/// values.
pub open spec fn unit_seqs(units: Seq<Vec<char>>) -> Seq<Seq<char>> {
    units.map_values(|u: Vec<char>| u@)
}

/// Calls `UnicodeSegmentation::graphemes(text, true)` and copies each cluster
/// out as its scalar values.
///
/// Trusted: the result is the segmentation named by [`grapheme_clusters`]; the
/// clusters are non-empty and, laid end to end, give back `text` (the iterator
/// walks `text` from its start to its end and hands out the slice between
/// each boundary and the next).
#[verifier::external_body]
pub(crate) fn segment(text: &str) -> (units: Vec<Vec<char>>)
    ensures
        unit_seqs(units@) == grapheme_clusters(text@),
        is_partition(unit_seqs(units@), text@),
{
    text.graphemes(true).map(chars_of).collect()
}

} // verus!
