//! The per-line highlighter: one left-to-right scan over the graphemes of a
//! line that gives each of them exactly one class.

use crate::filetype::{HighlightingOptions, Rules};
use crate::grapheme::unit_seqs;
use crate::highlighting::Type;
use vstd::prelude::*;

verus! {

/// The grapheme at `i` exists and is the single scalar value `c`.
pub open spec fn is_char(units: Seq<Seq<char>>, i: int, c: char) -> bool {
    0 <= i < units.len() && units[i] == seq![c]
}

/// An ASCII digit.
pub open spec fn is_digit_char(c: char) -> bool {
    '0' <= c <= '9'
}

/// An ASCII letter, an ASCII digit or an underscore.
pub open spec fn is_word_char(c: char) -> bool {
    ||| 'a' <= c <= 'z'
    ||| 'A' <= c <= 'Z'
    ||| '0' <= c <= '9'
    ||| c == '_'
}

/// A grapheme that is one ASCII digit.
pub open spec fn is_digit(unit: Seq<char>) -> bool {
    unit.len() == 1 && is_digit_char(unit[0])
}

/// A grapheme that can continue a numeric literal: a digit or a full stop.
pub open spec fn is_number_part(unit: Seq<char>) -> bool {
    is_digit(unit) || unit == seq!['.']
}

/// A grapheme that belongs to a word: one word character.
pub open spec fn is_word(unit: Seq<char>) -> bool {
    unit.len() == 1 && is_word_char(unit[0])
}

/// No word runs across position `i`: there is no grapheme there, or it is
/// not part of a word.
pub open spec fn boundary(units: Seq<Seq<char>>, i: int) -> bool {
    i < 0 || i >= units.len() || !is_word(units[i])
}

/// The graphemes from `i` on begin with `pat`.
pub open spec fn matches_at(units: Seq<Seq<char>>, i: int, pat: Seq<Seq<char>>) -> bool {
    0 <= i && i + pat.len() <= units.len() && units.subrange(i, i + pat.len()) == pat
}

/// The closing delimiter of a multiline comment stands at `i`.
pub open spec fn closes_at(units: Seq<Seq<char>>, i: int) -> bool {
    is_char(units, i, '*') && is_char(units, i + 1, '/')
}

/// An opening delimiter of a multiline comment stands at `i`.
pub open spec fn opens_at(units: Seq<Seq<char>>, i: int) -> bool {
    is_char(units, i, '/') && is_char(units, i + 1, '*')
}

/// How many graphemes from `from` on stand before the next closing
/// delimiter; up to the end of the line where there is none.
pub open spec fn gap_to_close(units: Seq<Seq<char>>, from: int) -> nat
    decreases units.len() - from,
{
    if from < 0 || from >= units.len() || closes_at(units, from) {
        0
    } else {
        1 + gap_to_close(units, from + 1)
    }
}

/// How many graphemes from `from` on stand before the next `c`; up to the end
/// of the line where there is none.
pub open spec fn gap_to_char(units: Seq<Seq<char>>, from: int, c: char) -> nat
    decreases units.len() - from,
{
    if from < 0 || from >= units.len() || is_char(units, from, c) {
        0
    } else {
        1 + gap_to_char(units, from + 1, c)
    }
}

/// How many graphemes from `from` on continue a numeric literal.
pub open spec fn number_run(units: Seq<Seq<char>>, from: int) -> nat
    decreases units.len() - from,
{
    if from < 0 || from >= units.len() || !is_number_part(units[from]) {
        0
    } else {
        1 + number_run(units, from + 1)
    }
}

/// A keyword as graphemes: each of its scalar values alone.
pub open spec fn letters(keyword: Seq<char>) -> Seq<Seq<char>> {
    keyword.map_values(|c: char| seq![c])
}

/// The non-empty `keyword` stands at `i` and no word goes on behind it.
pub open spec fn keyword_here(units: Seq<Seq<char>>, i: int, keyword: Seq<char>) -> bool {
    &&& keyword.len() > 0
    &&& matches_at(units, i, letters(keyword))
    &&& boundary(units, i + keyword.len())
}

/// The length of the first keyword of the list, from index `k` on, that
/// stands at `i`; zero where none does.
pub open spec fn keyword_len(
    units: Seq<Seq<char>>,
    i: int,
    keywords: Seq<Seq<char>>,
    k: int,
) -> nat
    decreases keywords.len() - k,
{
    if k < 0 || k >= keywords.len() {
        0
    } else if keyword_here(units, i, keywords[k]) {
        keywords[k].len()
    } else {
        keyword_len(units, i, keywords, k + 1)
    }
}

/// One token of a line: its class, how many graphemes it covers, and
/// whether it is a multiline comment that the line leaves unclosed.
pub struct Token {
    pub kind: Type,
    pub len: nat,
    pub open: bool,
}

/// The token that begins at grapheme `i` of a line, outside any comment
/// carried over from the line before. The rules are tried in a fixed order:
/// the search word, a line comment, a multiline comment, a string literal, a
/// character literal, a numeric literal, a primary keyword, a secondary
/// keyword; what none of them takes is one plain grapheme.
pub open spec fn token_at(
    units: Seq<Seq<char>>,
    rules: Rules,
    word: Seq<Seq<char>>,
    i: int,
) -> Token {
    let n = units.len() as int;
    if word.len() > 0 && matches_at(units, i, word) {
        Token { kind: Type::Match, len: word.len(), open: false }
    } else if rules.comments && is_char(units, i, '/') && is_char(units, i + 1, '/') {
        Token { kind: Type::Comment, len: (n - i) as nat, open: false }
    } else if rules.multiline_comments && opens_at(units, i) {
        let close = i + 2 + gap_to_close(units, i + 2);
        if close < n {
            Token { kind: Type::MultilineComment, len: (close + 2 - i) as nat, open: false }
        } else {
            Token { kind: Type::MultilineComment, len: (n - i) as nat, open: true }
        }
    } else if rules.strings && is_char(units, i, '"') {
        let quote = i + 1 + gap_to_char(units, i + 1, '"');
        if quote < n {
            Token { kind: Type::Str, len: (quote + 1 - i) as nat, open: false }
        } else {
            Token { kind: Type::Str, len: (n - i) as nat, open: false }
        }
    } else if rules.characters && is_char(units, i, '\'') {
        let quote = i + 1 + gap_to_char(units, i + 1, '\'');
        if quote < n {
            Token { kind: Type::Character, len: (quote + 1 - i) as nat, open: false }
        } else {
            Token { kind: Type::Character, len: (n - i) as nat, open: false }
        }
    } else if rules.numbers && 0 <= i < n && is_digit(units[i]) {
        Token { kind: Type::Number, len: 1 + number_run(units, i + 1), open: false }
    } else if boundary(units, i - 1) && keyword_len(units, i, rules.primary_keywords, 0) > 0 {
        Token {
            kind: Type::PrimaryKeywords,
            len: keyword_len(units, i, rules.primary_keywords, 0),
            open: false,
        }
    } else if boundary(units, i - 1) && keyword_len(units, i, rules.secondary_keywords, 0) > 0 {
        Token {
            kind: Type::SecondaryKeywords,
            len: keyword_len(units, i, rules.secondary_keywords, 0),
            open: false,
        }
    } else {
        Token { kind: Type::Plain, len: 1, open: false }
    }
}

/// From `from` on, the next closing delimiter lies within the line, with
/// room for both of its graphemes, or the gap runs to the end of the line.
pub proof fn lemma_gap_to_close(units: Seq<Seq<char>>, from: int)
    requires
        0 <= from <= units.len(),
    ensures
        from + gap_to_close(units, from) <= units.len(),
        from + gap_to_close(units, from) < units.len() ==> closes_at(
            units,
            from + gap_to_close(units, from),
        ),
        forall|j: int| from <= j < from + gap_to_close(units, from) ==> !closes_at(units, j),
    decreases units.len() - from,
{
    if from < units.len() && !closes_at(units, from) {
        lemma_gap_to_close(units, from + 1);
    }
}

/// From `from` on, the gap ends at the next `c` or at the end of the line.
pub proof fn lemma_gap_to_char(units: Seq<Seq<char>>, from: int, c: char)
    requires
        0 <= from <= units.len(),
    ensures
        from + gap_to_char(units, from, c) <= units.len(),
        from + gap_to_char(units, from, c) < units.len() ==> is_char(
            units,
            from + gap_to_char(units, from, c),
            c,
        ),
        forall|j: int| from <= j < from + gap_to_char(units, from, c) ==> !is_char(units, j, c),
    decreases units.len() - from,
{
    if from < units.len() && !is_char(units, from, c) {
        lemma_gap_to_char(units, from + 1, c);
    }
}

/// A numeric run stays within the line.
pub proof fn lemma_number_run(units: Seq<Seq<char>>, from: int)
    requires
        0 <= from <= units.len(),
    ensures
        from + number_run(units, from) <= units.len(),
    decreases units.len() - from,
{
    if from < units.len() && is_number_part(units[from]) {
        lemma_number_run(units, from + 1);
    }
}

/// A keyword found at `i` is one of the list, lies within the line and is
/// not empty.
pub proof fn lemma_keyword_len(units: Seq<Seq<char>>, i: int, keywords: Seq<Seq<char>>, k: int)
    requires
        0 <= i <= units.len(),
        0 <= k,
    ensures
        i + keyword_len(units, i, keywords, k) <= units.len(),
        keyword_len(units, i, keywords, k) > 0 ==> exists|j: int|
            k <= j < keywords.len() && keyword_here(units, i, #[trigger] keywords[j])
                && keywords[j].len() == keyword_len(units, i, keywords, k),
    decreases keywords.len() - k,
{
    if k < keywords.len() && !keyword_here(units, i, keywords[k]) {
        lemma_keyword_len(units, i, keywords, k + 1);
    }
}

/// Every token covers at least one grapheme and ends within the line.
pub proof fn lemma_token_covers(
    units: Seq<Seq<char>>,
    rules: Rules,
    word: Seq<Seq<char>>,
    i: int,
)
    requires
        0 <= i < units.len(),
    ensures
        token_at(units, rules, word, i).len > 0,
        i + token_at(units, rules, word, i).len <= units.len(),
        token_at(units, rules, word, i).open ==> i + token_at(units, rules, word, i).len
            == units.len(),
{
    if opens_at(units, i) {
        lemma_gap_to_close(units, i + 2);
    }
    lemma_gap_to_char(units, i + 1, '"');
    lemma_gap_to_char(units, i + 1, '\'');
    lemma_number_run(units, i + 1);
    lemma_keyword_len(units, i, rules.primary_keywords, 0);
    lemma_keyword_len(units, i, rules.secondary_keywords, 0);
}

/// `count` graphemes of one class.
pub open spec fn run(kind: Type, count: nat) -> Seq<Type> {
    Seq::new(count, |k: int| kind)
}

/// The classes of the graphemes from `i` on, where a token begins at `i`.
pub open spec fn spans_from(
    units: Seq<Seq<char>>,
    rules: Rules,
    word: Seq<Seq<char>>,
    i: int,
) -> Seq<Type>
    decreases units.len() - i,
{
    if i < 0 || i >= units.len() {
        Seq::empty()
    } else {
        let token = token_at(units, rules, word, i);
        proof {
            lemma_token_covers(units, rules, word, i);
        }
        run(token.kind, token.len) + spans_from(units, rules, word, i + token.len)
    }
}

/// Whether the scan from `i` on ends inside a multiline comment.
pub open spec fn open_from(
    units: Seq<Seq<char>>,
    rules: Rules,
    word: Seq<Seq<char>>,
    i: int,
) -> bool
    decreases units.len() - i,
{
    if i < 0 || i >= units.len() {
        false
    } else {
        let token = token_at(units, rules, word, i);
        proof {
            lemma_token_covers(units, rules, word, i);
        }
        token.open || open_from(units, rules, word, i + token.len)
    }
}

/// The classes of all graphemes of a line. A line that begins inside a
/// multiline comment is comment body up to and with the first closing
/// delimiter, or to its end where there is none; the scan starts behind it.
pub open spec fn line_spans(
    units: Seq<Seq<char>>,
    rules: Rules,
    word: Seq<Seq<char>>,
    carry_in: bool,
) -> Seq<Type> {
    if carry_in {
        let close = gap_to_close(units, 0);
        if close < units.len() {
            run(Type::MultilineComment, close + 2) + spans_from(
                units,
                rules,
                word,
                close as int + 2,
            )
        } else {
            run(Type::MultilineComment, units.len())
        }
    } else {
        spans_from(units, rules, word, 0)
    }
}

/// Whether the line ends inside a multiline comment, so that the next line
/// begins inside it.
pub open spec fn line_open(
    units: Seq<Seq<char>>,
    rules: Rules,
    word: Seq<Seq<char>>,
    carry_in: bool,
) -> bool {
    if carry_in {
        let close = gap_to_close(units, 0);
        if close < units.len() {
            open_from(units, rules, word, close as int + 2)
        } else {
            true
        }
    } else {
        open_from(units, rules, word, 0)
    }
}

/// Whether the grapheme at `i` exists and is the single scalar value `c`.
fn unit_is(units: &Vec<Vec<char>>, i: usize, c: char) -> (b: bool)
    ensures
        b == is_char(unit_seqs(units@), i as int, c),
{
    if i < units.len() {
        let unit = &units[i];
        let b = unit.len() == 1 && unit[0] == c;
        proof {
            if b {
                assert(unit@ =~= seq![c]);
            } else if unit@ == seq![c] {
                assert(unit@.len() == 1);
                assert(unit@[0] == c);
            }
        }
        b
    } else {
        false
    }
}

/// Whether two graphemes are the same scalar values.
fn same_unit(a: &Vec<char>, b: &Vec<char>) -> (r: bool)
    ensures
        r == (a@ == b@),
{
    if a.len() != b.len() {
        return false;
    }
    let mut k: usize = 0;
    while k < a.len()
        invariant
            a.len() == b.len(),
            k <= a.len(),
            forall|j: int| 0 <= j < k ==> a@[j] == b@[j],
        decreases a.len() - k,
    {
        if a[k] != b[k] {
            return false;
        }
        k += 1;
    }
    assert(a@ =~= b@);
    true
}

/// Whether the graphemes from `i` on begin with `pat`.
fn begins_with(units: &Vec<Vec<char>>, i: usize, pat: &Vec<Vec<char>>) -> (r: bool)
    requires
        i <= units.len(),
    ensures
        r == matches_at(unit_seqs(units@), i as int, unit_seqs(pat@)),
{
    let ghost us = unit_seqs(units@);
    let ghost ps = unit_seqs(pat@);
    if pat.len() > units.len() - i {
        return false;
    }
    let mut k: usize = 0;
    while k < pat.len()
        invariant
            i + pat.len() <= units.len(),
            k <= pat.len(),
            us == unit_seqs(units@),
            ps == unit_seqs(pat@),
            forall|j: int| 0 <= j < k ==> us[i + j] == ps[j],
        decreases pat.len() - k,
    {
        if !same_unit(&units[i + k], &pat[k]) {
            assert(us.subrange(i as int, i + pat.len())[k as int] == us[i + k]);
            return false;
        }
        k += 1;
    }
    assert(us.subrange(i as int, i + pat.len()) =~= ps);
    true
}

/// Whether the scalar values of `keyword`, one grapheme each, stand at `i`.
fn spells(units: &Vec<Vec<char>>, i: usize, keyword: &Vec<char>) -> (r: bool)
    requires
        i <= units.len(),
    ensures
        r == matches_at(unit_seqs(units@), i as int, letters(keyword@)),
{
    let ghost us = unit_seqs(units@);
    let ghost ps = letters(keyword@);
    if keyword.len() > units.len() - i {
        return false;
    }
    let mut k: usize = 0;
    while k < keyword.len()
        invariant
            i + keyword.len() <= units.len(),
            k <= keyword.len(),
            us == unit_seqs(units@),
            ps == letters(keyword@),
            forall|j: int| 0 <= j < k ==> us[i + j] == ps[j],
        decreases keyword.len() - k,
    {
        if !unit_is(units, i + k, keyword[k]) {
            assert(us.subrange(i as int, i + keyword.len())[k as int] == us[i + k]);
            return false;
        }
        k += 1;
    }
    assert(us.subrange(i as int, i + keyword.len()) =~= ps);
    true
}

/// Whether `c` is a word character.
fn word_char(c: char) -> (r: bool)
    ensures
        r == is_word_char(c),
{
    ('a' <= c && c <= 'z') || ('A' <= c && c <= 'Z') || ('0' <= c && c <= '9') || c == '_'
}

/// Whether the grapheme at `i` is one ASCII digit.
fn digit_at(units: &Vec<Vec<char>>, i: usize) -> (r: bool)
    requires
        i < units.len(),
    ensures
        r == is_digit(unit_seqs(units@)[i as int]),
{
    let unit = &units[i];
    unit.len() == 1 && '0' <= unit[0] && unit[0] <= '9'
}

/// Whether no word runs across position `i`.
fn at_boundary(units: &Vec<Vec<char>>, i: usize) -> (r: bool)
    ensures
        r == boundary(unit_seqs(units@), i as int),
{
    if i >= units.len() {
        true
    } else {
        let unit = &units[i];
        !(unit.len() == 1 && word_char(unit[0]))
    }
}

/// The length of the first keyword of the list that stands at `i`, or zero.
fn keyword_at(units: &Vec<Vec<char>>, i: usize, keywords: &Vec<Vec<char>>) -> (len: usize)
    requires
        i <= units.len(),
    ensures
        len == keyword_len(unit_seqs(units@), i as int, unit_seqs(keywords@), 0),
        i + len <= units.len(),
{
    let ghost us = unit_seqs(units@);
    let ghost ks = unit_seqs(keywords@);
    let mut k: usize = 0;
    while k < keywords.len()
        invariant
            i <= units.len(),
            k <= keywords.len(),
            us == unit_seqs(units@),
            ks == unit_seqs(keywords@),
            keyword_len(us, i as int, ks, 0) == keyword_len(us, i as int, ks, k as int),
        decreases keywords.len() - k,
    {
        let keyword = &keywords[k];
        if keyword.len() > 0 && spells(units, i, keyword) && at_boundary(
            units,
            i + keyword.len(),
        ) {
            return keyword.len();
        }
        k += 1;
    }
    0
}

/// The position of the next closing delimiter from `from` on, or the
/// length of the line.
fn find_close(units: &Vec<Vec<char>>, from: usize) -> (at: usize)
    requires
        from <= units.len(),
    ensures
        at == from + gap_to_close(unit_seqs(units@), from as int),
        at <= units.len(),
{
    let ghost us = unit_seqs(units@);
    let mut j: usize = from;
    while j < units.len()
        invariant
            from <= j <= units.len(),
            us == unit_seqs(units@),
            from + gap_to_close(us, from as int) == j + gap_to_close(us, j as int),
        decreases units.len() - j,
    {
        if unit_is(units, j, '*') && unit_is(units, j + 1, '/') {
            return j;
        }
        j += 1;
    }
    j
}

/// The position of the next `c` from `from` on, or the length of the line.
fn find_char(units: &Vec<Vec<char>>, from: usize, c: char) -> (at: usize)
    requires
        from <= units.len(),
    ensures
        at == from + gap_to_char(unit_seqs(units@), from as int, c),
        at <= units.len(),
{
    let ghost us = unit_seqs(units@);
    let mut j: usize = from;
    while j < units.len()
        invariant
            from <= j <= units.len(),
            us == unit_seqs(units@),
            from + gap_to_char(us, from as int, c) == j + gap_to_char(us, j as int, c),
        decreases units.len() - j,
    {
        if unit_is(units, j, c) {
            return j;
        }
        j += 1;
    }
    j
}

/// The end of the numeric run that begins at `from`.
fn number_end(units: &Vec<Vec<char>>, from: usize) -> (at: usize)
    requires
        from <= units.len(),
    ensures
        at == from + number_run(unit_seqs(units@), from as int),
        at <= units.len(),
{
    let ghost us = unit_seqs(units@);
    let mut j: usize = from;
    while j < units.len()
        invariant
            from <= j <= units.len(),
            us == unit_seqs(units@),
            from + number_run(us, from as int) == j + number_run(us, j as int),
        decreases units.len() - j,
    {
        if !(digit_at(units, j) || unit_is(units, j, '.')) {
            return j;
        }
        j += 1;
    }
    j
}

/// Appends `count` graphemes of class `kind`.
fn push_run(spans: &mut Vec<Type>, kind: Type, count: usize)
    ensures
        final(spans)@ == old(spans)@ + run(kind, count as nat),
{
    let mut k: usize = 0;
    while k < count
        invariant
            k <= count,
            spans@ == old(spans)@ + run(kind, k as nat),
        decreases count - k,
    {
        spans.push(kind);
        k += 1;
        assert(run(kind, k as nat) =~= run(kind, (k - 1) as nat).push(kind));
    }
}

/// The token that begins at grapheme `i`: its class, the position behind
/// it, and whether it is an unclosed multiline comment.
fn next_token(
    units: &Vec<Vec<char>>,
    opts: &HighlightingOptions,
    word: &Vec<Vec<char>>,
    i: usize,
) -> (token: (Type, usize, bool))
    requires
        i < units.len(),
    ensures
        token.0 == token_at(unit_seqs(units@), opts@, unit_seqs(word@), i as int).kind,
        token.1 == i + token_at(unit_seqs(units@), opts@, unit_seqs(word@), i as int).len,
        token.2 == token_at(unit_seqs(units@), opts@, unit_seqs(word@), i as int).open,
        i < token.1 <= units.len(),
{
    let n = units.len();
    proof {
        lemma_token_covers(unit_seqs(units@), opts@, unit_seqs(word@), i as int);
    }
    if word.len() > 0 && begins_with(units, i, word) {
        return (Type::Match, i + word.len(), false);
    }
    let slash = unit_is(units, i, '/');
    if opts.comments && slash && unit_is(units, i + 1, '/') {
        return (Type::Comment, n, false);
    }
    if opts.multiline_comments && slash && unit_is(units, i + 1, '*') {
        let close = find_close(units, i + 2);
        if close < n {
            proof {
                lemma_gap_to_close(unit_seqs(units@), i + 2);
            }
            return (Type::MultilineComment, close + 2, false);
        }
        return (Type::MultilineComment, n, true);
    }
    if opts.strings && unit_is(units, i, '"') {
        let quote = find_char(units, i + 1, '"');
        if quote < n {
            return (Type::Str, quote + 1, false);
        }
        return (Type::Str, n, false);
    }
    if opts.characters && unit_is(units, i, '\'') {
        let quote = find_char(units, i + 1, '\'');
        if quote < n {
            return (Type::Character, quote + 1, false);
        }
        return (Type::Character, n, false);
    }
    if opts.numbers && digit_at(units, i) {
        return (Type::Number, number_end(units, i + 1), false);
    }
    if i == 0 || at_boundary(units, i - 1) {
        let primary = keyword_at(units, i, &opts.primary_keywords);
        if primary > 0 {
            return (Type::PrimaryKeywords, i + primary, false);
        }
        let secondary = keyword_at(units, i, &opts.secondary_keywords);
        if secondary > 0 {
            return (Type::SecondaryKeywords, i + secondary, false);
        }
    }
    (Type::Plain, i + 1, false)
}

/// Classifies the graphemes `units` of one line. `word` holds the graphemes
/// of the search word, none where no search is active; `carry_in` says
/// whether the line begins inside a multiline comment. Returns one class
/// for each grapheme, and whether the line ends inside a multiline comment.
pub fn classify(
    units: &Vec<Vec<char>>,
    opts: &HighlightingOptions,
    word: &Vec<Vec<char>>,
    carry_in: bool,
) -> (result: (Vec<Type>, bool))
    ensures
        result.0@ == line_spans(unit_seqs(units@), opts@, unit_seqs(word@), carry_in),
        result.1 == line_open(unit_seqs(units@), opts@, unit_seqs(word@), carry_in),
        result.0@.len() == units@.len(),
{
    let ghost us = unit_seqs(units@);
    let ghost ws = unit_seqs(word@);
    let n = units.len();
    let mut spans: Vec<Type> = Vec::new();
    let mut i: usize = 0;
    let mut open = false;
    if carry_in {
        let close = find_close(units, 0);
        if close < n {
            proof {
                lemma_gap_to_close(us, 0);
            }
            push_run(&mut spans, Type::MultilineComment, close + 2);
            i = close + 2;
        } else {
            push_run(&mut spans, Type::MultilineComment, n);
            return (spans, true);
        }
    }
    assert(spans@ + spans_from(us, opts@, ws, i as int) =~= line_spans(us, opts@, ws, carry_in));
    while i < n
        invariant
            i <= n,
            n == units.len(),
            us == unit_seqs(units@),
            ws == unit_seqs(word@),
            spans@.len() == i,
            spans@ + spans_from(us, opts@, ws, i as int) == line_spans(us, opts@, ws, carry_in),
            (open || open_from(us, opts@, ws, i as int)) == line_open(us, opts@, ws, carry_in),
            open ==> i == n,
        decreases n - i,
    {
        let token = next_token(units, opts, word, i);
        push_run(&mut spans, token.0, token.1 - i);
        proof {
            let t = token_at(us, opts@, ws, i as int);
            assert(spans_from(us, opts@, ws, i as int) == run(t.kind, t.len) + spans_from(
                us,
                opts@,
                ws,
                i + t.len,
            ));
            lemma_token_covers(us, opts@, ws, i as int);
        }
        assert(spans@ + spans_from(us, opts@, ws, token.1 as int) =~= line_spans(
            us,
            opts@,
            ws,
            carry_in,
        ));
        open = token.2;
        i = token.1;
    }
    assert(spans@ =~= line_spans(us, opts@, ws, carry_in));
    (spans, open)
}

/// The scan from a token start to the end of the line gives one class for
/// each grapheme it passes.
pub proof fn lemma_spans_from_len(
    units: Seq<Seq<char>>,
    rules: Rules,
    word: Seq<Seq<char>>,
    i: int,
)
    requires
        0 <= i <= units.len(),
    ensures
        spans_from(units, rules, word, i).len() == units.len() - i,
    decreases units.len() - i,
{
    if i < units.len() {
        lemma_token_covers(units, rules, word, i);
        lemma_spans_from_len(units, rules, word, i + token_at(units, rules, word, i).len);
    }
}

/// A scan ends inside a multiline comment only where multiline comments are
/// recognised and an opening delimiter stands somewhere in what it scanned.
pub proof fn lemma_open_needs_opener(
    units: Seq<Seq<char>>,
    rules: Rules,
    word: Seq<Seq<char>>,
    i: int,
)
    requires
        0 <= i <= units.len(),
        open_from(units, rules, word, i),
    ensures
        rules.multiline_comments,
        exists|j: int| i <= j < units.len() && opens_at(units, j),
    decreases units.len() - i,
{
    if i < units.len() {
        let token = token_at(units, rules, word, i);
        lemma_token_covers(units, rules, word, i);
        if token.open {
            assert(opens_at(units, i));
        } else {
            lemma_open_needs_opener(units, rules, word, i + token.len);
        }
    }
}

/// Every grapheme of a line gets exactly one class: the classes are as many
/// as the graphemes.
pub proof fn law_one_class_per_grapheme(
    units: Seq<Seq<char>>,
    rules: Rules,
    word: Seq<Seq<char>>,
    carry_in: bool,
)
    ensures
        line_spans(units, rules, word, carry_in).len() == units.len(),
{
    if carry_in {
        lemma_gap_to_close(units, 0);
        let close = gap_to_close(units, 0) as int;
        if close < units.len() {
            lemma_spans_from_len(units, rules, word, close + 2);
        }
    } else {
        lemma_spans_from_len(units, rules, word, 0);
    }
}

/// On a line that begins inside a multiline comment and whose first closing
/// delimiter stands at `close`, the graphemes up to and with that delimiter
/// are comment body, and the line ends as the scan behind the delimiter
/// ends: outside the comment, unless an opening delimiter follows.
pub proof fn law_carry_until_closed(
    units: Seq<Seq<char>>,
    rules: Rules,
    word: Seq<Seq<char>>,
    close: int,
)
    requires
        closes_at(units, close),
        forall|j: int| 0 <= j < close ==> !closes_at(units, j),
    ensures
        forall|k: int|
            0 <= k < close + 2 ==> line_spans(units, rules, word, true)[k]
                == Type::MultilineComment,
        line_open(units, rules, word, true) == open_from(units, rules, word, close + 2),
        (forall|j: int| close + 2 <= j < units.len() ==> !opens_at(units, j)) ==> !line_open(
            units,
            rules,
            word,
            true,
        ),
{
    lemma_gap_to_close(units, 0);
    assert(gap_to_close(units, 0) == close);
    if open_from(units, rules, word, close + 2) {
        lemma_open_needs_opener(units, rules, word, close + 2);
    }
}

/// A line that begins inside a multiline comment and holds no closing
/// delimiter is comment body throughout, and the next line begins inside the
/// comment too.
pub proof fn law_carry_unclosed(units: Seq<Seq<char>>, rules: Rules, word: Seq<Seq<char>>)
    requires
        forall|j: int| 0 <= j < units.len() ==> !closes_at(units, j),
    ensures
        line_spans(units, rules, word, true) == run(Type::MultilineComment, units.len()),
        line_open(units, rules, word, true),
{
    lemma_gap_to_close(units, 0);
}

/// Only a multiline comment carries over to the next line: a line that
/// begins outside a comment ends outside one, unless multiline comments are
/// recognised and it holds an opening delimiter.
pub proof fn law_only_comments_carry(
    units: Seq<Seq<char>>,
    rules: Rules,
    word: Seq<Seq<char>>,
)
    requires
        line_open(units, rules, word, false),
    ensures
        rules.multiline_comments,
        exists|j: int| 0 <= j < units.len() && opens_at(units, j),
{
    lemma_open_needs_opener(units, rules, word, 0);
}

/// Without a search word the scan gives no grapheme the class of a match.
pub proof fn lemma_no_word_no_match(
    units: Seq<Seq<char>>,
    rules: Rules,
    word: Seq<Seq<char>>,
    i: int,
)
    requires
        0 <= i <= units.len(),
        word.len() == 0,
    ensures
        forall|k: int|
            0 <= k < spans_from(units, rules, word, i).len() ==> spans_from(
                units,
                rules,
                word,
                i,
            )[k] != Type::Match,
    decreases units.len() - i,
{
    if i < units.len() {
        let token = token_at(units, rules, word, i);
        lemma_token_covers(units, rules, word, i);
        lemma_no_word_no_match(units, rules, word, i + token.len);
        let head = run(token.kind, token.len);
        let rest = spans_from(units, rules, word, i + token.len);
        assert forall|k: int| 0 <= k < (head + rest).len() implies (head + rest)[k]
            != Type::Match by {
            if k < head.len() {
                assert((head + rest)[k] == head[k]);
            } else {
                assert((head + rest)[k] == rest[k - head.len()]);
            }
        }
    }
}

/// An empty search word switches the highlighting of matches off: no
/// grapheme of the line gets the class of a match.
pub proof fn law_empty_word_marks_nothing(
    units: Seq<Seq<char>>,
    rules: Rules,
    carry_in: bool,
    k: int,
)
    requires
        0 <= k < units.len(),
    ensures
        line_spans(units, rules, Seq::empty(), carry_in)[k] != Type::Match,
{
    let word = Seq::<Seq<char>>::empty();
    law_one_class_per_grapheme(units, rules, word, carry_in);
    if carry_in {
        lemma_gap_to_close(units, 0);
        let close = gap_to_close(units, 0) as int;
        if close < units.len() {
            lemma_no_word_no_match(units, rules, word, close + 2);
            lemma_spans_from_len(units, rules, word, close + 2);
            let head = run(Type::MultilineComment, (close + 2) as nat);
            let rest = spans_from(units, rules, word, close + 2);
            if k < head.len() {
                assert((head + rest)[k] == head[k]);
            } else {
                assert((head + rest)[k] == rest[k - head.len()]);
            }
        }
    } else {
        lemma_no_word_no_match(units, rules, word, 0);
    }
}

} // verus!
