//! The line buffer: an ordered sequence of lines with the edits, searches
//! and highlighting passes that work across them.

use crate::editor::Position;
use crate::filetype::{label_for, no_rules, rules_for, FileType, Rules};
use crate::grapheme::{chars_of, grapheme_clusters};
use crate::highlighting::Type;
use crate::row::{
    delete_text, found_at, head_text, insert_text, tail_text, word_units, Row,
};
use crate::syntax::{line_open, line_spans};
use crate::units::{occurs_at, offset_of};
use vstd::prelude::*;
use vstd::string::*;

verus! {

/// The lines after `c` is typed at column `x` of line `y`. Beyond the line
/// just past the last one nothing changes. A newline cuts line `y` at the
/// column, or adds an empty line where `y` is just past the last line; any
/// other scalar value goes into line `y`, or onto a new last line.
pub open spec fn insert_lines(lines: Seq<Seq<char>>, x: int, y: int, c: char) -> Seq<Seq<char>> {
    if y < 0 || y > lines.len() {
        lines
    } else if c == '\n' {
        if y == lines.len() {
            lines.push(Seq::empty())
        } else {
            lines.update(y, head_text(lines[y], x)).insert(y + 1, tail_text(lines[y], x))
        }
    } else if y == lines.len() {
        lines.push(seq![c])
    } else {
        lines.update(y, insert_text(lines[y], x, c))
    }
}

/// The lines after a deletion at column `x` of line `y`. At the end of a
/// line that is not the last, the next line is joined onto it; anywhere
/// else the grapheme at the column goes, if there is one.
pub open spec fn delete_lines(lines: Seq<Seq<char>>, x: int, y: int) -> Seq<Seq<char>> {
    if y < 0 || y >= lines.len() {
        lines
    } else if x == grapheme_clusters(lines[y]).len() && y + 1 < lines.len() {
        lines.update(y, lines[y] + lines[y + 1]).remove(y + 1)
    } else {
        lines.update(y, delete_text(lines[y], x))
    }
}

/// The column from which line `y` is searched: the starting column on the
/// starting line, the beginning on every later line.
pub open spec fn start_col(after: Position, y: int) -> int {
    if y == after.y {
        after.x as int
    } else {
        0
    }
}

/// Whether the line before line `i` ends inside a multiline comment, when
/// the lines are highlighted from the first one on.
pub open spec fn carry_into(
    lines: Seq<Seq<char>>,
    rules: Rules,
    word: Seq<Seq<char>>,
    i: int,
) -> bool
    decreases i,
{
    if i <= 0 || i > lines.len() {
        false
    } else {
        line_open(
            grapheme_clusters(lines[i - 1]),
            rules,
            word,
            carry_into(lines, rules, word, i - 1),
        )
    }
}

/// How many lines a highlighting pass up to line `until` works on: the lines
/// up to and with that line, all lines where none is named.
pub open spec fn highlight_count(len: int, until: Option<usize>) -> int {
    match until {
        Some(u) => if u < len {
            u + 1
        } else {
            len
        },
        None => len,
    }
}

/// How many scalar values from `from` on stand before the next newline; up
/// to the end of the text where there is none.
pub open spec fn gap_to_newline(text: Seq<char>, from: int) -> nat
    decreases text.len() - from,
{
    if from < 0 || from >= text.len() || text[from] == '\n' {
        0
    } else {
        1 + gap_to_newline(text, from + 1)
    }
}

/// A line without the carriage return that stood before its newline.
pub open spec fn strip_cr(line: Seq<char>) -> Seq<char> {
    if line.len() > 0 && line.last() == '\r' {
        line.drop_last()
    } else {
        line
    }
}

/// The lines of the text from offset `from` on. A line ends with a newline,
/// or with a carriage return and a newline, neither of which belongs to it;
/// the last line may end with the text.
pub open spec fn lines_from(text: Seq<char>, from: int) -> Seq<Seq<char>>
    decreases text.len() - from,
{
    if from < 0 || from >= text.len() {
        Seq::empty()
    } else {
        let end = from + gap_to_newline(text, from);
        if end >= text.len() {
            seq![text.subrange(from, text.len() as int)]
        } else {
            seq![strip_cr(text.subrange(from, end))] + lines_from(text, end + 1)
        }
    }
}

/// The lines of a text.
pub open spec fn lines_of(text: Seq<char>) -> Seq<Seq<char>> {
    lines_from(text, 0)
}

/// Each line with a newline behind it.
pub open spec fn terminated(lines: Seq<Seq<char>>) -> Seq<Seq<char>> {
    lines.map_values(|l: Seq<char>| l.push('\n'))
}

/// The lines as one text, a newline behind each of them.
pub open spec fn joined(lines: Seq<Seq<char>>) -> Seq<char> {
    terminated(lines).flatten()
}

/// A line that a text can hold as one line and give back as it is: there is
/// no newline in it, and no carriage return at its end.
pub open spec fn storable(line: Seq<char>) -> bool {
    &&& forall|i: int| 0 <= i < line.len() ==> line[i] != '\n'
    &&& line.len() == 0 || line.last() != '\r'
}

/// The gap to the next newline ends within the text, at a newline or at the
/// end, and passes no newline.
pub proof fn lemma_gap_to_newline(text: Seq<char>, from: int)
    requires
        0 <= from <= text.len(),
    ensures
        from + gap_to_newline(text, from) <= text.len(),
        from + gap_to_newline(text, from) < text.len() ==> text[from + gap_to_newline(text, from)]
            == '\n',
        forall|j: int| from <= j < from + gap_to_newline(text, from) ==> text[j] != '\n',
    decreases text.len() - from,
{
    if from < text.len() && text[from] != '\n' {
        lemma_gap_to_newline(text, from + 1);
    }
}

/// The buffer: its lines, the file it is bound to, whether it was changed
/// since it was last loaded or saved, and its file type.
pub struct Document {
    rows: Vec<Row>,
    pub file_name: Option<String>,
    dirty: bool,
    file_type: FileType,
}

/// `p` is the first place at or after `after` where `query` begins: on
/// line `after.y` from column `after.x` on, on each later line from its
/// beginning.
pub open spec fn first_match(
    lines: Seq<Seq<char>>,
    query: Seq<char>,
    after: Position,
    p: Position,
) -> bool {
    &&& after.y <= p.y < lines.len()
    &&& start_col(after, p.y as int) <= p.x
    &&& found_at(lines[p.y as int], query, p.x as int)
    &&& forall|k: int|
        start_col(after, p.y as int) <= k < p.x ==> !found_at(lines[p.y as int], query, k)
    &&& forall|y: int, k: int|
        after.y <= y < p.y && start_col(after, y) <= k ==> !(#[trigger] found_at(
            lines[y],
            query,
            k,
        ))
}

/// `query` begins nowhere at or after `after`.
pub open spec fn no_match(lines: Seq<Seq<char>>, query: Seq<char>, after: Position) -> bool {
    forall|y: int, k: int|
        after.y <= y < lines.len() && start_col(after, y) <= k ==> !(#[trigger] found_at(
            lines[y],
            query,
            k,
        ))
}

/// `results` names, in line order, the first place on each line where
/// `query` begins: no line twice, and every line on which it begins.
pub open spec fn one_match_per_line(
    lines: Seq<Seq<char>>,
    query: Seq<char>,
    results: Seq<Position>,
) -> bool {
    &&& forall|i: int, j: int| 0 <= i < j < results.len() ==> results[i].y < results[j].y
    &&& forall|i: int|
        0 <= i < results.len() ==> {
            &&& (#[trigger] results[i]).y < lines.len()
            &&& found_at(lines[results[i].y as int], query, results[i].x as int)
            &&& forall|k: int|
                0 <= k < results[i].x ==> !found_at(lines[results[i].y as int], query, k)
        }
    &&& forall|y: int, k: int|
        0 <= y < lines.len() && #[trigger] found_at(lines[y], query, k) ==> exists|i: int|
            0 <= i < results.len() && (#[trigger] results[i]).y == y
}

/// `after` is `before` with its first `count` lines highlighted from the
/// first one on, each told whether the line before it ended inside a
/// multiline comment, and everything else as it was.
pub open spec fn highlighted(
    before: Document,
    after: Document,
    word: Seq<Seq<char>>,
    count: int,
) -> bool {
    &&& after.rows_view().len() == before.rows_view().len()
    &&& after.lines() == before.lines()
    &&& after.file() == before.file()
    &&& after.dirty() == before.dirty()
    &&& after.type_label() == before.type_label()
    &&& after.rules() == before.rules()
    &&& forall|i: int|
        0 <= i < count && i < before.rows_view().len() ==> {
            &&& (#[trigger] after.rows_view()[i]).fresh()
            &&& after.rows_view()[i].spans() == line_spans(
                grapheme_clusters(before.lines()[i]),
                before.rules(),
                word,
                carry_into(before.lines(), before.rules(), word, i),
            )
        }
    &&& forall|i: int|
        count <= i < before.rows_view().len() ==> after.rows_view()[i] == before.rows_view()[i]
}

impl Document {
    /// The lines of the buffer as they are stored.
    pub closed spec fn rows_view(&self) -> Seq<Row> {
        self.rows@
    }

    /// The text of each line.
    pub open spec fn lines(&self) -> Seq<Seq<char>> {
        self.rows_view().map_values(|r: Row| r.text())
    }

    /// The name of the file the buffer is bound to, if any.
    pub closed spec fn file(&self) -> Option<String> {
        self.file_name
    }

    /// Whether the buffer differs from what was last loaded or saved.
    pub closed spec fn dirty(&self) -> bool {
        self.dirty
    }

    /// The label of the buffer's file type.
    pub closed spec fn type_label(&self) -> Seq<char> {
        self.file_type.label()
    }

    /// The highlighting rules of the buffer's file type.
    pub closed spec fn rules(&self) -> Rules {
        self.file_type.rules()
    }

    /// An empty buffer, bound to no file.
    pub fn default() -> (doc: Document)
        ensures
            doc.rows_view().len() == 0,
            doc.file() is None,
            !doc.dirty(),
            doc.type_label() == "No filetype"@,
            doc.rules() == no_rules(),
    {
        Document { rows: Vec::new(), file_name: None, dirty: false, file_type: FileType::default() }
    }

    /// The label of the buffer's file type.
    pub fn file_type(&self) -> (name: String)
        ensures
            name@ == self.type_label(),
    {
        self.file_type.name()
    }

    /// The line at `index`, if there is one.
    pub fn row(&self, index: usize) -> (row: Option<&Row>)
        ensures
            match row {
                Some(r) => index < self.rows_view().len() && *r == self.rows_view()[index as int]
                    && r.wf(),
                None => index >= self.rows_view().len(),
            },
    {
        if index < self.rows.len() {
            let r = &self.rows[index];
            proof {
                use_type_invariant(r);
            }
            Some(r)
        } else {
            None
        }
    }

    /// Whether the buffer has no line.
    pub fn is_empty(&self) -> (b: bool)
        ensures
            b == (self.rows_view().len() == 0),
    {
        self.rows.len() == 0
    }

    /// The number of lines.
    pub fn len(&self) -> (n: usize)
        ensures
            n == self.rows_view().len(),
    {
        self.rows.len()
    }

    /// Whether the buffer differs from what was last loaded or saved.
    pub fn is_dirty(&self) -> (b: bool)
        ensures
            b == self.dirty(),
    {
        self.dirty
    }

    /// The buffer that holds `contents`, the text read from the file
    /// `filename`: one line for each line of the text. It is bound to that
    /// file, has the file type that goes with the name, and is not dirty.
    pub fn open(filename: &str, contents: &str) -> (doc: Document)
        ensures
            doc.lines() == lines_of(contents@),
            doc.file() is Some,
            doc.file()->0@ == filename@,
            !doc.dirty(),
            doc.type_label() == label_for(filename@),
            doc.rules() == rules_for(filename@),
            forall|i: int|
                0 <= i < doc.rows_view().len() ==> !(#[trigger] doc.rows_view()[i]).fresh(),
    {
        let text = chars_of(contents);
        let n = text.len();
        let mut rows: Vec<Row> = Vec::new();
        let mut from: usize = 0;
        while from < n
            invariant
                from <= n,
                n == text.len(),
                rows@.map_values(|r: Row| r.text()) + lines_from(text@, from as int) == lines_of(
                    text@,
                ),
                forall|i: int| 0 <= i < rows@.len() ==> !(#[trigger] rows@[i]).fresh(),
            decreases n - from,
        {
            let ghost done = rows@.map_values(|r: Row| r.text());
            let mut end: usize = from;
            while end < n && text[end] != '\n'
                invariant
                    from <= end <= n,
                    n == text.len(),
                    from + gap_to_newline(text@, from as int) == end + gap_to_newline(
                        text@,
                        end as int,
                    ),
                decreases n - end,
            {
                end += 1;
            }
            let stop: usize = if end < n && end > from && text[end - 1] == '\r' {
                end - 1
            } else {
                end
            };
            let mut line = String::new();
            let mut k: usize = from;
            while k < stop
                invariant
                    from <= k <= stop <= n,
                    n == text.len(),
                    line@ == text@.subrange(from as int, k as int),
                decreases stop - k,
            {
                line.push(text[k]);
                k += 1;
                assert(text@.subrange(from as int, k as int) =~= text@.subrange(
                    from as int,
                    k - 1,
                ).push(text@[k - 1]));
            }
            proof {
                if end < n {
                    let whole = text@.subrange(from as int, end as int);
                    if stop < end {
                        assert(whole.last() == '\r');
                        assert(whole.drop_last() =~= text@.subrange(from as int, stop as int));
                    }
                    assert(line@ == strip_cr(whole));
                }
            }
            rows.push(Row::from(line.as_str()));
            assert(rows@.map_values(|r: Row| r.text()) =~= done.push(line@));
            if end < n {
                assert(done.push(line@) + lines_from(text@, end + 1) =~= done + lines_from(
                    text@,
                    from as int,
                ));
                from = end + 1;
            } else {
                assert(lines_from(text@, n as int) =~= Seq::<Seq<char>>::empty());
                assert(done.push(line@) + lines_from(text@, n as int) =~= done + lines_from(
                    text@,
                    from as int,
                ));
                from = n;
            }
        }
        assert(rows@.map_values(|r: Row| r.text()) =~= lines_of(text@));
        Document {
            rows,
            file_name: Some(String::from_str(filename)),
            dirty: false,
            file_type: FileType::from(filename),
        }
    }

    /// The buffer as the text of a file: each line with a newline behind it.
    pub fn contents(&self) -> (text: String)
        ensures
            text@ == joined(self.lines()),
    {
        let ghost parts = terminated(self.lines());
        let mut text = String::new();
        let mut i: usize = 0;
        assert(parts.take(0).flatten() =~= Seq::<char>::empty());
        while i < self.rows.len()
            invariant
                i <= self.rows@.len(),
                parts == terminated(self.lines()),
                text@ == parts.take(i as int).flatten(),
            decreases self.rows.len() - i,
        {
            text.append(self.rows[i].as_str());
            text.push('\n');
            proof {
                broadcast use Seq::lemma_flatten_push;

                assert(parts.take(i + 1) =~= parts.take(i as int).push(parts[i as int]));
                assert(text@ =~= parts.take(i as int).flatten() + parts[i as int]);
            }
            i += 1;
        }
        assert(parts.take(self.rows@.len() as int) =~= parts);
        text
    }

    /// Records how writing `contents()` to the bound file went. After a write
    /// that succeeded the buffer is not dirty, and its file type is the one
    /// that goes with the file's name. After one that failed, or where the
    /// buffer is bound to no file, nothing changes.
    pub fn save(&mut self, written: bool)
        ensures
            final(self).rows_view() == old(self).rows_view(),
            final(self).file() == old(self).file(),
            written && old(self).file() is Some ==> {
                &&& !final(self).dirty()
                &&& final(self).type_label() == label_for(old(self).file()->0@)
                &&& final(self).rules() == rules_for(old(self).file()->0@)
            },
            !(written && old(self).file() is Some) ==> *final(self) == *old(self),
    {
        if written {
            if let Some(file_name) = &self.file_name {
                self.file_type = FileType::from(file_name.as_str());
                self.dirty = false;
            }
        }
    }

    /// Types `c` at `at`. Does nothing where `at.y` lies beyond the line just
    /// past the last one. Otherwise the buffer is dirty afterwards, and the
    /// highlighting of every line from the one before `at.y` on is stale.
    pub fn insert(&mut self, at: &Position, c: char)
        ensures
            final(self).lines() == insert_lines(old(self).lines(), at.x as int, at.y as int, c),
            final(self).file() == old(self).file(),
            final(self).type_label() == old(self).type_label(),
            final(self).rules() == old(self).rules(),
            at.y > old(self).rows_view().len() ==> *final(self) == *old(self),
            at.y <= old(self).rows_view().len() ==> final(self).dirty(),
            at.y <= old(self).rows_view().len() ==> forall|i: int|
                0 <= i < at.y - 1 ==> final(self).rows_view()[i] == old(self).rows_view()[i],
            at.y <= old(self).rows_view().len() ==> forall|i: int|
                0 <= i < final(self).rows_view().len() && i >= at.y - 1 ==> !(
                #[trigger] final(self).rows_view()[i]).fresh(),
    {
        if at.y > self.rows.len() {
            return ;
        }
        self.dirty = true;
        if c == '\n' {
            self.insert_newline(at);
        } else if at.y == self.rows.len() {
            let mut row = Row::default();
            proof {
                row.lemma_wf();
            }
            row.insert(0, c);
            assert(row.text() =~= seq![c]);
            self.rows.push(row);
            assert(self.lines() =~= old(self).lines().push(seq![c]));
        } else {
            self.rows[at.y].insert(at.x, c);
            assert(self.lines() =~= old(self).lines().update(
                at.y as int,
                insert_text(old(self).lines()[at.y as int], at.x as int, c),
            ));
        }
        self.unhighlight_rows(at.y);
    }

    /// Breaks the line at `at`: the graphemes from column `at.x` on move to a
    /// new line below. Just past the last line an empty line is added.
    fn insert_newline(&mut self, at: &Position)
        requires
            at.y <= old(self).rows_view().len(),
        ensures
            final(self).lines() == insert_lines(
                old(self).lines(),
                at.x as int,
                at.y as int,
                '\n',
            ),
            final(self).file() == old(self).file(),
            final(self).dirty() == old(self).dirty(),
            final(self).type_label() == old(self).type_label(),
            final(self).rules() == old(self).rules(),
            final(self).rows_view().len() == old(self).rows_view().len() + 1,
            forall|i: int| 0 <= i < at.y ==> final(self).rows_view()[i] == old(self).rows_view()[i],
    {
        if at.y == self.rows.len() {
            self.rows.push(Row::default());
            assert(self.lines() =~= old(self).lines().push(Seq::empty()));
            return ;
        }
        let new_row = self.rows[at.y].split(at.x);
        self.rows.insert(at.y + 1, new_row);
        assert(self.lines() =~= old(self).lines().update(
            at.y as int,
            head_text(old(self).lines()[at.y as int], at.x as int),
        ).insert(at.y + 1, tail_text(old(self).lines()[at.y as int], at.x as int)));
    }

    /// Deletes at `at`. Does nothing where `at.y` names no line. At the end
    /// of a line that is not the last, the next line is joined onto it;
    /// anywhere else the grapheme at the column goes, if there is one.
    /// The buffer is dirty afterwards, and the highlighting of every line
    /// from the one before `at.y` on is stale.
    pub fn delete(&mut self, at: &Position)
        ensures
            final(self).lines() == delete_lines(old(self).lines(), at.x as int, at.y as int),
            final(self).file() == old(self).file(),
            final(self).type_label() == old(self).type_label(),
            final(self).rules() == old(self).rules(),
            at.y >= old(self).rows_view().len() ==> *final(self) == *old(self),
            at.y < old(self).rows_view().len() ==> final(self).dirty(),
            at.y < old(self).rows_view().len() ==> forall|i: int|
                0 <= i < at.y - 1 ==> final(self).rows_view()[i] == old(self).rows_view()[i],
            at.y < old(self).rows_view().len() ==> forall|i: int|
                0 <= i < final(self).rows_view().len() && i >= at.y - 1 ==> !(
                #[trigger] final(self).rows_view()[i]).fresh(),
    {
        let len: usize = self.rows.len();
        if at.y >= len {
            return ;
        }
        self.dirty = true;
        if at.x == self.rows[at.y].len() && at.y < len - 1 {
            let next_row = self.rows.remove(at.y + 1);
            self.rows[at.y].append(&next_row);
            assert(self.lines() =~= old(self).lines().update(
                at.y as int,
                old(self).lines()[at.y as int] + old(self).lines()[at.y + 1],
            ).remove(at.y + 1));
        } else {
            self.rows[at.y].delete(at.x);
            assert(self.lines() =~= old(self).lines().update(
                at.y as int,
                delete_text(old(self).lines()[at.y as int], at.x as int),
            ));
        }
        self.unhighlight_rows(at.y);
    }

    /// The first place at or after `after` where `query` begins: on line
    /// `after.y` from column `after.x` on, on each later line from its
    /// beginning. `None` where there is none up to the end of the buffer,
    /// or where `query` is empty.
    pub fn find(&self, query: &str, after: &Position) -> (found: Option<Position>)
        ensures
            match found {
                Some(p) => first_match(self.lines(), query@, *after, p),
                None => no_match(self.lines(), query@, *after),
            },
    {
        let mut x: usize = after.x;
        let mut y: usize = after.y;
        while y < self.rows.len()
            invariant
                after.y <= y,
                x == start_col(*after, y as int),
                forall|j: int, k: int|
                    after.y <= j < y && start_col(*after, j) <= k ==> !(#[trigger] found_at(
                        self.lines()[j],
                        query@,
                        k,
                    )),
            decreases self.rows.len() - y,
        {
            if let Some(col) = self.rows[y].find(query, x) {
                return Some(Position { x: col, y });
            }
            x = 0;
            y += 1;
        }
        None
    }

    /// The first place on each line where `query` begins, in line order: at
    /// most one place for a line, however often `query` stands on it.
    pub fn find_all(&self, query: &str) -> (results: Vec<Position>)
        ensures
            one_match_per_line(self.lines(), query@, results@),
    {
        let mut results: Vec<Position> = Vec::new();
        let mut y: usize = 0;
        while y < self.rows.len()
            invariant
                y <= self.rows.len(),
                forall|i: int, j: int|
                    0 <= i < j < results@.len() ==> results@[i].y < results@[j].y,
                forall|i: int| 0 <= i < results@.len() ==> (#[trigger] results@[i]).y < y,
                forall|i: int|
                    0 <= i < results@.len() ==> {
                        &&& found_at(
                            self.lines()[(#[trigger] results@[i]).y as int],
                            query@,
                            results@[i].x as int,
                        )
                        &&& forall|k: int|
                            0 <= k < results@[i].x ==> !found_at(
                                self.lines()[results@[i].y as int],
                                query@,
                                k,
                            )
                    },
                forall|j: int, k: int|
                    0 <= j < y && #[trigger] found_at(self.lines()[j], query@, k) ==> exists|
                        i: int,
                    | 0 <= i < results@.len() && (#[trigger] results@[i]).y == j,
            decreases self.rows.len() - y,
        {
            let ghost before = results@;
            if let Some(x) = self.rows[y].find(query, 0) {
                results.push(Position { x, y });
                assert(results@[before.len() as int].y == y);
            }
            assert forall|j: int, k: int|
                0 <= j < y + 1 && #[trigger] found_at(self.lines()[j], query@, k) implies exists|
                i: int,
            | 0 <= i < results@.len() && (#[trigger] results@[i]).y == j by {
                if j < y {
                    let i = choose|i: int| 0 <= i < before.len() && (#[trigger] before[i]).y == j;
                    assert(results@[i].y == j);
                } else {
                    assert(results@[before.len() as int].y == y);
                }
            }
            y += 1;
        }
        results
    }

    /// `until`, or the number of lines where that is less.
    fn unwrap_until(&self, until: usize) -> (n: usize)
        ensures
            n == if until <= self.rows_view().len() {
                until
            } else {
                self.rows_view().len() as usize
            },
    {
        if until <= self.rows.len() {
            until
        } else {
            self.rows.len()
        }
    }

    /// Highlights the lines up to and with line `until`, or all lines where
    /// none is named, from the first line on: each line is told whether the
    /// line before it ended inside a multiline comment. The lines behind
    /// `until` stay as they are.
    pub fn highlight(&mut self, word: &Option<String>, until: Option<usize>)
        ensures
            highlighted(
                *old(self),
                *final(self),
                word_units(*word),
                highlight_count(old(self).rows_view().len() as int, until),
            ),
    {
        let mut start_with_comment: bool = false;
        let until: usize = match until {
            Some(u) => if u < self.rows.len() {
                self.unwrap_until(u + 1)
            } else {
                self.rows.len()
            },
            None => self.rows.len(),
        };
        let ghost lines = self.lines();
        let ghost rules = self.rules();
        let ghost needle = word_units(*word);
        let mut i: usize = 0;
        while i < until
            invariant
                i <= until <= self.rows@.len(),
                self.rows@.len() == old(self).rows@.len(),
                self.lines() == lines,
                lines == old(self).lines(),
                rules == old(self).rules(),
                needle == word_units(*word),
                self.file_name == old(self).file_name,
                self.dirty == old(self).dirty,
                self.file_type == old(self).file_type,
                start_with_comment == carry_into(lines, rules, needle, i as int),
                forall|j: int|
                    0 <= j < i ==> {
                        &&& (#[trigger] self.rows@[j]).fresh()
                        &&& self.rows@[j].spans() == line_spans(
                            grapheme_clusters(lines[j]),
                            rules,
                            needle,
                            carry_into(lines, rules, needle, j),
                        )
                    },
                forall|j: int| i <= j < self.rows@.len() ==> self.rows@[j] == old(self).rows@[j],
            decreases until - i,
        {
            start_with_comment =
            self.rows[i].highlight(self.file_type.highlighting_options(), word, start_with_comment);
            assert(self.lines() =~= lines);
            i += 1;
        }
    }

    /// Marks as stale the highlighting of every line from the one before
    /// `start` on: an edit can change what a comment opened on the line
    /// before it takes in.
    fn unhighlight_rows(&mut self, start: usize)
        ensures
            final(self).rows_view().len() == old(self).rows_view().len(),
            final(self).lines() == old(self).lines(),
            final(self).file() == old(self).file(),
            final(self).dirty() == old(self).dirty(),
            final(self).type_label() == old(self).type_label(),
            final(self).rules() == old(self).rules(),
            forall|i: int|
                0 <= i < old(self).rows_view().len() && i < start - 1
                    ==> final(self).rows_view()[i] == old(self).rows_view()[i],
            forall|i: int|
                0 <= i < old(self).rows_view().len() && i >= start - 1
                    ==> !(#[trigger] final(self).rows_view()[i]).fresh(),
    {
        let first: usize = if start > 0 {
            start - 1
        } else {
            0
        };
        let mut i: usize = first;
        while i < self.rows.len()
            invariant
                first <= i,
                self.rows@.len() == old(self).rows@.len(),
                self.lines() == old(self).lines(),
                self.file_name == old(self).file_name,
                self.dirty == old(self).dirty,
                self.file_type == old(self).file_type,
                forall|j: int|
                    0 <= j < self.rows@.len() && j < first ==> self.rows@[j] == old(self).rows@[j],
                forall|j: int|
                    first <= j < i && j < self.rows@.len() ==> !(#[trigger] self.rows@[j]).fresh(),
                forall|j: int| i <= j < self.rows@.len() ==> self.rows@[j] == old(self).rows@[j],
            decreases self.rows.len() - i,
        {
            let ghost before = self.lines();
            self.rows[i].unhighlight();
            assert(self.lines() =~= before);
            i += 1;
        }
    }
}

/// The first place where a query begins is one place only, and there is
/// none where the query begins nowhere.
pub proof fn law_first_match_is_unique(
    lines: Seq<Seq<char>>,
    query: Seq<char>,
    after: Position,
    p: Position,
    q: Position,
)
    requires
        first_match(lines, query, after, p),
    ensures
        !no_match(lines, query, after),
        first_match(lines, query, after, q) ==> p == q,
{
    assert(found_at(lines[p.y as int], query, p.x as int));
    if first_match(lines, query, after, q) {
        assert(found_at(lines[q.y as int], query, q.x as int));
        if p.y < q.y {
            assert(!found_at(lines[p.y as int], query, p.x as int));
        }
        if q.y < p.y {
            assert(!found_at(lines[q.y as int], query, q.x as int));
        }
    }
}

/// What a search for all matches gives holds at most one place for a line,
/// and at each of its places the query stands in the text of the line, from
/// the first scalar value of the grapheme at that column on.
pub proof fn law_one_place_per_line(
    lines: Seq<Seq<char>>,
    query: Seq<char>,
    results: Seq<Position>,
    i: int,
    j: int,
)
    requires
        one_match_per_line(lines, query, results),
        0 <= i < results.len(),
        0 <= j < results.len(),
    ensures
        i != j ==> results[i].y != results[j].y,
        results[i].y < lines.len(),
        occurs_at(
            grapheme_clusters(lines[results[i].y as int]).flatten(),
            query,
            offset_of(grapheme_clusters(lines[results[i].y as int]), results[i].x as int),
        ),
{
    if i < j {
        assert(results[i].y < results[j].y);
    }
    if j < i {
        assert(results[j].y < results[i].y);
    }
    assert(found_at(lines[results[i].y as int], query, results[i].x as int));
}

/// Both answers name the same line at index `i`.
pub open spec fn same_line(first: Seq<Position>, second: Seq<Position>, i: int) -> bool {
    first[i].y == second[i].y
}

/// The line of every place in an answer has a match, which another answer
/// to the same search names too.
proof fn lemma_named_by_both(
    lines: Seq<Seq<char>>,
    query: Seq<char>,
    first: Seq<Position>,
    second: Seq<Position>,
    i: int,
) -> (w: int)
    requires
        one_match_per_line(lines, query, first),
        one_match_per_line(lines, query, second),
        0 <= i < first.len(),
    ensures
        0 <= w < second.len(),
        second[w].y == first[i].y,
{
    let p = first[i];
    assert(found_at(lines[p.y as int], query, p.x as int));
    choose|w: int| 0 <= w < second.len() && (#[trigger] second[w]).y == p.y
}

/// Two answers to one search name the same lines at the same indices, as far
/// as both reach.
proof fn lemma_same_lines(
    lines: Seq<Seq<char>>,
    query: Seq<char>,
    first: Seq<Position>,
    second: Seq<Position>,
    k: int,
)
    requires
        one_match_per_line(lines, query, first),
        one_match_per_line(lines, query, second),
        0 <= k <= first.len(),
        0 <= k <= second.len(),
    ensures
        forall|i: int| 0 <= i < k ==> #[trigger] same_line(first, second, i),
    decreases k,
{
    if k > 0 {
        lemma_same_lines(lines, query, first, second, k - 1);
        let a = first[k - 1];
        let b = second[k - 1];
        if a.y < b.y {
            let w = lemma_named_by_both(lines, query, first, second, k - 1);
            if w < k - 1 {
                assert(same_line(first, second, w));
                assert(first[w].y < first[k - 1].y);
            } else if w > k - 1 {
                assert(second[k - 1].y < second[w].y);
            }
        }
        if b.y < a.y {
            let w = lemma_named_by_both(lines, query, second, first, k - 1);
            if w < k - 1 {
                assert(same_line(first, second, w));
                assert(second[w].y < second[k - 1].y);
            } else if w > k - 1 {
                assert(first[k - 1].y < first[w].y);
            }
        }
        assert(same_line(first, second, k - 1));
    }
}

/// An answer to a search is no longer than another answer to it.
proof fn lemma_not_longer(
    lines: Seq<Seq<char>>,
    query: Seq<char>,
    first: Seq<Position>,
    second: Seq<Position>,
)
    requires
        one_match_per_line(lines, query, first),
        one_match_per_line(lines, query, second),
    ensures
        second.len() <= first.len(),
{
    if first.len() < second.len() {
        let n = first.len() as int;
        lemma_same_lines(lines, query, first, second, n);
        let w = lemma_named_by_both(lines, query, second, first, n);
        assert(same_line(first, second, w));
        assert(second[w].y < second[n].y);
    }
}

/// Two answers to one search for all matches are the same answer.
pub proof fn law_all_matches_are_unique(
    lines: Seq<Seq<char>>,
    query: Seq<char>,
    first: Seq<Position>,
    second: Seq<Position>,
)
    requires
        one_match_per_line(lines, query, first),
        one_match_per_line(lines, query, second),
    ensures
        first == second,
{
    lemma_not_longer(lines, query, first, second);
    lemma_not_longer(lines, query, second, first);
    lemma_same_lines(lines, query, first, second, first.len() as int);
    assert forall|k: int| 0 <= k < first.len() implies first[k] == second[k] by {
        assert(same_line(first, second, k));
        let a = first[k];
        let b = second[k];
        assert(found_at(lines[a.y as int], query, a.x as int));
        assert(found_at(lines[b.y as int], query, b.x as int));
        if a.x < b.x {
            assert(!found_at(lines[b.y as int], query, a.x as int));
        }
        if b.x < a.x {
            assert(!found_at(lines[a.y as int], query, b.x as int));
        }
    }
    assert(first =~= second);
}

/// Where no newline stands from `from` up to `end`, and one stands at `end`,
/// the gap from `from` to the next newline is the distance to `end`.
proof fn lemma_gap_exact(text: Seq<char>, from: int, end: int)
    requires
        0 <= from <= end < text.len(),
        text[end] == '\n',
        forall|j: int| from <= j < end ==> text[j] != '\n',
    ensures
        gap_to_newline(text, from) == end - from,
    decreases end - from,
{
    if from < end {
        lemma_gap_exact(text, from + 1, end);
    }
}

/// The gap to the next newline does not depend on what stands before.
proof fn lemma_gap_shift(text: Seq<char>, k: int, from: int)
    requires
        0 <= k <= text.len(),
        0 <= from,
    ensures
        gap_to_newline(text, k + from) == gap_to_newline(text.skip(k), from),
    decreases text.len() - k - from,
{
    if k + from < text.len() {
        assert(text.skip(k)[from] == text[k + from]);
        if text[k + from] != '\n' {
            lemma_gap_shift(text, k, from + 1);
        }
    }
}

/// The lines from an offset on do not depend on what stands before.
proof fn lemma_lines_shift(text: Seq<char>, k: int, from: int)
    requires
        0 <= k <= text.len(),
        0 <= from,
    ensures
        lines_from(text, k + from) == lines_from(text.skip(k), from),
    decreases text.len() - k - from,
{
    let tail = text.skip(k);
    if k + from < text.len() {
        lemma_gap_shift(text, k, from);
        lemma_gap_to_newline(text, k + from);
        let gap = gap_to_newline(text, k + from) as int;
        if k + from + gap < text.len() {
            assert(text.subrange(k + from, k + from + gap) =~= tail.subrange(from, from + gap));
            lemma_lines_shift(text, k, from + gap + 1);
        } else {
            assert(text.subrange(k + from, text.len() as int) =~= tail.subrange(
                from,
                tail.len() as int,
            ));
        }
    }
}

/// What is saved is what is loaded again: the text of a buffer, cut into
/// lines, gives the lines of the buffer back, where each of them can be
/// held by a text as one line.
pub proof fn law_load_after_save(lines: Seq<Seq<char>>)
    requires
        forall|i: int| 0 <= i < lines.len() ==> storable(#[trigger] lines[i]),
    ensures
        lines_of(joined(lines)) == lines,
    decreases lines.len(),
{
    let text = joined(lines);
    if lines.len() == 0 {
        assert(terminated(lines) =~= Seq::<Seq<char>>::empty());
        assert(lines_of(text) =~= lines);
    } else {
        let first = lines[0];
        let rest = lines.drop_first();
        let n = first.len() as int;
        assert(storable(first));
        assert(terminated(lines).drop_first() =~= terminated(rest));
        assert(text == first.push('\n') + joined(rest));
        assert(text[n] == '\n');
        assert forall|j: int| 0 <= j < n implies text[j] != '\n' by {
            assert(text[j] == first[j]);
        }
        lemma_gap_exact(text, 0, n);
        assert(text.subrange(0, n) =~= first);
        assert(text.skip(n + 1) =~= joined(rest));
        lemma_lines_shift(text, n + 1, 0);
        assert forall|i: int| 0 <= i < rest.len() implies storable(#[trigger] rest[i]) by {
            assert(rest[i] == lines[i + 1]);
        }
        law_load_after_save(rest);
        assert(lines_of(text) =~= seq![first] + rest);
        assert(seq![first] + rest =~= lines);
    }
}

} // verus!
