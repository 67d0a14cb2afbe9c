//! The cursor and viewport model, and the editor's reaction to keys.

use crate::document::{
    delete_lines, first_match, highlight_count, highlighted, insert_lines, no_match,
    one_match_per_line, Document,
};
use crate::grapheme::{chars_of, grapheme_clusters};
use crate::terminal::Size;
use crate::row::{alpha_start, render_text, word_end, word_units, Row};
use vstd::string::*;
use vstd::prelude::*;

verus! {

/// A place in the buffer, or on the screen: column `x` and line `y`, both
/// counted in graphemes from zero.
#[derive(Clone, Copy, PartialEq, Eq, Structural, Debug)]
pub struct Position {
    pub x: usize,
    pub y: usize,
}

impl Default for Position {
    fn default() -> (position: Position)
        ensures
            position == (Position { x: 0, y: 0 }),
    {
        Position { x: 0, y: 0 }
    }
}

/// The two modes of the editor.
#[derive(Clone, Copy, PartialEq, Eq, Structural, Debug)]
pub enum Mode {
    Normal,
    Insert,
}

/// A key event, as the editor tells keys apart.
#[derive(Clone, Copy, PartialEq, Eq, Structural, Debug)]
pub enum Key {
    Backspace,
    Left,
    Right,
    Up,
    Down,
    Home,
    End,
    PageUp,
    PageDown,
    Delete,
    Char(char),
    Esc,
    Other,
}

/// The number of graphemes of line `y`; zero where there is no such line.
pub open spec fn row_len(lines: Seq<Seq<char>>, y: int) -> nat {
    if 0 <= y < lines.len() {
        grapheme_clusters(lines[y]).len()
    } else {
        0
    }
}

/// The place nearest to `p` that a cursor may take: a line of the buffer or
/// the one just past the last, and a column within that line or just behind
/// its last grapheme.
pub open spec fn clamped(lines: Seq<Seq<char>>, p: Position) -> Position {
    let y = if p.y > lines.len() {
        lines.len() as usize
    } else {
        p.y
    };
    let x = if p.x > row_len(lines, y as int) {
        row_len(lines, y as int) as usize
    } else {
        p.x
    };
    Position { x, y }
}

/// Whether a cursor may stand at `p`.
pub open spec fn in_bounds(lines: Seq<Seq<char>>, p: Position) -> bool {
    p.y <= lines.len() && p.x <= row_len(lines, p.y as int)
}

/// Where `key` takes the cursor from `p`, before the result is brought back
/// into the buffer. `page` is the height of the text area.
pub open spec fn stepped(lines: Seq<Seq<char>>, p: Position, key: Key, page: usize) -> Position {
    match key {
        Key::Char(c) => if c == 'w' && p.y < lines.len() {
            let end = word_end(lines[p.y as int], p.x as int);
            if end > p.x {
                Position { x: end as usize, y: p.y }
            } else if p.y + 1 < lines.len() {
                Position { x: alpha_start(lines[p.y + 1], 0) as usize, y: (p.y + 1) as usize }
            } else {
                p
            }
        } else {
            p
        },
        Key::Up => Position { x: p.x, y: p.y.saturating_sub(1) },
        Key::Down => if p.y < lines.len() {
            Position { x: p.x, y: (p.y + 1) as usize }
        } else {
            p
        },
        Key::Left => Position { x: p.x.saturating_sub(1), y: p.y },
        Key::Backspace => if p.x > 0 {
            Position { x: (p.x - 1) as usize, y: p.y }
        } else if p.y > 0 {
            Position { x: row_len(lines, p.y - 1) as usize, y: (p.y - 1) as usize }
        } else {
            p
        },
        Key::Right => if p.x < row_len(lines, p.y as int) {
            Position { x: (p.x + 1) as usize, y: p.y }
        } else {
            p
        },
        Key::PageUp => Position { x: p.x, y: p.y.saturating_sub(page) },
        Key::PageDown => if p.y + page < lines.len() {
            Position { x: p.x, y: (p.y + page) as usize }
        } else {
            Position { x: p.x, y: lines.len() as usize }
        },
        Key::Home => Position { x: 0, y: p.y },
        Key::End => Position { x: row_len(lines, p.y as int) as usize, y: p.y },
        _ => p,
    }
}

/// Where `key` takes the cursor from `p`: the step, with the line brought
/// back into the buffer and the column into the line that was reached.
pub open spec fn moved(lines: Seq<Seq<char>>, p: Position, key: Key, page: usize) -> Position {
    clamped(lines, stepped(lines, p, key, page))
}

/// The offset of the viewport along one axis that keeps `cursor` visible:
/// the cursor itself where it lies before the offset; the least offset that
/// shows it where it lies at or beyond the offset plus the extent; else
/// the offset as it is.
pub open spec fn scrolled(offset: usize, cursor: usize, extent: usize) -> usize {
    if cursor < offset {
        cursor
    } else if cursor >= offset.saturating_add(extent) {
        cursor.saturating_sub(extent).saturating_add(1)
    } else {
        offset
    }
}

/// The viewport offset that keeps the cursor visible, both axes.
pub open spec fn scrolled_offset(offset: Position, cursor: Position, size: Size) -> Position {
    Position {
        x: scrolled(offset.x, cursor.x, size.width as usize),
        y: scrolled(offset.y, cursor.y, size.height as usize),
    }
}

/// The cursor lies within the viewport, in its line and in its column.
pub open spec fn visible(offset: Position, cursor: Position, size: Size) -> bool {
    &&& offset.y <= cursor.y < offset.y + size.height
    &&& offset.x <= cursor.x < offset.x + size.width
}

/// After scrolling, the cursor lies within the window along the axis, for
/// every offset and cursor, wherever the window has at least one cell.
pub proof fn law_scroll_keeps_cursor_visible(offset: usize, cursor: usize, extent: usize)
    requires
        extent >= 1,
    ensures
        scrolled(offset, cursor, extent) <= cursor < scrolled(offset, cursor, extent) + extent,
{
}

/// After scrolling, the cursor lies within the viewport, in its line and in
/// its column, wherever the viewport has at least one line and one column.
pub proof fn law_scroll_invariant(offset: Position, cursor: Position, size: Size)
    requires
        size.width >= 1,
        size.height >= 1,
    ensures
        visible(scrolled_offset(offset, cursor, size), cursor, size),
{
    law_scroll_keeps_cursor_visible(offset.x, cursor.x, size.width as usize);
    law_scroll_keeps_cursor_visible(offset.y, cursor.y, size.height as usize);
}

/// Scrolling again changes nothing.
pub proof fn law_scroll_settles(offset: usize, cursor: usize, extent: usize)
    requires
        extent >= 1,
    ensures
        scrolled(scrolled(offset, cursor, extent), cursor, extent) == scrolled(
            offset,
            cursor,
            extent,
        ),
{
}

/// A cursor brought back into the buffer stands within it, and one that
/// stood within it stays where it was.
pub proof fn law_clamped_in_bounds(lines: Seq<Seq<char>>, p: Position)
    requires
        lines.len() <= usize::MAX,
        forall|y: int| 0 <= y < lines.len() ==> row_len(lines, y) <= usize::MAX,
    ensures
        in_bounds(lines, clamped(lines, p)),
        in_bounds(lines, p) ==> clamped(lines, p) == p,
{
}

/// The offset along one axis that keeps `cursor` visible.
pub fn scroll_axis(offset: usize, cursor: usize, extent: usize) -> (new_offset: usize)
    ensures
        new_offset == scrolled(offset, cursor, extent),
{
    if cursor < offset {
        cursor
    } else if cursor >= offset.saturating_add(extent) {
        cursor.saturating_sub(extent).saturating_add(1)
    } else {
        offset
    }
}

/// The number of graphemes of line `y` of the buffer, zero where there is no
/// such line.
pub fn width_of(document: &Document, y: usize) -> (width: usize)
    ensures
        width == row_len(document.lines(), y as int),
{
    match document.row(y) {
        Some(row) => row.len(),
        None => 0,
    }
}

/// The place nearest to `p` that a cursor may take in the buffer.
pub fn clamp(document: &Document, p: Position) -> (q: Position)
    ensures
        q == clamped(document.lines(), p),
        in_bounds(document.lines(), q),
{
    let len = document.len();
    let y: usize = if p.y > len {
        len
    } else {
        p.y
    };
    let width = width_of(document, y);
    let x: usize = if p.x > width {
        width
    } else {
        p.x
    };
    Position { x, y }
}

/// Where `key` takes the cursor from `p` in the buffer. `page` is the height
/// of the text area, by which the page keys move.
pub fn move_position(document: &Document, p: Position, key: Key, page: usize) -> (q: Position)
    ensures
        q == moved(document.lines(), p, key, page),
        in_bounds(document.lines(), q),
{
    let Position { mut x, mut y } = p;
    let height: usize = document.len();
    let width: usize = width_of(document, y);
    match key {
        Key::Char(c) => {
            if c == 'w' {
                if let Some(row) = document.row(y) {
                    let end = row.peek_white(x);
                    if end > x {
                        x = end;
                    } else if let Some(next) = document.row(y + 1) {
                        x = next.peek_alpha(0);
                        y = y + 1;
                    }
                }
            }
        },
        Key::Up => {
            y = y.saturating_sub(1);
        },
        Key::Down => {
            if y < height {
                y = y + 1;
            }
        },
        Key::Left => {
            x = x.saturating_sub(1);
        },
        Key::Backspace => {
            if x > 0 {
                x = x - 1;
            } else if y > 0 {
                y = y - 1;
                x = width_of(document, y);
            }
        },
        Key::Right => {
            if x < width {
                x = x + 1;
            }
        },
        Key::PageUp => {
            y = y.saturating_sub(page);
        },
        Key::PageDown => {
            y = if y < height && page < height - y {
                y + page
            } else {
                height
            };
        },
        Key::Home => {
            x = 0;
        },
        Key::End => {
            x = width;
        },
        _ => {},
    }
    clamp(document, Position { x, y })
}

/// What the surroundings are asked to do after a key was handled.
#[derive(Clone, Copy, PartialEq, Eq, Structural, Debug)]
pub enum Request {
    /// Nothing: go on with the next key.
    Nothing,
    /// Read a command line and hand it to `process_command`.
    Command,
    /// Read a search query, handing each stage of it to `search_step` and
    /// its end to `search_done`.
    Search,
}

/// What a command line asks for.
#[derive(Clone, Copy, PartialEq, Eq, Structural, Debug)]
pub enum CommandOutcome {
    /// Write the buffer to its file.
    Save,
    /// Write the buffer to its file; the editor is quitting.
    SaveAndQuit,
    /// The editor is quitting.
    Quit,
    /// The buffer has unsaved changes, so the editor does not quit.
    Unsaved,
    /// The command is none of the known ones.
    Unrecognized,
}

/// How a search ended.
#[derive(Clone, Copy, PartialEq, Eq, Structural, Debug)]
pub enum SearchOutcome {
    /// The query was found; the cursor stands at its first place.
    Found,
    /// The query stands nowhere from the starting place on.
    NotFound,
    /// The search was given up; the cursor is back where it started.
    Cancelled,
}

/// What one line of the screen shows.
#[derive(Clone, Copy, PartialEq, Eq, Structural, Debug)]
pub enum ScreenLine {
    /// The line of the buffer with this index.
    Text(usize),
    /// The welcome message of an empty buffer.
    Welcome,
    /// The mark of a line beyond the buffer.
    Tilde,
}

/// What a command line asks for, given whether the buffer has unsaved
/// changes: `w` saves, `q` quits unless there are unsaved changes, `q!` quits,
/// `wq` saves and quits.
pub open spec fn outcome_of(command: Seq<char>, dirty: bool) -> CommandOutcome {
    if command == seq!['w'] {
        CommandOutcome::Save
    } else if command == seq!['q'] {
        if dirty {
            CommandOutcome::Unsaved
        } else {
            CommandOutcome::Quit
        }
    } else if command == seq!['q', '!'] {
        CommandOutcome::Quit
    } else if command == seq!['w', 'q'] {
        CommandOutcome::SaveAndQuit
    } else {
        CommandOutcome::Unrecognized
    }
}

/// Whether the editor quits on this outcome.
pub open spec fn quits(outcome: CommandOutcome) -> bool {
    outcome == CommandOutcome::Quit || outcome == CommandOutcome::SaveAndQuit
}

/// The last line of the buffer that the viewport can show.
pub open spec fn last_visible(offset: Position, size: Size) -> usize {
    offset.y.saturating_add(size.height as usize).saturating_sub(1)
}

/// What line `terminal_row` of the screen shows: the line of the buffer that
/// the viewport puts there; on the line one third down an empty buffer's
/// screen the welcome message; a tilde anywhere else.
pub open spec fn screen_line_of(v: EditorView, terminal_row: u16) -> ScreenLine {
    if terminal_row + v.offset.y < v.lines.len() {
        ScreenLine::Text((terminal_row + v.offset.y) as usize)
    } else if v.lines.len() == 0 && terminal_row == v.size.height / 3 {
        ScreenLine::Welcome
    } else {
        ScreenLine::Tilde
    }
}

/// The state of the editor: the buffer, where the cursor stands in it, which
/// part of it the viewport shows, and what the last search left behind.
pub struct Editor {
    pub should_quit: bool,
    pub size: Size,
    pub cursor_position: Position,
    pub offset: Position,
    pub document: Document,
    pub mode: Mode,
    pub search_results: Vec<Position>,
    pub highlighted_word: Option<String>,
}

/// The state of the editor as plain values.
pub struct EditorView {
    pub lines: Seq<Seq<char>>,
    pub dirty: bool,
    pub should_quit: bool,
    pub size: Size,
    pub cursor: Position,
    pub offset: Position,
    pub mode: Mode,
    pub search_results: Seq<Position>,
    pub highlighted_word: Option<Seq<char>>,
}

impl View for Editor {
    type V = EditorView;

    open spec fn view(&self) -> EditorView {
        EditorView {
            lines: self.document.lines(),
            dirty: self.document.dirty(),
            should_quit: self.should_quit,
            size: self.size,
            cursor: self.cursor_position,
            offset: self.offset,
            mode: self.mode,
            search_results: self.search_results@,
            highlighted_word: match self.highlighted_word {
                Some(w) => Some(w@),
                None => None,
            },
        }
    }
}

/// The first of `results`, from index `i` on, that lies below line `y`.
pub open spec fn first_below(results: Seq<Position>, y: usize, i: int) -> Option<Position>
    decreases results.len() - i,
{
    if i < 0 || i >= results.len() {
        None
    } else if results[i].y > y {
        Some(results[i])
    } else {
        first_below(results, y, i + 1)
    }
}

/// The last of the first `i` of `results` that lies above line `y`.
pub open spec fn last_above(results: Seq<Position>, y: usize, i: int) -> Option<Position>
    decreases i,
{
    if i <= 0 || i > results.len() {
        None
    } else if results[i - 1].y < y {
        Some(results[i - 1])
    } else {
        last_above(results, y, i - 1)
    }
}

/// The state after the cursor was moved by `key`.
pub open spec fn after_move(v: EditorView, key: Key) -> EditorView {
    EditorView { cursor: moved(v.lines, v.cursor, key, v.size.height as usize), ..v }
}

/// The state after the viewport was made to show the cursor.
pub open spec fn after_scroll(v: EditorView) -> EditorView {
    EditorView { offset: scrolled_offset(v.offset, v.cursor, v.size), ..v }
}

/// The state after `c` was typed at the cursor. An insertion beyond the line
/// just past the last one changes nothing in the buffer.
pub open spec fn after_typing(v: EditorView, c: char) -> EditorView {
    EditorView {
        lines: insert_lines(v.lines, v.cursor.x as int, v.cursor.y as int, c),
        dirty: v.dirty || v.cursor.y <= v.lines.len(),
        ..v
    }
}

/// The state after a deletion at the cursor, the cursor brought back into
/// the buffer.
pub open spec fn after_deleting(v: EditorView) -> EditorView {
    let lines = delete_lines(v.lines, v.cursor.x as int, v.cursor.y as int);
    EditorView {
        lines,
        dirty: v.dirty || v.cursor.y < v.lines.len(),
        cursor: clamped(lines, v.cursor),
        ..v
    }
}

/// The state after the character `c` was typed in insert mode: it goes into
/// the buffer, and the cursor moves on, down for a newline and right for
/// anything else.
pub open spec fn after_insert_key(v: EditorView, c: char) -> EditorView {
    after_move(
        after_typing(v, c),
        if c == '\n' {
            Key::Down
        } else {
            Key::Right
        },
    )
}

/// The state after the cursor jumped to `target`, if there is one.
pub open spec fn after_jump(v: EditorView, target: Option<Position>) -> EditorView {
    match target {
        Some(p) => EditorView { cursor: clamped(v.lines, p), ..v },
        None => v,
    }
}

/// The state after the character `c` was typed in normal mode.
pub open spec fn after_normal_key(v: EditorView, c: char) -> EditorView {
    if c == 'a' {
        EditorView { mode: Mode::Insert, ..after_move(v, Key::Right) }
    } else if c == 'i' {
        EditorView { mode: Mode::Insert, ..v }
    } else if c == 'j' {
        after_move(v, Key::Down)
    } else if c == 'k' {
        after_move(v, Key::Up)
    } else if c == 'h' {
        after_move(v, Key::Left)
    } else if c == 'l' {
        after_move(v, Key::Right)
    } else if c == 'w' {
        after_move(v, Key::Char('w'))
    } else if c == 'o' {
        let below = after_typing(after_move(v, Key::Down), '\n');
        EditorView { mode: Mode::Insert, cursor: clamped(below.lines, below.cursor), ..below }
    } else if c == 'n' {
        after_jump(v, first_below(v.search_results, v.cursor.y, 0))
    } else if c == 'N' {
        after_jump(v, last_above(v.search_results, v.cursor.y, v.search_results.len() as int))
    } else {
        v
    }
}

/// What typing `c` in normal mode asks the surroundings to do.
pub open spec fn request_of(mode: Mode, key: Key) -> Request {
    match key {
        Key::Char(c) => if mode == Mode::Normal && c == ':' {
            Request::Command
        } else if mode == Mode::Normal && c == '/' {
            Request::Search
        } else {
            Request::Nothing
        },
        _ => Request::Nothing,
    }
}

/// The line at which handling `key` edits the buffer, if it edits it at all:
/// the cursor's line for a character typed in insert mode and for a
/// deletion, the line that the cursor reaches first where it moves before
/// the edit.
pub open spec fn edited_line(v: EditorView, key: Key) -> Option<usize> {
    let page = v.size.height as usize;
    match key {
        Key::Char(c) => if v.mode == Mode::Insert {
            if v.cursor.y <= v.lines.len() {
                Some(v.cursor.y)
            } else {
                None
            }
        } else if c == 'o' {
            Some(moved(v.lines, v.cursor, Key::Down, page).y)
        } else {
            None
        },
        Key::Delete => if v.cursor.y < v.lines.len() {
            Some(v.cursor.y)
        } else {
            None
        },
        Key::Backspace => if (v.cursor.x > 0 || v.cursor.y > 0) && moved(
            v.lines,
            v.cursor,
            Key::Backspace,
            page,
        ).y < v.lines.len() {
            Some(moved(v.lines, v.cursor, Key::Backspace, page).y)
        } else {
            None
        },
        _ => None,
    }
}

/// The highlighting of every line of the buffer from the one before line `y`
/// on is stale, and the lines before those are as they were in `before`.
pub open spec fn stale_from(before: Document, after: Document, y: int) -> bool {
    &&& forall|i: int|
        0 <= i < after.rows_view().len() && i >= y - 1
            ==> !(#[trigger] after.rows_view()[i]).fresh()
    &&& forall|i: int| 0 <= i < y - 1 ==> after.rows_view()[i] == before.rows_view()[i]
}

/// What handling `key` does to the buffer beyond its text: where the key
/// edits it, the highlighting from the line before the edit on is stale;
/// where it does not, the buffer is as it was.
pub open spec fn buffer_kept_or_stale(before: Editor, after: Editor, key: Key) -> bool {
    match edited_line(before@, key) {
        Some(y) => stale_from(before.document, after.document, y as int),
        None => after.document == before.document,
    }
}

/// The state after `key` was handled, the viewport not yet adjusted.
pub open spec fn after_key_unscrolled(v: EditorView, key: Key) -> EditorView {
    match key {
        Key::Esc => EditorView { mode: Mode::Normal, ..v },
        Key::Char(c) => if v.mode == Mode::Insert {
            after_insert_key(v, c)
        } else {
            after_normal_key(v, c)
        },
        Key::Delete => after_deleting(v),
        Key::Backspace => if v.cursor.x > 0 || v.cursor.y > 0 {
            after_deleting(after_move(v, Key::Backspace))
        } else {
            v
        },
        Key::Up | Key::Down | Key::Left | Key::Right | Key::PageUp | Key::PageDown | Key::End
        | Key::Home => after_move(v, key),
        Key::Other => v,
    }
}

/// The state after `key` was handled: the key takes effect, then the
/// viewport is made to show the cursor.
pub open spec fn after_key(v: EditorView, key: Key) -> EditorView {
    after_scroll(after_key_unscrolled(v, key))
}

impl Editor {
    /// An editor on `document` with a text area of `size`: cursor and
    /// viewport at the top left, normal mode, no search.
    pub fn new(document: Document, size: Size) -> (editor: Editor)
        ensures
            editor.document == document,
            editor.size == size,
            editor.cursor_position == (Position { x: 0, y: 0 }),
            editor.offset == (Position { x: 0, y: 0 }),
            editor.mode == Mode::Normal,
            !editor.should_quit,
            editor.search_results@.len() == 0,
            editor.highlighted_word is None,
    {
        Editor {
            should_quit: false,
            size,
            cursor_position: Position { x: 0, y: 0 },
            offset: Position { x: 0, y: 0 },
            document,
            mode: Mode::Normal,
            search_results: Vec::new(),
            highlighted_word: None,
        }
    }

    /// Adjusts the viewport offset so that the cursor is visible.
    pub fn scroll(&mut self)
        ensures
            final(self)@ == after_scroll(old(self)@),
            old(self).size.width >= 1 && old(self).size.height >= 1 ==> visible(
                final(self).offset,
                final(self).cursor_position,
                final(self).size,
            ),
            final(self).document == old(self).document,
            final(self).search_results == old(self).search_results,
            final(self).highlighted_word == old(self).highlighted_word,
    {
        let Position { x, y } = self.cursor_position;
        let width: usize = self.size.width as usize;
        let height: usize = self.size.height as usize;
        self.offset = Position {
            x: scroll_axis(self.offset.x, x, width),
            y: scroll_axis(self.offset.y, y, height),
        };
    }

    /// Moves the cursor as `key` says. The cursor stands within the buffer
    /// afterwards.
    pub fn move_cursor(&mut self, key: Key)
        ensures
            final(self)@ == after_move(old(self)@, key),
            in_bounds(final(self)@.lines, final(self)@.cursor),
            final(self).document == old(self).document,
            final(self).search_results == old(self).search_results,
            final(self).highlighted_word == old(self).highlighted_word,
    {
        self.cursor_position =
        move_position(&self.document, self.cursor_position, key, self.size.height as usize);
    }

    /// Handles the character `c` typed in insert mode.
    pub fn process_insert_keypress(&mut self, c: char)
        ensures
            final(self)@ == after_insert_key(old(self)@, c),
            old(self).cursor_position.y <= old(self)@.lines.len() ==> stale_from(
                old(self).document,
                final(self).document,
                old(self).cursor_position.y as int,
            ),
            old(self).cursor_position.y > old(self)@.lines.len()
                ==> final(self).document == old(self).document,
            in_bounds(final(self)@.lines, final(self)@.cursor),
            final(self).document.file() == old(self).document.file(),
            final(self).document.type_label() == old(self).document.type_label(),
            final(self).document.rules() == old(self).document.rules(),
            final(self).search_results == old(self).search_results,
            final(self).highlighted_word == old(self).highlighted_word,
    {
        let at = self.cursor_position;
        self.document.insert(&at, c);
        if c == '\n' {
            self.move_cursor(Key::Down);
        } else {
            self.move_cursor(Key::Right);
        }
    }

    /// Handles the character `c` typed in normal mode. Returns what is left
    /// for the surroundings to do: to read a command line after `:`, a
    /// search query after `/`.
    pub fn process_normal_keypress(&mut self, c: char) -> (request: Request)
        ensures
            final(self)@ == after_normal_key(old(self)@, c),
            c == 'o' ==> stale_from(
                old(self).document,
                final(self).document,
                moved(
                    old(self)@.lines,
                    old(self)@.cursor,
                    Key::Down,
                    old(self).size.height as usize,
                ).y as int,
            ),
            c != 'o' ==> final(self).document == old(self).document,
            request == request_of(Mode::Normal, Key::Char(c)),
            in_bounds(old(self)@.lines, old(self)@.cursor) ==> in_bounds(
                final(self)@.lines,
                final(self)@.cursor,
            ),
            final(self).document.file() == old(self).document.file(),
            final(self).document.type_label() == old(self).document.type_label(),
            final(self).document.rules() == old(self).document.rules(),
            final(self).search_results == old(self).search_results,
            final(self).highlighted_word == old(self).highlighted_word,
    {
        if c == 'a' {
            self.move_cursor(Key::Right);
            self.mode = Mode::Insert;
        } else if c == 'i' {
            self.mode = Mode::Insert;
        } else if c == 'j' {
            self.move_cursor(Key::Down);
        } else if c == 'k' {
            self.move_cursor(Key::Up);
        } else if c == 'h' {
            self.move_cursor(Key::Left);
        } else if c == 'l' {
            self.move_cursor(Key::Right);
        } else if c == 'w' {
            self.move_cursor(Key::Char('w'));
        } else if c == 'o' {
            self.move_cursor(Key::Down);
            let at = self.cursor_position;
            self.document.insert(&at, '\n');
            self.cursor_position = clamp(&self.document, self.cursor_position);
            self.mode = Mode::Insert;
        } else if c == 'n' {
            let target = self.next_result();
            self.jump(target);
        } else if c == 'N' {
            let target = self.previous_result();
            self.jump(target);
        } else if c == ':' {
            return Request::Command;
        } else if c == '/' {
            return Request::Search;
        }
        Request::Nothing
    }

    /// Puts the cursor at `target`, brought back into the buffer; leaves it
    /// where there is no target.
    fn jump(&mut self, target: Option<Position>)
        ensures
            final(self)@ == after_jump(old(self)@, target),
            target is Some ==> in_bounds(final(self)@.lines, final(self)@.cursor),
            final(self).document == old(self).document,
            final(self).search_results == old(self).search_results,
            final(self).highlighted_word == old(self).highlighted_word,
    {
        if let Some(p) = target {
            self.cursor_position = clamp(&self.document, p);
        }
    }

    /// The first search result below the cursor's line.
    fn next_result(&self) -> (target: Option<Position>)
        ensures
            target == first_below(self.search_results@, self.cursor_position.y, 0),
    {
        let mut i: usize = 0;
        while i < self.search_results.len()
            invariant
                i <= self.search_results@.len(),
                first_below(self.search_results@, self.cursor_position.y, 0) == first_below(
                    self.search_results@,
                    self.cursor_position.y,
                    i as int,
                ),
            decreases self.search_results.len() - i,
        {
            if self.search_results[i].y > self.cursor_position.y {
                return Some(self.search_results[i]);
            }
            i += 1;
        }
        None
    }

    /// The last search result above the cursor's line.
    fn previous_result(&self) -> (target: Option<Position>)
        ensures
            target == last_above(
                self.search_results@,
                self.cursor_position.y,
                self.search_results@.len() as int,
            ),
    {
        let mut i: usize = self.search_results.len();
        while i > 0
            invariant
                i <= self.search_results@.len(),
                last_above(
                    self.search_results@,
                    self.cursor_position.y,
                    self.search_results@.len() as int,
                ) == last_above(self.search_results@, self.cursor_position.y, i as int),
            decreases i,
        {
            if self.search_results[i - 1].y < self.cursor_position.y {
                return Some(self.search_results[i - 1]);
            }
            i -= 1;
        }
        None
    }

    /// Deletes at the cursor and brings the cursor back into the buffer.
    fn delete_at_cursor(&mut self)
        ensures
            final(self)@ == after_deleting(old(self)@),
            old(self).cursor_position.y < old(self)@.lines.len() ==> stale_from(
                old(self).document,
                final(self).document,
                old(self).cursor_position.y as int,
            ),
            old(self).cursor_position.y >= old(self)@.lines.len()
                ==> final(self).document == old(self).document,
            in_bounds(final(self)@.lines, final(self)@.cursor),
            final(self).document.file() == old(self).document.file(),
            final(self).document.type_label() == old(self).document.type_label(),
            final(self).document.rules() == old(self).document.rules(),
            final(self).search_results == old(self).search_results,
            final(self).highlighted_word == old(self).highlighted_word,
    {
        let at = self.cursor_position;
        self.document.delete(&at);
        self.cursor_position = clamp(&self.document, self.cursor_position);
    }

    /// Handles one key: the key takes effect on the mode, the buffer and
    /// the cursor, then the viewport is made to show the cursor. Returns
    /// what is left for the surroundings to do.
    pub fn process_keypress(&mut self, key: Key) -> (request: Request)
        ensures
            final(self)@ == after_key(old(self)@, key),
            buffer_kept_or_stale(*old(self), *final(self), key),
            old(self).size.width >= 1 && old(self).size.height >= 1 ==> visible(
                final(self).offset,
                final(self).cursor_position,
                final(self).size,
            ),
            request == request_of(old(self).mode, key),
            in_bounds(old(self)@.lines, old(self)@.cursor) ==> in_bounds(
                final(self)@.lines,
                final(self)@.cursor,
            ),
            final(self).document.file() == old(self).document.file(),
            final(self).document.type_label() == old(self).document.type_label(),
            final(self).document.rules() == old(self).document.rules(),
            final(self).search_results == old(self).search_results,
            final(self).highlighted_word == old(self).highlighted_word,
    {
        let mut request = Request::Nothing;
        match key {
            Key::Esc => {
                self.mode = Mode::Normal;
            },
            Key::Char(c) => {
                if self.mode == Mode::Insert {
                    self.process_insert_keypress(c);
                } else {
                    request = self.process_normal_keypress(c);
                }
            },
            Key::Delete => {
                self.delete_at_cursor();
            },
            Key::Backspace => {
                if self.cursor_position.x > 0 || self.cursor_position.y > 0 {
                    self.move_cursor(Key::Backspace);
                    self.delete_at_cursor();
                }
            },
            Key::Up | Key::Down | Key::Left | Key::Right | Key::PageUp | Key::PageDown | Key::End
            | Key::Home => {
                self.move_cursor(key);
            },
            Key::Other => {},
        }
        self.scroll();
        request
    }
    /// Carries out the command line `command`, then makes the viewport show
    /// the cursor. Returns what the command asks for; writing the buffer
    /// to its file is left to the surroundings.
    pub fn process_command(&mut self, command: &str) -> (outcome: CommandOutcome)
        ensures
            outcome == outcome_of(command@, old(self)@.dirty),
            final(self)@ == after_scroll(
                EditorView {
                    should_quit: old(self)@.should_quit || quits(outcome),
                    ..old(self)@
                },
            ),
            final(self).document == old(self).document,
            final(self).search_results == old(self).search_results,
            final(self).highlighted_word == old(self).highlighted_word,
    {
        let text = chars_of(command);
        let n = text.len();
        let outcome = if n == 1 && text[0] == 'w' {
            assert(text@ =~= seq!['w']);
            CommandOutcome::Save
        } else if n == 1 && text[0] == 'q' {
            assert(text@ =~= seq!['q']);
            if self.document.is_dirty() {
                CommandOutcome::Unsaved
            } else {
                CommandOutcome::Quit
            }
        } else if n == 2 && text[0] == 'q' && text[1] == '!' {
            assert(text@ =~= seq!['q', '!']);
            CommandOutcome::Quit
        } else if n == 2 && text[0] == 'w' && text[1] == 'q' {
            assert(text@ =~= seq!['w', 'q']);
            CommandOutcome::SaveAndQuit
        } else {
            proof {
                let w = seq!['w'];
                let q = seq!['q'];
                let qb = seq!['q', '!'];
                let wq = seq!['w', 'q'];
                assert(w.len() == 1 && w[0] == 'w');
                assert(q.len() == 1 && q[0] == 'q');
                assert(qb.len() == 2 && qb[0] == 'q' && qb[1] == '!');
                assert(wq.len() == 2 && wq[0] == 'w' && wq[1] == 'q');
            }
            CommandOutcome::Unrecognized
        };
        match outcome {
            CommandOutcome::Quit | CommandOutcome::SaveAndQuit => {
                self.should_quit = true;
            },
            _ => {},
        }
        self.scroll();
        outcome
    }

    /// One stage of an incremental search: `query` is what was typed so far.
    /// Where it is found at or after the cursor, the cursor goes to its
    /// first place and the viewport follows. The query becomes the
    /// highlighted word.
    pub fn search_step(&mut self, query: &str)
        ensures
            final(self).highlighted_word is Some,
            final(self).highlighted_word->0@ == query@,
            final(self).document == old(self).document,
            final(self).search_results == old(self).search_results,
            final(self).mode == old(self).mode,
            final(self).should_quit == old(self).should_quit,
            final(self).size == old(self).size,
            no_match(old(self)@.lines, query@, old(self)@.cursor) ==> final(self).cursor_position
                == old(self).cursor_position && final(self).offset == old(self).offset,
            !no_match(old(self)@.lines, query@, old(self)@.cursor) ==> first_match(
                old(self)@.lines,
                query@,
                old(self)@.cursor,
                final(self).cursor_position,
            ) && final(self).offset == scrolled_offset(
                old(self).offset,
                final(self).cursor_position,
                old(self).size,
            ),
    {
        let from = self.cursor_position;
        if let Some(position) = self.document.find(query, &from) {
            self.cursor_position = position;
            self.scroll();
        }
        self.highlighted_word = Some(String::from_str(query));
    }

    /// The end of a search that started with the cursor at `old_position`.
    /// With a query: where it is found at or after `old_position`, the
    /// cursor goes to its first place and the search results are the first
    /// place on each line; where it is not found, nothing moves. Without
    /// one, the cursor goes back to `old_position`. No word is highlighted
    /// afterwards, and the viewport shows the cursor.
    pub fn search_done(&mut self, query: Option<&str>, old_position: Position) -> (outcome:
        SearchOutcome)
        ensures
            final(self).highlighted_word is None,
            final(self).document == old(self).document,
            final(self).mode == old(self).mode,
            final(self).should_quit == old(self).should_quit,
            final(self).size == old(self).size,
            final(self).offset == scrolled_offset(
                old(self).offset,
                final(self).cursor_position,
                old(self).size,
            ),
            query is None ==> outcome == SearchOutcome::Cancelled,
            query is Some ==> outcome != SearchOutcome::Cancelled,
            query is Some ==> (outcome == SearchOutcome::NotFound <==> no_match(
                old(self)@.lines,
                query->0@,
                old_position,
            )),
            outcome == SearchOutcome::Cancelled ==> final(self).cursor_position == old_position
                && final(self).search_results == old(self).search_results,
            outcome == SearchOutcome::NotFound ==> final(self).cursor_position
                == old(self).cursor_position,
            outcome == SearchOutcome::NotFound ==> final(self).search_results
                == old(self).search_results,
            outcome == SearchOutcome::Found ==> first_match(
                old(self)@.lines,
                query->0@,
                old_position,
                final(self).cursor_position,
            ) && one_match_per_line(old(self)@.lines, query->0@, final(self).search_results@),
    {
        let outcome = match query {
            Some(query) => {
                if let Some(position) = self.document.find(query, &old_position) {
                    self.cursor_position = position;
                    self.search_results = self.document.find_all(query);
                    SearchOutcome::Found
                } else {
                    SearchOutcome::NotFound
                }
            },
            None => {
                self.cursor_position = old_position;
                SearchOutcome::Cancelled
            },
        };
        self.highlighted_word = None;
        self.scroll();
        outcome
    }

    /// Highlights the buffer for the next frame: the lines from the first
    /// one to the last one that the viewport can show.
    pub fn refresh_highlighting(&mut self)
        ensures
            final(self)@ == old(self)@,
            final(self).search_results == old(self).search_results,
            final(self).highlighted_word == old(self).highlighted_word,
            highlighted(
                old(self).document,
                final(self).document,
                word_units(old(self).highlighted_word),
                highlight_count(
                    old(self).document.rows_view().len() as int,
                    Some(last_visible(old(self).offset, old(self).size)),
                ),
            ),
    {
        let until = self.offset.y.saturating_add(self.size.height as usize).saturating_sub(1);
        self.document.highlight(&self.highlighted_word, Some(until));
    }

    /// Where the cursor stands on the screen: its place in the buffer, less
    /// the viewport's offset.
    pub fn screen_position(&self) -> (p: Position)
        ensures
            p.x == self.cursor_position.x.saturating_sub(self.offset.x),
            p.y == self.cursor_position.y.saturating_sub(self.offset.y),
    {
        Position {
            x: self.cursor_position.x.saturating_sub(self.offset.x),
            y: self.cursor_position.y.saturating_sub(self.offset.y),
        }
    }

    /// What line `terminal_row` of the screen shows.
    pub fn screen_line(&self, terminal_row: u16) -> (line: ScreenLine)
        ensures
            line == screen_line_of(self@, terminal_row),
    {
        let len = self.document.len();
        let row: usize = terminal_row as usize;
        if self.offset.y < len && row < len - self.offset.y {
            ScreenLine::Text(row + self.offset.y)
        } else if len == 0 && terminal_row == self.size.height / 3 {
            ScreenLine::Welcome
        } else {
            ScreenLine::Tilde
        }
    }

    /// The part of `row` that the viewport shows: its graphemes from the
    /// viewport's first column on, as many as the viewport is wide.
    pub fn draw_row(&self, row: &Row) -> (text: String)
        ensures
            text@ == render_text(
                row.text(),
                self.offset.x as int,
                self.offset.x.saturating_add(self.size.width as usize) as int,
            ),
    {
        let width: usize = self.size.width as usize;
        let start: usize = self.offset.x;
        let end: usize = self.offset.x.saturating_add(width);
        row.render(start, end)
    }
}

} // verus!
