//! What the editor puts on the lines around the text: the status bar, the
//! welcome line, and the line on which a prompt is typed.

use crate::editor::Key;
use crate::grapheme::chars_of;
use vstd::prelude::*;
use vstd::string::*;

verus! {

/// A control code: a scalar value of the general category Cc.
pub open spec fn control(c: char) -> bool {
    c <= '\u{1f}' || '\u{7f}' <= c <= '\u{9f}'
}

/// Whether `c` is a control code.
pub fn is_control(c: char) -> (b: bool)
    ensures
        b == control(c),
{
    c <= '\u{1f}' || ('\u{7f}' <= c && c <= '\u{9f}')
}

/// `count` spaces.
pub open spec fn spaces(count: nat) -> Seq<char> {
    Seq::new(count, |i: int| ' ')
}

/// The first `width` scalar values of `text`, all of it where it is shorter.
pub open spec fn cut(text: Seq<char>, width: int) -> Seq<char> {
    if width <= 0 {
        Seq::empty()
    } else if width < text.len() {
        text.take(width)
    } else {
        text
    }
}

/// The status bar: `left` at the left and `right` pushed to the right edge of
/// a line `width` wide, by spaces between them; all of it cut to the width.
pub open spec fn status_text(left: Seq<char>, right: Seq<char>, width: int) -> Seq<char> {
    let gap = if width > left.len() + right.len() {
        (width - left.len() - right.len()) as nat
    } else {
        0
    };
    cut(left + spaces(gap) + right, width)
}

/// The welcome line: a tilde and the message, cut to the width of the text
/// area or to the length of the message, whichever is less.
pub open spec fn welcome_text(message: Seq<char>, width: int) -> Seq<char> {
    cut(seq!['~'] + message, if width < message.len() {
        width
    } else {
        message.len() as int
    })
}

/// The name shown for the buffer's file: the first twenty scalar values of
/// its name, or a stand-in where it has none.
pub open spec fn file_label_text(name: Option<Seq<char>>) -> Seq<char> {
    match name {
        Some(n) => cut(n, 20),
        None => "[No Name]"@,
    }
}

/// Appends the first `count` of `chars` to `dst`.
fn push_chars(dst: &mut String, chars: &Vec<char>, count: usize)
    requires
        count <= chars.len(),
    ensures
        final(dst)@ == old(dst)@ + chars@.take(count as int),
{
    let mut i: usize = 0;
    assert(chars@.take(0) =~= Seq::<char>::empty());
    while i < count
        invariant
            i <= count <= chars.len(),
            dst@ == old(dst)@ + chars@.take(i as int),
        decreases count - i,
    {
        dst.push(chars[i]);
        i += 1;
        assert(chars@.take(i as int) =~= chars@.take(i as int - 1).push(chars@[i as int - 1]));
    }
}

/// The first `width` scalar values of `text`.
pub fn truncated(text: &str, width: usize) -> (out: String)
    ensures
        out@ == cut(text@, width as int),
{
    let chars = chars_of(text);
    let count: usize = if width < chars.len() {
        width
    } else {
        chars.len()
    };
    let mut out = String::new();
    push_chars(&mut out, &chars, count);
    assert(chars@.take(chars.len() as int) =~= chars@);
    assert(out@ =~= cut(text@, width as int));
    out
}

/// The status bar of a line `width` wide, with `left` at its left and
/// `right` at its right edge.
pub fn status_line(left: &str, right: &str, width: usize) -> (out: String)
    ensures
        out@ == status_text(left@, right@, width as int),
        out@.len() <= width,
{
    let l = chars_of(left);
    let r = chars_of(right);
    let mut all: Vec<char> = Vec::new();
    let mut i: usize = 0;
    while i < l.len() && all.len() < width
        invariant
            i <= l.len(),
            all@ == l@.take(i as int),
            all.len() <= width,
        decreases l.len() - i,
    {
        all.push(l[i]);
        i += 1;
        assert(l@.take(i as int) =~= l@.take(i as int - 1).push(l@[i as int - 1]));
    }
    let ghost gap: nat = if width > l.len() + r.len() {
        (width - l.len() - r.len()) as nat
    } else {
        0
    };
    let ghost whole = l@ + spaces(gap) + r@;
    let mut out = String::new();
    if i < l.len() {
        push_chars(&mut out, &all, all.len());
        assert(all@.take(all.len() as int) =~= all@);
        assert(out@ =~= cut(whole, width as int));
        return out;
    }
    assert(l@.take(l.len() as int) =~= l@);
    let mut g: usize = 0;
    while all.len() < width && r.len() < width - all.len()
        invariant
            all@ == l@ + spaces(g as nat),
            all.len() <= width,
            g <= gap,
            l.len() + g == all.len(),
            r.len() + all.len() >= width ==> g == gap,
            gap == if width > l.len() + r.len() {
                (width - l.len() - r.len()) as nat
            } else {
                0
            },
        decreases width - all.len(),
    {
        all.push(' ');
        g += 1;
        assert(spaces(g as nat) =~= spaces((g - 1) as nat).push(' '));
        assert(all@ =~= l@ + spaces(g as nat));
    }
    assert(g == gap);
    let mut j: usize = 0;
    while j < r.len() && all.len() < width
        invariant
            j <= r.len(),
            all@ == l@ + spaces(gap) + r@.take(j as int),
            all.len() <= width,
        decreases r.len() - j,
    {
        all.push(r[j]);
        j += 1;
        assert(r@.take(j as int) =~= r@.take(j as int - 1).push(r@[j as int - 1]));
    }
    push_chars(&mut out, &all, all.len());
    assert(all@.take(all.len() as int) =~= all@);
    proof {
        if j == r.len() {
            assert(r@.take(j as int) =~= r@);
        } else {
            assert(all@ =~= whole.take(width as int));
        }
    }
    assert(out@ =~= cut(whole, width as int));
    out
}

/// The welcome line for a text area `width` wide.
pub fn welcome_line(message: &str, width: usize) -> (out: String)
    ensures
        out@ == welcome_text(message@, width as int),
{
    let chars = chars_of(message);
    let limit: usize = if width < chars.len() {
        width
    } else {
        chars.len()
    };
    let mut out = String::new();
    if limit == 0 {
        return out;
    }
    out.push('~');
    push_chars(&mut out, &chars, limit - 1);
    assert(out@ =~= (seq!['~'] + message@).take(limit as int));
    out
}

/// The name shown for the buffer's file.
pub fn file_label(name: &Option<String>) -> (out: String)
    ensures
        out@ == file_label_text(
            match *name {
                Some(n) => Some(n@),
                None => None,
            },
        ),
{
    match name {
        Some(n) => truncated(n.as_str(), 20),
        None => String::from_str("[No Name]"),
    }
}

/// How a prompt goes on after a key.
#[derive(Clone, Copy, PartialEq, Eq, Structural, Debug)]
pub enum PromptStep {
    /// The line is still being typed.
    Continue,
    /// The line was entered.
    Accept,
    /// The line was given up.
    Cancel,
}

/// The line of a prompt after `key`: backspace takes its last scalar value
/// away, escape all of it, a character other than a newline or a control
/// code is added at its end, and any other key leaves it as it is.
pub open spec fn prompt_text(line: Seq<char>, key: Key) -> Seq<char> {
    match key {
        Key::Backspace => if line.len() > 0 {
            line.drop_last()
        } else {
            line
        },
        Key::Char(c) => if c != '\n' && !control(c) {
            line.push(c)
        } else {
            line
        },
        Key::Esc => Seq::empty(),
        _ => line,
    }
}

/// How a prompt goes on after `key`: a newline enters the line, escape gives
/// it up, and any other key goes on.
pub open spec fn prompt_step(key: Key) -> PromptStep {
    match key {
        Key::Char(c) => if c == '\n' {
            PromptStep::Accept
        } else {
            PromptStep::Continue
        },
        Key::Esc => PromptStep::Cancel,
        _ => PromptStep::Continue,
    }
}

/// Takes one key into the line of a prompt.
pub fn prompt_key(line: &mut String, key: Key) -> (step: PromptStep)
    ensures
        final(line)@ == prompt_text(old(line)@, key),
        step == prompt_step(key),
{
    match key {
        Key::Backspace => {
            let chars = chars_of(line.as_str());
            if chars.len() > 0 {
                let mut shorter = String::new();
                push_chars(&mut shorter, &chars, chars.len() - 1);
                assert(chars@.take(chars.len() - 1) =~= chars@.drop_last());
                *line = shorter;
            }
            PromptStep::Continue
        },
        Key::Char(c) => {
            if c == '\n' {
                PromptStep::Accept
            } else {
                if !is_control(c) {
                    line.push(c);
                }
                PromptStep::Continue
            }
        },
        Key::Esc => {
            *line = String::new();
            PromptStep::Cancel
        },
        _ => PromptStep::Continue,
    }
}

/// What a prompt hands back: the line that was typed, or nothing where it is
/// empty.
pub fn prompt_result(line: String) -> (result: Option<String>)
    ensures
        line@.len() == 0 ==> result is None,
        line@.len() > 0 ==> result == Some(line),
{
    if line.as_str().unicode_len() == 0 {
        None
    } else {
        Some(line)
    }
}

} // verus!
