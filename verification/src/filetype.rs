//! File types and the highlighting rules that go with them.

use crate::grapheme::{chars_of, unit_seqs};
use vstd::prelude::*;
use vstd::string::*;

verus! {

/// Which rules the highlighter applies, as plain values.
pub struct Rules {
    pub numbers: bool,
    pub strings: bool,
    pub characters: bool,
    pub comments: bool,
    pub multiline_comments: bool,
    pub primary_keywords: Seq<Seq<char>>,
    pub secondary_keywords: Seq<Seq<char>>,
}

/// The highlighting rules of a file type: which literals and comments are
/// recognised, and the two keyword lists.
pub struct HighlightingOptions {
    pub numbers: bool,
    pub strings: bool,
    pub characters: bool,
    pub comments: bool,
    pub multiline_comments: bool,
    pub primary_keywords: Vec<Vec<char>>,
    pub secondary_keywords: Vec<Vec<char>>,
}

impl View for HighlightingOptions {
    type V = Rules;

    open spec fn view(&self) -> Rules {
        Rules {
            numbers: self.numbers,
            strings: self.strings,
            characters: self.characters,
            comments: self.comments,
            multiline_comments: self.multiline_comments,
            primary_keywords: unit_seqs(self.primary_keywords@),
            secondary_keywords: unit_seqs(self.secondary_keywords@),
        }
    }
}

/// The rules that recognise nothing.
pub open spec fn no_rules() -> Rules {
    Rules {
        numbers: false,
        strings: false,
        characters: false,
        comments: false,
        multiline_comments: false,
        primary_keywords: Seq::empty(),
        secondary_keywords: Seq::empty(),
    }
}

impl HighlightingOptions {
    /// Rules that recognise nothing: every grapheme is plain.
    pub fn plain() -> (opts: HighlightingOptions)
        ensures
            opts@ == no_rules(),
    {
        let opts = HighlightingOptions {
            numbers: false,
            strings: false,
            characters: false,
            comments: false,
            multiline_comments: false,
            primary_keywords: Vec::new(),
            secondary_keywords: Vec::new(),
        };
        assert(opts@.primary_keywords =~= Seq::empty());
        assert(opts@.secondary_keywords =~= Seq::empty());
        opts
    }

    /// Adds a keyword to the primary list.
    pub fn add_primary_keyword(&mut self, word: &str)
        ensures
            final(self)@ == (Rules {
                primary_keywords: old(self)@.primary_keywords.push(word@),
                ..old(self)@
            }),
    {
        self.primary_keywords.push(chars_of(word));
        assert(self@.primary_keywords =~= old(self)@.primary_keywords.push(word@));
        assert(self@.secondary_keywords =~= old(self)@.secondary_keywords);
    }

    /// Adds a keyword to the secondary list.
    pub fn add_secondary_keyword(&mut self, word: &str)
        ensures
            final(self)@ == (Rules {
                secondary_keywords: old(self)@.secondary_keywords.push(word@),
                ..old(self)@
            }),
    {
        self.secondary_keywords.push(chars_of(word));
        assert(self@.secondary_keywords =~= old(self)@.secondary_keywords.push(word@));
        assert(self@.primary_keywords =~= old(self)@.primary_keywords);
    }
}

/// The keywords of Rust that are highlighted as primary.
pub open spec fn rust_primary_keywords() -> Seq<Seq<char>> {
    Seq::<Seq<char>>::empty()
        .push("as"@)
        .push("break"@)
        .push("const"@)
        .push("continue"@)
        .push("crate"@)
        .push("else"@)
        .push("enum"@)
        .push("extern"@)
        .push("false"@)
        .push("fn"@)
        .push("for"@)
        .push("if"@)
        .push("impl"@)
        .push("in"@)
        .push("let"@)
        .push("loop"@)
        .push("match"@)
        .push("mod"@)
        .push("move"@)
        .push("mut"@)
        .push("pub"@)
        .push("ref"@)
        .push("return"@)
        .push("self"@)
        .push("Self"@)
        .push("static"@)
        .push("struct"@)
        .push("super"@)
        .push("trait"@)
        .push("true"@)
        .push("type"@)
        .push("unsafe"@)
        .push("use"@)
        .push("where"@)
        .push("while"@)
        .push("dyn"@)
        .push("async"@)
        .push("await"@)
}

/// The names of Rust's built-in types, highlighted as secondary keywords.
pub open spec fn rust_secondary_keywords() -> Seq<Seq<char>> {
    Seq::<Seq<char>>::empty()
        .push("bool"@)
        .push("char"@)
        .push("i8"@)
        .push("i16"@)
        .push("i32"@)
        .push("i64"@)
        .push("i128"@)
        .push("isize"@)
        .push("u8"@)
        .push("u16"@)
        .push("u32"@)
        .push("u64"@)
        .push("u128"@)
        .push("usize"@)
        .push("f32"@)
        .push("f64"@)
        .push("str"@)
        .push("String"@)
}

/// The rules for Rust source files.
pub open spec fn rust_rules() -> Rules {
    Rules {
        numbers: true,
        strings: true,
        characters: true,
        comments: true,
        multiline_comments: true,
        primary_keywords: rust_primary_keywords(),
        secondary_keywords: rust_secondary_keywords(),
    }
}

/// A file name that ends in `.rs`.
pub open spec fn is_rust_file(name: Seq<char>) -> bool {
    let n = name.len() as int;
    n >= 3 && name[n - 3] == '.' && name[n - 2] == 'r' && name[n - 1] == 's'
}

/// The file type that goes with a file name.
pub open spec fn rules_for(name: Seq<char>) -> Rules {
    if is_rust_file(name) {
        rust_rules()
    } else {
        no_rules()
    }
}

/// The label of the file type that goes with a file name.
pub open spec fn label_for(name: Seq<char>) -> Seq<char> {
    if is_rust_file(name) {
        "Rust"@
    } else {
        "No filetype"@
    }
}

/// The rules for Rust source files.
fn rust_options() -> (opts: HighlightingOptions)
    ensures
        opts@ == rust_rules(),
{
    let mut opts = HighlightingOptions::plain();
    opts.numbers = true;
    opts.strings = true;
    opts.characters = true;
    opts.comments = true;
    opts.multiline_comments = true;
    opts.add_primary_keyword("as");
    opts.add_primary_keyword("break");
    opts.add_primary_keyword("const");
    opts.add_primary_keyword("continue");
    opts.add_primary_keyword("crate");
    opts.add_primary_keyword("else");
    opts.add_primary_keyword("enum");
    opts.add_primary_keyword("extern");
    opts.add_primary_keyword("false");
    opts.add_primary_keyword("fn");
    opts.add_primary_keyword("for");
    opts.add_primary_keyword("if");
    opts.add_primary_keyword("impl");
    opts.add_primary_keyword("in");
    opts.add_primary_keyword("let");
    opts.add_primary_keyword("loop");
    opts.add_primary_keyword("match");
    opts.add_primary_keyword("mod");
    opts.add_primary_keyword("move");
    opts.add_primary_keyword("mut");
    opts.add_primary_keyword("pub");
    opts.add_primary_keyword("ref");
    opts.add_primary_keyword("return");
    opts.add_primary_keyword("self");
    opts.add_primary_keyword("Self");
    opts.add_primary_keyword("static");
    opts.add_primary_keyword("struct");
    opts.add_primary_keyword("super");
    opts.add_primary_keyword("trait");
    opts.add_primary_keyword("true");
    opts.add_primary_keyword("type");
    opts.add_primary_keyword("unsafe");
    opts.add_primary_keyword("use");
    opts.add_primary_keyword("where");
    opts.add_primary_keyword("while");
    opts.add_primary_keyword("dyn");
    opts.add_primary_keyword("async");
    opts.add_primary_keyword("await");
    opts.add_secondary_keyword("bool");
    opts.add_secondary_keyword("char");
    opts.add_secondary_keyword("i8");
    opts.add_secondary_keyword("i16");
    opts.add_secondary_keyword("i32");
    opts.add_secondary_keyword("i64");
    opts.add_secondary_keyword("i128");
    opts.add_secondary_keyword("isize");
    opts.add_secondary_keyword("u8");
    opts.add_secondary_keyword("u16");
    opts.add_secondary_keyword("u32");
    opts.add_secondary_keyword("u64");
    opts.add_secondary_keyword("u128");
    opts.add_secondary_keyword("usize");
    opts.add_secondary_keyword("f32");
    opts.add_secondary_keyword("f64");
    opts.add_secondary_keyword("str");
    opts.add_secondary_keyword("String");
    opts
}

/// A file type: its label and its highlighting rules.
pub struct FileType {
    name: String,
    hl_opts: HighlightingOptions,
}

impl FileType {
    /// The label of the file type.
    pub closed spec fn label(&self) -> Seq<char> {
        self.name@
    }

    /// The highlighting rules of the file type.
    pub closed spec fn rules(&self) -> Rules {
        self.hl_opts@
    }

    /// The file type of a buffer without a recognised file name: no rule
    /// applies.
    pub fn default() -> (file_type: FileType)
        ensures
            file_type.label() == "No filetype"@,
            file_type.rules() == no_rules(),
    {
        FileType { name: String::from_str("No filetype"), hl_opts: HighlightingOptions::plain() }
    }

    /// A file type with the given label and rules.
    pub fn new(name: &str, hl_opts: HighlightingOptions) -> (file_type: FileType)
        ensures
            file_type.label() == name@,
            file_type.rules() == hl_opts@,
    {
        FileType { name: String::from_str(name), hl_opts }
    }

    /// The label of the file type.
    pub fn name(&self) -> (name: String)
        ensures
            name@ == self.label(),
    {
        self.name.clone()
    }

    /// The highlighting rules of the file type.
    pub fn highlighting_options(&self) -> (opts: &HighlightingOptions)
        ensures
            opts@ == self.rules(),
    {
        &self.hl_opts
    }

    /// The file type that goes with `file_name`: Rust for a name that ends
    /// in `.rs`, none otherwise.
    pub fn from(file_name: &str) -> (file_type: FileType)
        ensures
            file_type.label() == label_for(file_name@),
            file_type.rules() == rules_for(file_name@),
    {
        let name = chars_of(file_name);
        let n = name.len();
        if n >= 3 && name[n - 3] == '.' && name[n - 2] == 'r' && name[n - 1] == 's' {
            FileType { name: String::from_str("Rust"), hl_opts: rust_options() }
        } else {
            FileType::default()
        }
    }
}

} // verus!
