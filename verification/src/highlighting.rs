//! The semantic classes a grapheme can be painted as.

use vstd::prelude::*;

verus! {

/// The class the highlighter assigns to one grapheme.
#[derive(PartialEq, Eq, Structural, Clone, Copy, Debug)]
pub enum Type {
    Plain,
    Number,
    Match,
    Str,
    Character,
    Comment,
    MultilineComment,
    PrimaryKeywords,
    SecondaryKeywords,
}

/// A 24-bit colour.
#[derive(PartialEq, Eq, Structural, Clone, Copy, Debug)]
pub struct Rgb {
    pub r: u8,
    pub g: u8,
    pub b: u8,
}

impl Type {
    /// The foreground colour of each class.
    pub open spec fn color(self) -> Rgb {
        match self {
            Type::Number => Rgb { r: 177, g: 98, b: 134 },
            Type::Match => Rgb { r: 38, g: 139, b: 210 },
            Type::Str => Rgb { r: 152, g: 151, b: 26 },
            Type::Character => Rgb { r: 177, g: 98, b: 134 },
            Type::Comment | Type::MultilineComment => Rgb { r: 146, g: 131, b: 116 },
            Type::PrimaryKeywords => Rgb { r: 251, g: 73, b: 52 },
            Type::SecondaryKeywords => Rgb { r: 215, g: 153, b: 33 },
            Type::Plain => Rgb { r: 255, g: 255, b: 255 },
        }
    }

    /// The colour this class is painted in.
    pub fn to_color(self) -> (rgb: Rgb)
        ensures
            rgb == self.color(),
    {
        match self {
            Type::Number => Rgb { r: 177, g: 98, b: 134 },
            Type::Match => Rgb { r: 38, g: 139, b: 210 },
            Type::Str => Rgb { r: 152, g: 151, b: 26 },
            Type::Character => Rgb { r: 177, g: 98, b: 134 },
            Type::Comment | Type::MultilineComment => Rgb { r: 146, g: 131, b: 116 },
            Type::PrimaryKeywords => Rgb { r: 251, g: 73, b: 52 },
            Type::SecondaryKeywords => Rgb { r: 215, g: 153, b: 33 },
            Type::Plain => Rgb { r: 255, g: 255, b: 255 },
        }
    }
}

} // verus!
