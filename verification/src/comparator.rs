//! The comparison that an atom asks for, read off its first two characters.

use vstd::prelude::*;
use vstd::string::*;

verus! {

/// How an atom's version is held against the versions of a package.
#[derive(Clone, Copy, Debug, PartialEq, Eq, Structural)]
pub enum VersionComparison {
    /// `!!`: a hard block.
    VeryNot,
    /// `!`: a block.
    Not,
    /// `<`
    LessThan,
    /// `<=`
    LessThanOrEqual,
    /// `=`
    ExactlyEqual,
    /// `~`: equal but for the revision.
    Equal,
    /// `>=`
    GreaterThanOrEqual,
    /// `>`
    GreaterThan,
    /// No operator: the atom starts with its category.
    Any,
}

/// Whether `c` is a letter in the sense of `char::is_alphabetic` of std:
/// the letters of every script that Unicode knows, not only `a` to `z`.
/// Which characters those are is not written down here.
pub uninterp spec fn alphabetic(c: char) -> bool;

/// `char::is_alphabetic` of std, taken on trust. All that is claimed of it
/// is that its answer depends on the character alone: the answer for `c` is
/// [`alphabetic`]`(c)`. Nothing is claimed of which characters are letters.
pub assume_specification[ char::is_alphabetic ](c: char) -> (r: bool)
    ensures
        r == alphabetic(c),
;

impl VersionComparison {
    /// The number of characters that the operator takes at the front of an
    /// atom.
    pub open spec fn width(self) -> int {
        match self {
            VersionComparison::VeryNot => 2,
            VersionComparison::LessThanOrEqual => 2,
            VersionComparison::GreaterThanOrEqual => 2,
            VersionComparison::Any => 0,
            _ => 1,
        }
    }

    /// The comparison that text asks for which starts with `first` and
    /// `second`, given whether each of the two is a letter. `None` says that
    /// no atom starts this way.
    ///
    /// An operator of one character must be followed by a letter; `!` may
    /// be doubled, and `<` and `>` may be followed by `=`. Text without an
    /// operator must start with a letter.
    pub open spec fn table(
        first: char,
        second: char,
        first_is_letter: bool,
        second_is_letter: bool,
    ) -> Option<VersionComparison> {
        if first == '!' {
            if second == '!' {
                Some(VersionComparison::VeryNot)
            } else if second_is_letter {
                Some(VersionComparison::Not)
            } else {
                None
            }
        } else if first == '<' {
            if second == '=' {
                Some(VersionComparison::LessThanOrEqual)
            } else if second_is_letter {
                Some(VersionComparison::LessThan)
            } else {
                None
            }
        } else if first == '=' {
            if second_is_letter {
                Some(VersionComparison::ExactlyEqual)
            } else {
                None
            }
        } else if first == '~' {
            if second_is_letter {
                Some(VersionComparison::Equal)
            } else {
                None
            }
        } else if first == '>' {
            if second == '=' {
                Some(VersionComparison::GreaterThanOrEqual)
            } else if second_is_letter {
                Some(VersionComparison::GreaterThan)
            } else {
                None
            }
        } else if first_is_letter {
            Some(VersionComparison::Any)
        } else {
            None
        }
    }

    /// The comparison that `text` asks for. Text of fewer than two
    /// characters asks for none.
    pub open spec fn recognize(text: Seq<char>) -> Option<VersionComparison> {
        if text.len() < 2 {
            None
        } else {
            Self::table(text[0], text[1], alphabetic(text[0]), alphabetic(text[1]))
        }
    }

    /// The number of characters that the operator takes at the front of an
    /// atom.
    pub fn prefix_len(&self) -> (r: usize)
        ensures
            r == self.width(),
    {
        match self {
            VersionComparison::VeryNot => 2,
            VersionComparison::LessThanOrEqual => 2,
            VersionComparison::GreaterThanOrEqual => 2,
            VersionComparison::Any => 0,
            _ => 1,
        }
    }

    /// Looks up the comparison for text that starts with `first` and
    /// `second`, given whether each of the two is a letter.
    pub fn select(
        first: char,
        second: char,
        first_is_letter: bool,
        second_is_letter: bool,
    ) -> (r: Option<VersionComparison>)
        ensures
            r == Self::table(first, second, first_is_letter, second_is_letter),
    {
        match first {
            '!' => if second == '!' {
                Some(VersionComparison::VeryNot)
            } else if second_is_letter {
                Some(VersionComparison::Not)
            } else {
                None
            },
            '<' => if second == '=' {
                Some(VersionComparison::LessThanOrEqual)
            } else if second_is_letter {
                Some(VersionComparison::LessThan)
            } else {
                None
            },
            '=' => if second_is_letter {
                Some(VersionComparison::ExactlyEqual)
            } else {
                None
            },
            '~' => if second_is_letter {
                Some(VersionComparison::Equal)
            } else {
                None
            },
            '>' => if second == '=' {
                Some(VersionComparison::GreaterThanOrEqual)
            } else if second_is_letter {
                Some(VersionComparison::GreaterThan)
            } else {
                None
            },
            _ => if first_is_letter {
                Some(VersionComparison::Any)
            } else {
                None
            },
        }
    }

    /// Reads the comparison off the first two characters of `input`.
    /// `None` says that `input` is not the start of an atom.
    pub fn parse_comparator(input: &str) -> (r: Option<VersionComparison>)
        ensures
            r == Self::recognize(input@),
    {
        let mut chars = input.chars();
        let x: char = match chars.next() {
            Some(c) => c,
            None => { return None; },
        };
        let y: char = match chars.next() {
            Some(c) => c,
            None => { return None; },
        };
        Self::select(x, y, x.is_alphabetic(), y.is_alphabetic())
    }
}

} // verus!
