//! A line of a package list: an atom and the USE flags that follow it.
//!
//! The words of a line are set apart by white space. The first word is the
//! atom and every further word is a flag, as in
//! `>=dev-lang/python-3.12.11:3.12::gentoo X11 -gtk`.

use crate::atom::{parse_atom, Atom, AtomView};
use crate::error::ErrorKind;
use crate::text::{split_words, words};
use crate::useflag::{flag_views, in_order, parse_flag, sorted, FlagView, UseFlag};
use vstd::prelude::*;
use vstd::string::*;

verus! {

/// The AtomLine represents an ebuild and possibly use flags.
#[derive(Debug)]
pub struct AtomLine {
    atom: Atom,
    use_list: Vec<UseFlag>,
}

/// What a line holds: its atom, and its flags in the order of the text.
pub struct AtomLineView {
    pub atom: AtomView,
    pub use_list: Seq<FlagView>,
}

/// The flags that `tokens` stand for, in the same order, or the error of
/// the first token that is no flag.
pub open spec fn parse_flags(tokens: Seq<Seq<char>>) -> Result<Seq<FlagView>, ErrorKind>
    decreases tokens.len(),
{
    if tokens.len() == 0 {
        Ok(Seq::empty())
    } else {
        match parse_flags(tokens.drop_last()) {
            Err(e) => Err(e),
            Ok(before) => match parse_flag(tokens.last()) {
                Err(e) => Err(e),
                Ok(flag) => Ok(before.push(flag)),
            },
        }
    }
}

/// The line that `text` spells. Its first word is read as the atom and the
/// other words as flags. A text without words is refused as an empty atom
/// is. An error in the atom comes before any error in a flag.
pub open spec fn parse_line(text: Seq<char>) -> Result<AtomLineView, ErrorKind> {
    let tokens = words(text);
    if tokens.len() == 0 {
        Err(ErrorKind::InvalidComparator)
    } else {
        match parse_atom(tokens[0]) {
            Err(e) => Err(e),
            Ok(atom) => match parse_flags(tokens.skip(1)) {
                Err(e) => Err(e),
                Ok(use_list) => Ok(AtomLineView { atom, use_list }),
            },
        }
    }
}

/// Tokens of which some first few hold one that is no flag are refused
/// with the error of those first few.
pub proof fn first_error_stands(tokens: Seq<Seq<char>>, k: int)
    requires
        0 <= k <= tokens.len(),
        parse_flags(tokens.take(k)) is Err,
    ensures
        parse_flags(tokens) == parse_flags(tokens.take(k)),
    decreases tokens.len() - k,
{
    if k < tokens.len() {
        assert(tokens.take(k + 1).drop_last() =~= tokens.take(k));
        first_error_stands(tokens, k + 1);
    } else {
        assert(tokens.take(k) =~= tokens);
    }
}

/// Flags that were read from tokens are as many as the tokens, and each is
/// what its own token stands for.
pub proof fn flags_keep_order(tokens: Seq<Seq<char>>)
    requires
        parse_flags(tokens) is Ok,
    ensures
        parse_flags(tokens)->Ok_0.len() == tokens.len(),
        forall|i: int|
            0 <= i < tokens.len() ==> parse_flag(#[trigger] tokens[i]) == Ok::<
                FlagView,
                ErrorKind,
            >(parse_flags(tokens)->Ok_0[i]),
    decreases tokens.len(),
{
    if tokens.len() > 0 {
        flags_keep_order(tokens.drop_last());
        assert forall|i: int| 0 <= i < tokens.len() implies parse_flag(#[trigger] tokens[i])
            == Ok::<FlagView, ErrorKind>(parse_flags(tokens)->Ok_0[i]) by {
            if i < tokens.len() - 1 {
                assert(tokens[i] == tokens.drop_last()[i]);
            }
        }
    }
}

impl View for AtomLine {
    type V = AtomLineView;

    closed spec fn view(&self) -> AtomLineView {
        AtomLineView {
            atom: self.atom@,
            use_list: flag_views(self.use_list@),
        }
    }
}

impl AtomLine {
    /// The line of `atom` and `use_list`. The flags are kept in the order
    /// given.
    pub fn new(atom: Atom, use_list: Vec<UseFlag>) -> (r: AtomLine)
        ensures
            r@ == (AtomLineView { atom: atom@, use_list: flag_views(use_list@) }),
    {
        AtomLine { atom, use_list }
    }

    /// The atom of the line.
    pub fn atom(&self) -> (r: &Atom)
        ensures
            r@ == self@.atom,
    {
        &self.atom
    }

    /// The flags of the line, in the order of the text.
    pub fn use_list(&self) -> (r: &Vec<UseFlag>)
        ensures
            flag_views(r@) == self@.use_list,
    {
        &self.use_list
    }

    /// The flags of the line in order: unset flags first, and flags of one
    /// state by name. The line itself keeps the order of the text.
    pub fn sorted_use_list(&self) -> (r: Vec<UseFlag>)
        ensures
            in_order(flag_views(r@)),
            flag_views(r@).to_multiset() == self@.use_list.to_multiset(),
    {
        sorted(&self.use_list)
    }
}

impl<'a> TryFrom<&'a str> for AtomLine {
    type Error = ErrorKind;

    /// Reads a line: an atom, and the flags that follow it, all set apart
    /// by white space.
    fn try_from(line: &'a str) -> (r: Result<AtomLine, ErrorKind>)
        ensures
            match r {
                Ok(parsed) => parse_line(line@) == Ok::<AtomLineView, ErrorKind>(parsed@),
                Err(e) => parse_line(line@) == Err::<AtomLineView, ErrorKind>(e),
            },
    {
        let tokens = split_words(line);
        if tokens.len() == 0 {
            return Err(ErrorKind::InvalidComparator);
        }
        let atom = match Atom::try_from(tokens[0].as_str()) {
            Ok(atom) => atom,
            Err(e) => {
                return Err(e);
            },
        };
        let ghost rest = words(line@).skip(1);
        let mut use_list: Vec<UseFlag> = Vec::new();
        let mut i: usize = 1;
        assert(parse_flags(rest.take(0)) == Ok::<Seq<FlagView>, ErrorKind>(
            flag_views(use_list@),
        )) by {
            assert(rest.take(0) =~= Seq::<Seq<char>>::empty());
            assert(flag_views(use_list@) =~= Seq::<FlagView>::empty());
        }
        while i < tokens.len()
            invariant
                1 <= i <= tokens@.len(),
                tokens@.len() == words(line@).len(),
                forall|j: int|
                    0 <= j < tokens@.len() ==> (#[trigger] tokens@[j])@ == words(line@)[j],
                rest == words(line@).skip(1),
                parse_atom(words(line@)[0]) is Ok,
                use_list@.len() == i - 1,
                parse_flags(rest.take(i - 1)) == Ok::<Seq<FlagView>, ErrorKind>(
                    flag_views(use_list@),
                ),
            decreases tokens@.len() - i,
        {
            let ghost before = flag_views(use_list@);
            assert(rest.take(i as int).drop_last() =~= rest.take(i - 1));
            assert(rest.take(i as int).last() == tokens@[i as int]@);
            match UseFlag::try_from(tokens[i].as_str()) {
                Ok(flag) => {
                    use_list.push(flag);
                    assert(flag_views(use_list@) =~= before.push(flag@));
                },
                Err(e) => {
                    proof {
                        assert(parse_flags(rest.take(i as int)) == Err::<
                            Seq<FlagView>,
                            ErrorKind,
                        >(e));
                        first_error_stands(rest, i as int);
                    }
                    return Err(e);
                },
            }
            i += 1;
        }
        assert(rest.take(i - 1) =~= rest);
        Ok(AtomLine { atom, use_list })
    }
}

/// What `try_from` returns is stated in its own contract, over what the
/// line holds. The specification of the trait speaks of the line itself,
/// of which no more is known than what it holds, and is left open.
impl<'a> vstd::std_specs::convert::TryFromSpecImpl<&'a str> for AtomLine {
    open spec fn obeys_try_from_spec() -> bool {
        false
    }

    open spec fn try_from_spec(v: &'a str) -> Result<AtomLine, ErrorKind> {
        arbitrary()
    }
}

} // verus!
