//! Atoms: what selects a package.
//!
//! An atom reads `[operator]category/name[-version][:slot][::repository]`,
//! as in `sys-devel/gcc`, `dev-lang/python:3.13` or
//! `>=dev-lang/python-3.12.11:3.12::gentoo`.

use crate::comparator::VersionComparison;
use crate::error::ErrorKind;
use crate::text::{
    behind, chars_of, digit, find, find_double, find_last, first_double, first_double_is_first,
    first_index, first_index_is_first, is_digit, last_index, last_index_is_last, trim, trimmed,
    trimmed_is_tight,
};
use vstd::prelude::*;
use vstd::string::*;

verus! {

/// The Atom is a category/"package name" with attached versioning
/// comparison.
///
/// The versioning assumes simple string comparisons will work.
#[derive(Debug)]
pub struct Atom {
    comparator: Option<VersionComparison>,
    category: String,
    name: String,
    version: String,
    slot: String,
    repo: String,
}

/// What an atom holds. An atom without an operator has no comparator; a
/// part that the text leaves out is empty.
pub struct AtomView {
    pub comparator: Option<VersionComparison>,
    pub category: Seq<char>,
    pub name: Seq<char>,
    pub version: Seq<char>,
    pub slot: Seq<char>,
    pub repo: Seq<char>,
}

/// Whether `s` reads as a version: digits and dots, with a digit first.
pub open spec fn is_version(s: Seq<char>) -> bool {
    &&& s.len() > 0
    &&& is_digit(s[0])
    &&& forall|i: int| 0 <= i < s.len() ==> is_digit(#[trigger] s[i]) || s[i] == '.'
}

/// Where the name ends in `package`, the text before the slot. Where the
/// text ends in `-` and a version, the name ends before that `-`; only what
/// follows the last `-` is looked at. Otherwise the name is all of the text.
pub open spec fn name_len(package: Seq<char>) -> int {
    let dash = last_index(package, '-');
    if dash >= 0 && is_version(package.skip(dash + 1)) {
        dash
    } else {
        package.len() as int
    }
}

/// The atom that `text` spells, given the comparison that its first two
/// characters ask for.
///
/// - Text that asks for no comparison is no atom.
/// - The operator is taken off the front. What is left must hold exactly
///   one `/`, with the category before it, which must not be empty.
/// - Behind the `/`, the repository is what follows the first `::`, and the
///   slot is what follows the first `:` before that.
/// - What stands before the slot is the name, and the version behind the
///   name where there is one. The name must not be empty.
pub open spec fn split_atom(text: Seq<char>, recognized: Option<VersionComparison>) -> Result<
    AtomView,
    ErrorKind,
> {
    match recognized {
        None => Err(ErrorKind::InvalidComparator),
        Some(comparison) => {
            let rest = behind(text, 0, comparison.width());
            let slash = first_index(rest, '/');
            let tail = behind(rest, slash, 1);
            let colons = first_double(tail, ':');
            let body = tail.take(colons);
            let colon = first_index(body, ':');
            let package = body.take(colon);
            let name_end = name_len(package);
            if slash == rest.len() || first_index(tail, '/') < tail.len() {
                Err(ErrorKind::MissingCategoryOrName)
            } else if slash == 0 {
                Err(ErrorKind::EmptyCategory)
            } else if name_end == 0 {
                Err(ErrorKind::EmptyName)
            } else {
                Ok(
                    AtomView {
                        comparator: if comparison == VersionComparison::Any {
                            None
                        } else {
                            Some(comparison)
                        },
                        category: rest.take(slash),
                        name: package.take(name_end),
                        version: behind(package, name_end, 1),
                        slot: behind(body, colon, 1),
                        repo: behind(tail, colons, 2),
                    },
                )
            }
        },
    }
}

/// The separator `mark` where something follows it, nothing where the text
/// ends without it.
pub open spec fn mark_if(present: bool, mark: Seq<char>) -> Seq<char> {
    if present {
        mark
    } else {
        Seq::empty()
    }
}

/// An atom that text spells has a category and a name.
pub proof fn atoms_have_category_and_name(text: Seq<char>, recognized: Option<VersionComparison>)
    requires
        split_atom(text, recognized) is Ok,
    ensures
        split_atom(text, recognized)->Ok_0.category.len() > 0,
        split_atom(text, recognized)->Ok_0.name.len() > 0,
{
    let rest = behind(text, 0, recognized->Some_0.width());
    let tail = behind(rest, first_index(rest, '/'), 1);
    let body = tail.take(first_double(tail, ':'));
    let package = body.take(first_index(body, ':'));
    first_index_is_first(rest, '/');
    last_index_is_last(package, '-');
}

/// In the text of an atom, exactly one `/` stands behind the operator: the
/// category before it holds none, and what follows it holds none.
pub proof fn one_slash_separates(text: Seq<char>, comparison: VersionComparison)
    requires
        split_atom(text, Some(comparison)) is Ok,
    ensures
        ({
            let rest = behind(text, 0, comparison.width());
            let category = split_atom(text, Some(comparison))->Ok_0.category;
            let tail = behind(rest, category.len() as int, 1);
            &&& rest == category + seq!['/'] + tail
            &&& !category.contains('/')
            &&& !tail.contains('/')
        }),
{
    let rest = behind(text, 0, comparison.width());
    let slash = first_index(rest, '/');
    let category = rest.take(slash);
    let tail = behind(rest, slash, 1);
    first_index_is_first(rest, '/');
    first_index_is_first(tail, '/');
    assert(rest =~= category + seq!['/'] + tail);
    if category.contains('/') {
        let k = choose|k: int| 0 <= k < category.len() && category[k] == '/';
        assert(rest[k] == '/');
    }
}

/// Nothing of an atom's text is lost: behind the `/`, the text is the name,
/// the version, the slot and the repository in this order, each of the
/// last three behind its separator where the text holds that separator.
pub proof fn parts_make_up_text(text: Seq<char>, comparison: VersionComparison)
    requires
        split_atom(text, Some(comparison)) is Ok,
    ensures
        ({
            let atom = split_atom(text, Some(comparison))->Ok_0;
            let rest = behind(text, 0, comparison.width());
            let tail = behind(rest, atom.category.len() as int, 1);
            let body = tail.take(first_double(tail, ':'));
            let package = body.take(first_index(body, ':'));
            &&& package == atom.name + mark_if(atom.name.len() < package.len(), seq!['-'])
                + atom.version
            &&& body == package + mark_if(package.len() < body.len(), seq![':']) + atom.slot
            &&& tail == body + mark_if(body.len() < tail.len(), seq![':', ':']) + atom.repo
        }),
{
    let atom = split_atom(text, Some(comparison))->Ok_0;
    let rest = behind(text, 0, comparison.width());
    first_index_is_first(rest, '/');
    let tail = behind(rest, atom.category.len() as int, 1);
    let colons = first_double(tail, ':');
    first_double_is_first(tail, ':');
    let body = tail.take(colons);
    let colon = first_index(body, ':');
    first_index_is_first(body, ':');
    let package = body.take(colon);
    last_index_is_last(package, '-');
    assert(package =~= atom.name + mark_if(atom.name.len() < package.len(), seq!['-'])
        + atom.version);
    assert(body =~= package + mark_if(package.len() < body.len(), seq![':']) + atom.slot);
    assert(tail =~= body + mark_if(body.len() < tail.len(), seq![':', ':']) + atom.repo);
}

/// The atom that `text` spells. The white space around the text does not
/// count.
pub open spec fn parse_atom(text: Seq<char>) -> Result<AtomView, ErrorKind> {
    split_atom(trimmed(text), VersionComparison::recognize(trimmed(text)))
}

/// The places at which the text of an atom is cut into its parts.
struct Cuts {
    start: usize,
    slash: usize,
    name_end: usize,
    colon: usize,
    colons: usize,
    end: usize,
}

impl Cuts {
    /// The cuts follow each other within a text of `len` characters.
    spec fn ordered(self, len: nat) -> bool {
        &&& self.start < self.slash
        &&& self.slash + 1 < self.name_end <= self.colon <= self.colons <= self.end
        &&& self.end == len
    }

    /// The parts that the cuts make of `text`.
    spec fn parts(self, text: Seq<char>, comparison: VersionComparison) -> AtomView {
        AtomView {
            comparator: if comparison == VersionComparison::Any {
                None
            } else {
                Some(comparison)
            },
            category: text.subrange(self.start as int, self.slash as int),
            name: text.subrange(self.slash + 1, self.name_end as int),
            version: text.subrange(self.version_start(), self.colon as int),
            slot: text.subrange(self.slot_start(), self.colons as int),
            repo: text.subrange(self.repo_start(), self.end as int),
        }
    }

    /// Where the version starts: behind the `-` that ends the name.
    spec fn version_start(self) -> int {
        if self.name_end < self.colon {
            self.name_end + 1
        } else {
            self.colon as int
        }
    }

    /// Where the slot starts: behind the `:` that ends the name and version.
    spec fn slot_start(self) -> int {
        if self.colon < self.colons {
            self.colon + 1
        } else {
            self.colons as int
        }
    }

    /// Where the repository starts: behind the `::` that ends the slot.
    spec fn repo_start(self) -> int {
        if self.end - self.colons >= 2 {
            self.colons + 2
        } else {
            self.end as int
        }
    }
}

/// Tells whether the window `[lo, hi)` of `v` reads as a version.
fn version_at(v: &Vec<char>, lo: usize, hi: usize) -> (r: bool)
    requires
        lo <= hi <= v@.len(),
    ensures
        r == is_version(v@.subrange(lo as int, hi as int)),
{
    let ghost s = v@.subrange(lo as int, hi as int);
    if lo == hi || !digit(v[lo]) {
        assert(lo < hi ==> s[0] == v@[lo as int]);
        return false;
    }
    assert(s[0] == v@[lo as int]);
    let mut k: usize = lo;
    while k < hi
        invariant
            lo <= k <= hi <= v@.len(),
            s == v@.subrange(lo as int, hi as int),
            forall|i: int| 0 <= i < k - lo ==> is_digit(#[trigger] s[i]) || s[i] == '.',
        decreases hi - k,
    {
        if !digit(v[k]) && v[k] != '.' {
            assert(s[k - lo] == v@[k as int]);
            return false;
        }
        assert(s[k - lo] == v@[k as int]);
        k += 1;
    }
    true
}

/// Where the name ends in the window `[lo, hi)` of `v`.
fn find_name_end(v: &Vec<char>, lo: usize, hi: usize) -> (k: usize)
    requires
        lo <= hi <= v@.len(),
    ensures
        lo <= k <= hi,
        k - lo == name_len(v@.subrange(lo as int, hi as int)),
{
    match find_last(v, lo, hi, '-') {
        Some(at) => {
            assert(v@.subrange(lo as int, hi as int).skip(at - lo + 1) =~= v@.subrange(
                at + 1,
                hi as int,
            ));
            if version_at(v, at + 1, hi) {
                at
            } else {
                hi
            }
        },
        None => hi,
    }
}

/// Finds the places at which to cut the text `v` of an atom that asks for
/// `comparison`.
fn cut(v: &Vec<char>, comparison: VersionComparison) -> (r: Result<Cuts, ErrorKind>)
    ensures
        match r {
            Ok(cuts) => cuts.ordered(v@.len()) && split_atom(v@, Some(comparison)) == Ok::<
                AtomView,
                ErrorKind,
            >(cuts.parts(v@, comparison)),
            Err(e) => split_atom(v@, Some(comparison)) == Err::<AtomView, ErrorKind>(e),
        },
{
    let end = v.len();
    let width = comparison.prefix_len();
    let start = if width <= end {
        width
    } else {
        end
    };
    let ghost rest = behind(v@, 0, comparison.width());
    assert(rest =~= v@.subrange(start as int, end as int));
    let slash = find(v, start, end, '/');
    if slash == end {
        return Err(ErrorKind::MissingCategoryOrName);
    }
    let ghost tail = behind(rest, slash - start, 1);
    assert(tail =~= v@.subrange(slash + 1, end as int));
    if find(v, slash + 1, end, '/') < end {
        return Err(ErrorKind::MissingCategoryOrName);
    }
    if slash == start {
        return Err(ErrorKind::EmptyCategory);
    }
    let colons = find_double(v, slash + 1, end, ':');
    let ghost body = tail.take(colons - (slash + 1));
    assert(body =~= v@.subrange(slash + 1, colons as int));
    let colon = find(v, slash + 1, colons, ':');
    let ghost package = body.take(colon - (slash + 1));
    assert(package =~= v@.subrange(slash + 1, colon as int));
    let name_end = find_name_end(v, slash + 1, colon);
    if name_end == slash + 1 {
        return Err(ErrorKind::EmptyName);
    }
    let cuts = Cuts { start, slash, name_end, colon, colons, end };
    proof {
        let have = cuts.parts(v@, comparison);
        assert(have.category =~= rest.take(slash - start));
        assert(have.name =~= package.take(name_end - (slash + 1)));
        assert(have.version =~= behind(package, name_end - (slash + 1), 1));
        assert(have.slot =~= behind(body, colon - (slash + 1), 1));
        assert(have.repo =~= behind(tail, colons - (slash + 1), 2));
    }
    Ok(cuts)
}

/// The white space around the text of an atom does not count.
pub proof fn atom_ignores_white_space_around(text: Seq<char>)
    ensures
        parse_atom(trimmed(text)) == parse_atom(text),
{
    trimmed_is_tight(text);
}

impl View for Atom {
    type V = AtomView;

    closed spec fn view(&self) -> AtomView {
        AtomView {
            comparator: self.comparator,
            category: self.category@,
            name: self.name@,
            version: self.version@,
            slot: self.slot@,
            repo: self.repo@,
        }
    }
}

impl Atom {
    /// An atom has a category and a name.
    #[verifier::type_invariant]
    spec fn well_formed(&self) -> bool {
        self.category@.len() > 0 && self.name@.len() > 0
    }

    /// Takes `text` apart into an atom, given the comparison that its
    /// first two characters ask for. The text is read as it stands: white
    /// space counts.
    pub fn split(text: &str, recognized: Option<VersionComparison>) -> (r: Result<Atom, ErrorKind>)
        ensures
            match r {
                Ok(atom) => split_atom(text@, recognized) == Ok::<AtomView, ErrorKind>(atom@),
                Err(e) => split_atom(text@, recognized) == Err::<AtomView, ErrorKind>(e),
            },
    {
        let comparison = match recognized {
            Some(comparison) => comparison,
            None => {
                return Err(ErrorKind::InvalidComparator);
            },
        };
        let chars = chars_of(text);
        let cuts = match cut(&chars, comparison) {
            Ok(cuts) => cuts,
            Err(e) => {
                return Err(e);
            },
        };
        let version_start = if cuts.name_end < cuts.colon {
            cuts.name_end + 1
        } else {
            cuts.colon
        };
        let slot_start = if cuts.colon < cuts.colons {
            cuts.colon + 1
        } else {
            cuts.colons
        };
        let repo_start = if cuts.end - cuts.colons >= 2 {
            cuts.colons + 2
        } else {
            cuts.end
        };
        let category = text.substring_char(cuts.start, cuts.slash).to_owned();
        let name = text.substring_char(cuts.slash + 1, cuts.name_end).to_owned();
        Ok(
            Atom {
                comparator: match comparison {
                    VersionComparison::Any => None,
                    _ => Some(comparison),
                },
                category,
                name,
                version: text.substring_char(version_start, cuts.colon).to_owned(),
                slot: text.substring_char(slot_start, cuts.colons).to_owned(),
                repo: text.substring_char(repo_start, cuts.end).to_owned(),
            },
        )
    }

    /// The comparison that the atom asks for; none where it has no
    /// operator.
    pub fn comparator(&self) -> (r: Option<VersionComparison>)
        ensures
            r == self@.comparator,
    {
        self.comparator
    }

    /// The category of the package.
    pub fn category(&self) -> (r: &str)
        ensures
            r@ == self@.category,
            r@.len() > 0,
    {
        proof {
            use_type_invariant(self);
        }
        self.category.as_str()
    }

    /// The name of the package.
    pub fn name(&self) -> (r: &str)
        ensures
            r@ == self@.name,
            r@.len() > 0,
    {
        proof {
            use_type_invariant(self);
        }
        self.name.as_str()
    }

    /// The version; empty where the atom names none.
    pub fn version(&self) -> (r: &str)
        ensures
            r@ == self@.version,
    {
        self.version.as_str()
    }

    /// The slot; empty where the atom names none.
    pub fn slot(&self) -> (r: &str)
        ensures
            r@ == self@.slot,
    {
        self.slot.as_str()
    }

    /// The repository; empty where the atom names none.
    pub fn repo(&self) -> (r: &str)
        ensures
            r@ == self@.repo,
    {
        self.repo.as_str()
    }
}

impl<'a> TryFrom<&'a str> for Atom {
    type Error = ErrorKind;

    /// `value` is expected to look something like.
    ///
    /// - `sys-devel/gcc`
    /// - `x11-themes/sound-theme-freedesktop`
    /// - `dev-lang/python:3.13`
    /// - `=dev-lang/python-3.13.5:3.13`
    /// - `>dev-lang/python-3.13.0:3.13::gentoo`
    /// - `>=dev-lang/python-3.12.11:3.12::gentoo`
    fn try_from(value: &'a str) -> (r: Result<Atom, ErrorKind>)
        ensures
            match r {
                Ok(atom) => parse_atom(value@) == Ok::<AtomView, ErrorKind>(atom@),
                Err(e) => parse_atom(value@) == Err::<AtomView, ErrorKind>(e),
            },
    {
        let word = trim(value);
        Atom::split(word, VersionComparison::parse_comparator(word))
    }
}

/// What `try_from` returns is stated in its own contract, over what the
/// atom holds. The specification of the trait speaks of the atom itself,
/// of which no more is known than what it holds, and is left open.
impl<'a> vstd::std_specs::convert::TryFromSpecImpl<&'a str> for Atom {
    open spec fn obeys_try_from_spec() -> bool {
        false
    }

    open spec fn try_from_spec(v: &'a str) -> Result<Atom, ErrorKind> {
        arbitrary()
    }
}

} // verus!
