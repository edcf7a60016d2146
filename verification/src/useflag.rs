//! USE flags: a name that is switched on or off.
//!
//! A flag is written as its name when it is set and as `-name` when it is
//! not. Flags order by state first, unset before set, and by name second.

use crate::error::ErrorKind;
use crate::flagstate::FlagState;
use crate::lexical::{
    compare_bytes, lexical_order, lexical_order_equal_is_same, lexical_order_is_antisymmetric,
    lexical_order_is_transitive,
};
use crate::text::{
    chars_of, is_whitespace, skip_back_whitespace, skip_leading, skip_whitespace, strip_leading,
    strip_leading_is_tight, trimmed, trimmed_is_tight, trimmed_keeps_tight_text,
};
use std::cmp::Ordering;
use vstd::prelude::*;
use vstd::seq_lib::{to_multiset_build, to_multiset_insert};
use vstd::string::*;
use vstd::utf8::{encode_utf8, encode_utf8_decode_utf8};

verus! {

/// A set or unset USE flag
#[derive(Debug, Ord)]
pub struct UseFlag {
    state: FlagState,
    name: String,
}

/// What a flag holds: its state and the characters of its name.
pub struct FlagView {
    pub state: FlagState,
    pub name: Seq<char>,
}

/// Whether `name` can be the name of a flag: it is not empty and does not
/// start with `-`, which is how an unset flag is written.
pub open spec fn is_flag_name(name: Seq<char>) -> bool {
    name.len() > 0 && name[0] != '-'
}

/// The text of a flag: `name` when it is set, `-name` when it is not.
pub open spec fn flag_text(flag: FlagView) -> Seq<char> {
    match flag.state {
        FlagState::Enabled => flag.name,
        FlagState::Unset => seq!['-'] + flag.name,
    }
}

/// The flag that `token` stands for. The white space around the token does
/// not count. A token that starts with `-` is an unset flag, named by what
/// follows its leading run of `-`; any other token is a set flag, named by
/// the token. A token that leaves no name is refused.
pub open spec fn parse_flag(token: Seq<char>) -> Result<FlagView, ErrorKind> {
    let word = trimmed(token);
    let name = strip_leading(word, '-');
    if name.len() == 0 {
        Err(ErrorKind::EmptyFlagToken)
    } else if word[0] == '-' {
        Ok(FlagView { state: FlagState::Unset, name })
    } else {
        Ok(FlagView { state: FlagState::Enabled, name })
    }
}

/// How flag `a` orders against flag `b`: by state, then by the bytes of the
/// name.
pub open spec fn flag_order(a: FlagView, b: FlagView) -> Ordering {
    match a.state.order(b.state) {
        Ordering::Equal => lexical_order(encode_utf8(a.name), encode_utf8(b.name)),
        Ordering::Less => Ordering::Less,
        Ordering::Greater => Ordering::Greater,
    }
}

/// Flags of different states order by state alone: the unset one comes
/// first, whatever the names are.
pub proof fn unset_orders_before_set(a: FlagView, b: FlagView)
    requires
        a.state != b.state,
    ensures
        a.state == FlagState::Unset ==> flag_order(a, b) == Ordering::Less,
        a.state == FlagState::Enabled ==> flag_order(a, b) == Ordering::Greater,
{
}

/// Flags of one state order as the bytes of their names do.
pub proof fn same_state_orders_by_name(a: FlagView, b: FlagView)
    requires
        a.state == b.state,
    ensures
        flag_order(a, b) == lexical_order(encode_utf8(a.name), encode_utf8(b.name)),
{
}

/// No flag comes before itself.
pub proof fn flag_order_is_irreflexive(a: FlagView)
    ensures
        flag_order(a, a) == Ordering::Equal,
{
    lexical_order_equal_is_same(encode_utf8(a.name), encode_utf8(a.name));
}

/// Two flags order as equal exactly when they are the same flag.
pub proof fn flag_order_equal_is_same(a: FlagView, b: FlagView)
    ensures
        flag_order(a, b) == Ordering::Equal <==> a == b,
{
    lexical_order_equal_is_same(encode_utf8(a.name), encode_utf8(b.name));
    encode_utf8_decode_utf8(a.name);
    encode_utf8_decode_utf8(b.name);
    if flag_order(a, b) == Ordering::Equal {
        assert(a.name =~= b.name);
    }
}

/// If `a` comes before `b`, then `b` comes after `a`, and the other way
/// round.
pub proof fn flag_order_is_antisymmetric(a: FlagView, b: FlagView)
    ensures
        flag_order(a, b) == Ordering::Less <==> flag_order(b, a) == Ordering::Greater,
{
    lexical_order_is_antisymmetric(encode_utf8(a.name), encode_utf8(b.name));
}

/// If `a` comes before `b` and `b` before `c`, then `a` comes before `c`.
pub proof fn flag_order_is_transitive(a: FlagView, b: FlagView, c: FlagView)
    requires
        flag_order(a, b) == Ordering::Less,
        flag_order(b, c) == Ordering::Less,
    ensures
        flag_order(a, c) == Ordering::Less,
{
    if a.state == b.state && b.state == c.state {
        lexical_order_is_transitive(
            encode_utf8(a.name),
            encode_utf8(b.name),
            encode_utf8(c.name),
        );
    }
}

/// What the flags of `flags` hold, in the same order.
pub open spec fn flag_views(flags: Seq<UseFlag>) -> Seq<FlagView> {
    Seq::new(flags.len(), |i: int| flags[i]@)
}

/// Whether flag `a` comes after flag `b`.
pub open spec fn comes_after(a: FlagView, b: FlagView) -> bool {
    flag_order(a, b) == Ordering::Greater
}

/// Whether `flags` are in order: no flag comes after one that follows it.
pub open spec fn in_order(flags: Seq<FlagView>) -> bool {
    forall|i: int, j: int|
        0 <= i < j < flags.len() ==> !comes_after(#[trigger] flags[i], #[trigger] flags[j])
}

/// No flag comes after itself.
pub proof fn nothing_comes_after_itself(a: FlagView)
    ensures
        !comes_after(a, a),
{
    flag_order_is_irreflexive(a);
}

/// A flag that comes before `b` comes before everything that `b` does not
/// come after.
pub proof fn before_carries_on(a: FlagView, b: FlagView, c: FlagView)
    requires
        comes_after(b, a),
        !comes_after(b, c),
    ensures
        comes_after(c, a),
        !comes_after(a, c),
{
    flag_order_is_antisymmetric(a, b);
    flag_order_is_antisymmetric(a, c);
    flag_order_equal_is_same(b, c);
    if flag_order(b, c) == Ordering::Less {
        flag_order_is_transitive(a, b, c);
    }
}

/// The white space around the token of a flag does not count.
pub proof fn flag_ignores_white_space_around(token: Seq<char>)
    ensures
        parse_flag(trimmed(token)) == parse_flag(token),
{
    trimmed_is_tight(token);
}

/// A flag that was read from a token has a flag name.
pub proof fn read_flags_have_names(token: Seq<char>)
    requires
        parse_flag(token) is Ok,
    ensures
        is_flag_name(parse_flag(token)->Ok_0.name),
{
    strip_leading_is_tight(trimmed(token), '-');
}

/// Reading the text of a flag gives the flag back, provided that its name
/// is a flag name and that no white space is lost: the name does not end
/// with white space, and the name of a set flag does not start with it.
pub proof fn text_reads_back(flag: FlagView)
    requires
        is_flag_name(flag.name),
        !is_whitespace(flag.name.last()),
        flag.state == FlagState::Enabled ==> !is_whitespace(flag.name[0]),
    ensures
        parse_flag(flag_text(flag)) == Ok::<FlagView, ErrorKind>(flag),
{
    let text = flag_text(flag);
    trimmed_keeps_tight_text(text);
    match flag.state {
        FlagState::Enabled => {
            assert(strip_leading(text, '-') == flag.name);
        },
        FlagState::Unset => {
            assert(text.drop_first() =~= flag.name);
            assert(strip_leading(flag.name, '-') == flag.name);
            assert(strip_leading(text, '-') == flag.name);
        },
    }
}

impl View for UseFlag {
    type V = FlagView;

    closed spec fn view(&self) -> FlagView {
        FlagView { state: self.state, name: self.name@ }
    }
}

impl UseFlag {
    /// The name of a flag is a flag name.
    #[verifier::type_invariant]
    spec fn well_formed(&self) -> bool {
        is_flag_name(self.name@)
    }

    /// The flag `name`, set.
    pub fn new_set(name: &str) -> (r: UseFlag)
        requires
            is_flag_name(name@),
        ensures
            r@ == (FlagView { state: FlagState::Enabled, name: name@ }),
    {
        UseFlag { state: FlagState::Enabled, name: name.to_owned() }
    }

    /// The flag `name`, unset.
    pub fn new_unset(name: &str) -> (r: UseFlag)
        requires
            is_flag_name(name@),
        ensures
            r@ == (FlagView { state: FlagState::Unset, name: name@ }),
    {
        UseFlag { state: FlagState::Unset, name: name.to_owned() }
    }

    /// Whether the flag is set.
    pub fn state(&self) -> (r: FlagState)
        ensures
            r == self@.state,
    {
        self.state
    }

    /// The name of the flag, without a sign.
    pub fn name(&self) -> (r: &str)
        ensures
            r@ == self@.name,
            is_flag_name(r@),
    {
        proof {
            use_type_invariant(self);
        }
        self.name.as_str()
    }

    /// The flag as it is written: `name` when set, `-name` when unset.
    pub fn render(&self) -> (r: String)
        ensures
            r@ == flag_text(self@),
    {
        match self.state {
            FlagState::Enabled => self.name.clone(),
            FlagState::Unset => {
                proof {
                    reveal_strlit("-");
                }
                let r = "-".to_owned().concat(self.name.as_str());
                assert(r@ =~= flag_text(self@));
                r
            },
        }
    }

    /// Whether this flag comes after `other` in the order of flags.
    pub fn is_after(&self, other: &UseFlag) -> (r: bool)
        ensures
            r == comes_after(self@, other@),
    {
        match self.cmp(other) {
            Ordering::Greater => true,
            _ => false,
        }
    }

    /// Compares two flags: an unset flag comes before a set one, and flags
    /// of one state order by the bytes of their names.
    pub fn cmp(&self, other: &UseFlag) -> (r: Ordering)
        ensures
            r == flag_order(self@, other@),
    {
        match self.state.cmp(&other.state) {
            Ordering::Equal => compare_bytes(
                self.name.as_str().as_bytes(),
                other.name.as_str().as_bytes(),
            ),
            Ordering::Less => Ordering::Less,
            Ordering::Greater => Ordering::Greater,
        }
    }
}

/// The flags of `flags` in order: unset flags first, and flags of one state
/// by name. Flags that order as equal are the same flag, so nothing is to
/// be said of which of them comes first.
pub fn sorted(flags: &Vec<UseFlag>) -> (r: Vec<UseFlag>)
    ensures
        in_order(flag_views(r@)),
        flag_views(r@).to_multiset() == flag_views(flags@).to_multiset(),
{
    let mut out: Vec<UseFlag> = Vec::new();
    let mut i: usize = 0;
    assert(flag_views(out@) =~= flag_views(flags@.take(0)));
    while i < flags.len()
        invariant
            i <= flags@.len(),
            in_order(flag_views(out@)),
            flag_views(out@).to_multiset() == flag_views(flags@.take(i as int)).to_multiset(),
        decreases flags@.len() - i,
    {
        let flag = flags[i].clone();
        let mut at: usize = 0;
        while at < out.len() && !out[at].is_after(&flag)
            invariant
                at <= out@.len(),
                forall|k: int| 0 <= k < at ==> !comes_after((#[trigger] out@[k])@, flag@),
            decreases out@.len() - at,
        {
            at += 1;
        }
        let ghost before = flag_views(out@);
        out.insert(at, flag);
        proof {
            let after = flag_views(out@);
            assert(after =~= before.insert(at as int, flag@));
            to_multiset_insert(before, at as int, flag@);
            assert(flag_views(flags@.take(i + 1)) =~= flag_views(flags@.take(i as int)).push(
                flag@,
            ));
            to_multiset_build(flag_views(flags@.take(i as int)), flag@);
            assert forall|p: int, q: int| 0 <= p < q < after.len() implies !comes_after(
                #[trigger] after[p],
                #[trigger] after[q],
            ) by {
                if p == at {
                    assert(after[q] == before[q - 1]);
                    if q - 1 > at {
                        assert(!comes_after(before[at as int], before[q - 1]));
                    } else {
                        nothing_comes_after_itself(before[at as int]);
                    }
                    before_carries_on(flag@, before[at as int], before[q - 1]);
                } else if q == at {
                    assert(after[p] == before[p]);
                } else {
                    let old_p = if p < at { p } else { p - 1 };
                    let old_q = if q < at { q } else { q - 1 };
                    assert(after[p] == before[old_p]);
                    assert(after[q] == before[old_q]);
                }
            }
        }
        i += 1;
    }
    assert(flags@.take(i as int) =~= flags@);
    out
}

impl<'a> TryFrom<&'a str> for UseFlag {
    type Error = ErrorKind;

    /// Reads a flag from `token`, which may carry a leading `-` for an
    /// unset flag and white space around it.
    fn try_from(token: &'a str) -> (r: Result<UseFlag, ErrorKind>)
        ensures
            match r {
                Ok(flag) => parse_flag(token@) == Ok::<FlagView, ErrorKind>(flag@),
                Err(e) => parse_flag(token@) == Err::<FlagView, ErrorKind>(e),
            },
    {
        let chars = chars_of(token);
        let lo = skip_whitespace(&chars, 0, chars.len());
        let hi = skip_back_whitespace(&chars, lo, chars.len());
        let from = skip_leading(&chars, lo, hi, '-');
        proof {
            assert(chars@.subrange(0, chars@.len() as int) =~= token@);
            strip_leading_is_tight(trimmed(token@), '-');
        }
        if from == hi {
            return Err(ErrorKind::EmptyFlagToken);
        }
        let state = if from > lo {
            FlagState::Unset
        } else {
            FlagState::Enabled
        };
        let name = token.substring_char(from, hi).to_owned();
        Ok(UseFlag { state, name })
    }
}

/// What `try_from` returns is stated in its own contract, over what the
/// flag holds. The specification of the trait speaks of the flag itself,
/// of which no more is known than what it holds, and is left open.
impl<'a> vstd::std_specs::convert::TryFromSpecImpl<&'a str> for UseFlag {
    open spec fn obeys_try_from_spec() -> bool {
        false
    }

    open spec fn try_from_spec(v: &'a str) -> Result<UseFlag, ErrorKind> {
        arbitrary()
    }
}

impl Clone for UseFlag {
    /// A flag of the same state and name.
    fn clone(&self) -> (r: UseFlag)
        ensures
            r@ == self@,
    {
        proof {
            use_type_invariant(self);
        }
        UseFlag { state: self.state, name: self.name.clone() }
    }
}

impl PartialEq for UseFlag {
    /// Two flags are equal when they agree in state and name.
    fn eq(&self, other: &UseFlag) -> (r: bool) {
        let r = self.state == other.state && self.name == other.name;
        assert(r == (self@ == other@)) by {
            if self.state == other.state && self.name@ == other.name@ {
                assert(self@.name =~= other@.name);
            }
        }
        r
    }
}

/// `==` on flags means that they hold the same state and name.
impl vstd::std_specs::cmp::PartialEqSpecImpl for UseFlag {
    open spec fn obeys_eq_spec() -> bool {
        true
    }

    open spec fn eq_spec(&self, other: &UseFlag) -> bool {
        self@ == other@
    }
}

impl Eq for UseFlag {}

impl PartialOrd for UseFlag {
    /// Compares two flags; the order is total, so the answer is never
    /// `None`.
    fn partial_cmp(&self, other: &UseFlag) -> (r: Option<Ordering>) {
        Some(self.cmp(other))
    }
}

/// `<` and its kin on flags go by the order of flags.
impl vstd::std_specs::cmp::PartialOrdSpecImpl for UseFlag {
    open spec fn obeys_partial_cmp_spec() -> bool {
        true
    }

    open spec fn partial_cmp_spec(&self, other: &UseFlag) -> Option<Ordering> {
        Some(flag_order(self@, other@))
    }
}

} // verus!
