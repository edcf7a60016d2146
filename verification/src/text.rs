//! Characters, and the scans over text that the parsers share.
//!
//! Text is read as a sequence of characters. A parser first copies the
//! characters of its input into a vector and then works on windows
//! `[lo, hi)` of that vector, so that every scan is a single pass.

use vstd::prelude::*;
use vstd::string::*;

verus! {

/// Whether `c` is white space: a tab, a line feed, a vertical tab, a form
/// feed, a carriage return, a space, a next-line mark, a no-break space, or
/// one of the wider Unicode spaces and separators.
pub open spec fn is_whitespace(c: char) -> bool {
    ||| '\u{9}' <= c <= '\u{d}'
    ||| c == ' '
    ||| c == '\u{85}'
    ||| c == '\u{a0}'
    ||| c == '\u{1680}'
    ||| '\u{2000}' <= c <= '\u{200a}'
    ||| c == '\u{2028}'
    ||| c == '\u{2029}'
    ||| c == '\u{202f}'
    ||| c == '\u{205f}'
    ||| c == '\u{3000}'
}

/// Whether `c` is one of the digits `0` to `9`.
pub open spec fn is_digit(c: char) -> bool {
    '0' <= c <= '9'
}

/// `s` without the white space it starts with.
pub open spec fn trim_start(s: Seq<char>) -> Seq<char>
    decreases s.len(),
{
    if s.len() > 0 && is_whitespace(s[0]) {
        trim_start(s.drop_first())
    } else {
        s
    }
}

/// `s` without the white space it ends with.
pub open spec fn trim_end(s: Seq<char>) -> Seq<char>
    decreases s.len(),
{
    if s.len() > 0 && is_whitespace(s.last()) {
        trim_end(s.drop_last())
    } else {
        s
    }
}

/// What stands in `s` behind a separator of `width` characters at position
/// `at`; nothing where `s` ends before that.
pub open spec fn behind(s: Seq<char>, at: int, width: int) -> Seq<char> {
    if 0 <= at + width <= s.len() {
        s.skip(at + width)
    } else {
        Seq::empty()
    }
}

/// `s` without the white space around it.
pub open spec fn trimmed(s: Seq<char>) -> Seq<char> {
    trim_end(trim_start(s))
}

/// `s` without the run of `c` it starts with.
pub open spec fn strip_leading(s: Seq<char>, c: char) -> Seq<char>
    decreases s.len(),
{
    if s.len() > 0 && s[0] == c {
        strip_leading(s.drop_first(), c)
    } else {
        s
    }
}

/// The position of the first `c` in `s`, or the length of `s` where it holds
/// none.
pub open spec fn first_index(s: Seq<char>, c: char) -> int
    decreases s.len(),
{
    if s.len() == 0 || s[0] == c {
        0
    } else {
        1 + first_index(s.drop_first(), c)
    }
}

/// The position of the first place in `s` where `c` stands twice in a row,
/// or the length of `s` where there is no such place.
pub open spec fn first_double(s: Seq<char>, c: char) -> int
    decreases s.len(),
{
    if s.len() < 2 {
        s.len() as int
    } else if s[0] == c && s[1] == c {
        0
    } else {
        1 + first_double(s.drop_first(), c)
    }
}

/// The position of the last `c` in `s`, or -1 where it holds none.
pub open spec fn last_index(s: Seq<char>, c: char) -> int
    decreases s.len(),
{
    if s.len() == 0 {
        -1
    } else if s.last() == c {
        s.len() - 1
    } else {
        last_index(s.drop_last(), c)
    }
}

/// The number of characters at the front of `s` up to its first white
/// space: the length of the word that `s` starts with.
pub open spec fn word_len(s: Seq<char>) -> int
    decreases s.len(),
{
    if s.len() == 0 || is_whitespace(s[0]) {
        0
    } else {
        1 + word_len(s.drop_first())
    }
}

/// The words of `s`, in order: its longest runs of characters that are not
/// white space.
pub open spec fn words(s: Seq<char>) -> Seq<Seq<char>>
    decreases s.len(),
    via words_decreases
{
    if s.len() == 0 {
        Seq::empty()
    } else if is_whitespace(s[0]) {
        words(s.drop_first())
    } else {
        seq![s.take(word_len(s))] + words(s.skip(word_len(s)))
    }
}

#[via_fn]
proof fn words_decreases(s: Seq<char>) {
    word_len_is_within(s);
}

/// A word is no longer than the text it starts, and not empty where the
/// text starts with anything but white space.
pub proof fn word_len_is_within(s: Seq<char>)
    ensures
        0 <= word_len(s) <= s.len(),
        s.len() > 0 && !is_whitespace(s[0]) ==> word_len(s) >= 1,
    decreases s.len(),
{
    if s.len() == 0 || is_whitespace(s[0]) {
    } else {
        word_len_is_within(s.drop_first());
    }
}

/// Text that neither starts nor ends with white space is its own trimmed
/// form.
pub proof fn trimmed_keeps_tight_text(s: Seq<char>)
    requires
        s.len() > 0 ==> !is_whitespace(s[0]) && !is_whitespace(s.last()),
    ensures
        trimmed(s) == s,
{
}

/// Trimmed text neither starts nor ends with white space, and trimming it
/// again changes nothing.
pub proof fn trimmed_is_tight(s: Seq<char>)
    ensures
        trimmed(s).len() > 0 ==> !is_whitespace(trimmed(s)[0]) && !is_whitespace(
            trimmed(s).last(),
        ),
        trimmed(trimmed(s)) == trimmed(s),
        trimmed(s).len() <= s.len(),
{
    trim_start_is_tight(s);
    trim_end_is_tight(trim_start(s));
    trimmed_keeps_tight_text(trimmed(s));
}

/// What `trim_start` leaves does not start with white space, and is the end
/// of `s` from some position on.
pub proof fn trim_start_is_tight(s: Seq<char>)
    ensures
        trim_start(s).len() <= s.len(),
        trim_start(s) == s.skip(s.len() - trim_start(s).len()),
        trim_start(s).len() > 0 ==> !is_whitespace(trim_start(s)[0]),
    decreases s.len(),
{
    if s.len() > 0 && is_whitespace(s[0]) {
        let rest = s.drop_first();
        trim_start_is_tight(rest);
        assert(rest.skip(rest.len() - trim_start(rest).len()) =~= s.skip(
            s.len() - trim_start(s).len(),
        ));
    } else {
        assert(s.skip(0) =~= s);
    }
}

/// What `trim_end` leaves does not end with white space, is the start of
/// `s` up to some position, and starts as `s` does where anything is left.
pub proof fn trim_end_is_tight(s: Seq<char>)
    ensures
        trim_end(s).len() <= s.len(),
        trim_end(s) == s.take(trim_end(s).len() as int),
        trim_end(s).len() > 0 ==> !is_whitespace(trim_end(s).last()),
    decreases s.len(),
{
    if s.len() > 0 && is_whitespace(s.last()) {
        let rest = s.drop_last();
        trim_end_is_tight(rest);
        assert(rest.take(trim_end(rest).len() as int) =~= s.take(trim_end(s).len() as int));
    } else {
        assert(s.take(s.len() as int) =~= s);
    }
}

/// What `strip_leading` leaves does not start with `c`, and is the end of
/// `s` from some position on; it is all of `s` unless `s` starts with `c`.
pub proof fn strip_leading_is_tight(s: Seq<char>, c: char)
    ensures
        strip_leading(s, c).len() <= s.len(),
        strip_leading(s, c) == s.skip(s.len() - strip_leading(s, c).len()),
        strip_leading(s, c).len() > 0 ==> strip_leading(s, c)[0] != c,
        strip_leading(s, c).len() == s.len() <==> !(s.len() > 0 && s[0] == c),
    decreases s.len(),
{
    if s.len() > 0 && s[0] == c {
        let rest = s.drop_first();
        strip_leading_is_tight(rest, c);
        assert(rest.skip(rest.len() - strip_leading(rest, c).len()) =~= s.skip(
            s.len() - strip_leading(s, c).len(),
        ));
    } else {
        assert(s.skip(0) =~= s);
    }
}

/// `first_index` gives a position at which `c` stands, with no `c` before
/// it; where the position is the length, `s` holds no `c` at all.
pub proof fn first_index_is_first(s: Seq<char>, c: char)
    ensures
        0 <= first_index(s, c) <= s.len(),
        first_index(s, c) < s.len() ==> s[first_index(s, c)] == c,
        forall|j: int| 0 <= j < first_index(s, c) ==> s[j] != c,
        first_index(s, c) == s.len() <==> !s.contains(c),
    decreases s.len(),
{
    if s.len() == 0 || s[0] == c {
    } else {
        let rest = s.drop_first();
        first_index_is_first(rest, c);
        assert forall|j: int| 0 <= j < first_index(s, c) implies s[j] != c by {
            if j > 0 {
                assert(s[j] == rest[j - 1]);
            }
        }
        if first_index(s, c) < s.len() {
            assert(s[first_index(s, c)] == rest[first_index(rest, c)]);
        }
    }
}

/// `first_double` gives a position at which `c` stands twice in a row, or
/// the length of `s`.
pub proof fn first_double_is_first(s: Seq<char>, c: char)
    ensures
        0 <= first_double(s, c) <= s.len(),
        first_double(s, c) < s.len() ==> first_double(s, c) + 2 <= s.len() && s[first_double(
            s,
            c,
        )] == c && s[first_double(s, c) + 1] == c,
        forall|j: int|
            0 <= j < first_double(s, c) && j + 1 < s.len() ==> !(#[trigger] s[j] == c && s[j + 1]
                == c),
    decreases s.len(),
{
    if s.len() < 2 {
    } else if s[0] == c && s[1] == c {
    } else {
        let rest = s.drop_first();
        first_double_is_first(rest, c);
        let k = first_double(rest, c);
        if k < rest.len() {
            assert(s[k + 1] == rest[k]);
            assert(s[k + 2] == rest[k + 1]);
        }
        assert forall|j: int| 0 <= j < first_double(s, c) && j + 1 < s.len() implies !(
        #[trigger] s[j] == c && s[j + 1] == c) by {
            if j > 0 {
                assert(s[j] == rest[j - 1]);
                assert(s[j + 1] == rest[j]);
            }
        }
    }
}

/// `last_index` gives a position at which `c` stands, with no `c` after it;
/// where it gives -1, `s` holds no `c` at all.
pub proof fn last_index_is_last(s: Seq<char>, c: char)
    ensures
        -1 <= last_index(s, c) < s.len(),
        last_index(s, c) >= 0 ==> s[last_index(s, c)] == c,
        forall|j: int| last_index(s, c) < j < s.len() ==> s[j] != c,
        last_index(s, c) == -1 <==> !s.contains(c),
    decreases s.len(),
{
    if s.len() == 0 {
    } else if s.last() == c {
    } else {
        let rest = s.drop_last();
        last_index_is_last(rest, c);
        assert forall|j: int| last_index(s, c) < j < s.len() implies s[j] != c by {
            if j < s.len() - 1 {
                assert(s[j] == rest[j]);
            }
        }
        if last_index(s, c) >= 0 {
            assert(s[last_index(s, c)] == rest[last_index(rest, c)]);
        }
        if s.contains(c) {
            let k = choose|k: int| 0 <= k < s.len() && s[k] == c;
            assert(rest[k] == c);
        }
    }
}

/// Tells whether `c` is white space.
pub fn whitespace(c: char) -> (r: bool)
    ensures
        r == is_whitespace(c),
{
    (c >= '\u{9}' && c <= '\u{d}') || c == ' ' || c == '\u{85}' || c == '\u{a0}' || c
        == '\u{1680}' || (c >= '\u{2000}' && c <= '\u{200a}') || c == '\u{2028}' || c
        == '\u{2029}' || c == '\u{202f}' || c == '\u{205f}' || c == '\u{3000}'
}

/// Tells whether `c` is a digit.
pub fn digit(c: char) -> (r: bool)
    ensures
        r == is_digit(c),
{
    c >= '0' && c <= '9'
}

/// The characters of `s`, in order.
pub fn chars_of(s: &str) -> (v: Vec<char>)
    ensures
        v@ == s@,
{
    let mut v: Vec<char> = Vec::new();
    for c in it: s.chars()
        invariant
            it.seq() == s@,
            v@ == s@.take(it.index()),
    {
        v.push(c);
    }
    v
}

/// `s` without the white space around it.
pub fn trim(s: &str) -> (r: &str)
    ensures
        r@ == trimmed(s@),
{
    let chars = chars_of(s);
    let lo = skip_whitespace(&chars, 0, chars.len());
    let hi = skip_back_whitespace(&chars, lo, chars.len());
    assert(chars@.subrange(0, chars@.len() as int) =~= s@);
    s.substring_char(lo, hi)
}

/// Where the window `[lo, hi)` of `v` starts once its leading white space
/// is left out.
pub fn skip_whitespace(v: &Vec<char>, lo: usize, hi: usize) -> (k: usize)
    requires
        lo <= hi <= v@.len(),
    ensures
        lo <= k <= hi,
        v@.subrange(k as int, hi as int) == trim_start(v@.subrange(lo as int, hi as int)),
{
    let mut k: usize = lo;
    while k < hi && whitespace(v[k])
        invariant
            lo <= k <= hi <= v@.len(),
            trim_start(v@.subrange(k as int, hi as int)) == trim_start(
                v@.subrange(lo as int, hi as int),
            ),
        decreases hi - k,
    {
        assert(v@.subrange(k as int, hi as int).drop_first() =~= v@.subrange(
            k + 1,
            hi as int,
        ));
        k += 1;
    }
    k
}

/// Where the window `[lo, hi)` of `v` ends once its trailing white space is
/// left out.
pub fn skip_back_whitespace(v: &Vec<char>, lo: usize, hi: usize) -> (k: usize)
    requires
        lo <= hi <= v@.len(),
    ensures
        lo <= k <= hi,
        v@.subrange(lo as int, k as int) == trim_end(v@.subrange(lo as int, hi as int)),
{
    let mut k: usize = hi;
    while k > lo && whitespace(v[k - 1])
        invariant
            lo <= k <= hi <= v@.len(),
            trim_end(v@.subrange(lo as int, k as int)) == trim_end(
                v@.subrange(lo as int, hi as int),
            ),
        decreases k - lo,
    {
        assert(v@.subrange(lo as int, k as int).drop_last() =~= v@.subrange(
            lo as int,
            k - 1,
        ));
        k -= 1;
    }
    k
}

/// Where the window `[lo, hi)` of `v` starts once the run of `c` at its
/// front is left out.
pub fn skip_leading(v: &Vec<char>, lo: usize, hi: usize, c: char) -> (k: usize)
    requires
        lo <= hi <= v@.len(),
    ensures
        lo <= k <= hi,
        v@.subrange(k as int, hi as int) == strip_leading(v@.subrange(lo as int, hi as int), c),
{
    let mut k: usize = lo;
    while k < hi && v[k] == c
        invariant
            lo <= k <= hi <= v@.len(),
            strip_leading(v@.subrange(k as int, hi as int), c) == strip_leading(
                v@.subrange(lo as int, hi as int),
                c,
            ),
        decreases hi - k,
    {
        assert(v@.subrange(k as int, hi as int).drop_first() =~= v@.subrange(
            k + 1,
            hi as int,
        ));
        k += 1;
    }
    k
}

/// Where the word ends that the window `[lo, hi)` of `v` starts with.
pub fn skip_word(v: &Vec<char>, lo: usize, hi: usize) -> (k: usize)
    requires
        lo <= hi <= v@.len(),
    ensures
        lo <= k <= hi,
        k - lo == word_len(v@.subrange(lo as int, hi as int)),
{
    let mut k: usize = lo;
    while k < hi && !whitespace(v[k])
        invariant
            lo <= k <= hi <= v@.len(),
            word_len(v@.subrange(lo as int, hi as int)) == (k - lo) + word_len(
                v@.subrange(k as int, hi as int),
            ),
        decreases hi - k,
    {
        assert(v@.subrange(k as int, hi as int).drop_first() =~= v@.subrange(
            k + 1,
            hi as int,
        ));
        k += 1;
    }
    k
}

/// The words of `s`, in order.
pub fn split_words(s: &str) -> (r: Vec<String>)
    ensures
        r@.len() == words(s@).len(),
        forall|i: int| 0 <= i < r@.len() ==> (#[trigger] r@[i])@ == words(s@)[i],
{
    let chars = chars_of(s);
    let end = chars.len();
    let mut out: Vec<String> = Vec::new();
    let ghost mut done: Seq<Seq<char>> = Seq::empty();
    let mut k: usize = 0;
    assert(chars@.subrange(0, end as int) =~= s@);
    while k < end
        invariant
            k <= end == chars@.len(),
            chars@ == s@,
            out@.len() == done.len(),
            forall|i: int| 0 <= i < out@.len() ==> (#[trigger] out@[i])@ == done[i],
            words(s@) == done + words(chars@.subrange(k as int, end as int)),
        decreases end - k,
    {
        let ghost window = chars@.subrange(k as int, end as int);
        if whitespace(chars[k]) {
            assert(window.drop_first() =~= chars@.subrange(k + 1, end as int));
            k += 1;
        } else {
            let next = skip_word(&chars, k, end);
            proof {
                word_len_is_within(window);
                assert(window.take(next - k) =~= chars@.subrange(k as int, next as int));
                assert(window.skip(next - k) =~= chars@.subrange(next as int, end as int));
                assert(done + (seq![window.take(next - k)] + words(window.skip(next - k)))
                    =~= done.push(window.take(next - k)) + words(window.skip(next - k)));
                done = done.push(window.take(next - k));
            }
            out.push(s.substring_char(k, next).to_owned());
            k = next;
        }
    }
    assert(words(s@) =~= done);
    out
}

/// The position of the first `c` in the window `[lo, hi)` of `v`, or `hi`
/// where the window holds none.
pub fn find(v: &Vec<char>, lo: usize, hi: usize, c: char) -> (k: usize)
    requires
        lo <= hi <= v@.len(),
    ensures
        lo <= k <= hi,
        k - lo == first_index(v@.subrange(lo as int, hi as int), c),
{
    let mut k: usize = lo;
    while k < hi && v[k] != c
        invariant
            lo <= k <= hi <= v@.len(),
            first_index(v@.subrange(lo as int, hi as int), c) == (k - lo) + first_index(
                v@.subrange(k as int, hi as int),
                c,
            ),
        decreases hi - k,
    {
        assert(v@.subrange(k as int, hi as int).drop_first() =~= v@.subrange(
            k + 1,
            hi as int,
        ));
        k += 1;
    }
    k
}

/// The position of the first place in the window `[lo, hi)` of `v` where
/// `c` stands twice in a row, or `hi` where there is no such place.
pub fn find_double(v: &Vec<char>, lo: usize, hi: usize, c: char) -> (k: usize)
    requires
        lo <= hi <= v@.len(),
    ensures
        lo <= k <= hi,
        k - lo == first_double(v@.subrange(lo as int, hi as int), c),
{
    let mut k: usize = lo;
    while hi - k >= 2 && !(v[k] == c && v[k + 1] == c)
        invariant
            lo <= k <= hi <= v@.len(),
            first_double(v@.subrange(lo as int, hi as int), c) == (k - lo) + first_double(
                v@.subrange(k as int, hi as int),
                c,
            ),
        decreases hi - k,
    {
        assert(v@.subrange(k as int, hi as int).drop_first() =~= v@.subrange(
            k + 1,
            hi as int,
        ));
        k += 1;
    }
    if hi - k < 2 {
        hi
    } else {
        k
    }
}

/// The position of the last `c` in the window `[lo, hi)` of `v`, if the
/// window holds one.
pub fn find_last(v: &Vec<char>, lo: usize, hi: usize, c: char) -> (r: Option<usize>)
    requires
        lo <= hi <= v@.len(),
    ensures
        match r {
            Some(k) => lo <= k < hi && k - lo == last_index(
                v@.subrange(lo as int, hi as int),
                c,
            ),
            None => last_index(v@.subrange(lo as int, hi as int), c) == -1,
        },
{
    let mut k: usize = hi;
    while k > lo && v[k - 1] != c
        invariant
            lo <= k <= hi <= v@.len(),
            last_index(v@.subrange(lo as int, hi as int), c) == last_index(
                v@.subrange(lo as int, k as int),
                c,
            ),
        decreases k - lo,
    {
        assert(v@.subrange(lo as int, k as int).drop_last() =~= v@.subrange(
            lo as int,
            k - 1,
        ));
        k -= 1;
    }
    if k > lo {
        Some(k - 1)
    } else {
        None
    }
}

} // verus!
