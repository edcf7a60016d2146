//! The order of byte strings as a dictionary has it.
//!
//! Two strings are held against each other at the first place where they
//! differ; a string that ends before such a place comes first.

use std::cmp::Ordering;
use vstd::prelude::*;

verus! {

/// The number of bytes that `a` and `b` share at their front.
pub open spec fn common_prefix(a: Seq<u8>, b: Seq<u8>) -> int
    decreases a.len(),
{
    if a.len() > 0 && b.len() > 0 && a[0] == b[0] {
        1 + common_prefix(a.drop_first(), b.drop_first())
    } else {
        0
    }
}

/// How `a` orders against `b`, byte by byte.
pub open spec fn lexical_order(a: Seq<u8>, b: Seq<u8>) -> Ordering {
    let k = common_prefix(a, b);
    if k == a.len() && k == b.len() {
        Ordering::Equal
    } else if k == a.len() {
        Ordering::Less
    } else if k == b.len() {
        Ordering::Greater
    } else if a[k] < b[k] {
        Ordering::Less
    } else {
        Ordering::Greater
    }
}

/// Up to their common prefix `a` and `b` agree, and right behind it they
/// differ, unless one of them ends there.
pub proof fn common_prefix_is_common(a: Seq<u8>, b: Seq<u8>)
    ensures
        0 <= common_prefix(a, b) <= a.len(),
        common_prefix(a, b) <= b.len(),
        forall|j: int| 0 <= j < common_prefix(a, b) ==> a[j] == b[j],
        common_prefix(a, b) < a.len() && common_prefix(a, b) < b.len() ==> a[common_prefix(a, b)]
            != b[common_prefix(a, b)],
    decreases a.len(),
{
    if a.len() > 0 && b.len() > 0 && a[0] == b[0] {
        let x = a.drop_first();
        let y = b.drop_first();
        common_prefix_is_common(x, y);
        assert forall|j: int| 0 <= j < common_prefix(a, b) implies a[j] == b[j] by {
            if j > 0 {
                assert(a[j] == x[j - 1]);
                assert(b[j] == y[j - 1]);
            }
        }
        let k = common_prefix(x, y);
        if k < x.len() && k < y.len() {
            assert(a[k + 1] == x[k]);
            assert(b[k + 1] == y[k]);
        }
    }
}

/// A place up to which `a` and `b` agree, and at which they differ or one
/// of them ends, is where their common prefix ends.
pub proof fn common_prefix_is_unique(a: Seq<u8>, b: Seq<u8>, k: int)
    requires
        0 <= k <= a.len(),
        k <= b.len(),
        forall|j: int| 0 <= j < k ==> a[j] == b[j],
        k == a.len() || k == b.len() || a[k] != b[k],
    ensures
        common_prefix(a, b) == k,
{
    common_prefix_is_common(a, b);
}

/// Counts the bytes that `a` and `b` share at their front.
pub fn common_prefix_len(a: &[u8], b: &[u8]) -> (k: usize)
    ensures
        k == common_prefix(a@, b@),
{
    let mut k: usize = 0;
    while k < a.len() && k < b.len() && a[k] == b[k]
        invariant
            k <= a@.len(),
            k <= b@.len(),
            forall|j: int| 0 <= j < k ==> a@[j] == b@[j],
        decreases a@.len() - k,
    {
        k += 1;
    }
    proof {
        common_prefix_is_unique(a@, b@, k as int);
    }
    k
}

/// Compares two byte strings as a dictionary would.
pub fn compare_bytes(a: &[u8], b: &[u8]) -> (r: Ordering)
    ensures
        r == lexical_order(a@, b@),
{
    let k = common_prefix_len(a, b);
    proof {
        common_prefix_is_common(a@, b@);
    }
    if k == a.len() && k == b.len() {
        Ordering::Equal
    } else if k == a.len() {
        Ordering::Less
    } else if k == b.len() {
        Ordering::Greater
    } else if a[k] < b[k] {
        Ordering::Less
    } else {
        Ordering::Greater
    }
}

/// Two byte strings order as equal exactly when they are the same string.
pub proof fn lexical_order_equal_is_same(a: Seq<u8>, b: Seq<u8>)
    ensures
        lexical_order(a, b) == Ordering::Equal <==> a == b,
{
    common_prefix_is_common(a, b);
    if lexical_order(a, b) == Ordering::Equal {
        assert(a =~= b);
    }
}

/// If `a` comes before `b`, then `b` comes after `a`, and the other way
/// round.
pub proof fn lexical_order_is_antisymmetric(a: Seq<u8>, b: Seq<u8>)
    ensures
        lexical_order(a, b) == Ordering::Less <==> lexical_order(b, a) == Ordering::Greater,
        lexical_order(a, b) == Ordering::Equal <==> lexical_order(b, a) == Ordering::Equal,
{
    common_prefix_is_common(a, b);
    common_prefix_is_unique(b, a, common_prefix(a, b));
}

/// If `a` comes before `b` and `b` before `c`, then `a` comes before `c`.
pub proof fn lexical_order_is_transitive(a: Seq<u8>, b: Seq<u8>, c: Seq<u8>)
    requires
        lexical_order(a, b) == Ordering::Less,
        lexical_order(b, c) == Ordering::Less,
    ensures
        lexical_order(a, c) == Ordering::Less,
{
    common_prefix_is_common(a, b);
    common_prefix_is_common(b, c);
    let first: int = common_prefix(a, b);
    let second: int = common_prefix(b, c);
    let k: int = if first < second {
        first
    } else {
        second
    };
    common_prefix_is_unique(a, c, k);
}

} // verus!
