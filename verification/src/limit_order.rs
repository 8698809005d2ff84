//! How limits compare: by their ranges of sizes. A limit is greater than
//! another when its range strictly contains the other's, less when it lies
//! strictly within it; two limits whose ranges do not nest are not ordered.
use vstd::prelude::*;
use core::cmp::Ordering;
use crate::memory::Limit;

verus! {

/// Whether the range of sizes of `a` contains that of `b`: a minimum no
/// greater, and no maximum or one no smaller.
pub open spec fn limit_contains(a: Limit, b: Limit) -> bool {
    match (a, b) {
        (Limit::NoUpperLimit(min), Limit::NoUpperLimit(min_other)) => min <= min_other,
        (Limit::NoUpperLimit(min), Limit::HasUpperLimit(min_other, _)) => min <= min_other,
        (Limit::HasUpperLimit(_, _), Limit::NoUpperLimit(_)) => false,
        (Limit::HasUpperLimit(min, max), Limit::HasUpperLimit(min_other, max_other)) => min <= min_other && max_other <= max,
    }
}

/// How `a` compares with `b`: equal when each range contains the other,
/// greater when only the range of `a` contains the other, less when only the
/// range of `b` does, and unordered otherwise.
pub open spec fn limit_order(a: Limit, b: Limit) -> Option<Ordering> {
    if limit_contains(a, b) && limit_contains(b, a) {
        Some(Ordering::Equal)
    } else if limit_contains(a, b) {
        Some(Ordering::Greater)
    } else if limit_contains(b, a) {
        Some(Ordering::Less)
    } else {
        None
    }
}

/// Whether `a` is greater than `b`.
pub open spec fn limit_greater(a: Limit, b: Limit) -> bool {
    limit_order(a, b) == Some(Ordering::Greater)
}

/// Whether `a` is less than `b` or equal to it: its range lies within that of `b`.
pub open spec fn limit_within(a: Limit, b: Limit) -> bool {
    limit_contains(b, a)
}

/// Swapping two limits swaps `Less` and `Greater`; only equal limits compare
/// as equal.
pub proof fn lemma_limit_order_dual(a: Limit, b: Limit)
    ensures
        limit_order(a, b) == Some(Ordering::Less) <==> limit_order(b, a) == Some(Ordering::Greater),
        limit_order(a, b) == Some(Ordering::Greater) <==> limit_order(b, a) == Some(Ordering::Less),
        limit_order(a, b) == Some(Ordering::Equal) <==> a == b,
        limit_order(a, b) is None <==> limit_order(b, a) is None,
{
}

/// Whether the range of sizes of `a` contains that of `b`.
pub fn limit_contains_exec(a: &Limit, b: &Limit) -> (r: bool)
    ensures
        r == limit_contains(*a, *b),
{
    match (a, b) {
        (Limit::NoUpperLimit(min), Limit::NoUpperLimit(min_other)) => *min <= *min_other,
        (Limit::NoUpperLimit(min), Limit::HasUpperLimit(min_other, _)) => *min <= *min_other,
        (Limit::HasUpperLimit(_, _), Limit::NoUpperLimit(_)) => false,
        (Limit::HasUpperLimit(min, max), Limit::HasUpperLimit(min_other, max_other)) => *min <= *min_other && *max_other <= *max,
    }
}

/// Compares two limits by their ranges of sizes.
pub fn limit_cmp(a: &Limit, b: &Limit) -> (r: Option<Ordering>)
    ensures
        r == limit_order(*a, *b),
{
    let ab = limit_contains_exec(a, b);
    let ba = limit_contains_exec(b, a);
    if ab && ba {
        Some(Ordering::Equal)
    } else if ab {
        Some(Ordering::Greater)
    } else if ba {
        Some(Ordering::Less)
    } else {
        None
    }
}

/// Whether `a` is greater than `b`.
pub fn limit_gt(a: &Limit, b: &Limit) -> (r: bool)
    ensures
        r == limit_greater(*a, *b),
{
    match limit_cmp(a, b) {
        Some(Ordering::Greater) => true,
        Some(Ordering::Less) => false,
        Some(Ordering::Equal) => false,
        None => false,
    }
}

/// Whether the range of `a` lies within that of `b`.
pub fn limit_le(a: &Limit, b: &Limit) -> (r: bool)
    ensures
        r == limit_within(*a, *b),
{
    limit_contains_exec(b, a)
}

} // verus!
