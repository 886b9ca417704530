//! Pairs of positions in a list: neighbours two by two, overlapping
//! neighbours, and every pair in order.

use vstd::prelude::*;
use itertools::Itertools;

verus! {

/// The positions `from, from + 1, ..` below `to`, two by two:
/// `(from, from + 1), (from + 2, from + 3), ..`. A position left alone at
/// the end belongs to no pair.
pub open spec fn tuples_of(from: usize, to: usize) -> Seq<(usize, usize)> {
    if to <= from {
        Seq::empty()
    } else {
        Seq::new(
            ((to - from) / 2) as nat,
            |i: int| ((from + 2 * i) as usize, (from + 2 * i + 1) as usize),
        )
    }
}

/// Each of the first `count` positions with its successor:
/// `(0, 1), (1, 2), ..`.
pub open spec fn windows_of(count: usize) -> Seq<(usize, usize)> {
    if count == 0 {
        Seq::empty()
    } else {
        Seq::new((count - 1) as nat, |i: int| (i as usize, (i + 1) as usize))
    }
}

/// The pairs `(first, first + 1), .., (first, count - 1)`.
pub open spec fn pairs_led_by(first: usize, count: usize) -> Seq<(usize, usize)> {
    if count <= first + 1 {
        Seq::empty()
    } else {
        Seq::new((count - first - 1) as nat, |i: int| (first, (first + 1 + i) as usize))
    }
}

/// Every pair `(i, j)` with `from <= i < j < count`, ordered by `i`, then
/// by `j`.
pub open spec fn combinations_from(from: usize, count: usize) -> Seq<(usize, usize)>
    decreases count - from,
{
    if count <= from {
        Seq::empty()
    } else {
        pairs_led_by(from, count) + combinations_from((from + 1) as usize, count)
    }
}

/// Every pair `(i, j)` with `i < j < count`, ordered by `i`, then by `j`.
pub open spec fn combinations_of(count: usize) -> Seq<(usize, usize)> {
    combinations_from(0, count)
}

/// `Itertools::tuples` on the range `from..to`: the range's items in
/// groups of two, in order, without the item that is left over.
#[verifier::external_body]
pub(crate) fn index_tuples(from: usize, to: usize) -> (pairs: Vec<(usize, usize)>)
    ensures
        pairs@ == tuples_of(from, to),
{
    (from..to).tuples().collect()
}

/// `Itertools::tuple_windows` on the range `0..count`: each item with the
/// next one, in order.
#[verifier::external_body]
pub(crate) fn index_windows(count: usize) -> (pairs: Vec<(usize, usize)>)
    ensures
        pairs@ == windows_of(count),
{
    (0..count).tuple_windows().collect()
}

/// `Itertools::tuple_combinations` on the range `0..count`: every pair of
/// two different items, the smaller first, ordered by the first item and
/// then by the second.
#[verifier::external_body]
pub(crate) fn index_combinations(count: usize) -> (pairs: Vec<(usize, usize)>)
    ensures
        pairs@ == combinations_of(count),
{
    (0..count).tuple_combinations().collect()
}

/// Every pair of `combinations_from(from, count)` lies in order below
/// `count`.
pub proof fn combinations_are_ordered(from: usize, count: usize, k: int)
    requires
        0 <= k < combinations_from(from, count).len(),
    ensures
        from <= combinations_from(from, count)[k].0 < combinations_from(from, count)[k].1 < count,
    decreases count - from,
{
    if count <= from {
    } else {
        let head = pairs_led_by(from, count);
        if k < head.len() {
        } else {
            combinations_are_ordered((from + 1) as usize, count, k - head.len());
        }
    }
}

} // verus!
