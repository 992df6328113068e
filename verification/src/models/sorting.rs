//! Stable sorting of price levels by price.
//!
//! A sorted side of the book is fixed by two facts: its levels are in order
//! of price, and the levels of any one price stand in the order in which they
//! came. [`is_stable_sort_of`] states both, and
//! [`lemma_stable_sort_is_unique`] shows that they leave no choice.

use crate::models::price::{price_le, price_rank, PriceLevel};
use vstd::prelude::*;

verus! {

/// The integer by which a level is placed: the rank of its price, negated on
/// the side that runs from the highest price down.
pub open spec fn sort_key(level: PriceLevel, descending: bool) -> int {
    if descending {
        -price_rank(level.0)
    } else {
        price_rank(level.0)
    }
}

/// No level stands before one of a smaller key.
pub open spec fn in_order(s: Seq<PriceLevel>, descending: bool) -> bool {
    forall|i: int, j: int|
        0 <= i < j < s.len() ==> sort_key(s[i], descending) <= sort_key(s[j], descending)
}

/// Prices never fall from one level to the next.
pub open spec fn ascending_by_price(s: Seq<PriceLevel>) -> bool {
    forall|i: int, j: int| 0 <= i < j < s.len() ==> price_rank(s[i].0) <= price_rank(s[j].0)
}

/// Prices never rise from one level to the next.
pub open spec fn descending_by_price(s: Seq<PriceLevel>) -> bool {
    forall|i: int, j: int| 0 <= i < j < s.len() ==> price_rank(s[i].0) >= price_rank(s[j].0)
}

/// The test for a level whose price has the given rank.
pub open spec fn at_rank(rank: int) -> spec_fn(PriceLevel) -> bool {
    |level: PriceLevel| price_rank(level.0) == rank
}

/// The levels of one price, in the order in which the sequence holds them.
pub open spec fn levels_at(s: Seq<PriceLevel>, rank: int) -> Seq<PriceLevel> {
    s.filter(at_rank(rank))
}

/// Both sequences hold the same levels at every price, in the same order.
pub open spec fn same_levels_at_each_price(a: Seq<PriceLevel>, b: Seq<PriceLevel>) -> bool {
    forall|rank: int| #[trigger] levels_at(a, rank) == levels_at(b, rank)
}

/// `sorted` is `input` put in order of price, levels of equal price left in
/// the order in which `input` holds them.
pub open spec fn is_stable_sort_of(
    sorted: Seq<PriceLevel>,
    input: Seq<PriceLevel>,
    descending: bool,
) -> bool {
    &&& in_order(sorted, descending)
    &&& same_levels_at_each_price(sorted, input)
}

/// Appending a level adds it to the levels of its own price and to no other.
pub proof fn lemma_levels_at_push(s: Seq<PriceLevel>, level: PriceLevel, rank: int)
    ensures
        levels_at(s.push(level), rank) == if price_rank(level.0) == rank {
            levels_at(s, rank).push(level)
        } else {
            levels_at(s, rank)
        },
{
    s.lemma_filter_push(level, at_rank(rank));
}

/// A sequence without a level at a price has none to show for it.
pub proof fn lemma_levels_at_absent(s: Seq<PriceLevel>, rank: int)
    requires
        forall|k: int| 0 <= k < s.len() ==> price_rank(#[trigger] s[k].0) != rank,
    ensures
        levels_at(s, rank) == Seq::<PriceLevel>::empty(),
    decreases s.len(),
{
    if s.len() > 0 {
        let rest = s.drop_last();
        lemma_levels_at_absent(rest, rank);
        assert(s == rest.push(s.last()));
        lemma_levels_at_push(rest, s.last(), rank);
    } else {
        reveal_with_fuel(Seq::filter, 1);
    }
}

/// The levels of one price in a concatenation are those of the first part
/// followed by those of the second.
pub proof fn lemma_levels_at_concat(a: Seq<PriceLevel>, b: Seq<PriceLevel>, rank: int)
    ensures
        levels_at(a + b, rank) == levels_at(a, rank) + levels_at(b, rank),
{
    Seq::filter_distributes_over_add(a, b, at_rank(rank));
}

fn key_le(a: PriceLevel, b: PriceLevel, descending: bool) -> (r: bool)
    ensures
        r == (sort_key(a, descending) <= sort_key(b, descending)),
{
    if descending {
        price_le(b.0, a.0)
    } else {
        price_le(a.0, b.0)
    }
}

/// Merges two ordered runs into one. Where a level of each has the same
/// price, the one of `left` goes first.
fn merge(left: &Vec<PriceLevel>, right: &Vec<PriceLevel>, descending: bool) -> (out: Vec<
    PriceLevel,
>)
    requires
        in_order(left@, descending),
        in_order(right@, descending),
    ensures
        in_order(out@, descending),
        forall|rank: int| #[trigger]
            levels_at(out@, rank) == levels_at(left@, rank) + levels_at(right@, rank),
{
    let mut out: Vec<PriceLevel> = Vec::new();
    let mut i: usize = 0;
    let mut j: usize = 0;
    proof {
        assert forall|rank: int| #[trigger]
            levels_at(out@, rank) == levels_at(left@.take(0), rank) + levels_at(
                right@.take(0),
                rank,
            ) by {
            lemma_levels_at_absent(out@, rank);
            lemma_levels_at_absent(left@.take(0), rank);
            lemma_levels_at_absent(right@.take(0), rank);
        }
    }
    while i < left.len() || j < right.len()
        invariant
            i <= left.len(),
            j <= right.len(),
            out@.len() == i + j,
            in_order(left@, descending),
            in_order(right@, descending),
            in_order(out@, descending),
            forall|k: int|
                0 <= k < out@.len() && i < left.len() ==> sort_key(#[trigger] out@[k], descending)
                    <= sort_key(left@[i as int], descending),
            forall|k: int|
                0 <= k < out@.len() && j < right.len() ==> sort_key(
                    #[trigger] out@[k],
                    descending,
                ) <= sort_key(right@[j as int], descending),
            forall|k: int|
                0 <= k < j && i < left.len() ==> sort_key(#[trigger] right@[k], descending)
                    < sort_key(left@[i as int], descending),
            forall|rank: int| #[trigger]
                levels_at(out@, rank) == levels_at(left@.take(i as int), rank) + levels_at(
                    right@.take(j as int),
                    rank,
                ),
        decreases left.len() - i + right.len() - j,
    {
        let from_left = if i == left.len() {
            false
        } else if j == right.len() {
            true
        } else {
            key_le(left[i], right[j], descending)
        };
        let ghost before = out@;
        if from_left {
            let level = left[i];
            out.push(level);
            proof {
                assert(left@.take(i + 1) == left@.take(i as int).push(level));
                assert forall|rank: int| #[trigger]
                    levels_at(out@, rank) == levels_at(left@.take(i + 1), rank) + levels_at(
                        right@.take(j as int),
                        rank,
                    ) by {
                    lemma_levels_at_push(before, level, rank);
                    lemma_levels_at_push(left@.take(i as int), level, rank);
                    if price_rank(level.0) == rank {
                        lemma_levels_at_absent(right@.take(j as int), rank);
                    }
                }
            }
            i += 1;
        } else {
            let level = right[j];
            out.push(level);
            proof {
                assert(right@.take(j + 1) == right@.take(j as int).push(level));
                assert forall|rank: int| #[trigger]
                    levels_at(out@, rank) == levels_at(left@.take(i as int), rank) + levels_at(
                        right@.take(j + 1),
                        rank,
                    ) by {
                    lemma_levels_at_push(before, level, rank);
                    lemma_levels_at_push(right@.take(j as int), level, rank);
                }
            }
            j += 1;
        }
    }
    proof {
        assert(left@.take(i as int) == left@);
        assert(right@.take(j as int) == right@);
    }
    out
}

/// Sorts the levels of `v` from index `lo` up to `hi`, into a vector of their own.
fn sort_range(v: &Vec<PriceLevel>, lo: usize, hi: usize, descending: bool) -> (out: Vec<
    PriceLevel,
>)
    requires
        lo <= hi <= v.len(),
    ensures
        is_stable_sort_of(out@, v@.subrange(lo as int, hi as int), descending),
    decreases hi - lo,
{
    let ghost input = v@.subrange(lo as int, hi as int);
    if hi - lo <= 1 {
        let mut out: Vec<PriceLevel> = Vec::new();
        if hi - lo == 1 {
            out.push(v[lo]);
        }
        proof {
            assert(out@ == input);
        }
        return out;
    }
    let mid = lo + (hi - lo) / 2;
    let left = sort_range(v, lo, mid, descending);
    let right = sort_range(v, mid, hi, descending);
    let out = merge(&left, &right, descending);
    proof {
        let first = v@.subrange(lo as int, mid as int);
        let second = v@.subrange(mid as int, hi as int);
        assert(input == first + second);
        assert forall|rank: int| #[trigger] levels_at(out@, rank) == levels_at(input, rank) by {
            lemma_levels_at_concat(first, second, rank);
        }
    }
    out
}

/// Puts the levels in order of price, from the lowest up or, with
/// `descending`, from the highest down. Levels of equal price keep the order
/// in which they stood.
pub fn sort_levels(levels: &mut Vec<PriceLevel>, descending: bool)
    ensures
        is_stable_sort_of(final(levels)@, old(levels)@, descending),
        final(levels)@.to_multiset() == old(levels)@.to_multiset(),
        final(levels)@.len() == old(levels)@.len(),
{
    let sorted = sort_range(levels, 0, levels.len(), descending);
    proof {
        assert(levels@.subrange(0, levels@.len() as int) == levels@);
        lemma_same_levels_same_multiset(sorted@, levels@);
        sorted@.to_multiset_ensures();
        levels@.to_multiset_ensures();
    }
    *levels = sorted;
}

/// A level occurs in a sequence as often as among the levels of its price.
pub proof fn lemma_count_at_own_price(s: Seq<PriceLevel>, level: PriceLevel)
    ensures
        s.to_multiset().count(level) == levels_at(s, price_rank(level.0)).to_multiset().count(
            level,
        ),
    decreases s.len(),
{
    broadcast use vstd::seq_lib::group_to_multiset_ensures;

    let rank = price_rank(level.0);
    if s.len() == 0 {
        lemma_levels_at_absent(s, rank);
    } else {
        let rest = s.drop_last();
        lemma_count_at_own_price(rest, level);
        assert(s == rest.push(s.last()));
        lemma_levels_at_push(rest, s.last(), rank);
    }
}

/// Sequences that agree on the levels of every price hold the same levels,
/// each as often in one as in the other.
pub proof fn lemma_same_levels_same_multiset(a: Seq<PriceLevel>, b: Seq<PriceLevel>)
    requires
        same_levels_at_each_price(a, b),
    ensures
        a.to_multiset() == b.to_multiset(),
{
    assert forall|level: PriceLevel|
        a.to_multiset().count(level) == b.to_multiset().count(level) by {
        lemma_count_at_own_price(a, level);
        lemma_count_at_own_price(b, level);
    }
}

/// A sequence that holds a level at a price has an index that shows it.
proof fn lemma_levels_at_witness(s: Seq<PriceLevel>, rank: int) -> (k: int)
    requires
        levels_at(s, rank).len() > 0,
    ensures
        0 <= k < s.len(),
        price_rank(s[k].0) == rank,
{
    if forall|i: int| 0 <= i < s.len() ==> price_rank(#[trigger] s[i].0) != rank {
        lemma_levels_at_absent(s, rank);
    }
    choose|i: int| 0 <= i < s.len() && price_rank(#[trigger] s[i].0) == rank
}

/// Order of price, with the levels of each price in a given order, leaves no
/// choice: two ordered sequences that agree on the levels of every price are
/// the same sequence.
pub proof fn lemma_stable_sort_is_unique(a: Seq<PriceLevel>, b: Seq<PriceLevel>, descending: bool)
    requires
        in_order(a, descending),
        in_order(b, descending),
        same_levels_at_each_price(a, b),
    ensures
        a == b,
    decreases a.len(),
{
    lemma_same_levels_same_multiset(a, b);
    a.to_multiset_ensures();
    b.to_multiset_ensures();
    if a.len() > 0 {
        let x = a.last();
        let y = b.last();
        let a0 = a.drop_last();
        let b0 = b.drop_last();
        let rx = price_rank(x.0);
        let ry = price_rank(y.0);
        assert(a == a0.push(x));
        assert(b == b0.push(y));
        lemma_levels_at_push(a0, x, rx);
        lemma_levels_at_push(b0, y, ry);
        // Each last level has a price that the other sequence holds too, and
        // no later than its own last level: the two prices are the same.
        let kb = lemma_levels_at_witness(b, rx);
        let ka = lemma_levels_at_witness(a, ry);
        assert(sort_key(b[kb], descending) <= sort_key(y, descending));
        assert(sort_key(a[ka], descending) <= sort_key(x, descending));
        assert(rx == ry);
        // So both are the last of the levels at that price.
        assert(levels_at(a0, rx).push(x).last() == x);
        assert(levels_at(b0, rx).push(y).last() == y);
        assert(x == y);
        assert forall|rank: int| #[trigger] levels_at(a0, rank) == levels_at(b0, rank) by {
            lemma_levels_at_push(a0, x, rank);
            lemma_levels_at_push(b0, y, rank);
            if rank == rx {
                assert(levels_at(b0, rank) == levels_at(b0, rank).push(y).drop_last());
            }
        }
        lemma_stable_sort_is_unique(a0, b0, descending);
    }
}

/// Two stable sorts of one input are equal, so [`is_stable_sort_of`] names
/// one sequence.
pub proof fn lemma_stable_sort_is_determined(
    first: Seq<PriceLevel>,
    second: Seq<PriceLevel>,
    input: Seq<PriceLevel>,
    descending: bool,
)
    requires
        is_stable_sort_of(first, input, descending),
        is_stable_sort_of(second, input, descending),
    ensures
        first == second,
{
    lemma_stable_sort_is_unique(first, second, descending);
}

/// The ascending side is in order of rising price, the descending side in
/// order of falling price.
pub proof fn lemma_in_order_by_price(s: Seq<PriceLevel>)
    ensures
        in_order(s, false) <==> ascending_by_price(s),
        in_order(s, true) <==> descending_by_price(s),
{
}

} // verus!
