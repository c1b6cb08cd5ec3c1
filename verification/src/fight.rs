//! What the cards in play are worth: the sum of the highest values, which
//! the rules on halved and cancelled cards are stated with.

use crate::cards::{Capacity, Card};
use vstd::prelude::*;

verus! {

/// The largest worth a card in play can have, in either direction: twice
/// the largest value.
pub const WORTH_LIMIT: isize = 1_000_000;

/// The index of the highest value, the first one among equals; 0 for an
/// empty sequence.
pub open spec fn peak(values: Seq<int>) -> int
    decreases values.len(),
{
    if values.len() <= 1 {
        0
    } else {
        let p = peak(values.drop_last());
        if values.last() > values[p] {
            values.len() - 1
        } else {
            p
        }
    }
}

/// The sum of the `k` highest values, or of all of them where there are
/// fewer.
pub open spec fn best(values: Seq<int>, k: nat) -> int
    decreases k,
{
    if k == 0 || values.len() == 0 {
        0
    } else {
        let p = peak(values);
        values[p] + best(values.remove(p), (k - 1) as nat)
    }
}

/// What each card of a pile adds to a fight.
pub open spec fn worths(pile: Seq<Card>) -> Seq<int> {
    pile.map_values(|c: Card| c.worth())
}

/// How many cards of a pile have the given ability and still count.
pub open spec fn acting(pile: Seq<Card>, capacity: Capacity) -> nat
    decreases pile.len(),
{
    if pile.len() == 0 {
        0
    } else {
        acting(pile.drop_last(), capacity) + if pile.last().acts_as(capacity) {
            1nat
        } else {
            0nat
        }
    }
}

/// Finds the highest value.
pub(crate) fn find_peak(values: &Vec<isize>) -> (p: usize)
    requires
        values.len() > 0,
    ensures
        p == peak(values@.map_values(|v: isize| v as int)),
        p < values.len(),
{
    let ghost ints = values@.map_values(|v: isize| v as int);
    let mut p: usize = 0;
    let mut i: usize = 1;
    assert(ints.take(1).len() == 1);
    while i < values.len()
        invariant
            1 <= i <= values.len(),
            ints == values@.map_values(|v: isize| v as int),
            p == peak(ints.take(i as int)),
            p < i,
        decreases values.len() - i,
    {
        assert(ints.take(i + 1).drop_last() =~= ints.take(i as int));
        assert(ints.take(i + 1).last() == values[i as int]);
        assert(ints.take(i as int)[p as int] == values[p as int]);
        if values[i] > values[p] {
            p = i;
        }
        i += 1;
    }
    assert(ints.take(i as int) =~= ints);
    p
}

/// Sums the `k` highest values.
pub(crate) fn sum_best(values: Vec<isize>, k: usize) -> (r: isize)
    requires
        values.len() <= 1000,
        forall|i: int|
            0 <= i < values.len() ==> -WORTH_LIMIT <= #[trigger] values[i] <= WORTH_LIMIT,
    ensures
        r == best(values@.map_values(|v: isize| v as int), k as nat),
        -1_000_000 * values.len() <= r <= 1_000_000 * values.len(),
{
    let ghost start = values@.map_values(|v: isize| v as int);
    let ghost size = values.len();
    let mut rest: Vec<isize> = values;
    let mut sum: isize = 0;
    let mut taken: usize = 0;
    while taken < k && rest.len() > 0
        invariant
            taken <= k,
            taken + rest.len() == size,
            size <= 1000,
            forall|i: int|
                0 <= i < rest.len() ==> -WORTH_LIMIT <= #[trigger] rest[i] <= WORTH_LIMIT,
            -1_000_000 * taken <= sum <= 1_000_000 * taken,
            best(start, k as nat) == sum + best(
                rest@.map_values(|v: isize| v as int),
                (k - taken) as nat,
            ),
        decreases rest.len(),
    {
        let ghost before = rest@.map_values(|v: isize| v as int);
        let p = find_peak(&rest);
        let v = rest.remove(p);
        assert(rest@.map_values(|v: isize| v as int) =~= before.remove(p as int));
        assert(before[p as int] == v);
        sum = sum + v;
        taken += 1;
    }
    proof {
        let left = rest@.map_values(|v: isize| v as int);
        assert(best(left, (k - taken) as nat) == 0);
    }
    sum
}

} // verus!
