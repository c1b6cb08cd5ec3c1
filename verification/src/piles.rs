//! Piles of cards as sequences: what a pile holds regardless of order, sums
//! over a pile, and the shuffle.

use crate::cards::{Card, CardDescription};
use rand::seq::SliceRandom;
use vstd::multiset::Multiset;
use vstd::prelude::*;
use vstd::seq_lib::{
    to_multiset_build, to_multiset_contains, to_multiset_len, to_multiset_remove,
};

verus! {

/// Which catalog entries a pile holds, each as often as it occurs. The marks
/// on the cards and the order of the pile do not count.
pub open spec fn ids(pile: Seq<Card>) -> Multiset<CardDescription> {
    pile.map_values(|c: Card| c.description).to_multiset()
}

/// The sum of `weight` over the cards of a pile.
pub open spec fn total(pile: Seq<Card>, weight: spec_fn(Card) -> int) -> int
    decreases pile.len(),
{
    if pile.len() == 0 {
        0
    } else {
        total(pile.drop_last(), weight) + weight(pile.last())
    }
}

/// Every card of the pile, with its marks taken off.
pub open spec fn cleared(pile: Seq<Card>) -> Seq<Card> {
    pile.map_values(|c: Card| c.cleared())
}

/// Whether something holds of every card of a pile.
pub open spec fn every(pile: Seq<Card>, holds: spec_fn(Card) -> bool) -> bool {
    forall|i: int| 0 <= i < pile.len() ==> holds(#[trigger] pile[i])
}

/// An empty pile holds nothing.
pub proof fn lemma_ids_empty()
    ensures
        ids(Seq::<Card>::empty()) == Multiset::<CardDescription>::empty(),
        ids(Seq::<Card>::empty()).len() == 0,
{
    let e = Seq::<Card>::empty().map_values(|c: Card| c.description);
    assert(e =~= Seq::<CardDescription>::empty());
    to_multiset_len(e);
    assert(ids(Seq::<Card>::empty()) =~= Multiset::<CardDescription>::empty()) by {
        broadcast use vstd::multiset::group_multiset_axioms;

        assert(forall|d: CardDescription| ids(Seq::<Card>::empty()).count(d) == 0) by {
            assert forall|d: CardDescription| ids(Seq::<Card>::empty()).count(d) == 0 by {
                if ids(Seq::<Card>::empty()).count(d) > 0 {
                    vstd::multiset::axiom_count_le_len(ids(Seq::<Card>::empty()), d);
                }
            }
        }
    }
}

/// A pile holds as many entries as it has cards.
pub proof fn lemma_ids_len(pile: Seq<Card>)
    ensures
        ids(pile).len() == pile.len(),
{
    to_multiset_len(pile.map_values(|c: Card| c.description));
}

/// A card put on a pile adds its entry.
pub proof fn lemma_ids_push(pile: Seq<Card>, card: Card)
    ensures
        ids(pile.push(card)) == ids(pile).insert(card.description),
{
    let f = |c: Card| c.description;
    assert(pile.push(card).map_values(f) =~= pile.map_values(f).push(card.description));
    to_multiset_build(pile.map_values(f), card.description);
}

/// Two piles put together hold what both held.
pub proof fn lemma_ids_add(a: Seq<Card>, b: Seq<Card>)
    ensures
        ids(a + b) == ids(a).add(ids(b)),
    decreases b.len(),
{
    broadcast use vstd::multiset::group_multiset_axioms;

    if b.len() == 0 {
        assert(a + b =~= a);
        lemma_ids_empty();
        assert(b =~= Seq::<Card>::empty());
        assert(ids(a).add(ids(b)) =~= ids(a));
    } else {
        lemma_ids_add(a, b.drop_last());
        assert(a + b =~= (a + b.drop_last()).push(b.last()));
        assert(b =~= b.drop_last().push(b.last()));
        lemma_ids_push(a + b.drop_last(), b.last());
        lemma_ids_push(b.drop_last(), b.last());
        assert(ids(a + b) =~= ids(a).add(ids(b)));
    }
}

/// A card taken out of a pile takes its entry along.
pub proof fn lemma_ids_remove(pile: Seq<Card>, i: int)
    requires
        0 <= i < pile.len(),
    ensures
        ids(pile.remove(i)) == ids(pile).remove(pile[i].description),
        ids(pile) == ids(pile.remove(i)).insert(pile[i].description),
{
    broadcast use vstd::multiset::group_multiset_axioms;

    let f = |c: Card| c.description;
    assert(pile.remove(i).map_values(f) =~= pile.map_values(f).remove(i));
    to_multiset_remove(pile.map_values(f), i);
    pile.map_values(f).to_multiset_ensures();
    assert(pile.map_values(f).contains(pile[i].description)) by {
        assert(pile.map_values(f)[i] == pile[i].description);
    }
    assert(ids(pile) =~= ids(pile.remove(i)).insert(pile[i].description));
}

/// A card put into a pile at any place adds its entry.
pub proof fn lemma_ids_insert(pile: Seq<Card>, i: int, card: Card)
    requires
        0 <= i <= pile.len(),
    ensures
        ids(pile.insert(i, card)) == ids(pile).insert(card.description),
{
    let q = pile.insert(i, card);
    assert(q.remove(i) =~= pile);
    lemma_ids_remove(q, i);
}

/// A card replaced in a pile exchanges its entry for the new one.
pub proof fn lemma_ids_update(pile: Seq<Card>, i: int, card: Card)
    requires
        0 <= i < pile.len(),
    ensures
        ids(pile.update(i, card)).insert(pile[i].description) == ids(pile).insert(
            card.description,
        ),
        card.description == pile[i].description ==> ids(pile.update(i, card)) == ids(pile),
{
    broadcast use vstd::multiset::group_multiset_axioms;

    let q = pile.update(i, card);
    assert(q.remove(i) =~= pile.remove(i));
    lemma_ids_remove(q, i);
    lemma_ids_remove(pile, i);
    assert(ids(q).insert(pile[i].description) =~= ids(pile).insert(card.description));
    if card.description == pile[i].description {
        assert(ids(q) =~= ids(pile));
    }
}

/// A pile cut in two holds what its two parts hold.
pub proof fn lemma_ids_split(pile: Seq<Card>, k: int)
    requires
        0 <= k <= pile.len(),
    ensures
        ids(pile) == ids(pile.subrange(0, k)).add(ids(pile.subrange(k, pile.len() as int))),
{
    assert(pile =~= pile.subrange(0, k) + pile.subrange(k, pile.len() as int));
    lemma_ids_add(pile.subrange(0, k), pile.subrange(k, pile.len() as int));
}

/// Taking the marks off changes nothing in what a pile holds.
pub proof fn lemma_ids_cleared(pile: Seq<Card>)
    ensures
        ids(cleared(pile)) == ids(pile),
{
    assert(cleared(pile).map_values(|c: Card| c.description) =~= pile.map_values(
        |c: Card| c.description,
    ));
}

/// A pile turned over holds the same entries.
pub proof fn lemma_ids_reverse(pile: Seq<Card>)
    ensures
        ids(pile.reverse()) == ids(pile),
{
    let f = |c: Card| c.description;
    assert(pile.reverse().map_values(f) =~= pile.map_values(f).reverse());
    pile.map_values(f).lemma_reverse_to_multiset();
}

/// Two piles that are shuffles of each other hold the same entries.
pub proof fn lemma_ids_shuffled(a: Seq<Card>, b: Seq<Card>)
    requires
        a.to_multiset() == b.to_multiset(),
    ensures
        ids(a) == ids(b),
        a.len() == b.len(),
    decreases a.len(),
{
    broadcast use vstd::multiset::group_multiset_axioms;

    to_multiset_len(a);
    to_multiset_len(b);
    if a.len() == 0 {
        assert(a =~= b);
    } else {
        let x = a.last();
        assert(a.contains(x)) by {
            assert(a[a.len() - 1] == x);
        }
        to_multiset_contains(a, x);
        to_multiset_contains(b, x);
        let i = b.index_of(x);
        assert(0 <= i < b.len() && b[i] == x);
        assert(a.drop_last() =~= a.remove(a.len() - 1));
        to_multiset_remove(a, a.len() - 1);
        to_multiset_remove(b, i);
        lemma_ids_shuffled(a.drop_last(), b.remove(i));
        lemma_ids_remove(a, a.len() - 1);
        lemma_ids_remove(b, i);
    }
}

/// A card put on a pile adds its weight to the sum.
pub proof fn lemma_total_push(pile: Seq<Card>, card: Card, weight: spec_fn(Card) -> int)
    ensures
        total(pile.push(card), weight) == total(pile, weight) + weight(card),
{
    assert(pile.push(card).drop_last() =~= pile);
}

/// The sum over two piles put together is the sum of their sums.
pub proof fn lemma_total_add(a: Seq<Card>, b: Seq<Card>, weight: spec_fn(Card) -> int)
    ensures
        total(a + b, weight) == total(a, weight) + total(b, weight),
    decreases b.len(),
{
    if b.len() == 0 {
        assert(a + b =~= a);
    } else {
        lemma_total_add(a, b.drop_last(), weight);
        assert((a + b).drop_last() =~= a + b.drop_last());
    }
}

/// A card taken out of a pile takes its weight off the sum.
pub proof fn lemma_total_remove(pile: Seq<Card>, i: int, weight: spec_fn(Card) -> int)
    requires
        0 <= i < pile.len(),
    ensures
        total(pile, weight) == total(pile.remove(i), weight) + weight(pile[i]),
{
    let head = pile.subrange(0, i);
    let tail = pile.subrange(i + 1, pile.len() as int);
    assert(pile =~= head.push(pile[i]) + tail);
    assert(pile.remove(i) =~= head + tail);
    lemma_total_add(head.push(pile[i]), tail, weight);
    lemma_total_add(head, tail, weight);
    lemma_total_push(head, pile[i], weight);
}

/// A sum over a pile does not depend on the order of the pile.
pub proof fn lemma_total_shuffled(a: Seq<Card>, b: Seq<Card>, weight: spec_fn(Card) -> int)
    requires
        a.to_multiset() == b.to_multiset(),
    ensures
        total(a, weight) == total(b, weight),
    decreases a.len(),
{
    broadcast use vstd::multiset::group_multiset_axioms;

    to_multiset_len(a);
    to_multiset_len(b);
    if a.len() == 0 {
        assert(a =~= b);
    } else {
        let x = a.last();
        assert(a.contains(x)) by {
            assert(a[a.len() - 1] == x);
        }
        to_multiset_contains(a, x);
        to_multiset_contains(b, x);
        let i = b.index_of(x);
        assert(0 <= i < b.len() && b[i] == x);
        assert(a.drop_last() =~= a.remove(a.len() - 1));
        to_multiset_remove(a, a.len() - 1);
        to_multiset_remove(b, i);
        lemma_total_shuffled(a.drop_last(), b.remove(i), weight);
        lemma_total_remove(b, i, weight);
    }
}

/// A sum of weights that are never negative is itself not negative, and no
/// part of the pile weighs more than the whole.
pub proof fn lemma_total_bounds(pile: Seq<Card>, weight: spec_fn(Card) -> int, low: int, high: int)
    requires
        forall|i: int| 0 <= i < pile.len() ==> low <= #[trigger] weight(pile[i]) <= high,
    ensures
        low * pile.len() <= total(pile, weight) <= high * pile.len(),
    decreases pile.len(),
{
    if pile.len() > 0 {
        assert forall|i: int| 0 <= i < pile.drop_last().len() implies low <= #[trigger] weight(
            pile.drop_last()[i],
        ) <= high by {
            assert(pile.drop_last()[i] == pile[i]);
        }
        lemma_total_bounds(pile.drop_last(), weight, low, high);
        assert(low * pile.len() == low * (pile.len() - 1) + low) by (nonlinear_arith);
        assert(high * pile.len() == high * (pile.len() - 1) + high) by (nonlinear_arith);
    }
}

/// What holds of every card before a shuffle holds of every card after it.
pub proof fn lemma_every_shuffled(a: Seq<Card>, b: Seq<Card>, holds: spec_fn(Card) -> bool)
    requires
        a.to_multiset() == b.to_multiset(),
        every(a, holds),
    ensures
        every(b, holds),
{
    broadcast use vstd::multiset::group_multiset_axioms;

    assert forall|i: int| 0 <= i < b.len() implies holds(#[trigger] b[i]) by {
        assert(b.contains(b[i]));
        to_multiset_contains(a, b[i]);
        to_multiset_contains(b, b[i]);
        let j = a.index_of(b[i]);
        assert(0 <= j < a.len() && a[j] == b[i]);
        assert(holds(a[j]));
    }
}

/// The generator that orders the piles. A game holds one; a seeded one
/// makes a game that can be played again move for move.
#[verifier::external_type_specification]
#[verifier::external_body]
pub struct ExStdRng(rand::rngs::StdRng);

/// `rand::seq::SliceRandom::shuffle` on the pile: the cards are put in a
/// random order by exchanging them in place, so the pile holds the same
/// cards afterwards. Which order comes out is not stated.
#[verifier::external_body]
pub(crate) fn shuffle(rng: &mut rand::rngs::StdRng, pile: &mut Vec<Card>)
    ensures
        final(pile)@.to_multiset() == old(pile)@.to_multiset(),
{
    pile.as_mut_slice().shuffle(rng);
}

/// `rand::SeedableRng::from_rng` for `StdRng`, on a fresh
/// `rand::rngs::EntropyRng`: a generator seeded by the system, or nothing
/// where every source of entropy fails. Nothing is stated of the
/// generator.
#[verifier::external_body]
pub(crate) fn entropy_rng() -> Option<rand::rngs::StdRng> {
    match rand::SeedableRng::from_rng(rand::rngs::EntropyRng::new()) {
        Ok(rng) => Some(rng),
        Err(_) => None,
    }
}

/// `rand::SeedableRng::seed_from_u64` for `StdRng`: a generator made from
/// the number given. Nothing is stated of the generator.
#[verifier::external_body]
pub(crate) fn seeded_rng(seed: u64) -> rand::rngs::StdRng {
    rand::SeedableRng::seed_from_u64(seed)
}

} // verus!
