//! What the rules keep: no card is lost or made, the numbers stay in
//! range, and the tier never goes back.

use crate::cards::{Capacity, Card, CardDescription, Step};
use crate::catalog::{granted, red};
use crate::friday::{Event, Rejection};
use crate::piles::{
    cleared, every, ids, lemma_every_shuffled, lemma_ids_add, lemma_ids_cleared, lemma_ids_empty,
    lemma_ids_insert, lemma_ids_push, lemma_ids_remove, lemma_ids_reverse,
    lemma_ids_shuffled, lemma_ids_update, lemma_total_add, lemma_total_bounds, lemma_total_push,
    lemma_total_remove, lemma_total_shuffled, total,
};
use crate::rules::{arranges, chosen, doomed, none_chosen, picked, spared};
use crate::table::{aging_size, max_life, toll, Fight, Pending, Phase, Table};
use vstd::multiset::Multiset;
use vstd::prelude::*;

verus! {

/// The sums of a refill: the deck and the card drawn hold what came back,
/// and what came back is the discard pile and what left the aging pile.
proof fn lemma_refill_sum(
    deck: Multiset<CardDescription>,
    card: CardDescription,
    discard: Multiset<CardDescription>,
    aging_after: Multiset<CardDescription>,
    aging_before: Multiset<CardDescription>,
    back: Multiset<CardDescription>,
)
    requires
        deck.insert(card) == back,
        back.add(aging_after) == discard.add(aging_before),
    ensures
        deck.add(Multiset::empty()).add(aging_after).insert(card) == Multiset::<
            CardDescription,
        >::empty().add(discard).add(aging_before),
{
    broadcast use vstd::multiset::group_multiset_axioms;

    assert forall|d: CardDescription|
        deck.add(Multiset::empty()).add(aging_after).insert(card).count(d) == Multiset::<
            CardDescription,
        >::empty().add(discard).add(aging_before).count(d) by {
        assert(back.add(aging_after).count(d) == discard.add(aging_before).count(d));
        assert(deck.insert(card).count(d) == back.count(d));
        assert(back.add(aging_after).count(d) == back.count(d) + aging_after.count(d));
        assert(discard.add(aging_before).count(d) == discard.count(d) + aging_before.count(d));
        assert(deck.insert(card).count(d) == deck.count(d) + Multiset::singleton(card).count(d));
        assert(Multiset::<CardDescription>::empty().count(d) == 0);
        let l = deck.add(Multiset::empty()).add(aging_after).insert(card);
        assert(l.count(d) == deck.add(Multiset::empty()).add(aging_after).count(d)
            + Multiset::singleton(card).count(d));
        assert(deck.add(Multiset::empty()).add(aging_after).count(d) == deck.add(
            Multiset::empty(),
        ).count(d) + aging_after.count(d));
        assert(deck.add(Multiset::empty()).count(d) == deck.count(d));
    }
    assert(deck.add(Multiset::empty()).add(aging_after).insert(card) =~= Multiset::<
        CardDescription,
    >::empty().add(discard).add(aging_before));
}

impl Table {
    /// The cards in the three piles that a draw can touch.
    pub open spec fn reserve(self) -> Multiset<CardDescription> {
        ids(self.fighting_deck).add(ids(self.fighting_discard)).add(ids(self.aging_deck))
    }

    /// Dropping the ability that waits keeps the cards and the game sound.
    pub proof fn lemma_settled(self)
        requires
            self.wf(),
            self.phase is Fighting,
        ensures
            self.settled().wf(),
            self.settled().population() == self.population(),
    {
        broadcast use vstd::multiset::group_multiset_axioms;

        let f = self.fight();
        let held = f.pending.held();
        let post = self.settled();
        lemma_ids_add(self.fighting_deck, held.reverse());
        lemma_ids_reverse(held);
        lemma_ids_add(seq![f.hazard] + f.left + f.right, held);
        lemma_ids_empty();
        assert(post.phase.cards() =~= seq![f.hazard] + f.left + f.right);
        assert(post.population() =~= self.population());
        assert(post.hazards_at_large() =~= self.hazards_at_large());
        assert(post.hazards_left() =~= self.hazards_left());
        assert forall|i: int| 0 <= i < post.fighting_deck.len() implies (
        #[trigger] post.fighting_deck[i]).fights() by {
            if i >= self.fighting_deck.len() {
                let k = held.len() - 1 - (i - self.fighting_deck.len());
                assert(post.fighting_deck[i] == held[k]);
            }
        }
    }

    /// A game lost keeps its cards and is sound.
    pub proof fn lemma_defeated(self)
        requires
            self.wf(),
        ensures
            self.defeated().wf(),
            self.defeated().population() == self.population(),
            self.defeated().step == self.step,
            self.defeated().life == self.life,
            self.defeated().phase == Phase::Ended(false),
    {
        broadcast use vstd::multiset::group_multiset_axioms;

        if self.phase is Fighting {
            let f = self.fight();
            let held = f.pending.held();
            let post = self.defeated();
            lemma_ids_add(self.fighting_deck, held.reverse());
            lemma_ids_reverse(held);
            lemma_ids_add(seq![f.hazard] + f.left + f.right, held);
            lemma_ids_add(seq![f.hazard] + f.left, f.right);
            lemma_ids_add(seq![f.hazard], f.left);
            lemma_ids_add(self.fighting_discard + f.left, f.right);
            lemma_ids_add(self.fighting_discard, f.left);
            lemma_ids_push(self.hazard_discard, f.hazard);
            lemma_ids_push(self.pirate_cards, f.hazard);
            lemma_ids_push(Seq::<Card>::empty(), f.hazard);
            assert(Seq::<Card>::empty().push(f.hazard) =~= seq![f.hazard]);
            lemma_ids_empty();
            assert(post.phase.cards() =~= Seq::<Card>::empty());
            assert(post.population() =~= self.population());
            assert(post.hazards_at_large() =~= self.hazards_at_large());
            assert forall|i: int| 0 <= i < post.fighting_deck.len() implies (
            #[trigger] post.fighting_deck[i]).fights() by {
                if i >= self.fighting_deck.len() {
                    let k = held.len() - 1 - (i - self.fighting_deck.len());
                    assert(post.fighting_deck[i] == held[k]);
                }
            }
            assert forall|i: int| 0 <= i < post.fighting_discard.len() implies (
            #[trigger] post.fighting_discard[i]).fights() by {
                if i >= self.fighting_discard.len() + f.left.len() {
                    assert(post.fighting_discard[i] == f.right[i - self.fighting_discard.len()
                        - f.left.len()]);
                } else if i >= self.fighting_discard.len() {
                    assert(post.fighting_discard[i] == f.left[i - self.fighting_discard.len()]);
                }
            }
        } else {
            let post = self.defeated();
            let shown = self.phase.hazards();
            lemma_ids_add(self.hazard_discard, shown);
            lemma_ids_empty();
            assert(self.phase.cards() =~= shown);
            assert(post.phase.cards() =~= Seq::<Card>::empty());
            assert(post.population() =~= self.population());
            assert(post.hazards_at_large() =~= self.hazards_at_large());
            assert forall|i: int| 0 <= i < post.hazard_discard.len() implies (
            #[trigger] post.hazard_discard[i]).threatens() by {
                if i >= self.hazard_discard.len() {
                    assert(post.hazard_discard[i] == shown[i - self.hazard_discard.len()]);
                }
            }
        }
    }

    /// What a draw needs of the three piles it can touch, and of the life
    /// points.
    pub open spec fn reserve_sound(self) -> bool {
        &&& every(self.fighting_deck, |c: Card| c.fights())
        &&& every(self.fighting_discard, |c: Card| c.fights())
        &&& every(self.aging_deck, |c: Card| c.fights())
        &&& self.aging_deck.len() <= aging_size(self.level)
        &&& 0 <= self.life <= max_life(self.level)
    }

    /// A draw moves one card out of the three piles it can touch and
    /// leaves them sound.
    pub proof fn lemma_drew(self, free: bool, post: Table, card: Card)
        requires
            self.reserve_sound(),
            self.draw_failure(free) is None,
            self.drew(free, post, card),
        ensures
            post.reserve().insert(card.description) == self.reserve(),
            card.fights(),
            every(post.fighting_deck, |c: Card| c.fights()),
            every(post.fighting_discard, |c: Card| c.fights()),
            every(post.aging_deck, |c: Card| c.fights()),
            post.aging_deck.len() <= aging_size(post.level),
            0 <= post.life <= max_life(post.level),
    {
        broadcast use vstd::multiset::group_multiset_axioms;

        if self.fighting_deck.len() > 0 {
            lemma_ids_remove(self.fighting_deck, self.fighting_deck.len() - 1);
            assert(self.fighting_deck.drop_last() =~= self.fighting_deck.remove(
                self.fighting_deck.len() - 1,
            ));
            assert(post.reserve().insert(card.description) =~= self.reserve());
        } else {
            let back = self.recycled();
            lemma_ids_shuffled(post.fighting_deck.push(card), cleared(back));
            lemma_ids_push(post.fighting_deck, card);
            lemma_ids_cleared(back);
            lemma_ids_empty();
            assert(self.fighting_deck =~= Seq::<Card>::empty());
            if self.aging_deck.len() > 0 {
                lemma_ids_push(self.fighting_discard, self.aging_deck.last());
                lemma_ids_remove(self.aging_deck, self.aging_deck.len() - 1);
                assert(self.aging_deck.drop_last() =~= self.aging_deck.remove(
                    self.aging_deck.len() - 1,
                ));
                assert(ids(back) == ids(self.fighting_discard).insert(
                    self.aging_deck.last().description,
                ));
                assert(ids(self.aging_deck) == ids(post.aging_deck).insert(
                    self.aging_deck.last().description,
                ));
                assert(ids(back).add(ids(post.aging_deck)) =~= ids(self.fighting_discard).add(
                    ids(self.aging_deck),
                ));
            } else {
                assert(ids(back) == ids(self.fighting_discard));
                assert(ids(self.aging_deck) == ids(post.aging_deck));
            }
            assert(ids(post.fighting_deck).insert(card.description) == ids(back));
            assert(ids(post.fighting_discard) == Multiset::<CardDescription>::empty());
            assert(ids(self.fighting_deck) == Multiset::<CardDescription>::empty());
            lemma_refill_sum(
                ids(post.fighting_deck),
                card.description,
                ids(self.fighting_discard),
                ids(post.aging_deck),
                ids(self.aging_deck),
                ids(back),
            );
            assert(every(cleared(back), |c: Card| c.fights())) by {
                assert forall|i: int| 0 <= i < cleared(back).len() implies (#[trigger] cleared(
                    back,
                )[i]).fights() by {
                    if i < self.fighting_discard.len() {
                        assert(back[i] == self.fighting_discard[i]);
                    } else {
                        assert(back[i] == self.aging_deck.last());
                    }
                }
            }
            lemma_every_shuffled(
                cleared(back),
                post.fighting_deck.push(card),
                |c: Card| c.fights(),
            );
            assert(post.fighting_deck.push(card)[post.fighting_deck.len() as int] == card);
            assert forall|i: int| 0 <= i < post.fighting_deck.len() implies (
            #[trigger] post.fighting_deck[i]).fights() by {
                assert(post.fighting_deck.push(card)[i] == post.fighting_deck[i]);
            }
        }
    }

    /// A card drawn into the fight: the game stays sound and no card is
    /// lost, whichever pile of the fight the card joins.
    pub proof fn lemma_joined(self, free: bool, post: Table, card: Card)
        requires
            self.wf(),
            self.phase is Fighting,
            self.draw_failure(free) is None,
            self.drew(free, post, card),
            post.phase is Fighting,
            post.fight().hazard == self.fight().hazard,
            post.fight().free_used <= self.allowance(
                self.fight().hazard.description.kind.hazard_face(),
            ),
            card.fights() ==> post.fight().wf(),
            ids(post.phase.cards()) == ids(self.phase.cards()).insert(card.description),
        ensures
            post.wf(),
            post.population() == self.population(),
    {
        broadcast use vstd::multiset::group_multiset_axioms;

        self.lemma_drew(free, post, card);
        assert forall|d: CardDescription| post.population().count(d) == self.population().count(
            d,
        ) by {
            assert(post.reserve().insert(card.description).count(d) == self.reserve().count(d));
        }
        assert(post.population() =~= self.population());
        assert(post.hazards_at_large() =~= self.hazards_at_large());
        assert(post.hazards_left() =~= self.hazards_left());
    }
}

/// The cards of a fight are its hazard, its two piles and the cards held
/// aside.
pub proof fn lemma_fight_cards(f: Fight)
    ensures
        ids(Phase::Fighting(f).cards()) == ids(seq![f.hazard]).add(ids(f.left)).add(
            ids(f.right),
        ).add(ids(f.pending.held())),
        ids(seq![f.hazard]) == Multiset::<CardDescription>::empty().insert(f.hazard.description),
{
    lemma_ids_add(seq![f.hazard] + f.left + f.right, f.pending.held());
    lemma_ids_add(seq![f.hazard] + f.left, f.right);
    lemma_ids_add(seq![f.hazard], f.left);
    lemma_ids_push(Seq::<Card>::empty(), f.hazard);
    assert(Seq::<Card>::empty().push(f.hazard) =~= seq![f.hazard]);
    lemma_ids_empty();
}

/// Replacing a card of the fight by one of the same kind keeps the cards.
pub proof fn lemma_with_card(f: Fight, c: int, card: Card)
    requires
        0 <= c < f.in_play().len(),
    ensures
        f.with_card(c, card).in_play() == f.in_play().update(c, card),
        ids(f.with_card(c, card).left).add(ids(f.with_card(c, card).right)).insert(
            f.card(c).description,
        ) == ids(f.left).add(ids(f.right)).insert(card.description),
        f.with_card(c, card).hazard == f.hazard,
        f.with_card(c, card).pending == f.pending,
        f.with_card(c, card).free_used == f.free_used,
{
    broadcast use vstd::multiset::group_multiset_axioms;

    let g = f.with_card(c, card);
    assert(g.in_play() =~= f.in_play().update(c, card));
    if c < f.left.len() {
        lemma_ids_update(f.left, c, card);
        assert(f.card(c) == f.left[c]);
        assert forall|d: CardDescription|
            ids(g.left).add(ids(g.right)).insert(f.card(c).description).count(d) == ids(
                f.left,
            ).add(ids(f.right)).insert(card.description).count(d) by {
            assert(ids(g.left).insert(f.left[c].description).count(d) == ids(f.left).insert(
                card.description,
            ).count(d));
        }
    } else {
        let k = c - f.left.len();
        lemma_ids_update(f.right, k, card);
        assert(f.card(c) == f.right[k]);
        assert forall|d: CardDescription|
            ids(g.left).add(ids(g.right)).insert(f.card(c).description).count(d) == ids(
                f.left,
            ).add(ids(f.right)).insert(card.description).count(d) by {
            assert(ids(g.right).insert(f.right[k].description).count(d) == ids(f.right).insert(
                card.description,
            ).count(d));
        }
    }
    assert(ids(g.left).add(ids(g.right)).insert(f.card(c).description) =~= ids(f.left).add(
        ids(f.right),
    ).insert(card.description));
}

/// A fight with one card replaced is sound if the new card is.
pub proof fn lemma_with_card_wf(f: Fight, c: int, card: Card)
    requires
        0 <= c < f.in_play().len(),
        f.wf(),
        card.fights(),
    ensures
        f.with_card(c, card).wf(),
        f.card(c).fights(),
{
    let g = f.with_card(c, card);
    if c < f.left.len() {
        assert(f.card(c) == f.left[c]);
        assert forall|i: int| 0 <= i < g.left.len() implies (#[trigger] g.left[i]).fights() by {
            if i != c {
                assert(g.left[i] == f.left[i]);
            }
        }
    } else {
        let k = c - f.left.len();
        assert(f.card(c) == f.right[k]);
        assert forall|i: int| 0 <= i < g.right.len() implies (#[trigger] g.right[i]).fights() by {
            if i != k {
                assert(g.right[i] == f.right[i]);
            }
        }
    }
}

impl Table {
    /// Changing the marks of a card in play, and the ability that waits,
    /// keeps the cards and the game sound.
    pub proof fn lemma_marked(self, c: int, card: Card, pending: Pending)
        requires
            self.wf(),
            self.phase is Fighting,
            0 <= c < self.fight().in_play().len(),
            card.description == self.fight().card(c).description,
            pending.wf(),
            pending.held() == self.fight().pending.held(),
        ensures
            self.with_fight(Fight { pending, ..self.fight().with_card(c, card) }).wf(),
            self.with_fight(
                Fight { pending, ..self.fight().with_card(c, card) },
            ).population() == self.population(),
    {
        broadcast use vstd::multiset::group_multiset_axioms;

        let f = self.fight();
        let g = Fight { pending, ..f.with_card(c, card) };
        let post = self.with_fight(g);
        lemma_with_card_wf(f, c, f.card(c));
        assert(card.fights());
        lemma_with_card_wf(f, c, card);
        lemma_with_card(f, c, card);
        lemma_fight_cards(f);
        lemma_fight_cards(g);
        assert forall|d: CardDescription| post.population().count(d) == self.population().count(
            d,
        ) by {
            assert(ids(g.left).add(ids(g.right)).insert(f.card(c).description).count(d) == ids(
                f.left,
            ).add(ids(f.right)).insert(card.description).count(d));
        }
        assert(post.population() =~= self.population());
        assert(post.hazards_at_large() =~= self.hazards_at_large());
        assert(post.hazards_left() =~= self.hazards_left());
    }

    /// Setting the ability that waits keeps the cards and the game sound,
    /// as long as no card held aside is dropped.
    pub proof fn lemma_waiting(self, pending: Pending)
        requires
            self.wf(),
            self.phase is Fighting,
            pending.wf(),
            pending.held() == self.fight().pending.held(),
        ensures
            self.waiting_for(pending).wf(),
            self.waiting_for(pending).population() == self.population(),
    {
        let post = self.waiting_for(pending);
        assert(post.phase.cards() =~= self.phase.cards());
        assert(post.hazards_at_large() =~= self.hazards_at_large());
        assert(post.hazards_left() =~= self.hazards_left());
    }

    /// An ability that takes effect keeps the cards and the game sound.
    pub proof fn lemma_invoked(self, c: int, post: Table)
        requires
            self.wf(),
            self.phase is Fighting,
            0 <= c < self.fight().in_play().len(),
            c <= usize::MAX,
            self.fight().pending is Nothing,
            self.invoke_failure(c) is None,
            self.invoked(c, post),
        ensures
            post.wf(),
            post.population() == self.population(),
            post.step == self.step,
    {
        let f = self.fight();
        lemma_with_card_wf(f, c, f.card(c));
        lemma_fight_cards(f);
        match f.card(c).capacity() {
            Capacity::Life(n) => {
                assert(post.phase.cards() =~= self.phase.cards());
                assert(post.hazards_at_large() =~= self.hazards_at_large());
                assert(post.hazards_left() =~= self.hazards_left());
                assert(post.population() =~= self.population());
            },
            Capacity::Card(n) => {
                self.lemma_waiting(Pending::Draw(n as int));
            },
            Capacity::Destroy => {
                self.lemma_waiting(Pending::Destroy(c));
            },
            Capacity::Double => {
                self.lemma_waiting(Pending::Double);
            },
            Capacity::Copy => {
                self.lemma_waiting(Pending::Copy);
            },
            Capacity::LowerStep => {
                assert(post.phase.cards() =~= self.phase.cards());
                assert(post.hazards_at_large() =~= self.hazards_at_large());
                assert(post.hazards_left() =~= self.hazards_left());
                assert(post.population() =~= self.population());
            },
            Capacity::Sort => {
                let card = post.fight().pending.held()[0];
                lemma_fight_cards(post.fight());
                lemma_ids_push(Seq::<Card>::empty(), card);
                assert(Seq::<Card>::empty().push(card) =~= seq![card]);
                lemma_ids_empty();
                assert(f.pending.held() =~= Seq::<Card>::empty());
                assert(ids(post.phase.cards()) =~= ids(self.phase.cards()).insert(
                    card.description,
                )) by {
                    broadcast use vstd::multiset::group_multiset_axioms;

                }
                self.lemma_joined(true, post, card);
            },
            Capacity::Swap(n) => {
                self.lemma_waiting(Pending::Swap(c, n as int));
            },
            Capacity::UnderDeck => {
                self.lemma_waiting(Pending::UnderDeck(c));
            },
            _ => {
                self.lemma_waiting(Pending::Nothing);
            },
        }
    }

    /// Going on with an ability that waits keeps the cards and the game
    /// sound.
    pub proof fn lemma_continued(self, post: Table)
        requires
            self.wf(),
            self.ruling(Event::Continue) is Ok,
            self.moved(Event::Continue, post),
        ensures
            post.wf(),
            post.population() == self.population(),
            post.step == self.step,
    {
        let f = self.fight();
        lemma_fight_cards(f);
        lemma_fight_cards(post.fight());
        match f.pending {
            Pending::Draw(n) => {
                let card = post.fight().right.last();
                lemma_ids_push(f.right, card);
                assert(post.fight().pending.held() =~= f.pending.held());
                assert(ids(post.phase.cards()) =~= ids(self.phase.cards()).insert(
                    card.description,
                )) by {
                    broadcast use vstd::multiset::group_multiset_axioms;

                }
                self.lemma_joined(true, post, card);
            },
            Pending::Sort(cards) => {
                let card = post.fight().pending.held().last();
                lemma_ids_push(cards, card);
                assert(ids(post.phase.cards()) =~= ids(self.phase.cards()).insert(
                    card.description,
                )) by {
                    broadcast use vstd::multiset::group_multiset_axioms;

                }
                self.lemma_joined(true, post, card);
            },
            _ => {},
        }
    }

    /// A draw in a fight keeps the cards and the game sound.
    pub proof fn lemma_fought(self, post: Table)
        requires
            self.wf(),
            self.ruling(Event::Fight) is Ok,
            self.moved(Event::Fight, post),
        ensures
            post.wf(),
            post.population() == self.population(),
            post.step == self.step,
    {
        self.lemma_hazard_sums();
        let f = self.fight();
        let held = f.pending.held();
        let free = self.draws_free();
        let card = if free {
            post.fight().left.last()
        } else {
            post.fight().right.last()
        };
        let mid = Table {
            phase: Phase::Fighting(Fight { pending: f.pending, ..post.fight() }),
            ..post.before_return(held.len() as int)
        };
        lemma_fight_cards(f);
        lemma_fight_cards(mid.fight());
        lemma_ids_push(f.left, card);
        lemma_ids_push(f.right, card);
        assert(ids(mid.phase.cards()) =~= ids(self.phase.cards()).insert(card.description)) by {
            broadcast use vstd::multiset::group_multiset_axioms;

        }
        self.lemma_joined(free, mid, card);
        mid.lemma_settled();
        assert(mid.settled().fighting_deck =~= post.fighting_deck);
        assert(mid.settled() =~= post);
    }

    /// Using a card keeps the cards and the game sound.
    pub proof fn lemma_used(self, c: usize, post: Table)
        requires
            self.wf(),
            self.ruling(Event::Use(c)) is Ok,
            self.moved(Event::Use(c), post),
        ensures
            post.wf(),
            post.population() == self.population(),
            post.step == self.step,
    {
        let f = self.fight();
        let card = Card { tapped: true, ..f.card(c as int) };
        self.lemma_marked(c as int, card, Pending::Nothing);
        let t = self.tapped(c as int);
        assert(t =~= self.with_fight(
            Fight { pending: Pending::Nothing, ..f.with_card(c as int, card) },
        ));
        lemma_with_card(f, c as int, card);
        assert(t.fight().card(c as int) == card);
        t.lemma_invoked(c as int, post);
    }

    /// Picking a pirate, or the card that an ability is aimed at, keeps
    /// the cards and the game sound.
    pub proof fn lemma_chosen(self, c: usize, post: Table)
        requires
            self.wf(),
            self.ruling(Event::Choice(c)) is Ok,
            self.moved(Event::Choice(c), post),
        ensures
            post.wf(),
            post.population() == self.population(),
            post.step == self.step,
    {
        broadcast use vstd::multiset::group_multiset_axioms;

        match self.phase {
            Phase::ChoosePirate => {
                let p = self.pirate_cards[c as int];
                lemma_ids_remove(self.pirate_cards, c as int);
                lemma_fight_cards(Fight::against(p));
                lemma_ids_empty();
                self.lemma_hazard_sums();
                assert(post.hazards_left() =~= self.hazards_left());
                assert(post.hazards_at_large() =~= self.hazards_at_large());
                assert(self.phase.cards() =~= Seq::<Card>::empty());
                assert forall|d: CardDescription|
                    post.population().count(d) == self.population().count(d) by {
                    assert(ids(self.pirate_cards).count(d) == ids(post.pirate_cards).insert(
                        p.description,
                    ).count(d));
                }
                assert(post.population() =~= self.population());
                assert forall|i: int| 0 <= i < post.pirate_cards.len() implies (
                #[trigger] post.pirate_cards[i]).plunders() by {
                    if i < c {
                        assert(post.pirate_cards[i] == self.pirate_cards[i]);
                    } else {
                        assert(post.pirate_cards[i] == self.pirate_cards[i + 1]);
                    }
                }
            },
            _ => {
                let f = self.fight();
                match f.pending {
                    Pending::Destroy(_) => {
                        self.lemma_marked(
                            c as int,
                            Card { destroy: true, ..f.card(c as int) },
                            Pending::Nothing,
                        );
                    },
                    Pending::Double => {
                        self.lemma_marked(
                            c as int,
                            Card { double: true, ..f.card(c as int) },
                            Pending::Nothing,
                        );
                    },
                    Pending::Copy => {
                        self.lemma_waiting(Pending::Nothing);
                        self.waiting_for(Pending::Nothing).lemma_invoked(c as int, post);
                    },
                    Pending::Swap(s, n) => {
                        let old_card = f.card(c as int);
                        let new_card = post.fight().card(c as int);
                        let mid = Table {
                            fighting_discard: self.fighting_discard.push(old_card),
                            ..self
                        };
                        lemma_with_card_wf(f, c as int, old_card);
                        mid.lemma_drew(true, post, new_card);
                        lemma_with_card_wf(f, c as int, new_card);
                        lemma_with_card(f, c as int, new_card);
                        lemma_fight_cards(f);
                        lemma_fight_cards(post.fight());
                        lemma_ids_push(self.fighting_discard, old_card);
                        let g = f.with_card(c as int, new_card);
                        assert forall|d: CardDescription|
                            post.population().count(d) == self.population().count(d) by {
                            assert(post.reserve().insert(new_card.description).count(d)
                                == mid.reserve().count(d));
                            assert(ids(g.left).add(ids(g.right)).insert(
                                old_card.description,
                            ).count(d) == ids(f.left).add(ids(f.right)).insert(
                                new_card.description,
                            ).count(d));
                        }
                        assert(post.population() =~= self.population());
                        assert(post.hazards_at_large() =~= self.hazards_at_large());
                        assert(post.hazards_left() =~= self.hazards_left());
                    },
                    _ => {},
                }
            },
        }
    }

    /// Sending a card under the deck keeps the cards and the game sound.
    pub proof fn lemma_tucked(self, c: usize, replace: bool, post: Table)
        requires
            self.wf(),
            self.ruling(Event::ChoiceUnder(c, replace)) is Ok,
            self.moved(Event::ChoiceUnder(c, replace), post),
        ensures
            post.wf(),
            post.population() == self.population(),
            post.step == self.step,
    {
        broadcast use vstd::multiset::group_multiset_axioms;

        let f = self.fight();
        let card = f.card(c as int);
        let t = self.tucked(c as int);
        let g = t.fight();
        lemma_with_card_wf(f, c as int, card);
        lemma_fight_cards(f);
        lemma_fight_cards(g);
        lemma_ids_insert(self.fighting_deck, 0, card.cleared());
        assert(self.fighting_deck.insert(0, card.cleared()) =~= seq![card.cleared()]
            + self.fighting_deck);
        if c < f.left.len() {
            lemma_ids_remove(f.left, c as int);
            assert(f.left[c as int] == card);
        } else {
            lemma_ids_remove(f.right, c - f.left.len());
            assert(f.right[c - f.left.len()] == card);
        }
        assert(g.pending.held() =~= f.pending.held());
        assert forall|d: CardDescription| t.population().count(d) == self.population().count(
            d,
        ) by {
            assert(ids(f.left).add(ids(f.right)).count(d) == ids(g.left).add(ids(g.right)).insert(
                card.description,
            ).count(d));
        }
        assert(t.population() =~= self.population());
        assert(t.hazards_at_large() =~= self.hazards_at_large());
        assert(t.hazards_left() =~= self.hazards_left());
        assert forall|i: int| 0 <= i < g.left.len() implies (#[trigger] g.left[i]).fights() by {
            if c < f.left.len() {
                if i < c {
                    assert(g.left[i] == f.left[i]);
                } else {
                    assert(g.left[i] == f.left[i + 1]);
                }
            }
        }
        assert forall|i: int| 0 <= i < g.right.len() implies (#[trigger] g.right[i]).fights() by {
            if c >= f.left.len() {
                if i < c - f.left.len() {
                    assert(g.right[i] == f.right[i]);
                } else {
                    assert(g.right[i] == f.right[i + 1]);
                }
            }
        }
        assert forall|i: int| 0 <= i < t.fighting_deck.len() implies (
        #[trigger] t.fighting_deck[i]).fights() by {
            if i > 0 {
                assert(t.fighting_deck[i] == self.fighting_deck[i - 1]);
            }
        }
        assert(t.wf());
        if replace {
            let top = t.fighting_deck.last();
            let h = post.fight();
            lemma_fight_cards(h);
            lemma_ids_remove(t.fighting_deck, t.fighting_deck.len() - 1);
            assert(t.fighting_deck.drop_last() =~= t.fighting_deck.remove(
                t.fighting_deck.len() - 1,
            ));
            lemma_ids_insert(g.left, c as int, top);
            assert forall|d: CardDescription|
                post.population().count(d) == t.population().count(d) by {
                assert(ids(t.fighting_deck).count(d) == ids(post.fighting_deck).insert(
                    top.description,
                ).count(d));
            }
            assert(post.population() =~= t.population());
            assert(post.hazards_at_large() =~= self.hazards_at_large());
            assert(post.hazards_left() =~= self.hazards_left());
            assert forall|i: int| 0 <= i < h.left.len() implies (#[trigger] h.left[i]).fights() by {
                if i < c {
                    assert(h.left[i] == g.left[i]);
                } else if i > c {
                    assert(h.left[i] == g.left[i - 1]);
                }
            }
            assert forall|i: int| 0 <= i < post.fighting_deck.len() implies (
            #[trigger] post.fighting_deck[i]).fights() by {
                assert(post.fighting_deck[i] == t.fighting_deck[i]);
            }
        }
    }

    /// Setting the next fight up keeps the cards and the game sound. The
    /// tier does not go back; it goes one tier on where the hazard deck was
    /// empty, and nowhere else.
    pub proof fn lemma_started(self, post: Table)
        requires
            self.wf(),
            self.phase is Idle,
            self.started(post),
        ensures
            post.wf(),
            post.population() == self.population(),
            self.step.rank() <= post.step.rank() <= self.step.rank() + 1,
            post.step != self.step ==> self.hazard_deck.len() == 0,
    {
        broadcast use vstd::multiset::group_multiset_axioms;

        let refill = self.step != Step::Pirate && self.hazard_deck.len() == 0;
        let stock = if refill {
            self.hazard_discard
        } else {
            self.hazard_deck
        };
        let deals = post.step != Step::Pirate && stock.len() > 0;
        let shown = post.phase.hazards();
        lemma_ids_empty();
        assert(self.phase.cards() =~= Seq::<Card>::empty());
        assert(self.hazards_at_large() =~= self.hazard_deck + self.hazard_discard);
        if deals {
            assert(post.phase.cards() =~= shown);
        } else {
            assert(shown =~= Seq::<Card>::empty());
        }
        let now = post.hazard_deck + shown;
        lemma_ids_add(post.hazard_deck, shown);
        if refill {
            assert(self.hazard_deck =~= Seq::<Card>::empty());
            assert(self.hazard_deck + self.hazard_discard =~= stock);
            assert(now.to_multiset() == stock.to_multiset()) by {
                if !deals {
                    assert(now =~= post.hazard_deck);
                }
            }
            lemma_ids_shuffled(stock, now);
            lemma_total_shuffled(stock, now, granted());
            lemma_total_shuffled(stock, now, red());
            lemma_every_shuffled(stock, now, |c: Card| c.threatens());
            assert(post.hazards_at_large() =~= now);
        } else {
            assert(now =~= stock) by {
                if !deals {
                    assert(now =~= post.hazard_deck);
                }
            }
        }
        assert forall|i: int| 0 <= i < post.hazard_deck.len() implies (
        #[trigger] post.hazard_deck[i]).threatens() by {
            assert(now[i] == post.hazard_deck[i]);
        }
        assert forall|i: int| 0 <= i < shown.len() implies (#[trigger] shown[i]).threatens() by {
            assert(now[post.hazard_deck.len() + i] == shown[i]);
        }
        if !deals {
            if self.pirate_cards.len() == 1 {
                let p = self.pirate_cards[0];
                lemma_fight_cards(Fight::against(p));
                lemma_ids_remove(self.pirate_cards, 0);
                assert(self.pirate_cards.remove(0) =~= Seq::<Card>::empty());
                self.lemma_hazard_sums();
                lemma_total_bounds(post.hazards_left(), granted(), 0, 255);
            } else {
                assert(post.phase.cards() =~= Seq::<Card>::empty());
            }
        }
        assert forall|d: CardDescription| post.population().count(d) == self.population().count(
            d,
        ) by {
            if refill {
                assert(ids(now).count(d) == ids(stock).count(d));
            } else {
                assert(ids(now).count(d) == ids(stock).count(d));
            }
        }
        assert(post.population() =~= self.population());
        if !refill {
            lemma_total_add(post.hazard_deck, shown, granted());
            lemma_total_add(post.hazard_deck, shown, red());
            lemma_total_add(post.hazard_deck + post.hazard_discard, shown, granted());
            lemma_total_add(post.hazard_deck + post.hazard_discard, shown, red());
            lemma_total_add(post.hazard_deck, post.hazard_discard, granted());
            lemma_total_add(post.hazard_deck, post.hazard_discard, red());
            lemma_total_add(self.hazard_deck, self.hazard_discard, granted());
            lemma_total_add(self.hazard_deck, self.hazard_discard, red());
        } else {
            assert(post.hazard_deck + post.hazard_discard + shown =~= now);
        }
    }

    /// Picking a hazard, or passing on the only one shown, keeps the cards
    /// and the game sound.
    pub proof fn lemma_hazard_chosen(self, choice: Option<usize>, post: Table)
        requires
            self.wf(),
            self.ruling(Event::HazardChoice(choice)) is Ok,
            self.moved(Event::HazardChoice(choice), post),
        ensures
            post.wf(),
            post.population() == self.population(),
            self.step.rank() <= post.step.rank() <= self.step.rank() + 1,
            post.step != self.step ==> self.hazard_deck.len() == 0,
    {
        broadcast use vstd::multiset::group_multiset_axioms;

        let shown = self.phase->ChooseHazard_0;
        assert(self.phase.cards() =~= shown);
        match choice {
            Some(c) => {
                let h = shown[c as int];
                lemma_fight_cards(Fight::against(h));
                lemma_ids_empty();
                lemma_ids_remove(shown, c as int);
                lemma_ids_add(self.hazard_discard, shown.remove(c as int));
                assert forall|d: CardDescription|
                    post.population().count(d) == self.population().count(d) by {
                    assert(ids(shown).count(d) == ids(shown.remove(c as int)).insert(
                        h.description,
                    ).count(d));
                }
                assert(post.population() =~= self.population());
                let rest = shown.remove(c as int);
                lemma_total_remove(shown, c as int, granted());
                lemma_total_remove(shown, c as int, red());
                lemma_total_add(self.hazard_deck + self.hazard_discard, shown, granted());
                lemma_total_add(self.hazard_deck + self.hazard_discard, shown, red());
                lemma_total_add(self.hazard_deck, self.hazard_discard, granted());
                lemma_total_add(self.hazard_deck, self.hazard_discard, red());
                lemma_total_add(self.hazard_deck, self.hazard_discard + rest, granted());
                lemma_total_add(self.hazard_deck, self.hazard_discard + rest, red());
                lemma_total_add(self.hazard_discard, rest, granted());
                lemma_total_add(self.hazard_discard, rest, red());
                lemma_total_push(self.hazard_deck + (self.hazard_discard + rest), h, granted());
                lemma_total_push(self.hazard_deck + (self.hazard_discard + rest), h, red());
                assert(post.hazards_at_large() =~= (self.hazard_deck + (self.hazard_discard
                    + rest)).push(h));
                assert(post.hazards_left() =~= self.hazard_deck + (self.hazard_discard + rest));
                lemma_total_bounds(post.hazards_left(), granted(), 0, 255);
                assert forall|i: int| 0 <= i < post.hazard_discard.len() implies (
                #[trigger] post.hazard_discard[i]).threatens() by {
                    if i >= self.hazard_discard.len() {
                        let k = i - self.hazard_discard.len();
                        assert(post.hazard_discard[i] == rest[k]);
                        if k < c {
                            assert(rest[k] == shown[k]);
                        } else {
                            assert(rest[k] == shown[k + 1]);
                        }
                    }
                }
            },
            None => {
                let h = shown[0];
                let mid = Table {
                    hazard_discard: self.hazard_discard.push(h),
                    phase: Phase::Idle,
                    ..self
                };
                assert(shown =~= seq![h]);
                lemma_ids_push(self.hazard_discard, h);
                lemma_ids_push(Seq::<Card>::empty(), h);
                assert(Seq::<Card>::empty().push(h) =~= shown);
                lemma_ids_empty();
                assert(mid.phase.cards() =~= Seq::<Card>::empty());
                assert(mid.population() =~= self.population());
                assert(mid.hazards_at_large() =~= self.hazards_at_large()) by {
                    assert(self.hazard_deck + self.hazard_discard.push(h) + Seq::<Card>::empty()
                        =~= self.hazard_deck + self.hazard_discard + shown);
                }
                assert(mid.wf());
                mid.lemma_started(post);
            },
        }
    }
}

/// The cards that leave a fight and those that stay are all the cards
/// that were in play.
pub proof fn lemma_parted(cards: Seq<Card>, marks: Seq<bool>)
    ensures
        ids(doomed(cards, marks)).add(ids(spared(cards, marks))) == ids(cards),
        every(cards, |c: Card| c.fights()) ==> every(doomed(cards, marks), |c: Card| c.fights())
            && every(spared(cards, marks), |c: Card| c.fights()),
    decreases cards.len(),
{
    broadcast use vstd::multiset::group_multiset_axioms;

    if cards.len() == 0 {
        lemma_ids_empty();
        assert(cards =~= Seq::<Card>::empty());
        assert(ids(doomed(cards, marks)).add(ids(spared(cards, marks))) =~= ids(cards));
    } else {
        let rest = cards.drop_last();
        let last = cards.last();
        lemma_parted(rest, marks);
        assert(cards =~= rest.push(last));
        lemma_ids_push(rest, last);
        lemma_ids_push(doomed(rest, marks), last);
        lemma_ids_push(spared(rest, marks), last);
        assert forall|d: CardDescription|
            ids(doomed(cards, marks)).add(ids(spared(cards, marks))).count(d) == ids(
                cards,
            ).count(d) by {
            assert(ids(doomed(rest, marks)).add(ids(spared(rest, marks))).count(d) == ids(
                rest,
            ).count(d));
        }
        assert(ids(doomed(cards, marks)).add(ids(spared(cards, marks))) =~= ids(cards));
        if every(cards, |c: Card| c.fights()) {
            assert(last.fights());
            assert forall|i: int| 0 <= i < rest.len() implies (#[trigger] rest[i]).fights() by {
                assert(rest[i] == cards[i]);
            }
        }
    }
}

/// What a short pile holds, card by card.
pub proof fn lemma_ids_short(pile: Seq<Card>)
    requires
        pile.len() <= 3,
    ensures
        pile.len() == 0 ==> ids(pile) == Multiset::<CardDescription>::empty(),
        pile.len() == 1 ==> ids(pile) == Multiset::<CardDescription>::empty().insert(
            pile[0].description,
        ),
        pile.len() == 2 ==> ids(pile) == Multiset::<CardDescription>::empty().insert(
            pile[0].description,
        ).insert(pile[1].description),
        pile.len() == 3 ==> ids(pile) == Multiset::<CardDescription>::empty().insert(
            pile[0].description,
        ).insert(pile[1].description).insert(pile[2].description),
    decreases pile.len(),
{
    if pile.len() == 0 {
        lemma_ids_empty();
        assert(pile =~= Seq::<Card>::empty());
    } else {
        lemma_ids_short(pile.drop_last());
        lemma_ids_push(pile.drop_last(), pile.last());
        assert(pile =~= pile.drop_last().push(pile.last()));
    }
}

impl Table {
    /// Putting the cards held aside back in a chosen order keeps the cards
    /// and the game sound.
    pub proof fn lemma_sorted(self, order: Seq<usize>, destroy_first: bool)
        requires
            self.wf(),
            self.phase is Fighting,
            self.fight().pending is Sort,
            arranges(order, self.fight().pending.held().len()),
        ensures
            self.sorted(order, destroy_first).wf(),
            self.sorted(order, destroy_first).population() == self.population(),
    {
        broadcast use vstd::multiset::group_multiset_axioms;

        let f = self.fight();
        let held = f.pending.held();
        let post = self.sorted(order, destroy_first);
        let rest = if destroy_first {
            order.drop_first()
        } else {
            order
        };
        let back = picked(held, rest);
        lemma_ids_short(held);
        lemma_ids_short(back);
        lemma_fight_cards(f);
        lemma_fight_cards(post.fight());
        lemma_ids_add(self.fighting_deck, back);
        lemma_ids_push(self.destroyed, held[order[0] as int]);
        lemma_ids_empty();
        assert(post.fight().pending.held() =~= Seq::<Card>::empty());
        assert forall|d: CardDescription| post.population().count(d) == self.population().count(
            d,
        ) by {
            if destroy_first {
                assert(ids(back).insert(held[order[0] as int].description).count(d) == ids(
                    held,
                ).count(d));
            } else {
                assert(ids(back).count(d) == ids(held).count(d));
            }
        }
        assert(post.population() =~= self.population());
        assert(post.hazards_at_large() =~= self.hazards_at_large());
        assert(post.hazards_left() =~= self.hazards_left());
        assert forall|i: int| 0 <= i < post.fighting_deck.len() implies (
        #[trigger] post.fighting_deck[i]).fights() by {
            if i >= self.fighting_deck.len() {
                let k = i - self.fighting_deck.len();
                assert(post.fighting_deck[i] == held[rest[k] as int]);
            }
        }
    }

    /// A fight won keeps the cards and leaves the game sound.
    pub proof fn lemma_won(self)
        requires
            self.wf(),
            self.phase is Fighting,
        ensures
            self.won().wf(),
            self.won().population() == self.population(),
            self.won().step == self.step,
            self.won().phase is Idle || self.won().phase == Phase::Ended(false),
    {
        broadcast use vstd::multiset::group_multiset_axioms;

        self.lemma_settled();
        let s = self.settled();
        let f = s.fight();
        let cards = f.in_play();
        let marks = none_chosen(cards.len());
        let post = self.won();
        lemma_fight_cards(f);
        lemma_ids_add(f.left, f.right);
        lemma_parted(cards, marks);
        lemma_ids_add(s.destroyed, doomed(cards, marks));
        lemma_ids_push(s.pirate_cards_won, f.hazard);
        lemma_ids_push(s.fighting_discard, f.hazard);
        lemma_ids_add(s.fighting_discard.push(f.hazard), spared(cards, marks));
        lemma_ids_add(s.fighting_discard, spared(cards, marks));
        lemma_ids_empty();
        assert(post.phase.cards() =~= Seq::<Card>::empty());
        assert(f.pending.held() =~= Seq::<Card>::empty());
        assert forall|d: CardDescription| post.population().count(d) == s.population().count(
            d,
        ) by {
            assert(ids(doomed(cards, marks)).add(ids(spared(cards, marks))).count(d) == ids(
                cards,
            ).count(d));
        }
        assert(post.population() =~= s.population());
        assert forall|i: int| 0 <= i < cards.len() implies (#[trigger] cards[i]).fights() by {
            if i < f.left.len() {
                assert(cards[i] == f.left[i]);
            } else {
                assert(cards[i] == f.right[i - f.left.len()]);
            }
        }
        lemma_tolls(spared(cards, marks));
        assert(post.hazards_left() =~= s.hazards_left());
        assert(post.hazards_at_large() =~= s.hazards_left());
        s.lemma_hazard_sums();
    }

    /// A fight given up keeps the cards and leaves the game sound.
    pub proof fn lemma_given_up(self, picks: Seq<usize>)
        requires
            self.wf(),
            self.phase is Fighting,
            !self.fight().pirate(),
            self.fight_diff()->Some_0 <= 0,
            self.life + self.fight_diff()->Some_0 >= 0,
        ensures
            self.given_up(picks).wf(),
            self.given_up(picks).life <= self.life,
            self.given_up(picks).population() == self.population(),
            self.given_up(picks).step == self.step,
            self.given_up(picks).phase is Idle || self.given_up(picks).phase == Phase::Ended(
                false,
            ),
    {
        broadcast use vstd::multiset::group_multiset_axioms;

        self.lemma_settled();
        let s = self.settled();
        let f = s.fight();
        let cards = f.in_play();
        let marks = chosen(cards.len(), picks);
        let post = self.given_up(picks);
        lemma_fight_cards(f);
        lemma_ids_add(f.left, f.right);
        lemma_parted(cards, marks);
        lemma_ids_add(s.destroyed, doomed(cards, marks));
        lemma_ids_push(s.hazard_discard, f.hazard);
        lemma_ids_add(s.fighting_discard, spared(cards, marks));
        lemma_ids_empty();
        assert(post.phase.cards() =~= Seq::<Card>::empty());
        assert(f.pending.held() =~= Seq::<Card>::empty());
        assert forall|d: CardDescription| post.population().count(d) == s.population().count(
            d,
        ) by {
            assert(ids(doomed(cards, marks)).add(ids(spared(cards, marks))).count(d) == ids(
                cards,
            ).count(d));
        }
        assert(post.population() =~= s.population());
        assert forall|i: int| 0 <= i < cards.len() implies (#[trigger] cards[i]).fights() by {
            if i < f.left.len() {
                assert(cards[i] == f.left[i]);
            } else {
                assert(cards[i] == f.right[i - f.left.len()]);
            }
        }
        lemma_tolls(spared(cards, marks));
        assert(post.hazards_at_large() =~= s.hazards_at_large());
    }

    /// A game that an event ends for the worse keeps its cards and is
    /// sound.
    pub proof fn lemma_lost(self, event: Event)
        requires
            self.wf(),
            self.ruling(event) matches Err(e) && e.fatal(),
        ensures
            self.lost(event).wf(),
            self.lost(event).population() == self.population(),
            self.lost(event).step == self.step,
            self.lost(event).phase == Phase::Ended(false),
    {
        match event {
            Event::Fight => {
                let free = self.draws_free();
                let cost = self.draw_cost();
                let t = if !free && self.life < cost {
                    Table { life: 0, ..self }
                } else if free {
                    self
                } else {
                    Table { life: self.life - cost, ..self }
                };
                assert(t.population() =~= self.population());
                assert(t.hazards_at_large() =~= self.hazards_at_large());
                assert(t.hazards_left() =~= self.hazards_left());
                t.lemma_defeated();
            },
            Event::Win => {
                self.lemma_won();
            },
            Event::Lose(picks) => {
                if self.life + self.fight_diff()->Some_0 < 0 {
                    let t = Table { life: 0, ..self };
                    assert(t.population() =~= self.population());
                    assert(t.hazards_at_large() =~= self.hazards_at_large());
                    assert(t.hazards_left() =~= self.hazards_left());
                    t.lemma_defeated();
                } else {
                    self.lemma_given_up(picks@);
                }
            },
            _ => {
                self.lemma_defeated();
            },
        }
    }

    /// Dropping an ability when none waits changes nothing: in a fight the
    /// event is carried out and leaves the game as it was; outside a fight
    /// it is turned down as out of place, which leaves the game as it was
    /// too.
    pub proof fn lemma_break_without_ability(self, post: Table)
        requires
            self.phase is Fighting ==> self.fight().pending is Nothing,
        ensures
            self.phase is Fighting ==> self.ruling(Event::Break) is Ok && (self.moved(
                Event::Break,
                post,
            ) ==> post == self),
            !(self.phase is Fighting) ==> self.ruling(Event::Break) == Err::<(), Rejection>(
                Rejection::WrongState,
            ) && !Rejection::WrongState.fatal(),
    {
        if self.phase is Fighting {
            let f = self.fight();
            assert(f.pending.held().reverse() =~= Seq::<Card>::empty());
            assert(self.fighting_deck + f.pending.held().reverse() =~= self.fighting_deck);
            assert(self.settled() =~= self);
        }
    }

    /// A game that is over stays as it is: every event is turned down as
    /// out of place.
    pub proof fn lemma_ended_is_final(self, event: Event)
        requires
            self.phase is Ended,
        ensures
            self.ruling(event) == Err::<(), Rejection>(Rejection::WrongState),
            !Rejection::WrongState.fatal(),
    {
    }

    /// The soundness of the engine: an event carried out leaves a sound
    /// game with the same cards, at the same tier or the next one. The tier
    /// changes only where an event sets the next fight up and finds the
    /// hazard deck empty.
    pub proof fn lemma_moved(self, event: Event, post: Table)
        requires
            self.wf(),
            self.ruling(event) is Ok,
            self.moved(event, post),
        ensures
            post.wf(),
            post.population() == self.population(),
            self.step.rank() <= post.step.rank() <= self.step.rank() + 1,
            post.step != self.step ==> self.hazard_deck.len() == 0 && (event is Start
                || event is HazardChoice || event is Win || event is Lose),
    {
        match event {
            Event::Start => {
                self.lemma_started(post);
            },
            Event::HazardChoice(choice) => {
                self.lemma_hazard_chosen(choice, post);
            },
            Event::Choice(c) => {
                self.lemma_chosen(c, post);
            },
            Event::ChoiceUnder(c, replace) => {
                self.lemma_tucked(c, replace, post);
            },
            Event::Fight => {
                self.lemma_fought(post);
            },
            Event::Use(c) => {
                self.lemma_used(c, post);
            },
            Event::Win => {
                self.lemma_won();
                self.won().lemma_started(post);
            },
            Event::Lose(picks) => {
                self.lemma_given_up(picks@);
                self.given_up(picks@).lemma_started(post);
            },
            Event::Continue => {
                self.lemma_continued(post);
            },
            Event::Break => {
                self.lemma_settled();
            },
            Event::Sort(order, destroy_first) => {
                self.lemma_sorted(order@, destroy_first);
            },
        }
    }
}

/// The toll of cards that fight is never negative.
pub proof fn lemma_tolls(pile: Seq<Card>)
    requires
        every(pile, |c: Card| c.fights()),
    ensures
        0 <= total(pile, toll()),
{
    assert forall|i: int| 0 <= i < pile.len() implies 0 <= #[trigger] toll()(pile[i]) <= 128 by {
        assert(pile[i].fights());
    }
    lemma_total_bounds(pile, toll(), 0, 128);
}

} // verus!
