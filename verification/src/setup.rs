//! How a game begins: the piles are dealt from the catalog and shuffled,
//! two pirates are drawn, and the first hazards are shown.

use crate::cards::{Card, CardDescription, Step};
use crate::catalog::{
    all_card_description, catalog, census, deal, dealt, granted, lemma_census, lemma_dealt_sound,
    lemma_dealt_total, lemma_hazard_tally, red, Family, CATALOG_SIZE,
};
use crate::friday::{Friday, Level, State};
use crate::piles::{
    cleared, entropy_rng, every, ids, lemma_every_shuffled, lemma_ids_add, lemma_ids_cleared,
    lemma_ids_empty, lemma_ids_push, lemma_ids_remove, lemma_ids_shuffled, lemma_ids_split,
    lemma_total_shuffled, seeded_rng, shuffle, total,
};
use crate::table::{aging_size, first_life, Table};
use vstd::prelude::*;

verus! {

/// The seed of a game for which the system has no entropy to give.
pub const SPARE_SEED: u64 = 0;

/// The aging cards of the normal tier that a level plays with: the easier
/// levels leave the dullest one out.
pub open spec fn normal_aging(level: int) -> Family {
    Family::Normal { dullest: level > 2 }
}

impl Table {
    /// What holds of the two piles once the aging card `d` has left the
    /// aging pile for the fighting deck: `d` is an aging card of the normal
    /// tier that the level plays with, the fighting deck holds the starting
    /// cards and `d`, and the aging pile holds all other aging cards.
    pub open spec fn first_aged(self, level: int, d: CardDescription) -> bool {
        let size = CATALOG_SIZE as nat;
        &&& ids(dealt(size, normal_aging(level))).count(d) > 0
        &&& ids(self.fighting_deck) == ids(dealt(size, Family::Starting)).insert(d)
        &&& ids(self.aging_deck).insert(d) == ids(dealt(size, Family::Difficult)).add(
            ids(dealt(size, normal_aging(level))),
        )
    }

    /// What holds of a game that has just begun. The piles hold the cards
    /// of their group in some order, without marks; the hard aging cards lie
    /// under the normal ones; from the second level on, one aging card has
    /// already joined the fighting deck; two pirates wait, and the two top
    /// hazards are shown.
    pub open spec fn opening(self, level: int) -> bool {
        let size = CATALOG_SIZE as nat;
        let moved: int = if level >= 2 {
            1
        } else {
            0
        };
        &&& self.level == level
        &&& self.life == first_life(level)
        &&& self.step == Step::Green
        &&& self.offset == 0
        &&& self.destroyed.len() == 0
        &&& self.fighting_discard.len() == 0
        &&& self.hazard_discard.len() == 0
        &&& self.pirate_cards_won.len() == 0
        &&& self.phase is ChooseHazard
        &&& self.phase->ChooseHazard_0.len() == 2
        &&& self.hazard_deck.len() == 28
        &&& ids(self.hazard_deck).add(ids(self.phase->ChooseHazard_0)) == ids(
            dealt(size, Family::Hazards),
        )
        &&& self.pirate_cards.len() == 2
        &&& ids(self.pirate_cards).subset_of(ids(dealt(size, Family::Pirates)))
        &&& self.aging_deck.len() == aging_size(level) - moved
        &&& self.fighting_deck.len() == 18 + moved
        &&& ids(self.aging_deck).add(ids(self.fighting_deck)) == ids(
            dealt(size, Family::Difficult),
        ).add(ids(dealt(size, normal_aging(level)))).add(ids(dealt(size, Family::Starting)))
        &&& level == 1 ==> ids(self.fighting_deck) == ids(dealt(size, Family::Starting))
        &&& level == 1 ==> ids(self.aging_deck) == ids(dealt(size, Family::Difficult)).add(
            ids(dealt(size, normal_aging(level))),
        )
        &&& level >= 2 ==> exists|d: CardDescription| #[trigger] self.first_aged(level, d)
        &&& ids(self.aging_deck.take(2)) == ids(dealt(size, Family::Difficult))
        &&& every(self.aging_deck, |c: Card| c.clean())
        &&& every(self.fighting_deck, |c: Card| c.clean())
        &&& every(self.hazard_deck, |c: Card| c.clean())
        &&& every(self.phase->ChooseHazard_0, |c: Card| c.clean())
        &&& every(self.pirate_cards, |c: Card| c.clean())
    }
}

/// The cards of a group, shuffled.
fn shuffled_deck(entries: &Vec<CardDescription>, family: Family, rng: &mut rand::rngs::StdRng) -> (r:
    Vec<Card>)
    requires
        entries@ == catalog(),
    ensures
        r@.to_multiset() == dealt(CATALOG_SIZE as nat, family).to_multiset(),
        r@.len() == census(CATALOG_SIZE as nat, family),
        ids(r@) == ids(dealt(CATALOG_SIZE as nat, family)),
        forall|i: int|
            0 <= i < r@.len() ==> {
                let c = #[trigger] r@[i];
                c.clean() && c.description.valid() && family.holds(c.description)
            },
{
    let mut deck = deal(entries, family);
    let ghost fresh = deck@;
    shuffle(rng, &mut deck);
    proof {
        lemma_dealt_sound(CATALOG_SIZE as nat, family);
        lemma_ids_shuffled(fresh, deck@);
        lemma_every_shuffled(
            fresh,
            deck@,
            |c: Card| c.clean() && c.description.valid() && family.holds(c.description),
        );
    }
    deck
}

impl Friday {
    /// Draws two pirates out of all.
    pub(crate) fn take_two_pirate_cards(entries: &Vec<CardDescription>, rng: &mut rand::rngs::StdRng) -> (r:
        Vec<Card>)
        requires
            entries@ == catalog(),
        ensures
            r@.len() == 2,
            ids(r@).subset_of(ids(dealt(CATALOG_SIZE as nat, Family::Pirates))),
            every(r@, |c: Card| c.clean() && c.plunders()),
    {
        let mut pirates = shuffled_deck(entries, Family::Pirates, rng);
        let ghost all = pirates@;
        proof {
            lemma_census();
        }
        pirates.truncate(2);
        proof {
            broadcast use vstd::multiset::group_multiset_axioms;

            lemma_ids_split(all, 2);
            assert forall|i: int| 0 <= i < pirates@.len() implies (#[trigger] pirates@[i]).clean()
                && pirates@[i].plunders() by {
                assert(pirates@[i] == all[i]);
            }
        }
        pirates
    }

    /// Builds the aging pile of a level: the hard cards shuffled, and on
    /// top of them the normal ones shuffled.
    pub(crate) fn make_aging_deck(
        entries: &Vec<CardDescription>,
        level: Level,
        rng: &mut rand::rngs::StdRng,
    ) -> (r: Vec<Card>)
        requires
            entries@ == catalog(),
            1 <= level <= 4,
        ensures
            r@.len() == aging_size(level as int),
            ids(r@) == ids(dealt(CATALOG_SIZE as nat, Family::Difficult)).add(
                ids(dealt(CATALOG_SIZE as nat, normal_aging(level as int))),
            ),
            ids(r@.take(2)) == ids(dealt(CATALOG_SIZE as nat, Family::Difficult)),
            ids(r@.skip(2)) == ids(dealt(CATALOG_SIZE as nat, normal_aging(level as int))),
            every(r@, |c: Card| c.clean() && c.fights()),
    {
        let mut deck = shuffled_deck(entries, Family::Difficult, rng);
        let dullest = match level {
            1 | 2 => false,
            _ => true,
        };
        let mut normal = shuffled_deck(entries, Family::Normal { dullest }, rng);
        let ghost hard = deck@;
        let ghost soft = normal@;
        deck.append(&mut normal);
        proof {
            lemma_census();
            lemma_ids_add(hard, soft);
            assert(deck@.take(2) =~= hard);
            assert(deck@.skip(2) =~= soft);
            assert forall|i: int| 0 <= i < deck@.len() implies (#[trigger] deck@[i]).clean()
                && deck@[i].fights() by {
                if i < hard.len() {
                    assert(deck@[i] == hard[i]);
                } else {
                    assert(deck@[i] == soft[i - hard.len()]);
                }
            }
        }
        deck
    }

    /// Builds the fighting deck: the starting cards, shuffled.
    pub(crate) fn make_fighting_deck(entries: &Vec<CardDescription>, rng: &mut rand::rngs::StdRng) -> (r:
        Vec<Card>)
        requires
            entries@ == catalog(),
        ensures
            r@.len() == 18,
            ids(r@) == ids(dealt(CATALOG_SIZE as nat, Family::Starting)),
            every(r@, |c: Card| c.clean() && c.fights()),
    {
        let start_cards = shuffled_deck(entries, Family::Starting, rng);
        proof {
            lemma_census();
        }
        start_cards
    }

    /// Builds the hazard deck: all hazards, shuffled.
    pub(crate) fn make_hazard_deck(entries: &Vec<CardDescription>, rng: &mut rand::rngs::StdRng) -> (r:
        Vec<Card>)
        requires
            entries@ == catalog(),
        ensures
            r@.len() == 30,
            ids(r@) == ids(dealt(CATALOG_SIZE as nat, Family::Hazards)),
            every(r@, |c: Card| c.clean() && c.threatens()),
            total(r@, granted()) == 70,
            total(r@, red()) == 198,
    {
        let hazard = shuffled_deck(entries, Family::Hazards, rng);
        proof {
            lemma_census();
            lemma_hazard_tally();
            let fresh = dealt(CATALOG_SIZE as nat, Family::Hazards);
            lemma_dealt_total(CATALOG_SIZE as nat, Family::Hazards, granted());
            lemma_dealt_total(CATALOG_SIZE as nat, Family::Hazards, red());
            lemma_total_shuffled(fresh, hazard@, granted());
            lemma_total_shuffled(fresh, hazard@, red());
        }
        hazard
    }

    /// Begins a game at a level, with a generator seeded by the system.
    /// Where the system has no entropy to give, the generator is made from
    /// `SPARE_SEED`.
    pub fn new(level: Level) -> (game: Self)
        requires
            1 <= level <= 4,
        ensures
            game.wf(),
            game@.opening(level as int),
    {
        match entropy_rng() {
            Some(rng) => Friday::with_rng(level, rng),
            None => Friday::with_seed(level, SPARE_SEED),
        }
    }

    /// Begins a game at a level with a generator made from the seed given.
    /// The same seed gives the same game.
    pub fn with_seed(level: Level, seed: u64) -> (game: Self)
        requires
            1 <= level <= 4,
        ensures
            game.wf(),
            game@.opening(level as int),
    {
        Friday::with_rng(level, seeded_rng(seed))
    }

    /// Begins a game at a level with the generator given. A seeded
    /// generator gives a game that can be played again move for move.
    pub fn with_rng(level: Level, rng: rand::rngs::StdRng) -> (game: Self)
        requires
            1 <= level <= 4,
        ensures
            game.wf(),
            game@.opening(level as int),
    {
        let mut rng = rng;
        let entries = all_card_description();
        let aging_deck = Friday::make_aging_deck(&entries, level, &mut rng);
        let fighting_deck = Friday::make_fighting_deck(&entries, &mut rng);
        let hazard_deck = Friday::make_hazard_deck(&entries, &mut rng);
        let pirate_cards = Friday::take_two_pirate_cards(&entries, &mut rng);
        let mut friday = Friday {
            level,
            life_points: if level == 4 {
                18
            } else {
                20
            },
            step: Step::Green,
            step_modif: 0,
            destroyed: Vec::new(),
            aging_deck,
            fighting_deck,
            fighting_discard: Vec::new(),
            hazard_deck,
            hazard_discard: Vec::new(),
            pirate_cards,
            pirate_cards_won: Vec::new(),
            state: State::Idle,
            rng,
        };
        let ghost dealt_out = friday@;
        if level >= 2 {
            friday.aging();
        }
        let ghost aged = friday@;
        proof {
            dealt_out.lemma_aged(aged);
        }
        friday.start();
        proof {
            aged.lemma_started(friday@);
            aged.lemma_opened(friday@);
        }
        friday
    }
}

impl Table {
    /// What holds of the piles as they are dealt, before the first aging
    /// card joins the deck and the first hazards are shown.
    pub open spec fn dealt_out(self, level: int) -> bool {
        let size = CATALOG_SIZE as nat;
        &&& 1 <= level <= 4
        &&& self.level == level
        &&& self.life == first_life(level)
        &&& self.step == Step::Green
        &&& self.offset == 0
        &&& self.destroyed.len() == 0
        &&& self.fighting_discard.len() == 0
        &&& self.hazard_discard.len() == 0
        &&& self.pirate_cards_won.len() == 0
        &&& self.phase is Idle
        &&& self.aging_deck.len() == aging_size(level)
        &&& ids(self.aging_deck) == ids(dealt(size, Family::Difficult)).add(
            ids(dealt(size, normal_aging(level))),
        )
        &&& ids(self.aging_deck.take(2)) == ids(dealt(size, Family::Difficult))
        &&& ids(self.aging_deck.skip(2)) == ids(dealt(size, normal_aging(level)))
        &&& every(self.aging_deck, |c: Card| c.clean() && c.fights())
        &&& self.fighting_deck.len() == 18
        &&& ids(self.fighting_deck) == ids(dealt(size, Family::Starting))
        &&& every(self.fighting_deck, |c: Card| c.clean() && c.fights())
        &&& self.hazard_deck.len() == 30
        &&& ids(self.hazard_deck) == ids(dealt(size, Family::Hazards))
        &&& every(self.hazard_deck, |c: Card| c.clean() && c.threatens())
        &&& total(self.hazard_deck, granted()) == 70
        &&& total(self.hazard_deck, red()) == 198
        &&& self.pirate_cards.len() == 2
        &&& ids(self.pirate_cards).subset_of(ids(dealt(size, Family::Pirates)))
        &&& every(self.pirate_cards, |c: Card| c.clean() && c.plunders())
    }

    /// What holds of the piles once the first aging card has joined the
    /// deck, where the level asks for it.
    pub open spec fn aged(self, level: int) -> bool {
        let size = CATALOG_SIZE as nat;
        let moved: int = if level >= 2 {
            1
        } else {
            0
        };
        &&& self.aging_deck.len() == aging_size(level) - moved
        &&& self.fighting_deck.len() == 18 + moved
        &&& ids(self.aging_deck).add(ids(self.fighting_deck)) == ids(
            dealt(size, Family::Difficult),
        ).add(ids(dealt(size, normal_aging(level)))).add(ids(dealt(size, Family::Starting)))
        &&& level == 1 ==> ids(self.fighting_deck) == ids(dealt(size, Family::Starting))
        &&& level == 1 ==> ids(self.aging_deck) == ids(dealt(size, Family::Difficult)).add(
            ids(dealt(size, normal_aging(level))),
        )
        &&& level >= 2 ==> exists|d: CardDescription| #[trigger] self.first_aged(level, d)
        &&& ids(self.aging_deck.take(2)) == ids(dealt(size, Family::Difficult))
        &&& every(self.aging_deck, |c: Card| c.clean() && c.fights())
        &&& every(self.fighting_deck, |c: Card| c.clean() && c.fights())
    }

    /// The first aging card joins the deck: the piles stay as dealt but
    /// for that card, and the game is sound.
    pub proof fn lemma_aged(self, post: Table)
        requires
            self.dealt_out(self.level),
            if self.level >= 2 {
                self.refilled(post)
            } else {
                post == self
            },
        ensures
            post.wf(),
            post.aged(self.level),
            post == (Table {
                aging_deck: post.aging_deck,
                fighting_deck: post.fighting_deck,
                fighting_discard: post.fighting_discard,
                ..self
            }),
            post.fighting_discard.len() == 0,
    {
        broadcast use vstd::multiset::group_multiset_axioms;

        let level = self.level;
        lemma_ids_empty();
        assert(self.destroyed =~= Seq::<Card>::empty());
        assert(self.fighting_discard =~= Seq::<Card>::empty());
        assert(self.hazard_discard =~= Seq::<Card>::empty());
        assert(self.pirate_cards_won =~= Seq::<Card>::empty());
        assert(self.phase.cards() =~= Seq::<Card>::empty());
        assert(self.hazards_at_large() =~= self.hazard_deck);
        self.lemma_sizes();
        if level >= 2 {
            let top = self.aging_deck.last();
            let back = self.fighting_deck + self.recycled();
            assert(self.recycled() =~= seq![top]);
            assert(back =~= self.fighting_deck.push(top));
            lemma_ids_shuffled(cleared(back), post.fighting_deck);
            lemma_ids_cleared(back);
            lemma_ids_push(self.fighting_deck, top);
            lemma_ids_remove(self.aging_deck, self.aging_deck.len() - 1);
            assert(self.aging_deck.drop_last() =~= self.aging_deck.remove(
                self.aging_deck.len() - 1,
            ));
            assert(post.aging_deck.take(2) =~= self.aging_deck.take(2));
            assert forall|i: int| 0 <= i < cleared(back).len() implies (#[trigger] cleared(
                back,
            )[i]).clean() && cleared(back)[i].fights() by {
                if i < self.fighting_deck.len() {
                    assert(back[i] == self.fighting_deck[i]);
                } else {
                    assert(back[i] == top);
                }
            }
            lemma_every_shuffled(
                cleared(back),
                post.fighting_deck,
                |c: Card| c.clean() && c.fights(),
            );
            assert forall|i: int| 0 <= i < post.aging_deck.len() implies (
            #[trigger] post.aging_deck[i]).clean() && post.aging_deck[i].fights() by {
                assert(post.aging_deck[i] == self.aging_deck[i]);
            }
            assert forall|d: CardDescription|
                ids(post.aging_deck).add(ids(post.fighting_deck)).count(d) == ids(
                    self.aging_deck,
                ).add(ids(self.fighting_deck)).count(d) by {
                assert(ids(self.aging_deck).count(d) == ids(post.aging_deck).insert(
                    top.description,
                ).count(d));
            }
            assert(ids(post.aging_deck).add(ids(post.fighting_deck)) =~= ids(self.aging_deck).add(
                ids(self.fighting_deck),
            ));
            assert(post.phase.cards() =~= Seq::<Card>::empty());
            assert(post.hazards_at_large() =~= self.hazard_deck);
            post.lemma_sizes();
            assert(post.fighting_discard =~= Seq::<Card>::empty());
            let soft = self.aging_deck.skip(2);
            assert(soft.last() == top);
            lemma_ids_remove(soft, soft.len() - 1);
            assert(ids(soft).count(top.description) == ids(soft.remove(soft.len() - 1)).insert(
                top.description,
            ).count(top.description));
            assert(post.first_aged(level, top.description));
        }
        assert(ids(post.aging_deck).add(ids(post.fighting_deck)) =~= ids(
            dealt(CATALOG_SIZE as nat, Family::Difficult),
        ).add(ids(dealt(CATALOG_SIZE as nat, normal_aging(level)))).add(
            ids(dealt(CATALOG_SIZE as nat, Family::Starting)),
        ));
    }

    /// The cards of a game that has just begun: all hazards, the aging
    /// cards of the level, the starting cards, and the two pirates drawn.
    /// They are 60, or 61 from the third level on.
    pub proof fn lemma_opening_population(self, level: int)
        requires
            1 <= level <= 4,
            self.opening(level),
        ensures
            self.population() == ids(dealt(CATALOG_SIZE as nat, Family::Hazards)).add(
                ids(dealt(CATALOG_SIZE as nat, Family::Difficult)),
            ).add(ids(dealt(CATALOG_SIZE as nat, normal_aging(level)))).add(
                ids(dealt(CATALOG_SIZE as nat, Family::Starting)),
            ).add(ids(self.pirate_cards)),
            self.population().len() == 50 + aging_size(level),
    {
        broadcast use vstd::multiset::group_multiset_axioms;

        let size = CATALOG_SIZE as nat;
        lemma_ids_empty();
        assert(self.destroyed =~= Seq::<Card>::empty());
        assert(self.fighting_discard =~= Seq::<Card>::empty());
        assert(self.hazard_discard =~= Seq::<Card>::empty());
        assert(self.pirate_cards_won =~= Seq::<Card>::empty());
        assert(self.phase.cards() =~= self.phase->ChooseHazard_0);
        let all = ids(dealt(size, Family::Hazards)).add(ids(dealt(size, Family::Difficult))).add(
            ids(dealt(size, normal_aging(level))),
        ).add(ids(dealt(size, Family::Starting))).add(ids(self.pirate_cards));
        assert forall|d: CardDescription| self.population().count(d) == all.count(d) by {
            assert(ids(self.hazard_deck).add(ids(self.phase->ChooseHazard_0)).count(d) == ids(
                dealt(size, Family::Hazards),
            ).count(d));
            assert(ids(self.aging_deck).add(ids(self.fighting_deck)).count(d) == ids(
                dealt(size, Family::Difficult),
            ).add(ids(dealt(size, normal_aging(level)))).add(
                ids(dealt(size, Family::Starting)),
            ).count(d));
        }
        assert(self.population() =~= all);
        self.lemma_sizes();
    }

    /// The first hazards are shown: the game has begun as a game of its
    /// level should.
    pub proof fn lemma_opened(self, post: Table)
        requires
            self.wf(),
            self.aged(self.level),
            self.step == Step::Green,
            self.offset == 0,
            self.life == first_life(self.level),
            self.phase is Idle,
            self.destroyed.len() == 0,
            self.fighting_discard.len() == 0,
            self.hazard_discard.len() == 0,
            self.pirate_cards_won.len() == 0,
            self.hazard_deck.len() == 30,
            ids(self.hazard_deck) == ids(dealt(CATALOG_SIZE as nat, Family::Hazards)),
            every(self.hazard_deck, |c: Card| c.clean() && c.threatens()),
            self.pirate_cards.len() == 2,
            ids(self.pirate_cards).subset_of(ids(dealt(CATALOG_SIZE as nat, Family::Pirates))),
            every(self.pirate_cards, |c: Card| c.clean() && c.plunders()),
            self.started(post),
        ensures
            post.opening(self.level),
    {
        let shown = post.phase->ChooseHazard_0;
        lemma_ids_add(post.hazard_deck, shown);
        if self.level >= 2 {
            let d = choose|d: CardDescription| self.first_aged(self.level, d);
            assert(post.first_aged(self.level, d));
        }
        assert forall|i: int| 0 <= i < post.hazard_deck.len() implies (
        #[trigger] post.hazard_deck[i]).clean() by {
            assert((post.hazard_deck + shown)[i] == post.hazard_deck[i]);
        }
        assert forall|i: int| 0 <= i < shown.len() implies (#[trigger] shown[i]).clean() by {
            assert((post.hazard_deck + shown)[post.hazard_deck.len() + i] == shown[i]);
        }
    }
}

} // verus!
