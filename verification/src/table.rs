//! The game as a mathematical value: the piles as sequences, the phase of
//! play, and what the rules compute from them.

use crate::cards::{Capacity, Card, CardDescription, CardKind, Hazard, HazardCard, Step};
use crate::catalog::{granted, red};
use crate::fight::{acting, best, worths};
use crate::piles::{every, ids, lemma_ids_len, lemma_total_add, lemma_total_bounds, total};
use vstd::multiset::Multiset;
use vstd::prelude::*;

verus! {

/// No game holds more cards than this.
pub const CARD_LIMIT: usize = 1000;

/// An ability that waits for the player to go on.
#[verifier::ext_equal]
pub enum Pending {
    Nothing,
    /// Extra cards are still to be drawn.
    Draw(int),
    /// The card at this place destroys another.
    Destroy(int),
    Double,
    Copy,
    /// Cards taken off the deck to be put back in a chosen order.
    Sort(Seq<Card>),
    /// The card at this place exchanges that many others.
    Swap(int, int),
    /// The card at this place sends another under the deck.
    UnderDeck(int),
}

impl Pending {
    /// The cards that the ability holds aside.
    pub open spec fn held(self) -> Seq<Card> {
        match self {
            Pending::Sort(cards) => cards,
            _ => Seq::empty(),
        }
    }

    /// The numbers are in range, and the cards held aside can be fought
    /// with.
    pub open spec fn wf(self) -> bool {
        match self {
            Pending::Draw(n) => 1 <= n <= i8::MAX,
            Pending::Destroy(c) => 0 <= c <= usize::MAX,
            Pending::Sort(cards) => 1 <= cards.len() <= 3 && every(cards, |c: Card| c.fights()),
            Pending::Swap(c, n) => 0 <= c <= usize::MAX && 1 <= n <= i8::MAX,
            Pending::UnderDeck(c) => 0 <= c <= usize::MAX,
            _ => true,
        }
    }
}

/// A fight in progress.
#[verifier::ext_equal]
pub struct Fight {
    /// The hazard or pirate that is fought.
    pub hazard: Card,
    /// Free draws made so far.
    pub free_used: int,
    /// The cards drawn for free.
    pub left: Seq<Card>,
    /// The cards paid for with life, and those that abilities brought.
    pub right: Seq<Card>,
    pub pending: Pending,
}

impl Fight {
    /// A fight that has just begun.
    pub open spec fn against(hazard: Card) -> Fight {
        Fight {
            hazard,
            free_used: 0,
            left: Seq::empty(),
            right: Seq::empty(),
            pending: Pending::Nothing,
        }
    }

    /// The cards in play: the left pile, then the right one. A card is
    /// named by its place in this sequence.
    pub open spec fn in_play(self) -> Seq<Card> {
        self.left + self.right
    }

    /// The fight with the card at place `c` replaced.
    pub open spec fn with_card(self, c: int, card: Card) -> Fight {
        if c < self.left.len() {
            Fight { left: self.left.update(c, card), ..self }
        } else {
            Fight { right: self.right.update(c - self.left.len(), card), ..self }
        }
    }

    /// The fight with the card at place `c` taken out.
    pub open spec fn without_card(self, c: int) -> Fight {
        if c < self.left.len() {
            Fight { left: self.left.remove(c), ..self }
        } else {
            Fight { right: self.right.remove(c - self.left.len()), ..self }
        }
    }

    /// The rule of the hazard that is fought.
    pub open spec fn rule(self) -> Hazard {
        self.hazard.description.kind.hazard_face().hazard
    }

    /// Whether a card that stops the free draws lies in the left pile.
    pub open spec fn stopped(self) -> bool {
        exists|i: int| 0 <= i < self.left.len() && (#[trigger] self.left[i]).acts_as(Capacity::Stop)
    }

    /// Life points that a paid draw costs.
    pub open spec fn draw_cost(self) -> int {
        if self.rule() is PirateTwiceLife {
            2
        } else {
            1
        }
    }

    /// What the cards in play are worth against the hazard. Of the cards
    /// that count (all of them, or the higher half rounded up against the
    /// pirate who halves), the highest are cancelled, one for each card in
    /// play that cancels and still counts; against the pirate who adds, each
    /// card in play is worth one point more.
    ///
    /// Against the pirate who halves, aging cards are the first to be left
    /// out among cards of equal worth. Which of two cards of equal worth is
    /// left out makes no difference to the sum, so the value does not speak
    /// of it.
    pub open spec fn value(self) -> int {
        let cards = self.in_play();
        let values = worths(cards);
        let counted: nat = if self.rule() is PirateHalf {
            ((cards.len() + 1) / 2) as nat
        } else {
            cards.len()
        };
        let blockers = acting(cards, Capacity::MaxZero);
        let cancelled: nat = if blockers <= counted {
            blockers
        } else {
            counted
        };
        best(values, counted) - best(values, cancelled) + if self.rule() is PirateAdd {
            cards.len() as int
        } else {
            0
        }
    }

    /// The hazard is a hazard or a pirate, and the cards in play can be
    /// fought with.
    pub open spec fn wf(self) -> bool {
        &&& self.hazard.threatens() || self.hazard.plunders()
        &&& 0 <= self.free_used <= u8::MAX
        &&& every(self.left, |c: Card| c.fights())
        &&& every(self.right, |c: Card| c.fights())
        &&& self.pending.wf()
    }
}

/// Where the game stands.
#[verifier::ext_equal]
pub enum Phase {
    /// Between two fights.
    Idle,
    /// The player picks one of the hazards shown.
    ChooseHazard(Seq<Card>),
    /// The player picks one of the pirates that are left.
    ChoosePirate,
    Fighting(Fight),
    /// The game is over, won or lost.
    Ended(bool),
}

impl Phase {
    /// The cards that the phase holds, outside the piles.
    pub open spec fn cards(self) -> Seq<Card> {
        match self {
            Phase::ChooseHazard(shown) => shown,
            Phase::Fighting(f) => seq![f.hazard] + f.left + f.right + f.pending.held(),
            _ => Seq::empty(),
        }
    }

    /// The hazards that the phase holds.
    pub open spec fn hazards(self) -> Seq<Card> {
        match self {
            Phase::ChooseHazard(shown) => shown,
            Phase::Fighting(f) => if f.hazard.description.kind is HazardKnowledge {
                seq![f.hazard]
            } else {
                Seq::empty()
            },
            _ => Seq::empty(),
        }
    }
}

/// The whole game.
#[verifier::ext_equal]
pub struct Table {
    pub level: int,
    pub life: int,
    pub step: Step,
    /// Tiers that the fight is lowered by.
    pub offset: int,
    pub destroyed: Seq<Card>,
    pub aging_deck: Seq<Card>,
    pub fighting_deck: Seq<Card>,
    pub fighting_discard: Seq<Card>,
    pub hazard_deck: Seq<Card>,
    pub hazard_discard: Seq<Card>,
    pub pirate_cards: Seq<Card>,
    pub pirate_cards_won: Seq<Card>,
    pub phase: Phase,
}

/// The most life points the castaway can have at a level.
pub open spec fn max_life(level: int) -> int {
    if level == 4 {
        20
    } else {
        22
    }
}

/// The life points the castaway starts with at a level.
pub open spec fn first_life(level: int) -> int {
    if level == 4 {
        18
    } else {
        20
    }
}

/// The number of aging cards a game of the level has.
pub open spec fn aging_size(level: int) -> int {
    if level <= 2 {
        10
    } else {
        11
    }
}

/// The threshold of a hazard at a tier, for the rules that need no pile: a
/// tiered hazard has one per tier (and keeps the red one at the pirate
/// tier), most pirates a flat one.
pub open spec fn flat_threshold(hazard: Hazard, step: Step) -> int {
    match hazard {
        Hazard::Leveled(l) => if step.rank() < 3 {
            l[step.rank()] as int
        } else {
            l[2] as int
        },
        Hazard::Pirate(l) => l as int,
        Hazard::PirateTwiceLife(l) => l as int,
        Hazard::PirateHalf(l) => l as int,
        Hazard::PirateAdd(l) => l as int,
        _ => 0,
    }
}

/// What a card in the fighting discard pile scores at the end.
pub open spec fn scoring() -> spec_fn(Card) -> int {
    |c: Card|
        match c.description.kind {
            CardKind::Starting(f) => f.fighting_value as int,
            CardKind::HazardKnowledge(_, f) => f.fighting_value as int,
            _ => -5,
        }
}

/// The life points a card takes when the fight ends.
pub open spec fn toll() -> spec_fn(Card) -> int {
    |c: Card|
        match c.capacity() {
            Capacity::EndLife(n) => -(n as int),
            _ => 0,
        }
}

impl Table {
    /// Every card of the game: those in the piles and those that the phase
    /// holds. The marks on the cards and their order do not count.
    pub open spec fn population(self) -> Multiset<CardDescription> {
        ids(self.destroyed).add(ids(self.aging_deck)).add(ids(self.fighting_deck)).add(
            ids(self.fighting_discard),
        ).add(ids(self.hazard_deck)).add(ids(self.hazard_discard)).add(ids(self.pirate_cards)).add(
            ids(self.pirate_cards_won),
        ).add(ids(self.phase.cards()))
    }

    /// The hazards not beaten yet, wherever they are.
    pub open spec fn hazards_at_large(self) -> Seq<Card> {
        self.hazard_deck + self.hazard_discard + self.phase.hazards()
    }

    /// The hazards left in the two hazard piles.
    pub open spec fn hazards_left(self) -> Seq<Card> {
        self.hazard_deck + self.hazard_discard
    }

    /// The free draws that a hazard grants: the number on the card, or for
    /// the pirate who stands for all hazards, what the hazards left grant
    /// together.
    pub open spec fn allowance(self, hazard: HazardCard) -> int {
        if hazard.hazard is PirateHazard {
            total(self.hazards_left(), granted())
        } else {
            hazard.free_cards as int
        }
    }

    /// The threshold of a hazard at a tier.
    pub open spec fn threshold(self, hazard: Hazard, step: Step) -> int {
        match hazard {
            Hazard::PirateAging => 2 * (aging_size(self.level) - self.aging_deck.len()),
            Hazard::PirateHazard => total(self.hazards_left(), red()),
            _ => flat_threshold(hazard, step),
        }
    }

    /// Life points that a paid draw costs: 1, or 2 in a fight against the
    /// pirate who doubles the cost.
    pub open spec fn draw_cost(self) -> int {
        if self.phase is Fighting {
            self.fight().draw_cost()
        } else {
            1
        }
    }

    /// The tier at which the current fight is fought.
    pub open spec fn fought_step(self) -> Step {
        self.step.lowered(self.offset as nat)
    }

    /// The fight in progress. Meaningful while a fight is on.
    pub open spec fn fight(self) -> Fight {
        self.phase->Fighting_0
    }

    /// By how much the cards in play beat the hazard, if a fight is on.
    pub open spec fn fight_diff(self) -> Option<int> {
        match self.phase {
            Phase::Fighting(f) => Some(
                f.value() - self.threshold(f.rule(), self.fought_step()),
            ),
            _ => None,
        }
    }

    /// Whether the next draw of the fight costs no life: the hazard's free
    /// draws are not used up, and no card of the left pile stops them.
    pub open spec fn draws_free(self) -> bool {
        !self.fight().stopped() && self.fight().free_used < self.allowance(
            self.fight().hazard.description.kind.hazard_face(),
        )
    }

    /// The score: the cards in the fighting discard pile, 15 for each pirate
    /// beaten, 5 for each life point if the game was won, less 3 for each
    /// hazard left.
    pub open spec fn score(self) -> int {
        total(self.fighting_discard, scoring()) + 15 * self.pirate_cards_won.len() + (
        if self.phase == Phase::Ended(true) {
            5 * self.life
        } else {
            0
        }) - 3 * (self.hazard_deck.len() + self.hazard_discard.len())
    }

    /// Each pile holds cards of its sort: cards to fight with, hazards, or
    /// pirates.
    pub open spec fn piles_sorted(self) -> bool {
        &&& every(self.destroyed, |c: Card| c.fights())
        &&& every(self.aging_deck, |c: Card| c.fights())
        &&& every(self.fighting_deck, |c: Card| c.fights())
        &&& every(self.fighting_discard, |c: Card| c.fights())
        &&& every(self.hazard_deck, |c: Card| c.threatens())
        &&& every(self.hazard_discard, |c: Card| c.threatens())
        &&& every(self.pirate_cards, |c: Card| c.plunders())
        &&& every(self.pirate_cards_won, |c: Card| c.plunders())
    }

    /// The phase holds cards of the right sort, a tier is lowered only in
    /// a fight, and hazards are met below the pirate tier only.
    pub open spec fn phase_sorted(self) -> bool {
        match self.phase {
            Phase::Idle => self.offset == 0,
            Phase::ChooseHazard(shown) => {
                &&& self.offset == 0
                &&& self.step != Step::Pirate
                &&& 1 <= shown.len() <= 2
                &&& every(shown, |c: Card| c.threatens())
            },
            Phase::ChoosePirate => self.offset == 0 && self.pirate_cards.len() >= 2,
            Phase::Fighting(f) => f.wf() && (f.hazard.threatens() ==> self.step != Step::Pirate),
            Phase::Ended(_) => true,
        }
    }

    /// What holds of every game in play: the level and the life points are
    /// in range, each pile and the phase hold cards of their sort, the free
    /// draws made are within what the hazard grants, and the game is small
    /// enough for its sums to be reckoned.
    pub open spec fn wf(self) -> bool {
        &&& 1 <= self.level <= 4
        &&& 0 <= self.life <= max_life(self.level)
        &&& 0 <= self.offset <= usize::MAX
        &&& self.piles_sorted()
        &&& self.phase_sorted()
        &&& self.aging_deck.len() <= aging_size(self.level)
        &&& total(self.hazards_at_large(), granted()) <= u8::MAX
        &&& total(self.hazards_at_large(), red()) <= u8::MAX
        &&& self.population().len() <= CARD_LIMIT
        &&& self.phase matches Phase::Fighting(f) ==> f.free_used <= self.allowance(
            f.hazard.description.kind.hazard_face(),
        )
    }
}

impl Table {
    /// The cards of the game are as many as the piles and the phase hold
    /// together.
    pub proof fn lemma_sizes(self)
        ensures
            self.population().len() == self.destroyed.len() + self.aging_deck.len()
                + self.fighting_deck.len() + self.fighting_discard.len() + self.hazard_deck.len()
                + self.hazard_discard.len() + self.pirate_cards.len() + self.pirate_cards_won.len()
                + self.phase.cards().len(),
    {
        broadcast use vstd::multiset::group_multiset_axioms;

        lemma_ids_len(self.destroyed);
        lemma_ids_len(self.aging_deck);
        lemma_ids_len(self.fighting_deck);
        lemma_ids_len(self.fighting_discard);
        lemma_ids_len(self.hazard_deck);
        lemma_ids_len(self.hazard_discard);
        lemma_ids_len(self.pirate_cards);
        lemma_ids_len(self.pirate_cards_won);
        lemma_ids_len(self.phase.cards());
    }

    /// The hazards in the two piles weigh no more than all hazards at
    /// large.
    pub proof fn lemma_hazard_sums(self)
        requires
            self.wf(),
        ensures
            0 <= total(self.hazards_left(), granted()) <= total(
                self.hazards_at_large(),
                granted(),
            ),
            0 <= total(self.hazards_left(), red()) <= total(self.hazards_at_large(), red()),
    {
        lemma_total_add(self.hazards_left(), self.phase.hazards(), granted());
        lemma_total_add(self.hazards_left(), self.phase.hazards(), red());
        lemma_total_bounds(self.hazards_left(), granted(), 0, 255);
        lemma_total_bounds(self.hazards_left(), red(), 0, 255);
        lemma_total_bounds(self.phase.hazards(), granted(), 0, 255);
        lemma_total_bounds(self.phase.hazards(), red(), 0, 255);
    }
}

} // verus!
