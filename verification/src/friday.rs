//! The engine: the piles of a game, the phase it is in, and the events that
//! move it.

use crate::cards::{Capacity, Card, CardKind, Hazard, HazardCard, Step};
use crate::catalog::{granted, red};
use crate::fight::{acting, sum_best, worths};
use crate::piles::{every, lemma_total_add, lemma_total_push, total};
use crate::table::{max_life, scoring, Fight, Pending, Phase, Table, CARD_LIMIT};
use crate::words::{decimal, write_number};
use vstd::prelude::*;

verus! {

/// An ability that waits for the player to go on. A card is named by its
/// place among the cards in play, the left pile first.
#[derive(Debug, Clone)]
pub enum Using {
    Nothing,
    /// Extra cards are still to be drawn.
    Draw(i8),
    /// The card at this place destroys another.
    Destroy(usize),
    Double,
    Copy,
    /// Cards taken off the deck to be put back in a chosen order.
    Sort(Vec<Card>),
    /// The card at this place exchanges that many others.
    Swap(usize, i8),
    /// The card at this place sends another under the deck.
    UnderDeck(usize),
}

impl View for Using {
    type V = Pending;

    open spec fn view(&self) -> Pending {
        match self {
            Using::Nothing => Pending::Nothing,
            Using::Draw(n) => Pending::Draw(*n as int),
            Using::Destroy(c) => Pending::Destroy(*c as int),
            Using::Double => Pending::Double,
            Using::Copy => Pending::Copy,
            Using::Sort(cards) => Pending::Sort(cards@),
            Using::Swap(c, n) => Pending::Swap(*c as int, *n as int),
            Using::UnderDeck(c) => Pending::UnderDeck(*c as int),
        }
    }
}

/// Where the game stands.
#[derive(Debug, Clone)]
pub enum State {
    /// Between two fights.
    Idle,
    /// The player picks one of the hazards shown.
    ChooseHazard(Vec<Card>),
    /// The player picks one of the pirates that are left.
    ChoosePirate,
    /// A fight: the hazard, the free draws made, the left pile, the right
    /// pile, and the ability that waits.
    Fighting(Card, u8, Vec<Card>, Vec<Card>, Using),
    /// The game is over, won or lost.
    Ended(bool),
}

impl View for State {
    type V = Phase;

    open spec fn view(&self) -> Phase {
        match self {
            State::Idle => Phase::Idle,
            State::ChooseHazard(shown) => Phase::ChooseHazard(shown@),
            State::ChoosePirate => Phase::ChoosePirate,
            State::Fighting(hazard, free_used, left, right, using) => Phase::Fighting(
                Fight {
                    hazard: *hazard,
                    free_used: *free_used as int,
                    left: left@,
                    right: right@,
                    pending: using@,
                },
            ),
            State::Ended(won) => Phase::Ended(*won),
        }
    }
}

/// What the player asks for.
#[derive(Debug)]
pub enum Event {
    /// Begin the next fight.
    Start,
    /// Pick the hazard at this place, or pass on the only one shown.
    HazardChoice(Option<usize>),
    /// Pick a pirate, or the card an ability is aimed at.
    Choice(usize),
    /// Send the card at this place under the deck, and perhaps draw another
    /// in its stead.
    ChoiceUnder(usize, bool),
    /// Draw a card.
    Fight,
    /// Use the ability of the card at this place.
    Use(usize),
    /// Claim the fight.
    Win,
    /// Give the fight up, destroying the cards at these places.
    Lose(Vec<usize>),
    /// Go on with the ability that waits.
    Continue,
    /// Drop the ability that waits.
    Break,
    /// Put the cards held aside back in this order, perhaps destroying the
    /// first.
    Sort(Vec<usize>, bool),
}

/// Why an event was not carried out.
#[derive(Debug, Clone, Copy, PartialEq, Eq, Structural)]
pub enum Rejection {
    WrongState,
    InvalidChoice,
    MustChoose,
    InvalidPirate,
    AlreadyUsed,
    ToBeDestroyed,
    InvalidCard,
    DestroyCurrent,
    AlreadyDestroyed,
    AlreadyDoubled,
    SwapCurrent,
    ReplaceFromRight,
    AlreadyDrawnThree,
    InvalidSort,
    MustDraw,
    CannotWin,
    LoseToPirate,
    MustPlay,
    InvalidDiscard,
    /// The cards in play beat the hazard: there is no loss to take.
    NotLost,
    /// The cards to destroy cost more than the fight was lost by.
    NotEnoughDiff { diff: isize, cost: isize },
    /// The castaway ran out of life: the game is lost.
    Died,
    /// No card is left to draw: the game is lost.
    DeckEmpty,
}

impl Rejection {
    /// The reason in words.
    pub open spec fn text(self) -> Seq<char> {
        match self {
            Rejection::WrongState => "Wrong state, event combination"@,
            Rejection::InvalidChoice => "Invalid choice"@,
            Rejection::MustChoose => "You must choose a card"@,
            Rejection::InvalidPirate => "Invalid pirate card"@,
            Rejection::AlreadyUsed => "Card already used"@,
            Rejection::ToBeDestroyed => "Card is to be destroyed"@,
            Rejection::InvalidCard => "Invalid card"@,
            Rejection::DestroyCurrent => "You can't destroy the current card"@,
            Rejection::AlreadyDestroyed => "Card already destroyed"@,
            Rejection::AlreadyDoubled => "Card already doubled"@,
            Rejection::SwapCurrent => "You can't swap the current card"@,
            Rejection::ReplaceFromRight => "Can't replace a card from the right pile"@,
            Rejection::AlreadyDrawnThree => "Already drawn 3 cards"@,
            Rejection::InvalidSort => "Invalid sort"@,
            Rejection::MustDraw => "You must draw at least one card"@,
            Rejection::CannotWin => "It's not possible to win!"@,
            Rejection::LoseToPirate => "Arrr, you can't decide to lose against a pirate!"@,
            Rejection::MustPlay => "You must first play a card"@,
            Rejection::InvalidDiscard => "Invalid discard #"@,
            Rejection::NotLost => "The fight is not lost"@,
            Rejection::NotEnoughDiff { diff, cost } => "Not enough diff:"@ + decimal(diff as int)
                + " for this much discard:"@ + decimal(cost as int),
            Rejection::Died => "You died!"@,
            Rejection::DeckEmpty => "Fighting deck is empty"@,
        }
    }

    /// The reason in words.
    pub fn message(&self) -> (s: String)
        ensures
            s@ == self.text(),
    {
        match self {
            Rejection::WrongState => "Wrong state, event combination".to_owned(),
            Rejection::InvalidChoice => "Invalid choice".to_owned(),
            Rejection::MustChoose => "You must choose a card".to_owned(),
            Rejection::InvalidPirate => "Invalid pirate card".to_owned(),
            Rejection::AlreadyUsed => "Card already used".to_owned(),
            Rejection::ToBeDestroyed => "Card is to be destroyed".to_owned(),
            Rejection::InvalidCard => "Invalid card".to_owned(),
            Rejection::DestroyCurrent => "You can't destroy the current card".to_owned(),
            Rejection::AlreadyDestroyed => "Card already destroyed".to_owned(),
            Rejection::AlreadyDoubled => "Card already doubled".to_owned(),
            Rejection::SwapCurrent => "You can't swap the current card".to_owned(),
            Rejection::ReplaceFromRight => "Can't replace a card from the right pile".to_owned(),
            Rejection::AlreadyDrawnThree => "Already drawn 3 cards".to_owned(),
            Rejection::InvalidSort => "Invalid sort".to_owned(),
            Rejection::MustDraw => "You must draw at least one card".to_owned(),
            Rejection::CannotWin => "It's not possible to win!".to_owned(),
            Rejection::LoseToPirate => "Arrr, you can't decide to lose against a pirate!".to_owned(),
            Rejection::MustPlay => "You must first play a card".to_owned(),
            Rejection::InvalidDiscard => "Invalid discard #".to_owned(),
            Rejection::NotLost => "The fight is not lost".to_owned(),
            Rejection::NotEnoughDiff { diff, cost } => {
                let mut text = "Not enough diff:".to_owned();
                write_number(&mut text, *diff);
                text.append(" for this much discard:");
                write_number(&mut text, *cost);
                text
            },
            Rejection::Died => "You died!".to_owned(),
            Rejection::DeckEmpty => "Fighting deck is empty".to_owned(),
        }
    }

    /// Whether the event ended the game instead of leaving it as it was.
    pub open spec fn fatal(self) -> bool {
        self == Rejection::Died || self == Rejection::DeckEmpty
    }

    /// Whether the event ended the game instead of leaving it as it was.
    pub fn is_fatal(&self) -> (b: bool)
        ensures
            b == self.fatal(),
    {
        match self {
            Rejection::Died => true,
            Rejection::DeckEmpty => true,
            _ => false,
        }
    }
}

/// The level of a game: 1 to 4.
pub type Level = usize;

/// A game.
#[derive(Debug)]
pub struct Friday {
    pub level: Level,
    pub life_points: isize,
    pub step: Step,
    pub step_modif: usize,
    pub destroyed: Vec<Card>,
    pub aging_deck: Vec<Card>,
    pub fighting_deck: Vec<Card>,
    pub fighting_discard: Vec<Card>,
    pub hazard_deck: Vec<Card>,
    pub hazard_discard: Vec<Card>,
    pub pirate_cards: Vec<Card>,
    pub pirate_cards_won: Vec<Card>,
    pub state: State,
    /// The generator that orders the piles.
    pub rng: rand::rngs::StdRng,
}

impl View for Friday {
    type V = Table;

    open spec fn view(&self) -> Table {
        Table {
            level: self.level as int,
            life: self.life_points as int,
            step: self.step,
            offset: self.step_modif as int,
            destroyed: self.destroyed@,
            aging_deck: self.aging_deck@,
            fighting_deck: self.fighting_deck@,
            fighting_discard: self.fighting_discard@,
            hazard_deck: self.hazard_deck@,
            hazard_discard: self.hazard_discard@,
            pirate_cards: self.pirate_cards@,
            pirate_cards_won: self.pirate_cards_won@,
            phase: self.state@,
        }
    }
}

/// The two piles of a fight as one, the left pile first.
pub fn joined(left: &Vec<Card>, right: &Vec<Card>) -> (r: Vec<Card>)
    ensures
        r@ == left@ + right@,
{
    let mut cards: Vec<Card> = Vec::new();
    let mut i: usize = 0;
    while i < left.len()
        invariant
            i <= left.len(),
            cards@ == left@.take(i as int),
        decreases left.len() - i,
    {
        cards.push(left[i]);
        i += 1;
        assert(cards@ =~= left@.take(i as int));
    }
    assert(left@.take(i as int) =~= left@);
    let mut j: usize = 0;
    while j < right.len()
        invariant
            j <= right.len(),
            cards@ == left@ + right@.take(j as int),
        decreases right.len() - j,
    {
        cards.push(right[j]);
        j += 1;
        assert(cards@ =~= left@ + right@.take(j as int));
    }
    assert(right@.take(j as int) =~= right@);
    cards
}

/// The free draws that the hazards of a pile grant together.
pub(crate) fn sum_granted(pile: &Vec<Card>) -> (r: usize)
    requires
        pile.len() <= CARD_LIMIT,
        every(pile@, |c: Card| c.threatens()),
    ensures
        r == total(pile@, granted()),
        r <= 255 * pile.len(),
{
    let mut sum: usize = 0;
    let mut i: usize = 0;
    while i < pile.len()
        invariant
            i <= pile.len(),
            pile.len() <= CARD_LIMIT,
            every(pile@, |c: Card| c.threatens()),
            sum == total(pile@.take(i as int), granted()),
            sum <= 255 * i,
        decreases pile.len() - i,
    {
        assert(pile@[i as int].threatens());
        let free = pile[i].description.kind.to_hazard_card().free_cards;
        proof {
            assert(pile@.take(i + 1) =~= pile@.take(i as int).push(pile@[i as int]));
            lemma_total_push(pile@.take(i as int), pile@[i as int], granted());
        }
        sum = sum + free as usize;
        i += 1;
    }
    assert(pile@.take(i as int) =~= pile@);
    sum
}

/// The red thresholds of the hazards of a pile together.
pub(crate) fn sum_red(pile: &Vec<Card>) -> (r: usize)
    requires
        pile.len() <= CARD_LIMIT,
        every(pile@, |c: Card| c.threatens()),
    ensures
        r == total(pile@, red()),
        r <= 255 * pile.len(),
{
    let mut sum: usize = 0;
    let mut i: usize = 0;
    while i < pile.len()
        invariant
            i <= pile.len(),
            pile.len() <= CARD_LIMIT,
            every(pile@, |c: Card| c.threatens()),
            sum == total(pile@.take(i as int), red()),
            sum <= 255 * i,
        decreases pile.len() - i,
    {
        assert(pile@[i as int].threatens());
        let level: u8 = match pile[i].description.kind.to_hazard_card().hazard {
            Hazard::Leveled(l) => l[2],
            _ => 0,
        };
        proof {
            assert(pile@.take(i + 1) =~= pile@.take(i as int).push(pile@[i as int]));
            lemma_total_push(pile@.take(i as int), pile@[i as int], red());
        }
        sum = sum + level as usize;
        i += 1;
    }
    assert(pile@.take(i as int) =~= pile@);
    sum
}

impl Friday {
    /// What holds of every game in play.
    pub open spec fn wf(&self) -> bool {
        self@.wf()
    }

    /// The most life points the castaway can have.
    pub fn max_life_points(&self) -> (r: u8)
        ensures
            r == max_life(self.level as int),
    {
        if self.level == 4 {
            20
        } else {
            22
        }
    }

    /// The free draws that a hazard grants.
    pub fn free_cards(&self, card: &HazardCard) -> (r: u8)
        requires
            self.wf(),
        ensures
            r == self@.allowance(*card),
    {
        if let Hazard::PirateHazard = card.hazard {
            proof {
                self@.lemma_sizes();
                self@.lemma_hazard_sums();
                lemma_total_add(self.hazard_deck@, self.hazard_discard@, granted());
            }
            let sum = sum_granted(&self.hazard_deck) + sum_granted(&self.hazard_discard);
            return sum as u8;
        }
        card.free_cards
    }

    /// The threshold of a hazard at a tier.
    pub fn hazard_level(&self, hazard: &Hazard, step: Step) -> (r: u8)
        requires
            self.wf(),
            *hazard is Leveled ==> step != Step::Pirate,
        ensures
            r == self@.threshold(*hazard, step),
    {
        match *hazard {
            Hazard::Leveled(l) => l[step.index()],
            Hazard::Pirate(l) => l,
            Hazard::PirateTwiceLife(l) => l,
            Hazard::PirateAging => {
                let n_aging: usize = if self.level <= 2 {
                    10
                } else {
                    11
                };
                ((n_aging - self.aging_deck.len()) * 2) as u8
            },
            Hazard::PirateHalf(l) => l,
            Hazard::PirateHazard => {
                proof {
                    self@.lemma_sizes();
                    self@.lemma_hazard_sums();
                    lemma_total_add(self.hazard_deck@, self.hazard_discard@, red());
                }
                let sum = sum_red(&self.hazard_deck) + sum_red(&self.hazard_discard);
                sum as u8
            },
            Hazard::PirateAdd(l) => l,
        }
    }

    /// The cards drawn for free, if a fight is on.
    pub fn get_left(&self) -> (r: Option<&Vec<Card>>)
        ensures
            match r {
                Some(left) => self@.phase is Fighting && left@ == self@.fight().left,
                None => !(self@.phase is Fighting),
            },
    {
        match &self.state {
            State::Fighting(_, _, left, _, _) => Some(left),
            _ => None,
        }
    }

    /// The cards paid for, and those that abilities brought, if a fight is
    /// on.
    pub fn get_right(&self) -> (r: Option<&Vec<Card>>)
        ensures
            match r {
                Some(right) => self@.phase is Fighting && right@ == self@.fight().right,
                None => !(self@.phase is Fighting),
            },
    {
        match &self.state {
            State::Fighting(_, _, _, right, _) => Some(right),
            _ => None,
        }
    }

    /// What the cards in play are worth against the hazard, if a fight is
    /// on.
    pub fn get_fight_value(&self) -> (r: Option<isize>)
        requires
            self.wf(),
        ensures
            match r {
                Some(v) => self@.phase is Fighting && v == self@.fight().value(),
                None => !(self@.phase is Fighting),
            },
            r matches Some(v) ==> -2_000_001_000 <= v <= 2_000_001_000,
    {
        match &self.state {
            State::Fighting(c, _, left, right, _) => {
                proof {
                    self@.lemma_sizes();
                }
                let cards = joined(left, right);
                let n = cards.len();
                let mut values: Vec<isize> = Vec::new();
                let mut maxzero: usize = 0;
                let mut i: usize = 0;
                while i < n
                    invariant
                        i <= n,
                        n == cards.len(),
                        every(cards@, |c: Card| c.fights()),
                        values.len() == i,
                        values@.map_values(|v: isize| v as int) == worths(cards@.take(i as int)),
                        forall|k: int|
                            0 <= k < i ==> -1_000_000 <= #[trigger] values[k] <= 1_000_000,
                        maxzero == acting(cards@.take(i as int), Capacity::MaxZero),
                        maxzero <= i,
                    decreases n - i,
                {
                    let card = &cards[i];
                    assert(cards@[i as int].fights());
                    proof {
                        assert(cards@.take(i + 1).drop_last() =~= cards@.take(i as int));
                        assert(cards@.take(i + 1).last() == cards@[i as int]);
                    }
                    if !card.destroy && card.description.kind.to_fighting_card().capacity
                        == Capacity::MaxZero {
                        maxzero += 1;
                    }
                    let ghost before = values@.map_values(|v: isize| v as int);
                    values.push(card.get_fighting_value());
                    assert(values@.map_values(|v: isize| v as int) =~= before.push(
                        cards@[i as int].worth(),
                    ));
                    assert(worths(cards@.take(i + 1)) =~= worths(cards@.take(i as int)).push(
                        cards@[i as int].worth(),
                    ));
                    i += 1;
                }
                assert(cards@.take(n as int) =~= cards@);
                let rule = c.description.kind.to_hazard_card().hazard;
                let counted: usize = if let Hazard::PirateHalf(_) = rule {
                    (n + 1) / 2
                } else {
                    n
                };
                let cancelled: usize = if maxzero <= counted {
                    maxzero
                } else {
                    counted
                };
                let top = sum_best(copy_of(&values), counted);
                let cut = sum_best(values, cancelled);
                let mut val = top - cut;
                if let Hazard::PirateAdd(_) = rule {
                    val = val + n as isize;
                }
                Some(val)
            },
            _ => None,
        }
    }

    /// By how much the cards in play beat the hazard, if a fight is on.
    pub fn fight_diff(&self) -> (r: Option<isize>)
        requires
            self.wf(),
        ensures
            match r {
                Some(d) => self@.fight_diff() == Some(d as int),
                None => self@.fight_diff() is None,
            },
            r matches Some(d) ==> -2_000_001_255 <= d <= 2_000_001_255,
    {
        match &self.state {
            State::Fighting(c, _, _, _, _) => {
                let now = match self.get_fight_value() {
                    Some(v) => v,
                    None => 0,
                };
                let step = self.fought_step();
                let rule = c.description.kind.to_hazard_card().hazard;
                let objective = self.hazard_level(&rule, step) as isize;
                Some(now - objective)
            },
            _ => None,
        }
    }

    /// The tier at which the current fight is fought.
    pub fn fought_step(&self) -> (r: Step)
        ensures
            r == self@.fought_step(),
            (r == Step::Pirate) == (self.step == Step::Pirate),
    {
        if self.step_modif == 0 {
            self.step
        } else if self.step_modif == 1 {
            self.step.prev()
        } else {
            self.step.prev().prev()
        }
    }

    /// The score of the game.
    pub fn score(&self) -> (r: isize)
        requires
            self.wf(),
        ensures
            r == self@.score(),
    {
        proof {
            self@.lemma_sizes();
        }
        let mut score: isize = 0;
        let mut i: usize = 0;
        while i < self.fighting_discard.len()
            invariant
                i <= self.fighting_discard.len(),
                self.fighting_discard.len() <= CARD_LIMIT,
                every(self.fighting_discard@, |c: Card| c.fights()),
                score == total(self.fighting_discard@.take(i as int), scoring()),
                -500_000 * i <= score <= 500_000 * i,
            decreases self.fighting_discard.len() - i,
        {
            let card = &self.fighting_discard[i];
            assert(self.fighting_discard@[i as int].fights());
            proof {
                assert(self.fighting_discard@.take(i + 1) =~= self.fighting_discard@.take(
                    i as int,
                ).push(*card));
                lemma_total_push(self.fighting_discard@.take(i as int), *card, scoring());
            }
            let v: isize = match &card.description.kind {
                CardKind::Starting(f) => f.fighting_value,
                CardKind::HazardKnowledge(_, f) => f.fighting_value,
                _ => -5,
            };
            score = score + v;
            i += 1;
        }
        assert(self.fighting_discard@.take(i as int) =~= self.fighting_discard@);
        score = score + self.pirate_cards_won.len() as isize * 15;
        if let State::Ended(true) = self.state {
            score = score + self.life_points * 5;
        }
        score = score - (self.hazard_deck.len() + self.hazard_discard.len()) as isize * 3;
        score
    }
}

/// A copy of a list of values.
fn copy_of(values: &Vec<isize>) -> (r: Vec<isize>)
    ensures
        r@ == values@,
{
    let mut copy: Vec<isize> = Vec::new();
    let mut i: usize = 0;
    while i < values.len()
        invariant
            i <= values.len(),
            copy@ == values@.take(i as int),
        decreases values.len() - i,
    {
        copy.push(values[i]);
        i += 1;
        assert(copy@ =~= values@.take(i as int));
    }
    assert(values@.take(i as int) =~= values@);
    copy
}

} // verus!
