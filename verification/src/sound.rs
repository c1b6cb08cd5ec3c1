//! Whether a game is in order, found out by looking at it.

use crate::cards::{
    Capacity, Card, CardDescription, CardKind, FightingCard, Hazard, Step, VALUE_LIMIT,
};
use crate::catalog::{granted, red};
use crate::friday::{sum_granted, sum_red, Friday, State, Using};
use crate::piles::{every, lemma_total_add, total};
use crate::table::{Phase, CARD_LIMIT};
use vstd::prelude::*;

verus! {

fn capacity_valid(capacity: &Capacity) -> (b: bool)
    ensures
        b == capacity.valid(),
{
    match capacity {
        Capacity::Life(n) => *n >= 0,
        Capacity::Card(n) => *n >= 1,
        Capacity::Swap(n) => *n >= 1,
        Capacity::EndLife(n) => *n <= 0,
        _ => true,
    }
}

fn fighting_valid(face: &FightingCard) -> (b: bool)
    ensures
        b == face.valid(),
{
    -VALUE_LIMIT <= face.fighting_value && face.fighting_value <= VALUE_LIMIT && capacity_valid(
        &face.capacity,
    )
}

fn description_valid(d: &CardDescription) -> (b: bool)
    ensures
        b == d.valid(),
{
    match &d.kind {
        CardKind::Starting(f) => fighting_valid(f),
        CardKind::AgingNormal(f) => fighting_valid(f),
        CardKind::AgingDifficult(f) => fighting_valid(f),
        CardKind::HazardKnowledge(h, f) => {
            let tiered = match h.hazard {
                Hazard::Leveled(_) => true,
                _ => false,
            };
            tiered && fighting_valid(f)
        },
        CardKind::Pirate(h) => match h.hazard {
            Hazard::Leveled(_) => false,
            _ => true,
        },
    }
}

fn card_fights(card: &Card) -> (b: bool)
    ensures
        b == card.fights(),
{
    description_valid(&card.description) && !card.description.is_pirate()
}

fn card_threatens(card: &Card) -> (b: bool)
    ensures
        b == card.threatens(),
{
    description_valid(&card.description) && card.description.is_hazard_knowledge()
}

fn card_plunders(card: &Card) -> (b: bool)
    ensures
        b == card.plunders(),
{
    description_valid(&card.description) && card.description.is_pirate()
}

fn all_fight(pile: &Vec<Card>) -> (b: bool)
    ensures
        b == every(pile@, |c: Card| c.fights()),
{
    let mut i: usize = 0;
    while i < pile.len()
        invariant
            i <= pile.len(),
            forall|k: int| 0 <= k < i ==> (#[trigger] pile@[k]).fights(),
        decreases pile.len() - i,
    {
        if !card_fights(&pile[i]) {
            assert(!pile@[i as int].fights());
            return false;
        }
        i += 1;
    }
    true
}

fn all_threaten(pile: &Vec<Card>) -> (b: bool)
    ensures
        b == every(pile@, |c: Card| c.threatens()),
{
    let mut i: usize = 0;
    while i < pile.len()
        invariant
            i <= pile.len(),
            forall|k: int| 0 <= k < i ==> (#[trigger] pile@[k]).threatens(),
        decreases pile.len() - i,
    {
        if !card_threatens(&pile[i]) {
            assert(!pile@[i as int].threatens());
            return false;
        }
        i += 1;
    }
    true
}

fn all_plunder(pile: &Vec<Card>) -> (b: bool)
    ensures
        b == every(pile@, |c: Card| c.plunders()),
{
    let mut i: usize = 0;
    while i < pile.len()
        invariant
            i <= pile.len(),
            forall|k: int| 0 <= k < i ==> (#[trigger] pile@[k]).plunders(),
        decreases pile.len() - i,
    {
        if !card_plunders(&pile[i]) {
            assert(!pile@[i as int].plunders());
            return false;
        }
        i += 1;
    }
    true
}

fn using_sound(using: &Using) -> (b: bool)
    ensures
        b == using@.wf(),
{
    match using {
        Using::Draw(n) => *n >= 1,
        Using::Sort(held) => 1 <= held.len() && held.len() <= 3 && all_fight(held),
        Using::Swap(_, n) => *n >= 1,
        _ => true,
    }
}

impl Friday {
    fn piles_sorted(&self) -> (b: bool)
        ensures
            b == self@.piles_sorted(),
    {
        all_fight(&self.destroyed) && all_fight(&self.aging_deck) && all_fight(&self.fighting_deck)
            && all_fight(&self.fighting_discard) && all_threaten(&self.hazard_deck)
            && all_threaten(&self.hazard_discard) && all_plunder(&self.pirate_cards)
            && all_plunder(&self.pirate_cards_won)
    }

    fn phase_sorted(&self) -> (b: bool)
        ensures
            b == self@.phase_sorted(),
    {
        match &self.state {
            State::Idle => self.step_modif == 0,
            State::ChooseHazard(shown) => self.step_modif == 0 && self.step != Step::Pirate && 1
                <= shown.len() && shown.len() <= 2 && all_threaten(shown),
            State::ChoosePirate => self.step_modif == 0 && self.pirate_cards.len() >= 2,
            State::Fighting(hazard, _, left, right, using) => {
                let threat = card_threatens(hazard);
                (threat || card_plunders(hazard)) && all_fight(left) && all_fight(right)
                    && using_sound(using) && (!threat || self.step != Step::Pirate)
            },
            State::Ended(_) => true,
        }
    }

    /// The number of cards that the phase holds, if the game holds no more
    /// than it may.
    fn phase_size(&self) -> (r: Option<usize>)
        ensures
            match r {
                Some(n) => n == self@.phase.cards().len() && n <= CARD_LIMIT,
                None => self@.phase.cards().len() > CARD_LIMIT,
            },
    {
        match &self.state {
            State::ChooseHazard(shown) => {
                if shown.len() > CARD_LIMIT {
                    None
                } else {
                    Some(shown.len())
                }
            },
            State::Fighting(_, _, left, right, using) => {
                let held: usize = match using {
                    Using::Sort(cards) => cards.len(),
                    _ => 0,
                };
                if left.len() >= CARD_LIMIT || right.len() >= CARD_LIMIT || held >= CARD_LIMIT {
                    return None;
                }
                let n = 1 + left.len() + right.len() + held;
                if n > CARD_LIMIT {
                    None
                } else {
                    Some(n)
                }
            },
            _ => Some(0),
        }
    }

    /// Whether the game holds no more cards than it may.
    fn small(&self) -> (b: bool)
        ensures
            b == (self@.population().len() <= CARD_LIMIT),
    {
        proof {
            self@.lemma_sizes();
        }
        let held = match self.phase_size() {
            Some(n) => n,
            None => {
                return false;
            },
        };
        let mut n: usize = held;
        if self.destroyed.len() > CARD_LIMIT - n {
            return false;
        }
        n = n + self.destroyed.len();
        if self.aging_deck.len() > CARD_LIMIT - n {
            return false;
        }
        n = n + self.aging_deck.len();
        if self.fighting_deck.len() > CARD_LIMIT - n {
            return false;
        }
        n = n + self.fighting_deck.len();
        if self.fighting_discard.len() > CARD_LIMIT - n {
            return false;
        }
        n = n + self.fighting_discard.len();
        if self.hazard_deck.len() > CARD_LIMIT - n {
            return false;
        }
        n = n + self.hazard_deck.len();
        if self.hazard_discard.len() > CARD_LIMIT - n {
            return false;
        }
        n = n + self.hazard_discard.len();
        if self.pirate_cards.len() > CARD_LIMIT - n {
            return false;
        }
        n = n + self.pirate_cards.len();
        if self.pirate_cards_won.len() > CARD_LIMIT - n {
            return false;
        }
        true
    }

    /// Whether the hazards at large and the free draws made are within
    /// bounds.
    fn hazards_sound(&self) -> (b: bool)
        requires
            self@.piles_sorted(),
            self@.phase_sorted(),
            self@.population().len() <= CARD_LIMIT,
        ensures
            b == ({
                &&& total(self@.hazards_at_large(), granted()) <= u8::MAX
                &&& total(self@.hazards_at_large(), red()) <= u8::MAX
                &&& self@.phase matches Phase::Fighting(f) ==> f.free_used <= self@.allowance(
                    f.hazard.description.kind.hazard_face(),
                )
            }),
    {
        proof {
            self@.lemma_sizes();
            lemma_total_add(self.hazard_deck@, self.hazard_discard@, granted());
            lemma_total_add(self.hazard_deck@, self.hazard_discard@, red());
            lemma_total_add(self@.hazards_left(), self@.phase.hazards(), granted());
            lemma_total_add(self@.hazards_left(), self@.phase.hazards(), red());
        }
        let free_left = sum_granted(&self.hazard_deck) + sum_granted(&self.hazard_discard);
        let red_left = sum_red(&self.hazard_deck) + sum_red(&self.hazard_discard);
        match &self.state {
            State::ChooseHazard(shown) => {
                free_left + sum_granted(shown) <= 255 && red_left + sum_red(shown) <= 255
            },
            State::Fighting(hazard, used, _, _, _) => {
                let face = hazard.description.kind.to_hazard_card();
                let allowance: usize = match face.hazard {
                    Hazard::PirateHazard => free_left,
                    _ => face.free_cards as usize,
                };
                if hazard.description.is_hazard_knowledge() {
                    let one: Vec<Card> = vec![*hazard];
                    assert(one@ =~= seq![*hazard]);
                    free_left + sum_granted(&one) <= 255 && red_left + sum_red(&one) <= 255
                        && *used as usize <= allowance
                } else {
                    assert(self@.phase.hazards() =~= Seq::<Card>::empty());
                    free_left <= 255 && red_left <= 255 && *used as usize <= allowance
                }
            },
            _ => {
                assert(self@.phase.hazards() =~= Seq::<Card>::empty());
                free_left <= 255 && red_left <= 255
            },
        }
    }

    /// Whether the game is in order: what every event asks of the game it
    /// is applied to.
    pub fn is_sound(&self) -> (b: bool)
        ensures
            b == self.wf(),
    {
        if self.level < 1 || self.level > 4 {
            return false;
        }
        if self.life_points < 0 || self.life_points > self.max_life_points() as isize {
            return false;
        }
        let size: usize = if self.level <= 2 {
            10
        } else {
            11
        };
        if self.aging_deck.len() > size {
            return false;
        }
        if !self.piles_sorted() {
            return false;
        }
        if !self.phase_sorted() {
            return false;
        }
        if !self.small() {
            return false;
        }
        self.hazards_sound()
    }
}

} // verus!
