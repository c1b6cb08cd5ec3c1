//! How the engine carries an event out.

use crate::cards::{Capacity, Card, Hazard, Step};
use crate::friday::{joined, Event, Friday, Rejection, State, Using};
use crate::piles::{cleared, shuffle};
use crate::rules::{arranges, chosen, doomed, none_chosen, picked, price, spared};
use crate::table::{max_life, toll, Fight, Pending, Phase, Table};
use vstd::prelude::*;
use vstd::seq_lib::to_multiset_len;

verus! {

/// Two rulings that agree on whether and why are the same.
proof fn lemma_same_ruling(a: Result<(), Rejection>, b: Result<(), Rejection>)
    requires
        a is Ok <==> b is Ok,
        a matches Err(e) ==> b matches Err(x) && x == e,
    ensures
        a == b,
{
    match a {
        Ok(u) => {
            assert(b == Ok::<(), Rejection>(b->Ok_0));
        },
        Err(e) => {
            assert(b == Err::<(), Rejection>(b->Err_0));
        },
    }
}

/// The card at a place among the cards in play.
fn card_at(left: &Vec<Card>, right: &Vec<Card>, c: usize) -> (card: Card)
    requires
        c < left.len() + right.len(),
    ensures
        card == (left@ + right@)[c as int],
{
    if c < left.len() {
        left[c]
    } else {
        right[c - left.len()]
    }
}

/// Puts a card at a place among the cards in play.
fn set_card(left: &mut Vec<Card>, right: &mut Vec<Card>, c: usize, card: Card)
    requires
        c < old(left).len() + old(right).len(),
    ensures
        final(left)@ == if c < old(left).len() {
            old(left)@.update(c as int, card)
        } else {
            old(left)@
        },
        final(right)@ == if c < old(left).len() {
            old(right)@
        } else {
            old(right)@.update(c - old(left).len(), card)
        },
{
    if c < left.len() {
        left.set(c, card);
    } else {
        let k = c - left.len();
        right.set(k, card);
    }
}

/// Puts the cards held aside back on a deck, the first one on top.
fn put_back(deck: &mut Vec<Card>, held: Vec<Card>)
    ensures
        final(deck)@ == old(deck)@ + held@.reverse(),
{
    let mut rest = held;
    let ghost all = rest@;
    while rest.len() > 0
        invariant
            rest.len() <= all.len(),
            rest@ == all.take(rest.len() as int),
            deck@ == old(deck)@ + all.skip(rest.len() as int).reverse(),
        decreases rest.len(),
    {
        let ghost n = rest.len() as int;
        let card = rest.pop().unwrap();
        deck.push(card);
        assert(rest@ =~= all.take(n - 1));
        assert(all.skip(n - 1).reverse() =~= all.skip(n).reverse().push(card));
        assert(deck@ =~= old(deck)@ + all.skip(n - 1).reverse());
    }
    assert(all.skip(0) =~= all);
}

impl Friday {
    /// Takes the state out, leaving the game idle for the moment.
    fn take_state(&mut self) -> (state: State)
        ensures
            state == old(self).state,
            *final(self) == (Friday { state: State::Idle, ..*old(self) }),
    {
        let mut state = State::Idle;
        std::mem::swap(&mut self.state, &mut state);
        state
    }

    /// Refills the fighting deck: the discard pile and the top card of the
    /// aging pile join it, all marks come off, and the deck is shuffled.
    pub fn aging(&mut self)
        ensures
            old(self)@.refilled(final(self)@),
    {
        let ghost before = self@;
        self.fighting_deck.append(&mut self.fighting_discard);
        if let Some(add_aging) = self.aging_deck.pop() {
            self.fighting_deck.push(add_aging);
        }
        assert(self.fighting_deck@ =~= before.fighting_deck + before.recycled());
        let mut deck: Vec<Card> = Vec::new();
        let mut i: usize = 0;
        while i < self.fighting_deck.len()
            invariant
                i <= self.fighting_deck.len(),
                deck@ == cleared(self.fighting_deck@.take(i as int)),
            decreases self.fighting_deck.len() - i,
        {
            let mut card = self.fighting_deck[i];
            card.reset();
            deck.push(card);
            i += 1;
            assert(deck@ =~= cleared(self.fighting_deck@.take(i as int)));
        }
        assert(self.fighting_deck@.take(i as int) =~= self.fighting_deck@);
        self.fighting_deck = deck;
        shuffle(&mut self.rng, &mut self.fighting_deck);
        assert(self.aging_deck@ =~= if before.aging_deck.len() > 0 {
            before.aging_deck.drop_last()
        } else {
            before.aging_deck
        });
        assert(self@ =~= Table {
            fighting_deck: self@.fighting_deck,
            fighting_discard: self@.fighting_discard,
            aging_deck: self@.aging_deck,
            ..before
        });
    }

    /// Ends the game. The cards that the phase holds go to the piles.
    pub(crate) fn end_game(&mut self, won: bool)
        ensures
            final(self)@ == (Table { phase: Phase::Ended(won), ..old(self)@.defeated() }),
    {
        let ghost before = self@;
        let state = self.take_state();
        if let State::ChooseHazard(mut shown) = state {
            self.hazard_discard.append(&mut shown);
        } else if let State::Fighting(hazard, _, mut left, mut right, using) = state {
            self.fighting_discard.append(&mut left);
            self.fighting_discard.append(&mut right);
            if let Using::Sort(held) = using {
                put_back(&mut self.fighting_deck, held);
            }
            if hazard.description.is_pirate() {
                self.pirate_cards.push(hazard);
            } else {
                self.hazard_discard.push(hazard);
            }
            assert(self.fighting_deck@ =~= before.fighting_deck
                + before.fight().pending.held().reverse());
        } else {
            assert(self.hazard_discard@ =~= before.hazard_discard + before.phase.hazards());
        }
        self.state = State::Ended(won);
        assert(self@ =~= Table { phase: Phase::Ended(won), ..before.defeated() });
    }

    /// Draws the top card of the fighting deck, at the cost of life unless
    /// the draw is free. Where the life does not suffice, or no card is
    /// left, the game is lost.
    pub(crate) fn fighting_deck_pop(&mut self, free: bool) -> (r: Result<Card, Rejection>)
        requires
            old(self)@.phase is Fighting ==> old(self)@.fight().hazard.description.kind.has_hazard(),
            0 <= old(self).life_points <= max_life(old(self).level as int),
        ensures
            match r {
                Ok(card) => {
                    &&& old(self)@.draw_failure(free) is None
                    &&& old(self)@.drew(free, final(self)@, card)
                    &&& final(self)@.phase == old(self)@.phase
                },
                Err(e) => {
                    &&& old(self)@.draw_failure(free) == Some(e)
                    &&& final(self)@ == old(self)@.draw_fatal(free)
                },
            },
    {
        let ghost before = self@;
        let twice = if let State::Fighting(c, _, _, _, _) = &self.state {
            if let Hazard::PirateTwiceLife(_) = c.description.kind.to_hazard_card().hazard {
                true
            } else {
                false
            }
        } else {
            false
        };
        let cost: isize = if twice {
            2
        } else {
            1
        };
        if !free {
            match self.modify_life(-cost) {
                Ok(()) => {},
                Err(e) => {
                    return Err(e);
                },
            }
        }
        let ghost paid = self@;
        if self.fighting_deck.is_empty() {
            self.aging();
            proof {
                to_multiset_len(self.fighting_deck@);
                to_multiset_len(cleared(paid.fighting_deck + paid.recycled()));
                assert(paid.fighting_deck + paid.recycled() =~= paid.recycled());
            }
        }
        if self.fighting_deck.is_empty() {
            assert(self@ =~= paid);
            self.end_game(false);
            return Err(Rejection::DeckEmpty);
        }
        let ghost deck = self.fighting_deck@;
        let card = self.fighting_deck.pop().unwrap();
        assert(self.fighting_deck@.push(card) =~= deck);
        assert(self.fighting_deck@ =~= deck.drop_last());
        assert(before.drew(free, self@, card));
        Ok(card)
    }

    /// Deals the hazards of the next fight, if there are any. An empty
    /// hazard deck takes the game one tier on and is refilled first. `None`
    /// at the pirate tier, and where no hazard is left to deal.
    pub(crate) fn hazard_pop(&mut self) -> (r: Option<Vec<Card>>)
        ensures
            ({
                let pre = old(self)@;
                let post = final(self)@;
                let refill = pre.step != Step::Pirate && pre.hazard_deck.len() == 0;
                let stock = if refill {
                    pre.hazard_discard
                } else {
                    pre.hazard_deck
                };
                &&& post == Table {
                    step: post.step,
                    hazard_deck: post.hazard_deck,
                    hazard_discard: post.hazard_discard,
                    ..pre
                }
                &&& post.step == if refill {
                    pre.step.after()
                } else {
                    pre.step
                }
                &&& post.hazard_discard == if refill {
                    Seq::<Card>::empty()
                } else {
                    pre.hazard_discard
                }
                &&& match r {
                    None => {
                        &&& post.step == Step::Pirate || stock.len() == 0
                        &&& if refill {
                            post.hazard_deck.to_multiset() == stock.to_multiset()
                        } else {
                            post.hazard_deck == stock
                        }
                    },
                    Some(shown) => {
                        &&& post.step != Step::Pirate
                        &&& stock.len() > 0
                        &&& shown.len() == if stock.len() < 2 {
                            stock.len()
                        } else {
                            2
                        }
                        &&& if refill {
                            (post.hazard_deck + shown@).to_multiset() == stock.to_multiset()
                        } else {
                            post.hazard_deck + shown@ == stock
                        }
                    },
                }
            }),
    {
        let ghost pre = self@;
        if self.step != Step::Pirate && self.hazard_deck.is_empty() {
            self.step = self.step.next();
            self.hazard_deck.append(&mut self.hazard_discard);
            assert(self.hazard_deck@ =~= pre.hazard_discard);
            shuffle(&mut self.rng, &mut self.hazard_deck);
            proof {
                to_multiset_len(self.hazard_deck@);
                to_multiset_len(pre.hazard_discard);
            }
        }
        assert(self@ =~= Table {
            step: self@.step,
            hazard_deck: self@.hazard_deck,
            hazard_discard: self@.hazard_discard,
            ..pre
        });
        if self.step == Step::Pirate || self.hazard_deck.is_empty() {
            return None;
        }
        let ghost deck = self.hazard_deck@;
        let len = self.hazard_deck.len();
        let n = if len >= 2 {
            len - 2
        } else {
            0
        };
        let shown = self.hazard_deck.split_off(n);
        assert(self.hazard_deck@ + shown@ =~= deck);
        Some(shown)
    }

    /// Sets the next fight up.
    pub(crate) fn start(&mut self)
        requires
            old(self)@.phase is Idle,
        ensures
            old(self)@.started(final(self)@),
    {
        let ghost pre = self@;
        if let Some(cards) = self.hazard_pop() {
            self.state = State::ChooseHazard(cards);
        } else if self.pirate_cards.is_empty() {
            self.end_game(true);
        } else if self.pirate_cards.len() == 1 {
            let c = self.pirate_cards.pop().unwrap();
            assert(self.pirate_cards@ =~= Seq::<Card>::empty());
            self.state = State::Fighting(c, 0, Vec::new(), Vec::new(), Using::Nothing);
            assert(self.state@ =~= Phase::Fighting(Fight::against(pre.pirate_cards[0])));
        } else {
            self.state = State::ChoosePirate;
        }
    }

    /// What an event is owed: the ruling that the rules give, and the game
    /// that they describe. An event turned down leaves the game as it was,
    /// unless the ruling is fatal.
    pub open spec fn follows(
        before: Friday,
        event: Event,
        after: Friday,
        r: Result<(), Rejection>,
    ) -> bool {
        &&& r is Ok <==> before@.ruling(event) is Ok
        &&& r matches Err(e) ==> before@.ruling(event) matches Err(x) && x == e
        &&& match r {
            Ok(()) => before@.moved(event, after@),
            Err(e) => if e.fatal() {
                after@ == before@.lost(event)
            } else {
                after == before
            },
        }
    }

    /// Carries an event out, or turns it down.
    ///
    /// The ruling is the one the rules give. An event carried out leaves
    /// the game that the rules describe; one turned down leaves the game
    /// untouched, unless the ruling is fatal and ends the game. In every
    /// case the game stays sound, no card is lost or made, and the life
    /// points stay in range. The tier does not go back; it goes one tier on
    /// where the next fight is set up and the hazard deck is found empty,
    /// and nowhere else. A fight that ends takes the lowering of the tier
    /// with it, and a fight given up never raises the life points.
    pub fn apply(&mut self, event: Event) -> (r: Result<(), Rejection>)
        requires
            old(self).wf(),
        ensures
            final(self).wf(),
            r == old(self)@.ruling(event),
            match r {
                Ok(()) => old(self)@.moved(event, final(self)@),
                Err(e) => if e.fatal() {
                    final(self)@ == old(self)@.lost(event)
                } else {
                    *final(self) == *old(self)
                },
            },
            final(self)@.population() == old(self)@.population(),
            0 <= final(self).life_points <= max_life(final(self).level as int),
            final(self).level == old(self).level,
            old(self).step.rank() <= final(self).step.rank() <= old(self).step.rank() + 1,
            final(self).step != old(self).step ==> r is Ok && old(self).hazard_deck@.len() == 0
                && (event is Start || event is HazardChoice || event is Win || event is Lose),
            (event is Win || event is Lose) && r is Ok ==> final(self).step_modif == 0,
            event is Win && r is Err && old(self)@.ruling(event) == Err::<(), Rejection>(
                Rejection::Died,
            ) ==> final(self).step_modif == 0,
            event is Lose && r is Ok ==> final(self).life_points <= old(self).life_points,
    {
        let ghost pre = self@;
        let r = match &event {
            Event::Start => self.on_start(),
            Event::HazardChoice(choice) => self.on_hazard_choice(*choice),
            Event::Choice(c) => self.on_choice(*c),
            Event::ChoiceUnder(c, replace) => self.on_choice_under(*c, *replace),
            Event::Fight => self.on_fight(),
            Event::Use(c) => self.on_use(*c),
            Event::Win => self.on_win(),
            Event::Lose(picks) => self.on_lose(picks),
            Event::Continue => self.on_continue(),
            Event::Break => self.on_break(),
            Event::Sort(order, destroy_first) => self.on_sort(order, *destroy_first),
        };
        proof {
            match r {
                Ok(()) => {
                    pre.lemma_moved(event, self@);
                    if let Event::Lose(picks) = event {
                        pre.lemma_given_up(picks@);
                    }
                },
                Err(e) => {
                    if e.fatal() {
                        pre.lemma_lost(event);
                    }
                },
            }
            lemma_same_ruling(r, pre.ruling(event));
        }
        r
    }

    /// Carries an event out, or turns it down with the reason in words.
    /// It does what `apply` does.
    pub fn next(&mut self, event: Event) -> (r: Result<(), String>)
        requires
            old(self).wf(),
        ensures
            final(self).wf(),
            r is Ok <==> old(self)@.ruling(event) is Ok,
            r matches Err(hint) ==> old(self)@.ruling(event) matches Err(e) && hint@ == e.text(),
            match old(self)@.ruling(event) {
                Ok(()) => old(self)@.moved(event, final(self)@),
                Err(e) => if e.fatal() {
                    final(self)@ == old(self)@.lost(event)
                } else {
                    *final(self) == *old(self)
                },
            },
            final(self)@.population() == old(self)@.population(),
            0 <= final(self).life_points <= max_life(final(self).level as int),
            final(self).level == old(self).level,
            old(self).step.rank() <= final(self).step.rank() <= old(self).step.rank() + 1,
            final(self).step != old(self).step ==> r is Ok && old(self).hazard_deck@.len() == 0
                && (event is Start || event is HazardChoice || event is Win || event is Lose),
            (event is Win || event is Lose) && r is Ok ==> final(self).step_modif == 0,
            event is Win && r is Err && old(self)@.ruling(event) == Err::<(), Rejection>(
                Rejection::Died,
            ) ==> final(self).step_modif == 0,
            event is Lose && r is Ok ==> final(self).life_points <= old(self).life_points,
    {
        match self.apply(event) {
            Ok(()) => Ok(()),
            Err(e) => Err(e.message()),
        }
    }

    fn on_start(&mut self) -> (r: Result<(), Rejection>)
        requires
            old(self).wf(),
        ensures
            Friday::follows(*old(self), Event::Start, *final(self), r),
    {
        if let State::Idle = self.state {
            self.start();
            Ok(())
        } else {
            Err(Rejection::WrongState)
        }
    }

    fn on_hazard_choice(&mut self, choice: Option<usize>) -> (r: Result<(), Rejection>)
        requires
            old(self).wf(),
        ensures
            Friday::follows(*old(self), Event::HazardChoice(choice), *final(self), r),
    {
        let ghost pre = self@;
        let n = match &self.state {
            State::ChooseHazard(h) => h.len(),
            _ => {
                return Err(Rejection::WrongState);
            },
        };
        match choice {
            Some(c) => {
                if c >= n {
                    return Err(Rejection::InvalidChoice);
                }
                let state = self.take_state();
                if let State::ChooseHazard(mut h) = state {
                    let card = h.remove(c);
                    self.hazard_discard.append(&mut h);
                    self.state = State::Fighting(card, 0, Vec::new(), Vec::new(), Using::Nothing);
                    assert(self.state@ =~= Phase::Fighting(Fight::against(card)));
                }
                assert(self@ =~= Table {
                    hazard_discard: pre.hazard_discard + pre.phase->ChooseHazard_0.remove(c as int),
                    phase: Phase::Fighting(Fight::against(pre.phase->ChooseHazard_0[c as int])),
                    ..pre
                });
                Ok(())
            },
            None => {
                if n != 1 {
                    return Err(Rejection::MustChoose);
                }
                let state = self.take_state();
                if let State::ChooseHazard(mut h) = state {
                    let card = h.remove(0);
                    self.hazard_discard.push(card);
                }
                assert(self@ =~= Table {
                    hazard_discard: pre.hazard_discard.push(pre.phase->ChooseHazard_0[0]),
                    phase: Phase::Idle,
                    ..pre
                });
                self.start();
                Ok(())
            },
        }
    }

    fn on_break(&mut self) -> (r: Result<(), Rejection>)
        requires
            old(self).wf(),
        ensures
            Friday::follows(*old(self), Event::Break, *final(self), r),
    {
        if let State::Fighting(_, _, _, _, _) = self.state {
            self.settle();
            Ok(())
        } else {
            Err(Rejection::WrongState)
        }
    }

    /// Drops the ability that waits; cards held aside go back on the deck.
    fn settle(&mut self)
        requires
            old(self)@.phase is Fighting,
        ensures
            final(self)@ == old(self)@.settled(),
    {
        let ghost pre = self@;
        let state = self.take_state();
        if let State::Fighting(hazard, used, left, right, using) = state {
            if let Using::Sort(held) = using {
                put_back(&mut self.fighting_deck, held);
            }
            self.state = State::Fighting(hazard, used, left, right, Using::Nothing);
        }
        assert(self.fighting_deck@ =~= pre.fighting_deck + pre.fight().pending.held().reverse());
        assert(self@ =~= pre.settled());
    }

    /// Adds to the life points, or takes from them: never above the most
    /// the level allows, and below zero the game is lost.
    pub(crate) fn modify_life(&mut self, points: isize) -> (r: Result<(), Rejection>)
        requires
            isize::MIN <= old(self).life_points + points <= isize::MAX,
        ensures
            match r {
                Ok(()) => {
                    &&& old(self).life_points + points >= 0
                    &&& final(self)@ == Table {
                        life: if old(self).life_points + points > max_life(old(self).level as int) {
                            max_life(old(self).level as int)
                        } else {
                            old(self).life_points + points
                        },
                        ..old(self)@
                    }
                },
                Err(e) => {
                    &&& e == Rejection::Died
                    &&& old(self).life_points + points < 0
                    &&& final(self)@ == Table { life: 0, ..old(self)@ }.defeated()
                },
            },
    {
        self.life_points = self.life_points + points;
        if self.life_points > self.max_life_points() as isize {
            self.life_points = self.max_life_points() as isize;
        } else if self.life_points < 0 {
            self.life_points = 0;
            self.end_game(false);
            return Err(Rejection::Died);
        }
        Ok(())
    }

    /// Replaces the card at place `c` and the ability that waits.
    fn mark(&mut self, c: usize, card: Card, using: Using)
        requires
            old(self)@.phase is Fighting,
            c < old(self)@.fight().in_play().len(),
        ensures
            final(self)@ == old(self)@.with_fight(
                Fight { pending: using@, ..old(self)@.fight().with_card(c as int, card) },
            ),
    {
        let ghost pre = self@;
        let state = self.take_state();
        if let State::Fighting(hazard, used, mut left, mut right, _) = state {
            set_card(&mut left, &mut right, c, card);
            self.state = State::Fighting(hazard, used, left, right, using);
        }
        assert(self@ =~= pre.with_fight(
            Fight { pending: using@, ..pre.fight().with_card(c as int, card) },
        ));
    }

    /// Sets the ability that waits.
    fn set_using(&mut self, using: Using)
        requires
            old(self)@.phase is Fighting,
        ensures
            final(self)@ == old(self)@.waiting_for(using@),
    {
        let ghost pre = self@;
        let state = self.take_state();
        if let State::Fighting(hazard, used, left, right, _) = state {
            self.state = State::Fighting(hazard, used, left, right, using);
        }
        assert(self@ =~= pre.waiting_for(using@));
    }

    /// Puts a card on the right pile and sets the ability that waits.
    fn push_right(&mut self, card: Card, using: Using)
        requires
            old(self)@.phase is Fighting,
        ensures
            final(self)@ == old(self)@.with_fight(
                Fight {
                    right: old(self)@.fight().right.push(card),
                    pending: using@,
                    ..old(self)@.fight()
                },
            ),
    {
        let ghost pre = self@;
        let state = self.take_state();
        if let State::Fighting(hazard, used, left, mut right, _) = state {
            right.push(card);
            self.state = State::Fighting(hazard, used, left, right, using);
        }
        assert(self@ =~= pre.with_fight(
            Fight { right: pre.fight().right.push(card), pending: using@, ..pre.fight() },
        ));
    }

    /// Puts a card drawn for free on the left pile.
    fn push_left(&mut self, card: Card)
        requires
            old(self)@.phase is Fighting,
            old(self)@.fight().free_used < u8::MAX,
        ensures
            final(self)@ == old(self)@.with_fight(
                Fight {
                    left: old(self)@.fight().left.push(card),
                    free_used: old(self)@.fight().free_used + 1,
                    pending: Pending::Nothing,
                    ..old(self)@.fight()
                },
            ),
    {
        let ghost pre = self@;
        let state = self.take_state();
        if let State::Fighting(hazard, used, mut left, right, _) = state {
            left.push(card);
            self.state = State::Fighting(hazard, used + 1, left, right, Using::Nothing);
        }
        assert(self@ =~= pre.with_fight(
            Fight {
                left: pre.fight().left.push(card),
                free_used: pre.fight().free_used + 1,
                pending: Pending::Nothing,
                ..pre.fight()
            },
        ));
    }

    /// Goes on drawing the extra cards that an ability grants: puts the
    /// card drawn on the right pile, with one fewer to come.
    pub(crate) fn use_draw_card(&mut self, left: i8, drawn: Card)
        requires
            old(self)@.phase is Fighting,
            left >= 1,
        ensures
            final(self)@ == old(self)@.with_fight(
                Fight {
                    right: old(self)@.fight().right.push(drawn),
                    pending: if left > 1 {
                        Pending::Draw(left - 1)
                    } else {
                        Pending::Nothing
                    },
                    ..old(self)@.fight()
                },
            ),
    {
        let left = left - 1;
        if left > 0 {
            self.push_right(drawn, Using::Draw(left));
        } else {
            self.push_right(drawn, Using::Nothing);
        }
    }

    /// Lets the ability of the card at place `c` take effect, tapping the
    /// card first if so asked. A card that the ability takes off the deck
    /// at once is drawn before anything else is done.
    pub(crate) fn use_card(&mut self, c: usize, tap: bool) -> (r: Result<(), Rejection>)
        requires
            old(self).wf(),
            old(self)@.phase is Fighting,
            c < old(self)@.fight().in_play().len(),
            tap ==> old(self)@.fight().pending is Nothing,
        ensures
            ({
                let start = if tap {
                    old(self)@.tapped(c as int)
                } else {
                    old(self)@.waiting_for(Pending::Nothing)
                };
                match r {
                    Ok(()) => start.invoke_failure(c as int) is None && start.invoked(
                        c as int,
                        final(self)@,
                    ),
                    Err(e) => start.invoke_failure(c as int) == Some(e) && final(self)@ == old(
                        self,
                    )@.draw_fatal(true),
                }
            }),
    {
        let ghost pre = self@;
        let card = match &self.state {
            State::Fighting(_, _, left, right, _) => card_at(left, right, c),
            _ => {
                proof {
                    assert(false);
                }
                return Err(Rejection::WrongState);
            },
        };
        assert(card == pre.fight().card(c as int));
        assert(card.fights()) by {
            if c < pre.fight().left.len() {
                assert(pre.fight().left[c as int] == card);
            } else {
                assert(pre.fight().right[c - pre.fight().left.len()] == card);
            }
        }
        let capacity = card.description.kind.to_fighting_card().capacity;
        let drawn = match capacity {
            Capacity::Sort => match self.fighting_deck_pop(true) {
                Ok(d) => Some(d),
                Err(e) => {
                    return Err(e);
                },
            },
            _ => None,
        };
        let ghost stocked = self@;
        if tap {
            self.mark(c, Card { tapped: true, ..card }, Using::Nothing);
        } else {
            self.set_using(Using::Nothing);
        }
        let ghost begun = self@;
        proof {
            let start = if tap {
                pre.tapped(c as int)
            } else {
                pre.waiting_for(Pending::Nothing)
            };
            assert(start.fight().card(c as int).description == card.description);
            assert(start.invoke_failure(c as int) is None);
            assert(begun.phase == start.phase);
        }
        match capacity {
            Capacity::Life(lp) => {
                let healed = self.modify_life(lp as isize);
                assert(healed is Ok);
            },
            Capacity::Card(n) => {
                self.set_using(Using::Draw(n));
            },
            Capacity::Destroy => {
                self.set_using(Using::Destroy(c));
            },
            Capacity::Double => {
                self.set_using(Using::Double);
            },
            Capacity::Copy => {
                self.set_using(Using::Copy);
            },
            Capacity::LowerStep => {
                if self.step_modif < usize::MAX {
                    self.step_modif += 1;
                }
            },
            Capacity::Sort => {
                let mut held: Vec<Card> = Vec::new();
                held.push(drawn.unwrap());
                assert(held@ =~= seq![drawn.unwrap()]);
                self.set_using(Using::Sort(held));
            },
            Capacity::Swap(n) => {
                self.set_using(Using::Swap(c, n));
            },
            Capacity::UnderDeck => {
                self.set_using(Using::UnderDeck(c));
            },
            _ => {
                self.set_using(Using::Nothing);
            },
        }
        Ok(())
    }

    fn on_use(&mut self, c: usize) -> (r: Result<(), Rejection>)
        requires
            old(self).wf(),
        ensures
            Friday::follows(*old(self), Event::Use(c), *final(self), r),
    {
        let ghost pre = self@;
        proof {
            pre.lemma_sizes();
        }
        match &self.state {
            State::Fighting(_, _, left, right, using) => {
                if let Using::Nothing = using {
                } else {
                    return Err(Rejection::WrongState);
                }
                if c >= left.len() + right.len() {
                    return Err(Rejection::InvalidCard);
                }
                let card = card_at(left, right, c);
                if card.tapped {
                    return Err(Rejection::AlreadyUsed);
                }
                if card.destroy {
                    return Err(Rejection::ToBeDestroyed);
                }
            },
            _ => {
                return Err(Rejection::WrongState);
            },
        }
        proof {
            assert(pre.tapped(c as int).fight().card(c as int).description == pre.fight().card(
                c as int,
            ).description);
        }
        self.use_card(c, true)
    }

    fn on_choice(&mut self, c: usize) -> (r: Result<(), Rejection>)
        requires
            old(self).wf(),
        ensures
            Friday::follows(*old(self), Event::Choice(c), *final(self), r),
    {
        let ghost pre = self@;
        proof {
            pre.lemma_sizes();
        }
        match &self.state {
            State::ChoosePirate => {
                if c >= self.pirate_cards.len() {
                    return Err(Rejection::InvalidPirate);
                }
                let card = self.pirate_cards.remove(c);
                self.state = State::Fighting(card, 0, Vec::new(), Vec::new(), Using::Nothing);
                assert(self@ =~= Table {
                    pirate_cards: pre.pirate_cards.remove(c as int),
                    phase: Phase::Fighting(Fight::against(pre.pirate_cards[c as int])),
                    ..pre
                });
                Ok(())
            },
            State::Fighting(_, _, left, right, using) => {
                let n = left.len() + right.len();
                match using {
                    Using::Destroy(d) => {
                        if c == *d {
                            return Err(Rejection::DestroyCurrent);
                        }
                        if c >= n {
                            return Err(Rejection::InvalidCard);
                        }
                        let card = card_at(left, right, c);
                        if card.destroy {
                            return Err(Rejection::AlreadyDestroyed);
                        }
                        self.mark(c, Card { destroy: true, ..card }, Using::Nothing);
                        Ok(())
                    },
                    Using::Double => {
                        if c >= n {
                            return Err(Rejection::InvalidCard);
                        }
                        let card = card_at(left, right, c);
                        if card.destroy {
                            return Err(Rejection::ToBeDestroyed);
                        }
                        if card.double {
                            return Err(Rejection::AlreadyDoubled);
                        }
                        self.mark(c, Card { double: true, ..card }, Using::Nothing);
                        Ok(())
                    },
                    Using::Copy => {
                        if c >= n {
                            return Err(Rejection::InvalidCard);
                        }
                        let card = card_at(left, right, c);
                        if card.destroy {
                            return Err(Rejection::ToBeDestroyed);
                        }
                        self.use_card(c, false)
                    },
                    Using::Swap(swap_card, uses) => {
                        let swap_card = *swap_card;
                        let uses = *uses;
                        if c == swap_card {
                            return Err(Rejection::SwapCurrent);
                        }
                        if c >= n {
                            return Err(Rejection::InvalidCard);
                        }
                        let card = card_at(left, right, c);
                        if card.destroy {
                            return Err(Rejection::ToBeDestroyed);
                        }
                        self.fighting_discard.push(card);
                        let ghost mid = self@;
                        match self.fighting_deck_pop(true) {
                            Ok(drawn) => {
                                let ghost stocked = self@;
                                if uses == 1 {
                                    self.mark(c, drawn, Using::Nothing);
                                } else {
                                    self.mark(c, drawn, Using::Swap(swap_card, uses - 1));
                                }
                                proof {
                                    let f = pre.fight();
                                    let g = f.with_card(c as int, drawn);
                                    assert(g.in_play()[c as int] == drawn) by {
                                        if c < f.left.len() {
                                            assert(g.left[c as int] == drawn);
                                        } else {
                                            assert(g.right[c - f.left.len()] == drawn);
                                        }
                                    }
                                    assert(mid =~= Table {
                                        fighting_discard: pre.fighting_discard.push(
                                            f.card(c as int),
                                        ),
                                        ..pre
                                    });
                                }
                                Ok(())
                            },
                            Err(e) => {
                                proof {
                                    assert(false);
                                }
                                Err(e)
                            },
                        }
                    },
                    _ => Err(Rejection::WrongState),
                }
            },
            _ => Err(Rejection::WrongState),
        }
    }

    fn on_continue(&mut self) -> (r: Result<(), Rejection>)
        requires
            old(self).wf(),
        ensures
            Friday::follows(*old(self), Event::Continue, *final(self), r),
    {
        let ghost pre = self@;
        match &self.state {
            State::Fighting(_, _, _, _, using) => match using {
                Using::Draw(n) => {
                    let n = *n;
                    match self.fighting_deck_pop(true) {
                        Ok(drawn) => {
                            self.use_draw_card(n, drawn);
                            Ok(())
                        },
                        Err(e) => Err(e),
                    }
                },
                Using::Sort(held) => {
                    if held.len() >= 3 {
                        return Err(Rejection::AlreadyDrawnThree);
                    }
                    self.use_sort()
                },
                _ => Err(Rejection::WrongState),
            },
            _ => Err(Rejection::WrongState),
        }
    }

    /// Takes one more card off the deck to be sorted.
    pub(crate) fn use_sort(&mut self) -> (r: Result<(), Rejection>)
        requires
            old(self).wf(),
            old(self)@.phase is Fighting,
            old(self)@.fight().pending is Sort,
        ensures
            match r {
                Ok(()) => {
                    &&& old(self)@.draw_failure(true) is None
                    &&& final(self)@.phase is Fighting
                    &&& final(self)@.fight().pending is Sort
                    &&& final(self)@.fight().pending.held().len() == old(
                        self,
                    )@.fight().pending.held().len() + 1
                    &&& old(self)@.drew(
                        true,
                        final(self)@,
                        final(self)@.fight().pending.held().last(),
                    )
                    &&& final(self)@.fight() == Fight {
                        pending: Pending::Sort(
                            old(self)@.fight().pending.held().push(
                                final(self)@.fight().pending.held().last(),
                            ),
                        ),
                        ..old(self)@.fight()
                    }
                },
                Err(e) => {
                    &&& old(self)@.draw_failure(true) == Some(e)
                    &&& final(self)@ == old(self)@.draw_fatal(true)
                },
            },
    {
        let ghost pre = self@;
        match self.fighting_deck_pop(true) {
            Ok(drawn) => {
                let state = self.take_state();
                if let State::Fighting(hazard, used, left, right, Using::Sort(mut held)) = state {
                    held.push(drawn);
                    self.state = State::Fighting(hazard, used, left, right, Using::Sort(held));
                }
                assert(self@.phase =~= Phase::Fighting(
                    Fight {
                        pending: Pending::Sort(pre.fight().pending.held().push(drawn)),
                        ..pre.fight()
                    },
                ));
                Ok(())
            },
            Err(e) => Err(e),
        }
    }

    fn on_fight(&mut self) -> (r: Result<(), Rejection>)
        requires
            old(self).wf(),
        ensures
            Friday::follows(*old(self), Event::Fight, *final(self), r),
    {
        let ghost pre = self@;
        let free = match &self.state {
            State::Fighting(c, used_free, left, _, _) => {
                if has_stop(left) {
                    false
                } else {
                    *used_free < self.free_cards(c.description.kind.to_hazard_card())
                }
            },
            _ => {
                return Err(Rejection::WrongState);
            },
        };
        match self.fighting_deck_pop(free) {
            Ok(card) => {
                let ghost drawn = self@;
                self.settle();
                if free {
                    self.push_left(card);
                } else {
                    self.push_right(card, Using::Nothing);
                }
                proof {
                    let held = pre.fight().pending.held();
                    assert(self@.fighting_deck.take(self@.fighting_deck.len() - held.len())
                        =~= drawn.fighting_deck);
                    assert(self@.fighting_deck.skip(self@.fighting_deck.len() - held.len())
                        =~= held.reverse());
                    assert(self@.before_return(held.len() as int) =~= Table {
                        phase: self@.phase,
                        ..drawn
                    });
                }
                Ok(())
            },
            Err(e) => Err(e),
        }
    }

    fn on_choice_under(&mut self, c: usize, replace: bool) -> (r: Result<(), Rejection>)
        requires
            old(self).wf(),
        ensures
            Friday::follows(*old(self), Event::ChoiceUnder(c, replace), *final(self), r),
    {
        let ghost pre = self@;
        proof {
            pre.lemma_sizes();
        }
        match &self.state {
            State::Fighting(_, _, left, right, using) => match using {
                Using::UnderDeck(d) => {
                    if c == *d {
                        return Err(Rejection::SwapCurrent);
                    }
                    if c >= left.len() && replace {
                        return Err(Rejection::ReplaceFromRight);
                    }
                    if c >= left.len() + right.len() {
                        return Err(Rejection::InvalidCard);
                    }
                    if card_at(left, right, c).destroy {
                        return Err(Rejection::AlreadyDestroyed);
                    }
                },
                _ => {
                    return Err(Rejection::WrongState);
                },
            },
            _ => {
                return Err(Rejection::WrongState);
            },
        }
        let state = self.take_state();
        if let State::Fighting(hazard, used, mut left, mut right, _) = state {
            let mut card = if c < left.len() {
                left.remove(c)
            } else {
                right.remove(c - left.len())
            };
            card.reset();
            self.fighting_deck.insert(0, card);
            assert(self.fighting_deck@ =~= seq![card] + pre.fighting_deck);
            if replace {
                let ghost deck = self.fighting_deck@;
                let top = self.fighting_deck.pop().unwrap();
                assert(self.fighting_deck@ =~= deck.drop_last());
                left.insert(c, top);
            }
            self.state = State::Fighting(hazard, used, left, right, Using::Nothing);
        }
        assert(self@ =~= if replace {
            pre.tucked(c as int).restocked(c as int)
        } else {
            pre.tucked(c as int)
        });
        Ok(())
    }

    fn on_sort(&mut self, order: &Vec<usize>, destroy_first: bool) -> (r: Result<(), Rejection>)
        requires
            old(self).wf(),
        ensures
            Friday::follows(*old(self), Event::Sort(*order, destroy_first), *final(self), r),
    {
        let ghost pre = self@;
        let n = match &self.state {
            State::Fighting(_, _, _, _, Using::Sort(held)) => held.len(),
            _ => {
                return Err(Rejection::WrongState);
            },
        };
        if !is_arrangement(order, n) {
            return Err(Rejection::InvalidSort);
        }
        let state = self.take_state();
        if let State::Fighting(hazard, used, left, right, Using::Sort(held)) = state {
            let mut k: usize = 0;
            if destroy_first {
                self.destroyed.push(held[order[0]]);
                k = 1;
            }
            let ghost rest = if destroy_first {
                order@.drop_first()
            } else {
                order@
            };
            let first = k;
            let ghost mid = self@;
            while k < order.len()
                invariant
                    first <= k <= order.len(),
                    first == if destroy_first {
                        1usize
                    } else {
                        0usize
                    },
                    rest == if destroy_first {
                        order@.drop_first()
                    } else {
                        order@
                    },
                    arranges(order@, held.len() as nat),
                    self.fighting_deck@ == pre.fighting_deck + picked(held@, rest).take(k - first),
                    self@ == (Table { fighting_deck: self@.fighting_deck, ..mid }),
                decreases order.len() - k,
            {
                self.fighting_deck.push(held[order[k]]);
                k += 1;
                assert(self.fighting_deck@ =~= pre.fighting_deck + picked(held@, rest).take(
                    k - first,
                ));
            }
            assert(picked(held@, rest).take(k - first) =~= picked(held@, rest));
            self.state = State::Fighting(hazard, used, left, right, Using::Nothing);
        }
        assert(self@ =~= pre.sorted(order@, destroy_first));
        Ok(())
    }

    /// Ends a fight: the cards that were picked or marked are destroyed,
    /// the others go to the fighting discard pile and take their toll; then
    /// the next fight is set up.
    pub(crate) fn end_fight(&mut self, cards: &Vec<Card>, marks: &Vec<bool>) -> (r: Result<(), Rejection>)
        requires
            old(self)@.phase is Idle,
            0 <= old(self).life_points <= max_life(old(self).level as int),
            cards.len() <= 1000,
            marks.len() == cards.len(),
            crate::piles::every(cards@, |c: Card| c.fights()),
        ensures
            ({
                let t = old(self)@.reconciled(cards@, marks@);
                match r {
                    Ok(()) => t.phase is Idle && t.started(final(self)@),
                    Err(e) => e == Rejection::Died && t.phase is Ended && final(self)@ == t,
                }
            }),
            final(self).step_modif == 0,
            old(self).step.rank() <= final(self).step.rank() <= old(self).step.rank() + 1,
    {
        let ghost pre = self@;
        self.step_modif = 0;
        let mut loss: isize = 0;
        let mut i: usize = 0;
        while i < cards.len()
            invariant
                i <= cards.len(),
                cards.len() <= 1000,
                marks.len() == cards.len(),
                crate::piles::every(cards@, |c: Card| c.fights()),
                self.destroyed@ == pre.destroyed + doomed(cards@.take(i as int), marks@),
                self.fighting_discard@ == pre.fighting_discard + spared(
                    cards@.take(i as int),
                    marks@,
                ),
                loss == crate::piles::total(spared(cards@.take(i as int), marks@), toll()),
                0 <= loss <= 128 * i,
                self@ == (Table {
                    offset: 0,
                    destroyed: self@.destroyed,
                    fighting_discard: self@.fighting_discard,
                    ..pre
                }),
            decreases cards.len() - i,
        {
            let card = cards[i];
            assert(cards@[i as int].fights());
            proof {
                assert(cards@.take(i + 1).drop_last() =~= cards@.take(i as int));
                assert(cards@.take(i + 1).last() == card);
            }
            if card.destroy || marks[i] {
                self.destroyed.push(card);
                assert(self.destroyed@ =~= pre.destroyed + doomed(cards@.take(i + 1), marks@));
            } else {
                if let Capacity::EndLife(n) = card.description.kind.to_fighting_card().capacity {
                    loss = loss - n as isize;
                }
                self.fighting_discard.push(card);
                proof {
                    crate::piles::lemma_total_push(
                        spared(cards@.take(i as int), marks@),
                        card,
                        toll(),
                    );
                }
                assert(self.fighting_discard@ =~= pre.fighting_discard + spared(
                    cards@.take(i + 1),
                    marks@,
                ));
            }
            i += 1;
        }
        assert(cards@.take(i as int) =~= cards@);
        if self.life_points < loss {
            self.life_points = 0;
            self.state = State::Ended(false);
            assert(self@ =~= pre.reconciled(cards@, marks@));
            return Err(Rejection::Died);
        }
        self.life_points = self.life_points - loss;
        assert(self@ =~= pre.reconciled(cards@, marks@));
        self.start();
        Ok(())
    }

    fn on_win(&mut self) -> (r: Result<(), Rejection>)
        requires
            old(self).wf(),
        ensures
            Friday::follows(*old(self), Event::Win, *final(self), r),
    {
        let ghost pre = self@;
        proof {
            pre.lemma_sizes();
        }
        match &self.state {
            State::Fighting(_, used_free, _, _, _) => {
                if *used_free == 0 {
                    return Err(Rejection::MustDraw);
                }
            },
            _ => {
                return Err(Rejection::WrongState);
            },
        }
        let diff = match self.fight_diff() {
            Some(d) => d,
            None => -1,
        };
        if diff < 0 {
            return Err(Rejection::CannotWin);
        }
        self.settle();
        let state = self.take_state();
        match state {
            State::Fighting(hazard, _, left, right, _) => {
                if hazard.description.is_pirate() {
                    self.pirate_cards_won.push(hazard);
                } else {
                    self.fighting_discard.push(hazard);
                }
                let cards = joined(&left, &right);
                let marks = no_marks(cards.len());
                proof {
                    let s = pre.settled();
                    let f = s.fight();
                    let filed = if f.pirate() {
                        Table { pirate_cards_won: s.pirate_cards_won.push(f.hazard), ..s }
                    } else {
                        Table { fighting_discard: s.fighting_discard.push(f.hazard), ..s }
                    };
                    assert(self@ =~= Table { phase: Phase::Idle, ..filed });
                    assert(self@.reconciled(cards@, marks@) =~= pre.won());
                }
                self.end_fight(&cards, &marks)
            },
            _ => {
                proof {
                    assert(false);
                }
                Err(Rejection::WrongState)
            },
        }
    }

    fn on_lose(&mut self, picks: &Vec<usize>) -> (r: Result<(), Rejection>)
        requires
            old(self).wf(),
        ensures
            Friday::follows(*old(self), Event::Lose(*picks), *final(self), r),
    {
        let ghost pre = self@;
        proof {
            pre.lemma_sizes();
        }
        let (marks, cost) = match &self.state {
            State::Fighting(c, used_free, left, right, _) => {
                if c.description.is_pirate() {
                    return Err(Rejection::LoseToPirate);
                }
                if *used_free == 0 {
                    return Err(Rejection::MustPlay);
                }
                let cards = joined(left, right);
                let marks = match pick_marks(cards.len(), picks) {
                    Some(m) => m,
                    None => {
                        return Err(Rejection::InvalidDiscard);
                    },
                };
                let cost = destroy_cost(&cards, &marks);
                (marks, cost)
            },
            _ => {
                return Err(Rejection::WrongState);
            },
        };
        let diff = match self.fight_diff() {
            Some(d) => d,
            None => 0,
        };
        if diff > 0 {
            return Err(Rejection::NotLost);
        }
        if cost > -diff {
            return Err(Rejection::NotEnoughDiff { diff, cost });
        }
        match self.modify_life(diff) {
            Ok(()) => {},
            Err(e) => {
                return Err(e);
            },
        }
        self.settle();
        let state = self.take_state();
        match state {
            State::Fighting(hazard, _, left, right, _) => {
                self.hazard_discard.push(hazard);
                let cards = joined(&left, &right);
                proof {
                    let s = pre.settled();
                    let f = s.fight();
                    let filed = Table {
                        life: pre.life_after_loss(),
                        hazard_discard: s.hazard_discard.push(f.hazard),
                        ..s
                    };
                    assert(self@ =~= Table { phase: Phase::Idle, ..filed });
                    assert(self@.reconciled(cards@, marks@) =~= pre.given_up(picks@));
                }
                self.end_fight(&cards, &marks)
            },
            _ => {
                proof {
                    assert(false);
                }
                Err(Rejection::WrongState)
            },
        }
    }
}

/// Whether a card that stops the free draws lies in the pile.
fn has_stop(pile: &Vec<Card>) -> (b: bool)
    requires
        crate::piles::every(pile@, |c: Card| c.fights()),
    ensures
        b == exists|i: int| 0 <= i < pile.len() && (#[trigger] pile@[i]).acts_as(Capacity::Stop),
{
    let mut i: usize = 0;
    while i < pile.len()
        invariant
            i <= pile.len(),
            crate::piles::every(pile@, |c: Card| c.fights()),
            forall|k: int| 0 <= k < i ==> !(#[trigger] pile@[k]).acts_as(Capacity::Stop),
        decreases pile.len() - i,
    {
        assert(pile@[i as int].fights());
        if !pile[i].destroy && pile[i].description.kind.to_fighting_card().capacity
            == Capacity::Stop {
            return true;
        }
        i += 1;
    }
    false
}

/// As many marks as there are cards, none set.
fn no_marks(n: usize) -> (r: Vec<bool>)
    ensures
        r@ == none_chosen(n as nat),
{
    let mut marks: Vec<bool> = Vec::new();
    let mut i: usize = 0;
    while i < n
        invariant
            i <= n,
            marks@ == none_chosen(i as nat),
        decreases n - i,
    {
        marks.push(false);
        i += 1;
        assert(marks@ =~= none_chosen(i as nat));
    }
    marks
}

/// The marks on the cards that the player picked, unless a pick names no
/// card.
fn pick_marks(n: usize, picks: &Vec<usize>) -> (r: Option<Vec<bool>>)
    ensures
        match r {
            Some(marks) => {
                &&& forall|k: int| 0 <= k < picks.len() ==> #[trigger] picks[k] < n
                &&& marks@ == chosen(n as nat, picks@)
            },
            None => exists|k: int| 0 <= k < picks.len() && #[trigger] picks[k] >= n,
        },
{
    let mut marks = no_marks(n);
    let mut j: usize = 0;
    while j < picks.len()
        invariant
            j <= picks.len(),
            marks.len() == n,
            forall|k: int| 0 <= k < j ==> #[trigger] picks[k] < n,
            forall|i: int|
                0 <= i < n ==> (#[trigger] marks[i] <==> exists|k: int|
                    0 <= k < j && #[trigger] picks[k] == i),
        decreases picks.len() - j,
    {
        let p = picks[j];
        if p >= n {
            return None;
        }
        let ghost before = marks@;
        marks.set(p, true);
        assert forall|i: int| 0 <= i < n implies (#[trigger] marks[i] <==> exists|k: int|
            0 <= k < j + 1 && #[trigger] picks[k] == i) by {
            if i == p {
                assert(picks[j as int] == i);
            } else {
                assert(marks[i] == before[i]);
                if marks[i] {
                    let k = choose|k: int| 0 <= k < j && #[trigger] picks[k] == i;
                    assert(0 <= k < j + 1 && picks[k] == i);
                }
            }
        }
        j += 1;
    }
    assert(marks@ =~= chosen(n as nat, picks@));
    Some(marks)
}

/// What destroying the marked cards costs.
fn destroy_cost(cards: &Vec<Card>, marks: &Vec<bool>) -> (r: isize)
    requires
        cards.len() <= 1000,
        marks.len() == cards.len(),
    ensures
        r == price(cards@, marks@),
        0 <= r <= 2 * cards.len(),
{
    let mut cost: isize = 0;
    let mut i: usize = 0;
    while i < cards.len()
        invariant
            i <= cards.len(),
            cards.len() <= 1000,
            marks.len() == cards.len(),
            cost == price(cards@.take(i as int), marks@),
            0 <= cost <= 2 * i,
        decreases cards.len() - i,
    {
        proof {
            assert(cards@.take(i + 1).drop_last() =~= cards@.take(i as int));
            assert(cards@.take(i + 1).last() == cards@[i as int]);
        }
        if marks[i] {
            match cards[i].description.get_destroy_value() {
                Some(v) => {
                    cost = cost + v;
                },
                None => {},
            }
        }
        i += 1;
    }
    assert(cards@.take(i as int) =~= cards@);
    cost
}

/// Whether `order` names each of `n` places once.
fn is_arrangement(order: &Vec<usize>, n: usize) -> (b: bool)
    ensures
        b == arranges(order@, n as nat),
{
    if order.len() != n {
        return false;
    }
    let mut seen = no_marks(n);
    let mut k: usize = 0;
    while k < order.len()
        invariant
            k <= order.len(),
            order.len() == n,
            seen.len() == n,
            forall|j: int| 0 <= j < k ==> #[trigger] order[j] < n,
            forall|i: int, j: int| 0 <= i < j < k ==> order[i] != order[j],
            forall|i: int|
                0 <= i < n ==> (#[trigger] seen[i] <==> exists|j: int|
                    0 <= j < k && #[trigger] order[j] == i),
        decreases order.len() - k,
    {
        let p = order[k];
        if p >= n {
            return false;
        }
        if seen[p] {
            proof {
                let j = choose|j: int| 0 <= j < k && #[trigger] order[j] == p;
                assert(order[j] == order[k as int]);
            }
            return false;
        }
        let ghost before = seen@;
        seen.set(p, true);
        assert forall|i: int| 0 <= i < n implies (#[trigger] seen[i] <==> exists|j: int|
            0 <= j < k + 1 && #[trigger] order[j] == i) by {
            if i == p {
                assert(order[k as int] == i);
            } else {
                assert(seen[i] == before[i]);
                if seen[i] {
                    let j = choose|j: int| 0 <= j < k && #[trigger] order[j] == i;
                    assert(0 <= j < k + 1 && order[j] == i);
                }
            }
        }
        assert forall|i: int, j: int| 0 <= i < j < k + 1 implies order[i] != order[j] by {
            if j == k && order[i] == order[j] {
                assert(order[i] == p);
                assert(before[p as int]);
            }
        }
        k += 1;
    }
    true
}

} // verus!
