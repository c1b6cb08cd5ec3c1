//! The rules: for each event, whether it is carried out, and what the game
//! looks like afterwards.
//!
//! Whether an event is carried out depends on the game and the event alone.
//! So does the game it leaves behind, but for the order that a shuffle
//! gives a pile: there the rules say which cards the pile holds.

use crate::cards::{Capacity, Card, Step};
use crate::friday::{Event, Rejection};
use crate::piles::{cleared, total};
use crate::table::{max_life, toll, Fight, Pending, Phase, Table};
use vstd::prelude::*;

verus! {

/// Which of the `n` cards in play the player picked for destruction.
pub open spec fn chosen(n: nat, picks: Seq<usize>) -> Seq<bool> {
    Seq::new(n, |i: int| exists|k: int| 0 <= k < picks.len() && #[trigger] picks[k] == i)
}

/// No card picked.
pub open spec fn none_chosen(n: nat) -> Seq<bool> {
    Seq::new(n, |i: int| false)
}

/// Whether the card at the last place of `cards` leaves the game when the
/// fight ends: it was picked, or it carries the mark.
pub open spec fn last_goes(cards: Seq<Card>, marks: Seq<bool>) -> bool {
    cards.last().destroy || (cards.len() <= marks.len() && marks[cards.len() - 1])
}

/// The cards that leave the game when the fight ends, in their order.
pub open spec fn doomed(cards: Seq<Card>, marks: Seq<bool>) -> Seq<Card>
    decreases cards.len(),
{
    if cards.len() == 0 {
        Seq::empty()
    } else if last_goes(cards, marks) {
        doomed(cards.drop_last(), marks).push(cards.last())
    } else {
        doomed(cards.drop_last(), marks)
    }
}

/// The cards that stay in the game when the fight ends, in their order.
pub open spec fn spared(cards: Seq<Card>, marks: Seq<bool>) -> Seq<Card>
    decreases cards.len(),
{
    if cards.len() == 0 {
        Seq::empty()
    } else if last_goes(cards, marks) {
        spared(cards.drop_last(), marks)
    } else {
        spared(cards.drop_last(), marks).push(cards.last())
    }
}

/// What destroying the picked cards costs.
pub open spec fn price(cards: Seq<Card>, marks: Seq<bool>) -> int
    decreases cards.len(),
{
    if cards.len() == 0 {
        0
    } else {
        price(cards.drop_last(), marks) + if cards.len() <= marks.len() && marks[cards.len() - 1] {
            match cards.last().description.destroy_value() {
                Some(v) => v,
                None => 0,
            }
        } else {
            0
        }
    }
}

/// The cards at the places that `order` names, in that order.
pub open spec fn picked(cards: Seq<Card>, order: Seq<usize>) -> Seq<Card> {
    Seq::new(order.len(), |k: int| cards[order[k] as int])
}

/// Whether `order` names each of `n` places once.
pub open spec fn arranges(order: Seq<usize>, n: nat) -> bool {
    &&& order.len() == n
    &&& forall|k: int| 0 <= k < order.len() ==> #[trigger] order[k] < n
    &&& forall|j: int, k: int| 0 <= j < k < order.len() ==> order[j] != order[k]
}

impl Fight {
    /// The card at place `c`.
    pub open spec fn card(self, c: int) -> Card {
        self.in_play()[c]
    }

    /// Whether the hazard fought is a pirate.
    pub open spec fn pirate(self) -> bool {
        self.hazard.description.kind is Pirate
    }
}

impl Table {
    /// The game with the fight replaced.
    pub open spec fn with_fight(self, f: Fight) -> Table {
        Table { phase: Phase::Fighting(f), ..self }
    }

    /// The fight with the ability that waits dropped. Cards that it held
    /// aside go back on the deck, the first one taken on top.
    pub open spec fn settled(self) -> Table {
        let f = self.fight();
        Table {
            fighting_deck: self.fighting_deck + f.pending.held().reverse(),
            phase: Phase::Fighting(Fight { pending: Pending::Nothing, ..f }),
            ..self
        }
    }

    /// The game as it stood before `n` cards went back on top of the
    /// fighting deck.
    pub open spec fn before_return(self, n: int) -> Table {
        Table { fighting_deck: self.fighting_deck.take(self.fighting_deck.len() - n), ..self }
    }

    /// The game lost. In the middle of a fight the cards in play go to the
    /// fighting discard pile, cards held aside go back on the deck, and the
    /// hazard goes back where it would be met again. Hazards shown to
    /// choose from go to the hazard discard pile.
    pub open spec fn defeated(self) -> Table {
        if self.phase is Fighting {
            let f = self.fight();
            Table {
                fighting_deck: self.fighting_deck + f.pending.held().reverse(),
                fighting_discard: self.fighting_discard + f.left + f.right,
                hazard_discard: if f.pirate() {
                    self.hazard_discard
                } else {
                    self.hazard_discard.push(f.hazard)
                },
                pirate_cards: if f.pirate() {
                    self.pirate_cards.push(f.hazard)
                } else {
                    self.pirate_cards
                },
                phase: Phase::Ended(false),
                ..self
            }
        } else {
            Table {
                hazard_discard: self.hazard_discard + self.phase.hazards(),
                phase: Phase::Ended(false),
                ..self
            }
        }
    }

    /// Why a card cannot be drawn, if it cannot: a paid draw costs more life
    /// than is left, or no card is left in the deck, the discard pile and
    /// the aging pile together.
    pub open spec fn draw_failure(self, free: bool) -> Option<Rejection> {
        if !free && self.life < self.draw_cost() {
            Some(Rejection::Died)
        } else if self.fighting_deck.len() == 0 && self.fighting_discard.len() == 0
            && self.aging_deck.len() == 0 {
            Some(Rejection::DeckEmpty)
        } else {
            None
        }
    }

    /// The game after a draw that failed.
    pub open spec fn draw_fatal(self, free: bool) -> Table {
        if !free && self.life < self.draw_cost() {
            Table { life: 0, ..self }.defeated()
        } else if free {
            self.defeated()
        } else {
            Table { life: self.life - self.draw_cost(), ..self }.defeated()
        }
    }

    /// The cards that a refill brings back: the fighting discard pile and
    /// the top card of the aging pile.
    pub open spec fn recycled(self) -> Seq<Card> {
        if self.aging_deck.len() > 0 {
            self.fighting_discard.push(self.aging_deck.last())
        } else {
            self.fighting_discard
        }
    }

    /// What holds of the game before and after a refill of an empty
    /// fighting deck: the deck holds the cards brought back, in some order
    /// and without marks.
    pub open spec fn refilled(self, post: Table) -> bool {
        &&& post.fighting_deck.to_multiset() == cleared(
            self.fighting_deck + self.recycled(),
        ).to_multiset()
        &&& post.fighting_discard == Seq::<Card>::empty()
        &&& post.aging_deck == if self.aging_deck.len() > 0 {
            self.aging_deck.drop_last()
        } else {
            self.aging_deck
        }
        &&& post == Table {
            fighting_deck: post.fighting_deck,
            fighting_discard: post.fighting_discard,
            aging_deck: post.aging_deck,
            ..self
        }
    }

    /// What holds of the piles and the life points before and after `card`
    /// was drawn. The top card of the deck is drawn; an empty deck is
    /// refilled first.
    pub open spec fn drew(self, free: bool, post: Table, card: Card) -> bool {
        &&& post.life == if free {
            self.life
        } else {
            self.life - self.draw_cost()
        }
        &&& if self.fighting_deck.len() > 0 {
            &&& card == self.fighting_deck.last()
            &&& post.fighting_deck == self.fighting_deck.drop_last()
            &&& post.fighting_discard == self.fighting_discard
            &&& post.aging_deck == self.aging_deck
        } else {
            &&& post.fighting_deck.push(card).to_multiset() == cleared(self.recycled()).to_multiset()
            &&& post.fighting_discard == Seq::<Card>::empty()
            &&& post.aging_deck == if self.aging_deck.len() > 0 {
                self.aging_deck.drop_last()
            } else {
                self.aging_deck
            }
        }
        &&& post.level == self.level
        &&& post.step == self.step
        &&& post.offset == self.offset
        &&& post.destroyed == self.destroyed
        &&& post.hazard_deck == self.hazard_deck
        &&& post.hazard_discard == self.hazard_discard
        &&& post.pirate_cards == self.pirate_cards
        &&& post.pirate_cards_won == self.pirate_cards_won
    }

    /// What holds of the game before and after the next fight was set up.
    /// An empty hazard deck takes the game to the next tier, one tier at a
    /// time, and is refilled from the hazard discard pile. Where the deck
    /// holds a hazard and the tier is below the pirate tier, the two top
    /// hazards are shown (one, if only one is left). Otherwise no hazard is
    /// dealt and the pirates come: the last pirate is fought at once, one
    /// of several is picked, and with none left the game is won.
    pub open spec fn started(self, post: Table) -> bool {
        let refill = self.step != Step::Pirate && self.hazard_deck.len() == 0;
        let step = if refill {
            self.step.after()
        } else {
            self.step
        };
        let stock = if refill {
            self.hazard_discard
        } else {
            self.hazard_deck
        };
        &&& post.step == step
        &&& post.level == self.level
        &&& post.life == self.life
        &&& post.offset == self.offset
        &&& post.destroyed == self.destroyed
        &&& post.aging_deck == self.aging_deck
        &&& post.fighting_deck == self.fighting_deck
        &&& post.fighting_discard == self.fighting_discard
        &&& post.pirate_cards_won == self.pirate_cards_won
        &&& post.hazard_discard == if refill {
            Seq::<Card>::empty()
        } else {
            self.hazard_discard
        }
        &&& if step == Step::Pirate || stock.len() == 0 {
            &&& if refill {
                post.hazard_deck.to_multiset() == stock.to_multiset()
            } else {
                post.hazard_deck == stock
            }
            &&& if self.pirate_cards.len() == 0 {
                post.phase == Phase::Ended(true) && post.pirate_cards == self.pirate_cards
            } else if self.pirate_cards.len() == 1 {
                post.phase == Phase::Fighting(Fight::against(self.pirate_cards[0]))
                    && post.pirate_cards == Seq::<Card>::empty()
            } else {
                post.phase == Phase::ChoosePirate && post.pirate_cards == self.pirate_cards
            }
        } else {
            &&& post.pirate_cards == self.pirate_cards
            &&& post.phase is ChooseHazard
            &&& post.phase->ChooseHazard_0.len() == if stock.len() < 2 {
                stock.len()
            } else {
                2
            }
            &&& if refill {
                (post.hazard_deck + post.phase->ChooseHazard_0).to_multiset() == stock.to_multiset()
            } else {
                post.hazard_deck + post.phase->ChooseHazard_0 == stock
            }
        }
    }

    /// The fight over: the cards that were picked or marked are destroyed,
    /// the others go to the fighting discard pile and take their toll. If
    /// that costs more life than is left, the game is lost.
    pub open spec fn reconciled(self, cards: Seq<Card>, marks: Seq<bool>) -> Table {
        let loss = total(spared(cards, marks), toll());
        Table {
            offset: 0,
            destroyed: self.destroyed + doomed(cards, marks),
            fighting_discard: self.fighting_discard + spared(cards, marks),
            life: if self.life < loss {
                0
            } else {
                self.life - loss
            },
            phase: if self.life < loss {
                Phase::Ended(false)
            } else {
                Phase::Idle
            },
            ..self
        }
    }

    /// The fight won, before the next one is set up: a pirate joins the
    /// pirates beaten, a hazard becomes knowledge in the fighting discard
    /// pile, and the cards in play are dealt with.
    pub open spec fn won(self) -> Table {
        let s = self.settled();
        let f = s.fight();
        let filed = if f.pirate() {
            Table { pirate_cards_won: s.pirate_cards_won.push(f.hazard), ..s }
        } else {
            Table { fighting_discard: s.fighting_discard.push(f.hazard), ..s }
        };
        filed.reconciled(f.in_play(), none_chosen(f.in_play().len()))
    }

    /// The life points after a fight given up: they take the difference,
    /// which is not above 0 in a fight that can be given up.
    pub open spec fn life_after_loss(self) -> int {
        self.life + self.fight_diff()->Some_0
    }

    /// The fight given up, before the next one is set up: the hazard goes
    /// to the hazard discard pile, and the cards in play are dealt with.
    pub open spec fn given_up(self, picks: Seq<usize>) -> Table {
        let s = self.settled();
        let f = s.fight();
        let filed = Table {
            life: self.life_after_loss(),
            hazard_discard: s.hazard_discard.push(f.hazard),
            ..s
        };
        filed.reconciled(f.in_play(), chosen(f.in_play().len(), picks))
    }

    /// Whether using the ability of the card at place `c` fails: it does
    /// where the ability takes a card off the deck at once, as sorting
    /// does, and none can be drawn.
    pub open spec fn invoke_failure(self, c: int) -> Option<Rejection> {
        match self.fight().card(c).capacity() {
            Capacity::Sort => self.draw_failure(true),
            _ => None,
        }
    }

    /// What holds of the game before and after the ability of the card at
    /// place `c` took effect. An ability that draws extra cards only sets
    /// how many are to come: each is drawn when the player goes on.
    pub open spec fn invoked(self, c: int, post: Table) -> bool {
        let f = self.fight();
        match f.card(c).capacity() {
            Capacity::Life(n) => post == Table {
                life: if self.life + n > max_life(self.level) {
                    max_life(self.level)
                } else {
                    self.life + n
                },
                ..self
            },
            Capacity::Card(n) => post == self.with_fight(
                Fight { pending: Pending::Draw(n as int), ..f },
            ),
            Capacity::Destroy => post == self.with_fight(Fight { pending: Pending::Destroy(c), ..f }),
            Capacity::Double => post == self.with_fight(Fight { pending: Pending::Double, ..f }),
            Capacity::Copy => post == self.with_fight(Fight { pending: Pending::Copy, ..f }),
            Capacity::LowerStep => post == Table {
                offset: if self.offset < usize::MAX {
                    self.offset + 1
                } else {
                    self.offset
                },
                ..self
            },
            Capacity::Sort => {
                &&& post.phase is Fighting
                &&& post.fight().pending is Sort
                &&& post.fight().pending.held().len() == 1
                &&& self.drew(true, post, post.fight().pending.held()[0])
                &&& post.fight() == Fight {
                    pending: Pending::Sort(seq![post.fight().pending.held()[0]]),
                    ..f
                }
            },
            Capacity::Swap(n) => post == self.with_fight(
                Fight { pending: Pending::Swap(c, n as int), ..f },
            ),
            Capacity::UnderDeck => post == self.with_fight(
                Fight { pending: Pending::UnderDeck(c), ..f },
            ),
            _ => post == self.with_fight(Fight { pending: Pending::Nothing, ..f }),
        }
    }

    /// The fight with the card at place `c` tapped.
    pub open spec fn tapped(self, c: int) -> Table {
        let f = self.fight();
        self.with_fight(f.with_card(c, Card { tapped: true, ..f.card(c) }))
    }

    /// The fight with the ability that waits set.
    pub open spec fn waiting_for(self, pending: Pending) -> Table {
        self.with_fight(Fight { pending, ..self.fight() })
    }

    /// The game after the card at place `c` went under the deck, before a
    /// card is drawn in its stead.
    pub open spec fn tucked(self, c: int) -> Table {
        let f = self.fight();
        Table {
            fighting_deck: seq![f.card(c).cleared()] + self.fighting_deck,
            phase: Phase::Fighting(Fight { pending: Pending::Nothing, ..f.without_card(c) }),
            ..self
        }
    }

    /// The game after the top card of the deck was put at place `c` of the
    /// left pile.
    pub open spec fn restocked(self, c: int) -> Table {
        let f = self.fight();
        Table {
            fighting_deck: self.fighting_deck.drop_last(),
            phase: Phase::Fighting(
                Fight { left: f.left.insert(c, self.fighting_deck.last()), ..f },
            ),
            ..self
        }
    }

    /// The game after the cards held aside went back on the deck in the
    /// order given, the first one destroyed if so asked.
    pub open spec fn sorted(self, order: Seq<usize>, destroy_first: bool) -> Table {
        let f = self.fight();
        let cards = f.pending.held();
        Table {
            destroyed: if destroy_first {
                self.destroyed.push(cards[order[0] as int])
            } else {
                self.destroyed
            },
            fighting_deck: self.fighting_deck + picked(
                cards,
                if destroy_first {
                    order.drop_first()
                } else {
                    order
                },
            ),
            phase: Phase::Fighting(Fight { pending: Pending::Nothing, ..f }),
            ..self
        }
    }

    /// Whether the event is carried out, and if not, why. Only `Died` and
    /// `DeckEmpty` change the game: they end it.
    pub open spec fn ruling(self, event: Event) -> Result<(), Rejection> {
        match event {
            Event::Start => if self.phase is Idle {
                Ok(())
            } else {
                Err(Rejection::WrongState)
            },
            Event::HazardChoice(choice) => match self.phase {
                Phase::ChooseHazard(shown) => match choice {
                    Some(c) => if c >= shown.len() {
                        Err(Rejection::InvalidChoice)
                    } else {
                        Ok(())
                    },
                    None => if shown.len() == 1 {
                        Ok(())
                    } else {
                        Err(Rejection::MustChoose)
                    },
                },
                _ => Err(Rejection::WrongState),
            },
            Event::Choice(c) => match self.phase {
                Phase::ChoosePirate => if c >= self.pirate_cards.len() {
                    Err(Rejection::InvalidPirate)
                } else {
                    Ok(())
                },
                Phase::Fighting(f) => match f.pending {
                    Pending::Destroy(d) => if c == d {
                        Err(Rejection::DestroyCurrent)
                    } else if c >= f.in_play().len() {
                        Err(Rejection::InvalidCard)
                    } else if f.card(c as int).destroy {
                        Err(Rejection::AlreadyDestroyed)
                    } else {
                        Ok(())
                    },
                    Pending::Double => if c >= f.in_play().len() {
                        Err(Rejection::InvalidCard)
                    } else if f.card(c as int).destroy {
                        Err(Rejection::ToBeDestroyed)
                    } else if f.card(c as int).double {
                        Err(Rejection::AlreadyDoubled)
                    } else {
                        Ok(())
                    },
                    Pending::Copy => if c >= f.in_play().len() {
                        Err(Rejection::InvalidCard)
                    } else if f.card(c as int).destroy {
                        Err(Rejection::ToBeDestroyed)
                    } else {
                        match self.waiting_for(Pending::Nothing).invoke_failure(c as int) {
                            Some(e) => Err(e),
                            None => Ok(()),
                        }
                    },
                    Pending::Swap(s, _) => if c == s {
                        Err(Rejection::SwapCurrent)
                    } else if c >= f.in_play().len() {
                        Err(Rejection::InvalidCard)
                    } else if f.card(c as int).destroy {
                        Err(Rejection::ToBeDestroyed)
                    } else {
                        Ok(())
                    },
                    _ => Err(Rejection::WrongState),
                },
                _ => Err(Rejection::WrongState),
            },
            Event::ChoiceUnder(c, replace) => match self.phase {
                Phase::Fighting(f) => match f.pending {
                    Pending::UnderDeck(d) => if c == d {
                        Err(Rejection::SwapCurrent)
                    } else if c >= f.left.len() && replace {
                        Err(Rejection::ReplaceFromRight)
                    } else if c >= f.in_play().len() {
                        Err(Rejection::InvalidCard)
                    } else if f.card(c as int).destroy {
                        Err(Rejection::AlreadyDestroyed)
                    } else {
                        Ok(())
                    },
                    _ => Err(Rejection::WrongState),
                },
                _ => Err(Rejection::WrongState),
            },
            Event::Fight => match self.phase {
                Phase::Fighting(_) => match self.draw_failure(self.draws_free()) {
                    Some(e) => Err(e),
                    None => Ok(()),
                },
                _ => Err(Rejection::WrongState),
            },
            Event::Use(c) => match self.phase {
                Phase::Fighting(f) => if !(f.pending is Nothing) {
                    Err(Rejection::WrongState)
                } else if c >= f.in_play().len() {
                    Err(Rejection::InvalidCard)
                } else if f.card(c as int).tapped {
                    Err(Rejection::AlreadyUsed)
                } else if f.card(c as int).destroy {
                    Err(Rejection::ToBeDestroyed)
                } else {
                    match self.invoke_failure(c as int) {
                        Some(e) => Err(e),
                        None => Ok(()),
                    }
                },
                _ => Err(Rejection::WrongState),
            },
            Event::Win => match self.phase {
                Phase::Fighting(f) => if f.free_used == 0 {
                    Err(Rejection::MustDraw)
                } else if self.fight_diff()->Some_0 < 0 {
                    Err(Rejection::CannotWin)
                } else if self.won().phase is Ended {
                    Err(Rejection::Died)
                } else {
                    Ok(())
                },
                _ => Err(Rejection::WrongState),
            },
            Event::Lose(picks) => match self.phase {
                Phase::Fighting(f) => {
                    let diff = self.fight_diff()->Some_0;
                    let cost = price(f.in_play(), chosen(f.in_play().len(), picks@));
                    if f.pirate() {
                        Err(Rejection::LoseToPirate)
                    } else if f.free_used == 0 {
                        Err(Rejection::MustPlay)
                    } else if exists|k: int|
                        0 <= k < picks@.len() && #[trigger] picks@[k] >= f.in_play().len() {
                        Err(Rejection::InvalidDiscard)
                    } else if diff > 0 {
                        Err(Rejection::NotLost)
                    } else if cost > -diff {
                        Err(Rejection::NotEnoughDiff { diff: diff as isize, cost: cost as isize })
                    } else if self.life + diff < 0 {
                        Err(Rejection::Died)
                    } else if self.given_up(picks@).phase is Ended {
                        Err(Rejection::Died)
                    } else {
                        Ok(())
                    }
                },
                _ => Err(Rejection::WrongState),
            },
            Event::Continue => match self.phase {
                Phase::Fighting(f) => match f.pending {
                    Pending::Draw(_) => match self.draw_failure(true) {
                        Some(e) => Err(e),
                        None => Ok(()),
                    },
                    Pending::Sort(cards) => if cards.len() >= 3 {
                        Err(Rejection::AlreadyDrawnThree)
                    } else {
                        match self.draw_failure(true) {
                            Some(e) => Err(e),
                            None => Ok(()),
                        }
                    },
                    _ => Err(Rejection::WrongState),
                },
                _ => Err(Rejection::WrongState),
            },
            Event::Break => if self.phase is Fighting {
                Ok(())
            } else {
                Err(Rejection::WrongState)
            },
            Event::Sort(order, _) => match self.phase {
                Phase::Fighting(f) => match f.pending {
                    Pending::Sort(cards) => if arranges(order@, cards.len()) {
                        Ok(())
                    } else {
                        Err(Rejection::InvalidSort)
                    },
                    _ => Err(Rejection::WrongState),
                },
                _ => Err(Rejection::WrongState),
            },
        }
    }

    /// The game that a fatal ruling leaves behind.
    pub open spec fn lost(self, event: Event) -> Table {
        match event {
            Event::Fight => self.draw_fatal(self.draws_free()),
            Event::Win => self.won(),
            Event::Lose(picks) => if self.life + self.fight_diff()->Some_0 < 0 {
                Table { life: 0, ..self }.defeated()
            } else {
                self.given_up(picks@)
            },
            _ => self.draw_fatal(true),
        }
    }

    /// What holds of the game before and after an event that was carried
    /// out. A draw in a fight takes the top card of the deck as it stands;
    /// cards held aside go back on the deck after the draw.
    pub open spec fn moved(self, event: Event, post: Table) -> bool {
        let f = self.fight();
        match event {
            Event::Start => self.started(post),
            Event::HazardChoice(choice) => {
                let shown = self.phase->ChooseHazard_0;
                match choice {
                    Some(c) => post == Table {
                        hazard_discard: self.hazard_discard + shown.remove(c as int),
                        phase: Phase::Fighting(Fight::against(shown[c as int])),
                        ..self
                    },
                    None => Table {
                        hazard_discard: self.hazard_discard.push(shown[0]),
                        phase: Phase::Idle,
                        ..self
                    }.started(post),
                }
            },
            Event::Choice(c) => match self.phase {
                Phase::ChoosePirate => post == Table {
                    pirate_cards: self.pirate_cards.remove(c as int),
                    phase: Phase::Fighting(Fight::against(self.pirate_cards[c as int])),
                    ..self
                },
                _ => match f.pending {
                    Pending::Destroy(_) => post == self.with_fight(
                        Fight {
                            pending: Pending::Nothing,
                            ..f.with_card(c as int, Card { destroy: true, ..f.card(c as int) })
                        },
                    ),
                    Pending::Double => post == self.with_fight(
                        Fight {
                            pending: Pending::Nothing,
                            ..f.with_card(c as int, Card { double: true, ..f.card(c as int) })
                        },
                    ),
                    Pending::Copy => self.waiting_for(Pending::Nothing).invoked(c as int, post),
                    Pending::Swap(s, n) => {
                        &&& post.phase is Fighting
                        &&& Table {
                            fighting_discard: self.fighting_discard.push(f.card(c as int)),
                            ..self
                        }.drew(true, post, post.fight().card(c as int))
                        &&& post.fight() == Fight {
                            pending: if n == 1 {
                                Pending::Nothing
                            } else {
                                Pending::Swap(s, n - 1)
                            },
                            ..f.with_card(c as int, post.fight().card(c as int))
                        }
                    },
                    _ => false,
                },
            },
            Event::ChoiceUnder(c, replace) => post == if replace {
                self.tucked(c as int).restocked(c as int)
            } else {
                self.tucked(c as int)
            },
            Event::Fight => {
                let held = f.pending.held();
                let drawn = post.before_return(held.len() as int);
                &&& post.phase is Fighting
                &&& post.fighting_deck.len() >= held.len()
                &&& post.fighting_deck.skip(post.fighting_deck.len() - held.len())
                    == held.reverse()
                &&& if self.draws_free() {
                    &&& post.fight().left.len() == f.left.len() + 1
                    &&& self.drew(true, drawn, post.fight().left.last())
                    &&& post.fight() == Fight {
                        left: f.left.push(post.fight().left.last()),
                        free_used: f.free_used + 1,
                        pending: Pending::Nothing,
                        ..f
                    }
                } else {
                    &&& post.fight().right.len() == f.right.len() + 1
                    &&& self.drew(false, drawn, post.fight().right.last())
                    &&& post.fight() == Fight {
                        right: f.right.push(post.fight().right.last()),
                        pending: Pending::Nothing,
                        ..f
                    }
                }
            },
            Event::Use(c) => self.tapped(c as int).invoked(c as int, post),
            Event::Win => self.won().started(post),
            Event::Lose(picks) => self.given_up(picks@).started(post),
            Event::Continue => match f.pending {
                Pending::Draw(n) => {
                    &&& post.phase is Fighting
                    &&& post.fight().right.len() == f.right.len() + 1
                    &&& self.drew(true, post, post.fight().right.last())
                    &&& post.fight() == Fight {
                        right: f.right.push(post.fight().right.last()),
                        pending: if n > 1 {
                            Pending::Draw(n - 1)
                        } else {
                            Pending::Nothing
                        },
                        ..f
                    }
                },
                Pending::Sort(cards) => {
                    &&& post.phase is Fighting
                    &&& post.fight().pending is Sort
                    &&& post.fight().pending.held().len() == cards.len() + 1
                    &&& self.drew(true, post, post.fight().pending.held().last())
                    &&& post.fight() == Fight {
                        pending: Pending::Sort(cards.push(post.fight().pending.held().last())),
                        ..f
                    }
                },
                _ => false,
            },
            Event::Break => post == self.settled(),
            Event::Sort(order, destroy_first) => post == self.sorted(order@, destroy_first),
        }
    }
}

} // verus!
