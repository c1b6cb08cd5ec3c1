//! Card definitions: the difficulty tiers, the abilities, the two faces a
//! card can have, and the card instances that the piles hold.

use vstd::prelude::*;

verus! {

/// The difficulty tier of the game. It only ever advances.
#[derive(Debug, Clone, Copy, PartialEq, Eq, Structural)]
pub enum Step {
    Green,
    Yellow,
    Red,
    Pirate,
}

impl Step {
    /// Position of the tier: 0 for green up to 3 for the pirate tier.
    pub open spec fn rank(self) -> int {
        match self {
            Step::Green => 0,
            Step::Yellow => 1,
            Step::Red => 2,
            Step::Pirate => 3,
        }
    }

    /// The tier that follows; the pirate tier is the last.
    pub open spec fn after(self) -> Step {
        match self {
            Step::Green => Step::Yellow,
            Step::Yellow => Step::Red,
            _ => Step::Pirate,
        }
    }

    /// The tier one step back. Green is the floor, and the pirate tier
    /// cannot be lowered.
    pub open spec fn before(self) -> Step {
        match self {
            Step::Green | Step::Yellow => Step::Green,
            Step::Red => Step::Yellow,
            Step::Pirate => Step::Pirate,
        }
    }

    /// The tier reached by going back `offset` times. Going back twice
    /// already reaches the floor, so larger offsets change nothing more.
    pub open spec fn lowered(self, offset: nat) -> Step {
        if offset == 0 {
            self
        } else if offset == 1 {
            self.before()
        } else {
            self.before().before()
        }
    }

    /// The tier that follows. The pirate tier has none.
    pub fn next(self) -> (r: Step)
        requires
            self != Step::Pirate,
        ensures
            r == self.after(),
            r.rank() == self.rank() + 1,
    {
        match self {
            Step::Green => Step::Yellow,
            Step::Yellow => Step::Red,
            _ => Step::Pirate,
        }
    }

    /// The tier one step back.
    pub fn prev(self) -> (r: Step)
        ensures
            r == self.before(),
            r.rank() <= self.rank(),
            (r == Step::Pirate) == (self == Step::Pirate),
    {
        match self {
            Step::Green | Step::Yellow => Step::Green,
            Step::Red => Step::Yellow,
            Step::Pirate => Step::Pirate,
        }
    }

    /// The tier as an index into a hazard's difficulty curve.
    pub fn index(self) -> (r: usize)
        ensures
            r == self.rank(),
    {
        match self {
            Step::Green => 0,
            Step::Yellow => 1,
            Step::Red => 2,
            Step::Pirate => 3,
        }
    }
}

/// What a fighting card can do when it is used.
#[derive(Debug, Clone, Copy, PartialEq, Eq, Structural)]
pub enum Capacity {
    /// No ability.
    Nothing,
    /// Gain life points at once.
    Life(i8),
    /// Draw that many extra cards at no life cost.
    Card(i8),
    /// Mark one other card for removal.
    Destroy,
    /// Double the value of one card.
    Double,
    /// Use the ability of another card.
    Copy,
    /// Fight one tier lower until the fight ends.
    LowerStep,
    /// Look at up to three cards of the deck and put them back in any order.
    Sort,
    /// Exchange that many cards for fresh ones.
    Swap(i8),
    /// Put one card under the deck.
    UnderDeck,
    /// Lose life points when the fight ends (the number is not positive).
    EndLife(i8),
    /// The highest card counts for nothing.
    MaxZero,
    /// No more free draws.
    Stop,
}

impl Capacity {
    /// The numbers an ability carries have the sign its name promises.
    pub open spec fn valid(self) -> bool {
        match self {
            Capacity::Life(n) => n >= 0,
            Capacity::Card(n) => n >= 1,
            Capacity::Swap(n) => n >= 1,
            Capacity::EndLife(n) => n <= 0,
            _ => true,
        }
    }
}

/// The largest value a card can have, in either direction. With it the
/// worth of all cards of a game, doubled, and the difference of two such
/// sums still fit the narrowest `isize`.
pub const VALUE_LIMIT: isize = 500_000;

/// The fighting face of a card.
#[derive(Debug, Clone, Copy)]
pub struct FightingCard {
    pub title: &'static str,
    pub fighting_value: isize,
    pub capacity: Capacity,
}

impl FightingCard {
    /// The value is within `VALUE_LIMIT` of zero, and the ability carries
    /// numbers of the right sign.
    pub open spec fn valid(self) -> bool {
        -VALUE_LIMIT <= self.fighting_value <= VALUE_LIMIT && self.capacity.valid()
    }

    /// A fighting face.
    pub fn new(title: &'static str, fighting_value: isize, capacity: Capacity) -> (r: FightingCard)
        ensures
            r == (FightingCard { title, fighting_value, capacity }),
    {
        FightingCard { title, fighting_value, capacity }
    }
}

/// How hard a hazard is to beat.
#[derive(Debug, Clone, Copy)]
pub enum Hazard {
    /// One threshold per tier: green, yellow, red.
    Leveled([u8; 3]),
    /// A pirate with a flat threshold.
    Pirate(u8),
    /// A pirate against whom each paid draw costs two life points.
    PirateTwiceLife(u8),
    /// A pirate worth two points per aging card that has joined the deck.
    PirateAging,
    /// A pirate against whom only half of the cards count.
    PirateHalf(u8),
    /// A pirate worth all the hazards that are left.
    PirateHazard,
    /// A pirate against whom each card in play counts one point more.
    PirateAdd(u8),
}

impl Hazard {
    /// The threshold of a tiered hazard at the red tier; 0 for a pirate.
    pub open spec fn red(self) -> int {
        match self {
            Hazard::Leveled(l) => l[2] as int,
            _ => 0,
        }
    }
}

/// The hazard face of a card.
#[derive(Debug, Clone, Copy)]
pub struct HazardCard {
    pub title: &'static str,
    pub free_cards: u8,
    pub hazard: Hazard,
}

impl HazardCard {
    /// A hazard face.
    pub fn new(title: &'static str, free_cards: u8, hazard: Hazard) -> (r: HazardCard)
        ensures
            r == (HazardCard { title, free_cards, hazard }),
    {
        HazardCard { title, free_cards, hazard }
    }
}

/// The kinds of card, each with the faces it has.
#[derive(Debug, Clone, Copy)]
pub enum CardKind {
    Starting(FightingCard),
    AgingNormal(FightingCard),
    AgingDifficult(FightingCard),
    HazardKnowledge(HazardCard, FightingCard),
    Pirate(HazardCard),
}

impl CardKind {
    /// Whether the kind has a hazard face.
    pub open spec fn has_hazard(self) -> bool {
        self is HazardKnowledge || self is Pirate
    }

    /// Whether the kind has a fighting face.
    pub open spec fn has_fighting(self) -> bool {
        !(self is Pirate)
    }

    /// The hazard face. Meaningful where `has_hazard` holds.
    pub open spec fn hazard_face(self) -> HazardCard {
        match self {
            CardKind::HazardKnowledge(card, _) => card,
            CardKind::Pirate(card) => card,
            _ => arbitrary(),
        }
    }

    /// The fighting face. Meaningful where `has_fighting` holds.
    pub open spec fn fighting_face(self) -> FightingCard {
        match self {
            CardKind::Starting(card) => card,
            CardKind::AgingNormal(card) => card,
            CardKind::AgingDifficult(card) => card,
            CardKind::HazardKnowledge(_, card) => card,
            _ => arbitrary(),
        }
    }

    /// The hazard face of a hazard or a pirate.
    pub fn to_hazard_card(&self) -> (r: &HazardCard)
        requires
            self.has_hazard(),
        ensures
            *r == self.hazard_face(),
    {
        match self {
            CardKind::HazardKnowledge(card, _) => card,
            CardKind::Pirate(card) => card,
            _ => unreached(),
        }
    }

    /// The fighting face of any card but a pirate.
    pub fn to_fighting_card(&self) -> (r: &FightingCard)
        requires
            self.has_fighting(),
        ensures
            *r == self.fighting_face(),
    {
        match self {
            CardKind::Starting(card) => card,
            CardKind::AgingNormal(card) => card,
            CardKind::AgingDifficult(card) => card,
            CardKind::HazardKnowledge(_, card) => card,
            CardKind::Pirate(_) => unreached(),
        }
    }
}

/// An entry of the catalog: a kind of card, how many copies the game starts
/// with, and the picture that shows it.
#[derive(Debug, Clone, Copy)]
pub struct CardDescription {
    pub kind: CardKind,
    pub start_qty: usize,
    pub filename: &'static str,
}

impl CardDescription {
    /// The value of the card is one the machine can reckon with, and each
    /// face is of the right sort: a hazard card has a threshold per tier, a
    /// pirate has a rule of its own.
    pub open spec fn valid(self) -> bool {
        match self.kind {
            CardKind::Starting(f) => f.valid(),
            CardKind::AgingNormal(f) => f.valid(),
            CardKind::AgingDifficult(f) => f.valid(),
            CardKind::HazardKnowledge(h, f) => h.hazard is Leveled && f.valid(),
            CardKind::Pirate(h) => !(h.hazard is Leveled),
        }
    }

    /// Life points that destroying the card costs after a lost fight.
    pub open spec fn destroy_value(self) -> Option<int> {
        match self.kind {
            CardKind::Starting(_) | CardKind::HazardKnowledge(_, _) => Some(1int),
            CardKind::AgingNormal(_) | CardKind::AgingDifficult(_) => Some(2int),
            CardKind::Pirate(_) => None,
        }
    }

    /// The dullest aging card, left out of the easier levels.
    pub open spec fn very_stupid(self) -> bool {
        self.kind matches CardKind::AgingNormal(f) && f.fighting_value == -3
    }

    /// A catalog entry.
    pub fn new(kind: CardKind, start_qty: usize, filename: &'static str) -> (r: Self)
        ensures
            r == (CardDescription { kind, start_qty, filename }),
    {
        Self { kind, start_qty, filename }
    }

    /// A starting card without ability.
    pub fn new_starting(
        title: &'static str,
        fighting_value: isize,
        start_qty: usize,
        filename: &'static str,
    ) -> (r: CardDescription)
        ensures
            r == starting(title, fighting_value as int, start_qty as int, filename),
    {
        CardDescription {
            kind: CardKind::Starting(FightingCard::new(title, fighting_value, Capacity::Nothing)),
            start_qty,
            filename,
        }
    }

    /// An aging card of the normal tier without ability.
    pub fn new_aging_normal(
        title: &'static str,
        fighting_value: isize,
        start_qty: usize,
        filename: &'static str,
    ) -> (r: CardDescription)
        ensures
            r == aging(title, fighting_value as int, Capacity::Nothing, start_qty as int, filename),
    {
        CardDescription {
            kind: CardKind::AgingNormal(
                FightingCard::new(title, fighting_value, Capacity::Nothing),
            ),
            start_qty,
            filename,
        }
    }

    /// An aging card of the hard tier without ability.
    pub fn new_aging_difficult(
        title: &'static str,
        fighting_value: isize,
        start_qty: usize,
        filename: &'static str,
    ) -> (r: CardDescription)
        ensures
            r == aging_difficult(title, fighting_value as int, start_qty as int, filename),
    {
        CardDescription {
            kind: CardKind::AgingDifficult(
                FightingCard::new(title, fighting_value, Capacity::Nothing),
            ),
            start_qty,
            filename,
        }
    }

    /// A hazard with the knowledge that beating it earns.
    pub fn new_hazard_knowledge(
        hazard: HazardCard,
        knowledge: FightingCard,
        start_qty: usize,
        filename: &'static str,
    ) -> (r: CardDescription)
        ensures
            r == (CardDescription {
                kind: CardKind::HazardKnowledge(hazard, knowledge),
                start_qty,
                filename,
            }),
    {
        CardDescription { kind: CardKind::HazardKnowledge(hazard, knowledge), start_qty, filename }
    }

    /// A pirate: one copy.
    pub fn new_pirate(
        title: &'static str,
        free_cards: u8,
        hazard: Hazard,
        filename: &'static str,
    ) -> (r: CardDescription)
        ensures
            r == pirate(title, free_cards as int, hazard, filename),
    {
        CardDescription {
            kind: CardKind::Pirate(HazardCard::new(title, free_cards, hazard)),
            start_qty: 1,
            filename,
        }
    }

    /// Whether the castaway starts with the card.
    pub fn is_starting(&self) -> (b: bool)
        ensures
            b == (self.kind is Starting),
    {
        match self.kind {
            CardKind::Starting(..) => true,
            _ => false,
        }
    }

    /// Whether the card is a pirate.
    pub fn is_pirate(&self) -> (b: bool)
        ensures
            b == (self.kind is Pirate),
    {
        match self.kind {
            CardKind::Pirate(..) => true,
            _ => false,
        }
    }

    /// Whether the card is an aging card of the normal tier.
    pub fn is_aging_normal(&self) -> (b: bool)
        ensures
            b == (self.kind is AgingNormal),
    {
        match self.kind {
            CardKind::AgingNormal(..) => true,
            _ => false,
        }
    }

    /// Whether the card is an aging card of the hard tier.
    pub fn is_aging_difficult(&self) -> (b: bool)
        ensures
            b == (self.kind is AgingDifficult),
    {
        match self.kind {
            CardKind::AgingDifficult(..) => true,
            _ => false,
        }
    }

    /// Whether the card is a hazard.
    pub fn is_hazard_knowledge(&self) -> (b: bool)
        ensures
            b == (self.kind is HazardKnowledge),
    {
        match self.kind {
            CardKind::HazardKnowledge(..) => true,
            _ => false,
        }
    }

    /// Whether the card is the dullest aging card.
    pub fn is_very_stupid(&self) -> (b: bool)
        ensures
            b == self.very_stupid(),
    {
        match self.kind {
            CardKind::AgingNormal(f) => f.fighting_value == -3,
            _ => false,
        }
    }

    /// Life points that destroying the card costs after a lost fight: 1, or 2
    /// for an aging card; a pirate cannot be destroyed.
    pub fn get_destroy_value(&self) -> (r: Option<isize>)
        ensures
            match r {
                Some(v) => self.destroy_value() == Some(v as int),
                None => self.destroy_value() is None,
            },
    {
        match self.kind {
            CardKind::Starting(..) | CardKind::HazardKnowledge(..) => Some(1),
            CardKind::AgingNormal(..) | CardKind::AgingDifficult(..) => Some(2),
            CardKind::Pirate(..) => None,
        }
    }
}

/// A starting card: no ability.
pub open spec fn starting(
    title: &'static str,
    fighting_value: int,
    start_qty: int,
    filename: &'static str,
) -> CardDescription {
    CardDescription {
        kind: CardKind::Starting(
            FightingCard {
                title,
                fighting_value: fighting_value as isize,
                capacity: Capacity::Nothing,
            },
        ),
        start_qty: start_qty as usize,
        filename,
    }
}

/// A starting card with an ability.
pub open spec fn starting_with(
    title: &'static str,
    fighting_value: int,
    capacity: Capacity,
    start_qty: int,
    filename: &'static str,
) -> CardDescription {
    CardDescription {
        kind: CardKind::Starting(
            FightingCard { title, fighting_value: fighting_value as isize, capacity },
        ),
        start_qty: start_qty as usize,
        filename,
    }
}

/// An aging card of the normal tier.
pub open spec fn aging(
    title: &'static str,
    fighting_value: int,
    capacity: Capacity,
    start_qty: int,
    filename: &'static str,
) -> CardDescription {
    CardDescription {
        kind: CardKind::AgingNormal(
            FightingCard { title, fighting_value: fighting_value as isize, capacity },
        ),
        start_qty: start_qty as usize,
        filename,
    }
}

/// An aging card of the hard tier: no ability.
pub open spec fn aging_difficult(
    title: &'static str,
    fighting_value: int,
    start_qty: int,
    filename: &'static str,
) -> CardDescription {
    CardDescription {
        kind: CardKind::AgingDifficult(
            FightingCard {
                title,
                fighting_value: fighting_value as isize,
                capacity: Capacity::Nothing,
            },
        ),
        start_qty: start_qty as usize,
        filename,
    }
}

/// A hazard with the knowledge that beating it earns.
pub open spec fn knowledge(
    hazard_title: &'static str,
    free_cards: int,
    levels: [u8; 3],
    title: &'static str,
    fighting_value: int,
    capacity: Capacity,
    start_qty: int,
    filename: &'static str,
) -> CardDescription {
    CardDescription {
        kind: CardKind::HazardKnowledge(
            HazardCard {
                title: hazard_title,
                free_cards: free_cards as u8,
                hazard: Hazard::Leveled(levels),
            },
            FightingCard { title, fighting_value: fighting_value as isize, capacity },
        ),
        start_qty: start_qty as usize,
        filename,
    }
}

/// A pirate: one copy.
pub open spec fn pirate(
    title: &'static str,
    free_cards: int,
    hazard: Hazard,
    filename: &'static str,
) -> CardDescription {
    CardDescription {
        kind: CardKind::Pirate(HazardCard { title, free_cards: free_cards as u8, hazard }),
        start_qty: 1,
        filename,
    }
}

/// A card in a pile: a catalog entry and the marks a fight puts on it.
#[derive(Debug, Clone, Copy)]
pub struct Card {
    pub description: CardDescription,
    /// The ability was used in this fight.
    pub tapped: bool,
    /// The card leaves the game when the fight ends.
    pub destroy: bool,
    /// The value counts twice in this fight.
    pub double: bool,
}

impl Card {
    /// A card without marks.
    pub open spec fn fresh(description: CardDescription) -> Card {
        Card { description, tapped: false, destroy: false, double: false }
    }

    /// The card with its marks taken off.
    pub open spec fn cleared(self) -> Card {
        Card::fresh(self.description)
    }

    /// Whether the card carries no mark.
    pub open spec fn clean(self) -> bool {
        !self.tapped && !self.destroy && !self.double
    }

    /// The ability of the card's fighting face.
    pub open spec fn capacity(self) -> Capacity {
        self.description.kind.fighting_face().capacity
    }

    /// What the card adds to a fight: nothing once it is marked for
    /// removal, twice its value when doubled.
    pub open spec fn worth(self) -> int {
        if self.destroy {
            0
        } else if self.double {
            2 * self.description.kind.fighting_face().fighting_value
        } else {
            self.description.kind.fighting_face().fighting_value as int
        }
    }

    /// Whether the card has the given ability and still counts.
    pub open spec fn acts_as(self, capacity: Capacity) -> bool {
        !self.destroy && self.capacity() == capacity
    }

    /// A valid card that can be drawn to fight with.
    pub open spec fn fights(self) -> bool {
        self.description.valid() && self.description.kind.has_fighting()
    }

    /// A valid card with a tiered hazard on it.
    pub open spec fn threatens(self) -> bool {
        self.description.valid() && self.description.kind is HazardKnowledge
    }

    /// A valid pirate.
    pub open spec fn plunders(self) -> bool {
        self.description.valid() && self.description.kind is Pirate
    }

    /// A card without marks.
    pub fn new(description: &CardDescription) -> (r: Self)
        ensures
            r == Card::fresh(*description),
    {
        Self { description: *description, tapped: false, destroy: false, double: false }
    }

    /// What the card adds to a fight.
    pub fn get_fighting_value(&self) -> (r: isize)
        requires
            self.description.kind.has_fighting(),
            isize::MIN <= self.worth() <= isize::MAX,
        ensures
            r == self.worth(),
    {
        if self.destroy {
            return 0;
        }
        let mut val = self.description.kind.to_fighting_card().fighting_value;
        if self.double {
            val *= 2;
        }
        val
    }

    /// Takes every mark off, as when the card goes back to a draw pile.
    pub fn reset(&mut self)
        ensures
            *final(self) == old(self).cleared(),
    {
        self.tapped = false;
        self.destroy = false;
        self.double = false;
    }
}

} // verus!
