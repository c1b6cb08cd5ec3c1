//! The catalog of the game: every kind of card there is, and how the piles
//! of a new game are dealt from it.

use crate::cards::{
    aging, aging_difficult, knowledge, pirate, starting, starting_with, Capacity, Card,
    CardDescription, CardKind, FightingCard, Hazard, HazardCard,
};
use crate::piles::{every, total};
use vstd::prelude::*;

verus! {

/// The number of entries in the catalog.
pub const CATALOG_SIZE: usize = 48;

/// The catalog, entry by entry: the starting cards, the aging cards of the
/// normal and of the hard tier, the hazards with the knowledge they earn, and
/// the pirates.
pub open spec fn catalog_entry(i: int) -> CardDescription {
    if i == 0 {
        starting_with("eating", 0, Capacity::Life(2), 1, "friday-030.jpg")
    } else if i == 1 {
        starting("genius", 2, 1, "friday-033.jpg")
    } else if i == 2 {
        starting("focused", 1, 3, "friday-031.jpg")
    } else if i == 3 {
        starting("weak", 0, 8, "friday-038.jpg")
    } else if i == 4 {
        starting("distracted", -1, 5, "friday-043.jpg")
    } else if i == 5 {
        aging("stupid", -2, Capacity::Nothing, 2, "friday-058.jpg")
    } else if i == 6 {
        aging("very tired", 0, Capacity::Stop, 1, "friday-057.jpg")
    } else if i == 7 {
        aging("very stupid", -3, Capacity::Nothing, 1, "friday-056.jpg")
    } else if i == 8 {
        aging("distracted", -1, Capacity::Nothing, 1, "friday-055.jpg")
    } else if i == 9 {
        aging("afraid", 0, Capacity::MaxZero, 2, "friday-053.jpg")
    } else if i == 10 {
        aging("hungry", 0, Capacity::EndLife(-1i8), 1, "friday-051.jpg")
    } else if i == 11 {
        aging("very hungry", 0, Capacity::EndLife(-2i8), 1, "friday-048.jpg")
    } else if i == 12 {
        aging_difficult("self homicidal", -5, 1, "friday-049.jpg")
    } else if i == 13 {
        aging_difficult("idiot", -4, 1, "friday-050.jpg")
    } else if i == 14 {
        knowledge(
            "Wreck boat",
            1,
            [0u8, 1u8, 3u8],
            "reader",
            0,
            Capacity::LowerStep,
            1,
            "friday-009.jpg",
        )
    } else if i == 15 {
        knowledge(
            "Wreck boat",
            1,
            [0u8, 1u8, 3u8],
            "trick",
            0,
            Capacity::UnderDeck,
            1,
            "friday-022.jpg",
        )
    } else if i == 16 {
        knowledge(
            "Wreck boat",
            1,
            [0u8, 1u8, 3u8],
            "knowledge",
            0,
            Capacity::Destroy,
            1,
            "friday-011.jpg",
        )
    } else if i == 17 {
        knowledge(
            "Wreck boat",
            1,
            [0u8, 1u8, 3u8],
            "mimicry",
            0,
            Capacity::Copy,
            1,
            "friday-016.jpg",
        )
    } else if i == 18 {
        knowledge(
            "Wreck boat",
            1,
            [0u8, 1u8, 3u8],
            "nutriment",
            0,
            Capacity::Life(1),
            2,
            "friday-027.jpg",
        )
    } else if i == 19 {
        knowledge(
            "Wreck boat",
            1,
            [0u8, 1u8, 3u8],
            "equipment",
            0,
            Capacity::Card(2),
            2,
            "friday-000.jpg",
        )
    } else if i == 20 {
        knowledge(
            "Wreck boat",
            1,
            [0u8, 1u8, 3u8],
            "strategy",
            0,
            Capacity::Swap(2),
            2,
            "friday-001.jpg",
        )
    } else if i == 21 {
        knowledge(
            "Exploring the island",
            2,
            [1u8, 3u8, 6u8],
            "mimicry",
            1,
            Capacity::Copy,
            1,
            "friday-015.jpg",
        )
    } else if i == 22 {
        knowledge(
            "Exploring the island",
            2,
            [1u8, 3u8, 6u8],
            "mimicry",
            1,
            Capacity::Destroy,
            1,
            "friday-023.jpg",
        )
    } else if i == 23 {
        knowledge(
            "Exploring the island",
            2,
            [1u8, 3u8, 6u8],
            "repetition",
            1,
            Capacity::Double,
            1,
            "friday-017.jpg",
        )
    } else if i == 24 {
        knowledge(
            "Exploring the island",
            2,
            [1u8, 3u8, 6u8],
            "repetition",
            1,
            Capacity::UnderDeck,
            1,
            "friday-029.jpg",
        )
    } else if i == 25 {
        knowledge(
            "Exploring the island",
            2,
            [1u8, 3u8, 6u8],
            "nutriment",
            1,
            Capacity::Life(1),
            2,
            "friday-025.jpg",
        )
    } else if i == 26 {
        knowledge(
            "Exploring the island",
            2,
            [1u8, 3u8, 6u8],
            "weapon",
            2,
            Capacity::Nothing,
            2,
            "friday-014.jpg",
        )
    } else if i == 27 {
        knowledge(
            "Exploring deep the island",
            3,
            [2u8, 5u8, 8u8],
            "experience",
            2,
            Capacity::Card(1),
            1,
            "friday-012.jpg",
        )
    } else if i == 28 {
        knowledge(
            "Exploring deep the island",
            3,
            [2u8, 5u8, 8u8],
            "knowledge",
            2,
            Capacity::Destroy,
            1,
            "friday-003.jpg",
        )
    } else if i == 29 {
        knowledge(
            "Exploring deep the island",
            3,
            [2u8, 5u8, 8u8],
            "vision",
            2,
            Capacity::Sort,
            1,
            "friday-002.jpg",
        )
    } else if i == 30 {
        knowledge(
            "Exploring deep the island",
            3,
            [2u8, 5u8, 8u8],
            "strategy",
            2,
            Capacity::Swap(2),
            1,
            "friday-013.jpg",
        )
    } else if i == 31 {
        knowledge(
            "Exploring deep the island",
            3,
            [2u8, 5u8, 8u8],
            "nutriment",
            2,
            Capacity::Life(1),
            1,
            "friday-005.jpg",
        )
    } else if i == 32 {
        knowledge(
            "Exploring deep the island",
            3,
            [2u8, 5u8, 8u8],
            "repetition",
            2,
            Capacity::Double,
            1,
            "friday-008.jpg",
        )
    } else if i == 33 {
        knowledge(
            "Wild animals",
            4,
            [4u8, 7u8, 11u8],
            "knowledge",
            3,
            Capacity::Destroy,
            1,
            "friday-018.jpg",
        )
    } else if i == 34 {
        knowledge(
            "Wild animals",
            4,
            [4u8, 7u8, 11u8],
            "experience",
            3,
            Capacity::Card(1),
            1,
            "friday-019.jpg",
        )
    } else if i == 35 {
        knowledge(
            "Wild animals",
            4,
            [4u8, 7u8, 11u8],
            "vision",
            3,
            Capacity::Sort,
            1,
            "friday-004.jpg",
        )
    } else if i == 36 {
        knowledge(
            "Wild animals",
            4,
            [4u8, 7u8, 11u8],
            "strategy",
            3,
            Capacity::Swap(2),
            1,
            "friday-024.jpg",
        )
    } else if i == 37 {
        knowledge(
            "Cannibal",
            5,
            [5u8, 9u8, 14u8],
            "weapon",
            4,
            Capacity::Nothing,
            2,
            "friday-006.jpg",
        )
    } else if i == 38 {
        pirate("", 10, Hazard::Pirate(40), "friday-061.jpg")
    } else if i == 39 {
        pirate(
            "Each additonal fighting card costs 2 life points",
            7,
            Hazard::PirateTwiceLife(16),
            "friday-062.jpg",
        )
    } else if i == 40 {
        pirate("", 8, Hazard::Pirate(30), "friday-063.jpg")
    } else if i == 41 {
        pirate("", 6, Hazard::Pirate(20), "friday-064.jpg")
    } else if i == 42 {
        pirate(
            "+2 hazard points for each aging card added to your Robinson stack",
            5,
            Hazard::PirateAging,
            "friday-065.jpg",
        )
    } else if i == 43 {
        pirate(
            "Only half of the fighting cards count (aging cards must be part of this)",
            9,
            Hazard::PirateHalf(22),
            "friday-066.jpg",
        )
    } else if i == 44 {
        pirate("Fight against all remaining hazard cards", 0, Hazard::PirateHazard, "friday-067.jpg")
    } else if i == 45 {
        pirate("", 7, Hazard::Pirate(25), "friday-068.jpg")
    } else if i == 46 {
        pirate("", 9, Hazard::Pirate(35), "friday-069.jpg")
    } else {
        pirate(
            "Each drawn fighting card counts +1 fighting point",
            10,
            Hazard::PirateAdd(52),
            "friday-070.jpg",
        )
    }
}

/// The whole catalog.
pub open spec fn catalog() -> Seq<CardDescription> {
    Seq::new(CATALOG_SIZE as nat, |i: int| catalog_entry(i))
}

/// Builds the catalog.
pub fn all_card_description() -> (r: Vec<CardDescription>)
    ensures
        r@ == catalog(),
{
    let mut v: Vec<CardDescription> = Vec::new();
    v.push(
        CardDescription::new(
            CardKind::Starting(FightingCard::new("eating", 0, Capacity::Life(2))),
            1,
            "friday-030.jpg",
        ),
    );
    v.push(CardDescription::new_starting("genius", 2, 1, "friday-033.jpg"));
    v.push(CardDescription::new_starting("focused", 1, 3, "friday-031.jpg"));
    v.push(CardDescription::new_starting("weak", 0, 8, "friday-038.jpg"));
    v.push(CardDescription::new_starting("distracted", -1, 5, "friday-043.jpg"));
    v.push(CardDescription::new_aging_normal("stupid", -2, 2, "friday-058.jpg"));
    v.push(
        CardDescription::new(
            CardKind::AgingNormal(FightingCard::new("very tired", 0, Capacity::Stop)),
            1,
            "friday-057.jpg",
        ),
    );
    v.push(CardDescription::new_aging_normal("very stupid", -3, 1, "friday-056.jpg"));
    v.push(CardDescription::new_aging_normal("distracted", -1, 1, "friday-055.jpg"));
    v.push(
        CardDescription::new(
            CardKind::AgingNormal(FightingCard::new("afraid", 0, Capacity::MaxZero)),
            2,
            "friday-053.jpg",
        ),
    );
    v.push(
        CardDescription::new(
            CardKind::AgingNormal(FightingCard::new("hungry", 0, Capacity::EndLife(-1))),
            1,
            "friday-051.jpg",
        ),
    );
    v.push(
        CardDescription::new(
            CardKind::AgingNormal(FightingCard::new("very hungry", 0, Capacity::EndLife(-2))),
            1,
            "friday-048.jpg",
        ),
    );
    v.push(CardDescription::new_aging_difficult("self homicidal", -5, 1, "friday-049.jpg"));
    v.push(CardDescription::new_aging_difficult("idiot", -4, 1, "friday-050.jpg"));
    v.push(
        CardDescription::new_hazard_knowledge(
            HazardCard::new("Wreck boat", 1, Hazard::Leveled([0, 1, 3])),
            FightingCard::new("reader", 0, Capacity::LowerStep),
            1,
            "friday-009.jpg",
        ),
    );
    v.push(
        CardDescription::new_hazard_knowledge(
            HazardCard::new("Wreck boat", 1, Hazard::Leveled([0, 1, 3])),
            FightingCard::new("trick", 0, Capacity::UnderDeck),
            1,
            "friday-022.jpg",
        ),
    );
    v.push(
        CardDescription::new_hazard_knowledge(
            HazardCard::new("Wreck boat", 1, Hazard::Leveled([0, 1, 3])),
            FightingCard::new("knowledge", 0, Capacity::Destroy),
            1,
            "friday-011.jpg",
        ),
    );
    v.push(
        CardDescription::new_hazard_knowledge(
            HazardCard::new("Wreck boat", 1, Hazard::Leveled([0, 1, 3])),
            FightingCard::new("mimicry", 0, Capacity::Copy),
            1,
            "friday-016.jpg",
        ),
    );
    v.push(
        CardDescription::new_hazard_knowledge(
            HazardCard::new("Wreck boat", 1, Hazard::Leveled([0, 1, 3])),
            FightingCard::new("nutriment", 0, Capacity::Life(1)),
            2,
            "friday-027.jpg",
        ),
    );
    v.push(
        CardDescription::new_hazard_knowledge(
            HazardCard::new("Wreck boat", 1, Hazard::Leveled([0, 1, 3])),
            FightingCard::new("equipment", 0, Capacity::Card(2)),
            2,
            "friday-000.jpg",
        ),
    );
    v.push(
        CardDescription::new_hazard_knowledge(
            HazardCard::new("Wreck boat", 1, Hazard::Leveled([0, 1, 3])),
            FightingCard::new("strategy", 0, Capacity::Swap(2)),
            2,
            "friday-001.jpg",
        ),
    );
    v.push(
        CardDescription::new_hazard_knowledge(
            HazardCard::new("Exploring the island", 2, Hazard::Leveled([1, 3, 6])),
            FightingCard::new("mimicry", 1, Capacity::Copy),
            1,
            "friday-015.jpg",
        ),
    );
    v.push(
        CardDescription::new_hazard_knowledge(
            HazardCard::new("Exploring the island", 2, Hazard::Leveled([1, 3, 6])),
            FightingCard::new("mimicry", 1, Capacity::Destroy),
            1,
            "friday-023.jpg",
        ),
    );
    v.push(
        CardDescription::new_hazard_knowledge(
            HazardCard::new("Exploring the island", 2, Hazard::Leveled([1, 3, 6])),
            FightingCard::new("repetition", 1, Capacity::Double),
            1,
            "friday-017.jpg",
        ),
    );
    v.push(
        CardDescription::new_hazard_knowledge(
            HazardCard::new("Exploring the island", 2, Hazard::Leveled([1, 3, 6])),
            FightingCard::new("repetition", 1, Capacity::UnderDeck),
            1,
            "friday-029.jpg",
        ),
    );
    v.push(
        CardDescription::new_hazard_knowledge(
            HazardCard::new("Exploring the island", 2, Hazard::Leveled([1, 3, 6])),
            FightingCard::new("nutriment", 1, Capacity::Life(1)),
            2,
            "friday-025.jpg",
        ),
    );
    v.push(
        CardDescription::new_hazard_knowledge(
            HazardCard::new("Exploring the island", 2, Hazard::Leveled([1, 3, 6])),
            FightingCard::new("weapon", 2, Capacity::Nothing),
            2,
            "friday-014.jpg",
        ),
    );
    v.push(
        CardDescription::new_hazard_knowledge(
            HazardCard::new("Exploring deep the island", 3, Hazard::Leveled([2, 5, 8])),
            FightingCard::new("experience", 2, Capacity::Card(1)),
            1,
            "friday-012.jpg",
        ),
    );
    v.push(
        CardDescription::new_hazard_knowledge(
            HazardCard::new("Exploring deep the island", 3, Hazard::Leveled([2, 5, 8])),
            FightingCard::new("knowledge", 2, Capacity::Destroy),
            1,
            "friday-003.jpg",
        ),
    );
    v.push(
        CardDescription::new_hazard_knowledge(
            HazardCard::new("Exploring deep the island", 3, Hazard::Leveled([2, 5, 8])),
            FightingCard::new("vision", 2, Capacity::Sort),
            1,
            "friday-002.jpg",
        ),
    );
    v.push(
        CardDescription::new_hazard_knowledge(
            HazardCard::new("Exploring deep the island", 3, Hazard::Leveled([2, 5, 8])),
            FightingCard::new("strategy", 2, Capacity::Swap(2)),
            1,
            "friday-013.jpg",
        ),
    );
    v.push(
        CardDescription::new_hazard_knowledge(
            HazardCard::new("Exploring deep the island", 3, Hazard::Leveled([2, 5, 8])),
            FightingCard::new("nutriment", 2, Capacity::Life(1)),
            1,
            "friday-005.jpg",
        ),
    );
    v.push(
        CardDescription::new_hazard_knowledge(
            HazardCard::new("Exploring deep the island", 3, Hazard::Leveled([2, 5, 8])),
            FightingCard::new("repetition", 2, Capacity::Double),
            1,
            "friday-008.jpg",
        ),
    );
    v.push(
        CardDescription::new_hazard_knowledge(
            HazardCard::new("Wild animals", 4, Hazard::Leveled([4, 7, 11])),
            FightingCard::new("knowledge", 3, Capacity::Destroy),
            1,
            "friday-018.jpg",
        ),
    );
    v.push(
        CardDescription::new_hazard_knowledge(
            HazardCard::new("Wild animals", 4, Hazard::Leveled([4, 7, 11])),
            FightingCard::new("experience", 3, Capacity::Card(1)),
            1,
            "friday-019.jpg",
        ),
    );
    v.push(
        CardDescription::new_hazard_knowledge(
            HazardCard::new("Wild animals", 4, Hazard::Leveled([4, 7, 11])),
            FightingCard::new("vision", 3, Capacity::Sort),
            1,
            "friday-004.jpg",
        ),
    );
    v.push(
        CardDescription::new_hazard_knowledge(
            HazardCard::new("Wild animals", 4, Hazard::Leveled([4, 7, 11])),
            FightingCard::new("strategy", 3, Capacity::Swap(2)),
            1,
            "friday-024.jpg",
        ),
    );
    v.push(
        CardDescription::new_hazard_knowledge(
            HazardCard::new("Cannibal", 5, Hazard::Leveled([5, 9, 14])),
            FightingCard::new("weapon", 4, Capacity::Nothing),
            2,
            "friday-006.jpg",
        ),
    );
    v.push(CardDescription::new_pirate("", 10, Hazard::Pirate(40), "friday-061.jpg"));
    v.push(
        CardDescription::new_pirate(
            "Each additonal fighting card costs 2 life points",
            7,
            Hazard::PirateTwiceLife(16),
            "friday-062.jpg",
        ),
    );
    v.push(CardDescription::new_pirate("", 8, Hazard::Pirate(30), "friday-063.jpg"));
    v.push(CardDescription::new_pirate("", 6, Hazard::Pirate(20), "friday-064.jpg"));
    v.push(
        CardDescription::new_pirate(
            "+2 hazard points for each aging card added to your Robinson stack",
            5,
            Hazard::PirateAging,
            "friday-065.jpg",
        ),
    );
    v.push(
        CardDescription::new_pirate(
            "Only half of the fighting cards count (aging cards must be part of this)",
            9,
            Hazard::PirateHalf(22),
            "friday-066.jpg",
        ),
    );
    v.push(CardDescription::new_pirate("Fight against all remaining hazard cards", 0, Hazard::PirateHazard, "friday-067.jpg"));
    v.push(CardDescription::new_pirate("", 7, Hazard::Pirate(25), "friday-068.jpg"));
    v.push(CardDescription::new_pirate("", 9, Hazard::Pirate(35), "friday-069.jpg"));
    v.push(
        CardDescription::new_pirate(
            "Each drawn fighting card counts +1 fighting point",
            10,
            Hazard::PirateAdd(52),
            "friday-070.jpg",
        ),
    );
    assert(v@ =~= catalog());
    v
}

/// The groups of catalog entries from which the piles of a new game are dealt.
#[derive(Debug, Clone, Copy)]
pub enum Family {
    /// The cards the castaway starts with.
    Starting,
    /// The aging cards of the hard tier.
    Difficult,
    /// The aging cards of the normal tier, with or without the dullest one.
    Normal { dullest: bool },
    /// The hazards.
    Hazards,
    /// The pirates.
    Pirates,
}

impl Family {
    /// Whether a catalog entry belongs to the group.
    pub open spec fn holds(self, d: CardDescription) -> bool {
        match self {
            Family::Starting => d.kind is Starting,
            Family::Difficult => d.kind is AgingDifficult,
            Family::Normal { dullest } => d.kind is AgingNormal && (dullest || !d.very_stupid()),
            Family::Hazards => d.kind is HazardKnowledge,
            Family::Pirates => d.kind is Pirate,
        }
    }

    /// Whether a catalog entry belongs to the group.
    pub fn takes(&self, d: &CardDescription) -> (b: bool)
        ensures
            b == self.holds(*d),
    {
        match self {
            Family::Starting => d.is_starting(),
            Family::Difficult => d.is_aging_difficult(),
            Family::Normal { dullest } => d.is_aging_normal() && (*dullest || !d.is_very_stupid()),
            Family::Hazards => d.is_hazard_knowledge(),
            Family::Pirates => d.is_pirate(),
        }
    }
}

/// `n` fresh cards of one catalog entry.
pub open spec fn copies(d: CardDescription, n: nat) -> Seq<Card> {
    Seq::new(n, |i: int| Card::fresh(d))
}

/// The cards of a group in catalog order, each entry as often as the game
/// starts with it, taken from the first `n` entries of the catalog.
pub open spec fn dealt(n: nat, family: Family) -> Seq<Card>
    decreases n,
{
    if n == 0 {
        Seq::empty()
    } else {
        let d = catalog_entry(n - 1);
        if family.holds(d) {
            dealt((n - 1) as nat, family) + copies(d, d.start_qty as nat)
        } else {
            dealt((n - 1) as nat, family)
        }
    }
}

/// The sum of `weight` over the cards of a group, counted on the catalog.
pub open spec fn tally(n: nat, family: Family, weight: spec_fn(Card) -> int) -> int
    decreases n,
{
    if n == 0 {
        0
    } else {
        let d = catalog_entry(n - 1);
        if family.holds(d) {
            tally((n - 1) as nat, family, weight) + d.start_qty * weight(Card::fresh(d))
        } else {
            tally((n - 1) as nat, family, weight)
        }
    }
}

/// The number of cards of a group, counted on the catalog.
pub open spec fn census(n: nat, family: Family) -> int
    decreases n,
{
    if n == 0 {
        0
    } else {
        let d = catalog_entry(n - 1);
        if family.holds(d) {
            census((n - 1) as nat, family) + d.start_qty
        } else {
            census((n - 1) as nat, family)
        }
    }
}

/// Free draws that the hazard on the card grants.
pub open spec fn granted() -> spec_fn(Card) -> int {
    |c: Card| c.description.kind.hazard_face().free_cards as int
}

/// The red threshold of the hazard on the card.
pub open spec fn red() -> spec_fn(Card) -> int {
    |c: Card| c.description.kind.hazard_face().hazard.red()
}

/// Every catalog entry is valid. No entry comes in more than 8 copies, and
/// the values run from -5 to 4.
pub proof fn lemma_catalog_valid(i: int)
    requires
        0 <= i < CATALOG_SIZE,
    ensures
        catalog_entry(i).valid(),
        catalog_entry(i).start_qty <= 8,
        catalog_entry(i).kind.has_fighting() ==> -5
            <= catalog_entry(i).kind.fighting_face().fighting_value <= 4,
{
}

/// The cards dealt for a group are fresh, valid, and of that group.
pub proof fn lemma_dealt_sound(n: nat, family: Family)
    requires
        n <= CATALOG_SIZE,
    ensures
        forall|i: int|
            0 <= i < dealt(n, family).len() ==> {
                let c = #[trigger] dealt(n, family)[i];
                c.clean() && c.description.valid() && family.holds(c.description)
            },
        dealt(n, family).len() == census(n, family),
        0 <= census(n, family) <= 8 * n,
    decreases n,
{
    if n > 0 {
        lemma_dealt_sound((n - 1) as nat, family);
        lemma_catalog_valid(n - 1);
    }
}

/// A sum over the cards dealt for a group is the sum counted on the catalog.
pub proof fn lemma_dealt_total(n: nat, family: Family, weight: spec_fn(Card) -> int)
    ensures
        total(dealt(n, family), weight) == tally(n, family, weight),
    decreases n,
{
    if n > 0 {
        let d = catalog_entry(n - 1);
        lemma_dealt_total((n - 1) as nat, family, weight);
        if family.holds(d) {
            crate::piles::lemma_total_add(
                dealt((n - 1) as nat, family),
                copies(d, d.start_qty as nat),
                weight,
            );
            lemma_copies_total(d, d.start_qty as nat, weight);
        }
    }
}

proof fn lemma_copies_total(d: CardDescription, n: nat, weight: spec_fn(Card) -> int)
    ensures
        total(copies(d, n), weight) == n * weight(Card::fresh(d)),
    decreases n,
{
    if n > 0 {
        assert(copies(d, n).drop_last() =~= copies(d, (n - 1) as nat));
        lemma_copies_total(d, (n - 1) as nat, weight);
        assert(n * weight(Card::fresh(d)) == (n - 1) * weight(Card::fresh(d)) + weight(
            Card::fresh(d),
        )) by (nonlinear_arith);
    } else {
        assert(0 * weight(Card::fresh(d)) == 0);
    }
}

/// How many cards each group deals.
pub proof fn lemma_census()
    ensures
        census(CATALOG_SIZE as nat, Family::Starting) == 18,
        census(CATALOG_SIZE as nat, Family::Difficult) == 2,
        census(CATALOG_SIZE as nat, Family::Normal { dullest: false }) == 8,
        census(CATALOG_SIZE as nat, Family::Normal { dullest: true }) == 9,
        census(CATALOG_SIZE as nat, Family::Hazards) == 30,
        census(CATALOG_SIZE as nat, Family::Pirates) == 10,
{
    reveal_with_fuel(census, 49);
}

/// All hazards together grant 70 free draws and are worth 198 at the red
/// tier.
pub proof fn lemma_hazard_tally()
    ensures
        tally(CATALOG_SIZE as nat, Family::Hazards, granted()) == 70,
        tally(CATALOG_SIZE as nat, Family::Hazards, red()) == 198,
{
    reveal_with_fuel(tally, 15);
    assert(tally(14, Family::Hazards, granted()) == 0);
    assert(tally(14, Family::Hazards, red()) == 0);
    assert(granted()(Card::fresh(catalog_entry(14))) == 1);
    assert(red()(Card::fresh(catalog_entry(14))) == 3);
    assert(granted()(Card::fresh(catalog_entry(15))) == 1);
    assert(red()(Card::fresh(catalog_entry(15))) == 3);
    assert(granted()(Card::fresh(catalog_entry(16))) == 1);
    assert(red()(Card::fresh(catalog_entry(16))) == 3);
    assert(granted()(Card::fresh(catalog_entry(17))) == 1);
    assert(red()(Card::fresh(catalog_entry(17))) == 3);
    assert(granted()(Card::fresh(catalog_entry(18))) == 1);
    assert(red()(Card::fresh(catalog_entry(18))) == 3);
    assert(granted()(Card::fresh(catalog_entry(19))) == 1);
    assert(red()(Card::fresh(catalog_entry(19))) == 3);
    assert(granted()(Card::fresh(catalog_entry(20))) == 1);
    assert(red()(Card::fresh(catalog_entry(20))) == 3);
    assert(tally(21, Family::Hazards, granted()) == 10);
    assert(tally(21, Family::Hazards, red()) == 30);
    assert(granted()(Card::fresh(catalog_entry(21))) == 2);
    assert(red()(Card::fresh(catalog_entry(21))) == 6);
    assert(granted()(Card::fresh(catalog_entry(22))) == 2);
    assert(red()(Card::fresh(catalog_entry(22))) == 6);
    assert(granted()(Card::fresh(catalog_entry(23))) == 2);
    assert(red()(Card::fresh(catalog_entry(23))) == 6);
    assert(granted()(Card::fresh(catalog_entry(24))) == 2);
    assert(red()(Card::fresh(catalog_entry(24))) == 6);
    assert(granted()(Card::fresh(catalog_entry(25))) == 2);
    assert(red()(Card::fresh(catalog_entry(25))) == 6);
    assert(granted()(Card::fresh(catalog_entry(26))) == 2);
    assert(red()(Card::fresh(catalog_entry(26))) == 6);
    assert(tally(27, Family::Hazards, granted()) == 26);
    assert(tally(27, Family::Hazards, red()) == 78);
    assert(granted()(Card::fresh(catalog_entry(27))) == 3);
    assert(red()(Card::fresh(catalog_entry(27))) == 8);
    assert(granted()(Card::fresh(catalog_entry(28))) == 3);
    assert(red()(Card::fresh(catalog_entry(28))) == 8);
    assert(granted()(Card::fresh(catalog_entry(29))) == 3);
    assert(red()(Card::fresh(catalog_entry(29))) == 8);
    assert(granted()(Card::fresh(catalog_entry(30))) == 3);
    assert(red()(Card::fresh(catalog_entry(30))) == 8);
    assert(granted()(Card::fresh(catalog_entry(31))) == 3);
    assert(red()(Card::fresh(catalog_entry(31))) == 8);
    assert(granted()(Card::fresh(catalog_entry(32))) == 3);
    assert(red()(Card::fresh(catalog_entry(32))) == 8);
    assert(tally(33, Family::Hazards, granted()) == 44);
    assert(tally(33, Family::Hazards, red()) == 126);
    assert(granted()(Card::fresh(catalog_entry(33))) == 4);
    assert(red()(Card::fresh(catalog_entry(33))) == 11);
    assert(granted()(Card::fresh(catalog_entry(34))) == 4);
    assert(red()(Card::fresh(catalog_entry(34))) == 11);
    assert(granted()(Card::fresh(catalog_entry(35))) == 4);
    assert(red()(Card::fresh(catalog_entry(35))) == 11);
    assert(granted()(Card::fresh(catalog_entry(36))) == 4);
    assert(red()(Card::fresh(catalog_entry(36))) == 11);
    assert(tally(37, Family::Hazards, granted()) == 60);
    assert(tally(37, Family::Hazards, red()) == 170);
    assert(granted()(Card::fresh(catalog_entry(37))) == 5);
    assert(red()(Card::fresh(catalog_entry(37))) == 14);
    assert(tally(38, Family::Hazards, granted()) == 70);
    assert(tally(38, Family::Hazards, red()) == 198);
}

/// Deals the cards of a group from the catalog, in catalog order.
pub fn deal(entries: &Vec<CardDescription>, family: Family) -> (r: Vec<Card>)
    requires
        entries@ == catalog(),
    ensures
        r@ == dealt(CATALOG_SIZE as nat, family),
{
    let mut pile: Vec<Card> = Vec::new();
    let mut i: usize = 0;
    while i < entries.len()
        invariant
            entries@ == catalog(),
            i <= CATALOG_SIZE,
            pile@ == dealt(i as nat, family),
        decreases CATALOG_SIZE - i,
    {
        let d = &entries[i];
        assert(*d == catalog_entry(i as int));
        if family.takes(d) {
            let mut k: usize = 0;
            while k < d.start_qty
                invariant
                    k <= d.start_qty,
                    pile@ == dealt(i as nat, family) + copies(*d, k as nat),
                decreases d.start_qty - k,
            {
                pile.push(Card::new(d));
                k += 1;
                assert(pile@ =~= dealt(i as nat, family) + copies(*d, k as nat));
            }
        }
        i += 1;
        assert(pile@ =~= dealt(i as nat, family));
    }
    pile
}

} // verus!
