use friday::cards::{Card, CardDescription, Step};
use friday::catalog::{all_card_description, deal, Family};
use friday::friday::{Event, Friday, Rejection, State, Using};
use rand::rngs::StdRng;
use rand::SeedableRng;

fn entry(filename: &str) -> CardDescription {
    all_card_description()
        .into_iter()
        .find(|d| d.filename == filename)
        .unwrap()
}

fn card(filename: &str) -> Card {
    Card::new(&entry(filename))
}

fn cards(filenames: &[&str]) -> Vec<Card> {
    filenames.iter().map(|f| card(f)).collect()
}

fn names(pile: &[Card]) -> Vec<&'static str> {
    pile.iter().map(|c| c.description.filename).collect()
}

fn sorted_names(pile: &[Card]) -> Vec<&'static str> {
    let mut all = names(pile);
    all.sort();
    all
}

const GENIUS: &str = "friday-033.jpg";
const FOCUSED: &str = "friday-031.jpg";
const WEAK: &str = "friday-038.jpg";
const DISTRACTED: &str = "friday-043.jpg";
const EATING: &str = "friday-030.jpg";
const STUPID: &str = "friday-058.jpg";
const VERY_TIRED: &str = "friday-057.jpg";
const AFRAID: &str = "friday-053.jpg";
const HUNGRY: &str = "friday-051.jpg";
const VERY_HUNGRY: &str = "friday-048.jpg";
const IDIOT: &str = "friday-050.jpg";
const READER: &str = "friday-009.jpg";
const TRICK: &str = "friday-022.jpg";
const KNOWLEDGE: &str = "friday-011.jpg";
const MIMICRY: &str = "friday-016.jpg";
const EQUIPMENT: &str = "friday-000.jpg";
const STRATEGY: &str = "friday-001.jpg";
const REPETITION: &str = "friday-017.jpg";
const VISION: &str = "friday-002.jpg";
const EXPERIENCE: &str = "friday-012.jpg";
const WEAPON: &str = "friday-014.jpg";
const CANNIBAL: &str = "friday-006.jpg";
const PIRATE_40: &str = "friday-061.jpg";
const PIRATE_TWICE: &str = "friday-062.jpg";
const PIRATE_AGING: &str = "friday-065.jpg";
const PIRATE_HALF: &str = "friday-066.jpg";
const PIRATE_HAZARD: &str = "friday-067.jpg";
const PIRATE_ADD: &str = "friday-070.jpg";

/// A game with empty piles, idle, at the green tier.
fn bare(level: usize) -> Friday {
    Friday {
        level,
        life_points: 20,
        step: Step::Green,
        step_modif: 0,
        destroyed: vec![],
        aging_deck: vec![],
        fighting_deck: vec![],
        fighting_discard: vec![],
        hazard_deck: vec![],
        hazard_discard: vec![],
        pirate_cards: vec![],
        pirate_cards_won: vec![],
        state: State::Idle,
        rng: StdRng::seed_from_u64(11),
    }
}

/// A game in a fight against the card given.
fn fighting(hazard: &str, used: u8, left: &[&str], right: &[&str]) -> Friday {
    let mut game = bare(1);
    game.state = State::Fighting(card(hazard), used, cards(left), cards(right), Using::Nothing);
    assert!(game.is_sound());
    game
}

fn set_using(game: &mut Friday, using: Using) {
    let state = std::mem::replace(&mut game.state, State::Idle);
    game.state = match state {
        State::Fighting(h, used, left, right, _) => State::Fighting(h, used, left, right, using),
        other => other,
    };
}

fn using_of(game: &Friday) -> Using {
    match &game.state {
        State::Fighting(_, _, _, _, using) => using.clone(),
        _ => panic!("no fight is on"),
    }
}

fn used_free(game: &Friday) -> u8 {
    match &game.state {
        State::Fighting(_, used, _, _, _) => *used,
        _ => panic!("no fight is on"),
    }
}

fn in_play(game: &Friday) -> Vec<Card> {
    let mut all = game.get_left().unwrap().clone();
    all.extend(game.get_right().unwrap().iter().cloned());
    all
}

fn population(game: &Friday) -> Vec<&'static str> {
    let mut all: Vec<Card> = vec![];
    all.extend(game.destroyed.iter().cloned());
    all.extend(game.aging_deck.iter().cloned());
    all.extend(game.fighting_deck.iter().cloned());
    all.extend(game.fighting_discard.iter().cloned());
    all.extend(game.hazard_deck.iter().cloned());
    all.extend(game.hazard_discard.iter().cloned());
    all.extend(game.pirate_cards.iter().cloned());
    all.extend(game.pirate_cards_won.iter().cloned());
    match &game.state {
        State::ChooseHazard(shown) => all.extend(shown.iter().cloned()),
        State::Fighting(h, _, left, right, using) => {
            all.push(*h);
            all.extend(left.iter().cloned());
            all.extend(right.iter().cloned());
            if let Using::Sort(held) = using {
                all.extend(held.iter().cloned());
            }
        }
        _ => {}
    }
    sorted_names(&all)
}

fn snapshot(game: &Friday) -> String {
    format!(
        "{} {} {:?} {} {:?} {:?} {:?} {:?} {:?} {:?} {:?} {:?} {:?}",
        game.level,
        game.life_points,
        game.step,
        game.step_modif,
        game.destroyed,
        game.aging_deck,
        game.fighting_deck,
        game.fighting_discard,
        game.hazard_deck,
        game.hazard_discard,
        game.pirate_cards,
        game.pirate_cards_won,
        game.state
    )
}

#[test]
fn test_init() {
    let mut game = Friday::new(1);

    assert_eq!(game.aging_deck.len(), 10);
    assert_eq!(game.fighting_deck.len(), 18);
    assert_eq!(game.hazard_deck.len(), 28);
    assert_eq!(game.pirate_cards.len(), 2);

    game.next(Event::HazardChoice(Some(0))).unwrap();
    game.next(Event::Fight).unwrap();

    let game = Friday::new(2);

    assert_eq!(game.aging_deck.len(), 9);
    assert_eq!(game.fighting_deck.len(), 19);
    assert_eq!(game.hazard_deck.len(), 28);
    assert_eq!(game.pirate_cards.len(), 2);

    let game = Friday::new(3);

    assert_eq!(game.aging_deck.len(), 10);
    assert_eq!(game.fighting_deck.len(), 19);
    assert_eq!(game.hazard_deck.len(), 28);
    assert_eq!(game.pirate_cards.len(), 2);

    let game = Friday::new(4);

    assert_eq!(game.aging_deck.len(), 10);
    assert_eq!(game.fighting_deck.len(), 19);
    assert_eq!(game.hazard_deck.len(), 28);
    assert_eq!(game.pirate_cards.len(), 2);
}

#[test]
fn a_new_game_shows_two_hazards() {
    let game = Friday::with_rng(1, StdRng::seed_from_u64(1));
    assert_eq!(game.level, 1);
    assert_eq!(game.life_points, 20);
    assert_eq!(game.max_life_points(), 22);
    assert_eq!(game.step, Step::Green);
    assert_eq!(game.step_modif, 0);
    assert!(game.destroyed.is_empty());
    assert!(game.fighting_discard.is_empty());
    assert!(game.hazard_discard.is_empty());
    assert!(game.pirate_cards_won.is_empty());
    match &game.state {
        State::ChooseHazard(shown) => assert_eq!(shown.len(), 2),
        other => panic!("unexpected state {:?}", other),
    }
    assert!(game.pirate_cards.iter().all(|c| c.description.is_pirate()));
    assert!(game.hazard_deck.iter().all(|c| c.description.is_hazard_knowledge()));
    assert!(game.fighting_deck.iter().all(|c| c.description.is_starting()));
}

#[test]
fn the_fourth_level_starts_with_less_life() {
    let game = Friday::with_rng(4, StdRng::seed_from_u64(1));
    assert_eq!(game.life_points, 18);
    assert_eq!(game.max_life_points(), 20);
    let game = Friday::with_rng(3, StdRng::seed_from_u64(1));
    assert_eq!(game.life_points, 20);
    assert_eq!(game.max_life_points(), 22);
}

#[test]
fn the_piles_hold_the_cards_of_their_group() {
    let catalog = all_card_description();
    let game = Friday::with_rng(1, StdRng::seed_from_u64(5));
    assert_eq!(
        sorted_names(&game.fighting_deck),
        sorted_names(&deal(&catalog, Family::Starting))
    );
    let mut aging = deal(&catalog, Family::Difficult);
    aging.extend(deal(&catalog, Family::Normal { dullest: false }));
    assert_eq!(sorted_names(&game.aging_deck), sorted_names(&aging));
    let mut hazards = game.hazard_deck.clone();
    match &game.state {
        State::ChooseHazard(shown) => hazards.extend(shown.iter().cloned()),
        other => panic!("unexpected state {:?}", other),
    }
    assert_eq!(sorted_names(&hazards), sorted_names(&deal(&catalog, Family::Hazards)));
}

#[test]
fn the_hard_aging_cards_lie_under_the_normal_ones() {
    for level in 1..=4 {
        let game = Friday::with_rng(level, StdRng::seed_from_u64(9));
        assert!(game.aging_deck[0].description.is_aging_difficult());
        assert!(game.aging_deck[1].description.is_aging_difficult());
        assert!(game.aging_deck[2..].iter().all(|c| c.description.is_aging_normal()));
    }
}

#[test]
fn the_dullest_card_plays_from_the_third_level_on() {
    for level in 1..=4 {
        let game = Friday::with_rng(level, StdRng::seed_from_u64(3));
        let dull = game
            .aging_deck
            .iter()
            .chain(game.fighting_deck.iter())
            .filter(|c| c.description.is_very_stupid())
            .count();
        assert_eq!(dull, if level <= 2 { 0 } else { 1 });
    }
}

#[test]
fn from_the_second_level_on_one_aging_card_is_in_the_deck() {
    let game = Friday::with_rng(2, StdRng::seed_from_u64(4));
    let aging = game
        .fighting_deck
        .iter()
        .filter(|c| c.description.is_aging_normal())
        .count();
    assert_eq!(aging, 1);
    assert_eq!(
        game.fighting_deck.iter().filter(|c| c.description.is_starting()).count(),
        18
    );
}

#[test]
fn a_seed_gives_the_same_game_again() {
    let one = Friday::with_rng(2, StdRng::seed_from_u64(42));
    let two = Friday::with_rng(2, StdRng::seed_from_u64(42));
    assert_eq!(snapshot(&one), snapshot(&two));
}

#[test]
fn the_shuffle_reorders_the_piles() {
    let catalog = all_card_description();
    let game = Friday::with_rng(1, StdRng::seed_from_u64(42));
    let dealt = deal(&catalog, Family::Starting);
    assert_ne!(names(&game.fighting_deck), names(&dealt));
    assert_eq!(sorted_names(&game.fighting_deck), sorted_names(&dealt));
}

#[test]
fn choosing_a_hazard_starts_the_fight_and_discards_the_other() {
    let mut game = Friday::with_rng(1, StdRng::seed_from_u64(2));
    let shown = match &game.state {
        State::ChooseHazard(shown) => shown.clone(),
        other => panic!("unexpected state {:?}", other),
    };
    assert_eq!(game.apply(Event::HazardChoice(Some(1))), Ok(()));
    match &game.state {
        State::Fighting(hazard, used, left, right, using) => {
            assert_eq!(hazard.description.filename, shown[1].description.filename);
            assert_eq!(*used, 0);
            assert!(left.is_empty());
            assert!(right.is_empty());
            assert!(matches!(using, Using::Nothing));
        }
        other => panic!("unexpected state {:?}", other),
    }
    assert_eq!(names(&game.hazard_discard), vec![shown[0].description.filename]);
    assert_eq!(game.hazard_deck.len(), 28);
}

#[test]
fn choosing_a_hazard_out_of_range_changes_nothing() {
    let mut game = Friday::with_rng(1, StdRng::seed_from_u64(2));
    let before = snapshot(&game);
    assert_eq!(game.apply(Event::HazardChoice(Some(2))), Err(Rejection::InvalidChoice));
    assert_eq!(snapshot(&game), before);
    assert_eq!(
        game.next(Event::HazardChoice(Some(7))),
        Err("Invalid choice".to_string())
    );
    assert_eq!(snapshot(&game), before);
}

#[test]
fn one_of_two_hazards_must_be_chosen() {
    let mut game = Friday::with_rng(1, StdRng::seed_from_u64(2));
    let before = snapshot(&game);
    assert_eq!(game.apply(Event::HazardChoice(None)), Err(Rejection::MustChoose));
    assert_eq!(snapshot(&game), before);
}

#[test]
fn the_only_hazard_shown_can_be_passed_on() {
    let mut game = bare(1);
    game.hazard_deck = cards(&[WEAPON, CANNIBAL, READER]);
    game.state = State::ChooseHazard(cards(&[TRICK]));
    assert_eq!(game.apply(Event::HazardChoice(None)), Ok(()));
    assert_eq!(names(&game.hazard_discard), vec![TRICK]);
    assert_eq!(names(&game.hazard_deck), vec![WEAPON]);
    match &game.state {
        State::ChooseHazard(shown) => assert_eq!(names(shown), vec![CANNIBAL, READER]),
        other => panic!("unexpected state {:?}", other),
    }
}

#[test]
fn an_empty_hazard_deck_takes_the_game_to_the_next_tier() {
    let mut game = bare(1);
    game.hazard_discard = cards(&[WEAPON, CANNIBAL, READER]);
    assert_eq!(game.apply(Event::Start), Ok(()));
    assert_eq!(game.step, Step::Yellow);
    assert!(game.hazard_discard.is_empty());
    assert_eq!(game.hazard_deck.len(), 1);
    match &game.state {
        State::ChooseHazard(shown) => assert_eq!(shown.len(), 2),
        other => panic!("unexpected state {:?}", other),
    }
    assert_eq!(population(&game), {
        let mut all = vec![WEAPON, CANNIBAL, READER];
        all.sort();
        all
    });
}

#[test]
fn the_last_hazard_is_shown_alone() {
    let mut game = bare(1);
    game.hazard_deck = cards(&[WEAPON]);
    assert_eq!(game.apply(Event::Start), Ok(()));
    assert_eq!(game.step, Step::Green);
    match &game.state {
        State::ChooseHazard(shown) => assert_eq!(names(shown), vec![WEAPON]),
        other => panic!("unexpected state {:?}", other),
    }
    assert!(game.hazard_deck.is_empty());
}

#[test]
fn after_the_red_tier_the_pirates_come() {
    let mut game = bare(1);
    game.step = Step::Red;
    game.hazard_discard = cards(&[WEAPON, CANNIBAL]);
    game.pirate_cards = cards(&[PIRATE_40, PIRATE_ADD]);
    assert_eq!(game.apply(Event::Start), Ok(()));
    assert_eq!(game.step, Step::Pirate);
    assert!(matches!(game.state, State::ChoosePirate));
    assert_eq!(sorted_names(&game.hazard_deck), vec![CANNIBAL, WEAPON]);
    assert!(game.hazard_discard.is_empty());
    assert_eq!(game.pirate_cards.len(), 2);
}

#[test]
fn with_no_hazard_left_the_tiers_pass_one_by_one() {
    let mut game = bare(1);
    game.pirate_cards = cards(&[PIRATE_40, PIRATE_ADD, PIRATE_HALF, PIRATE_TWICE]);
    assert_eq!(game.apply(Event::Start), Ok(()));
    assert_eq!(game.step, Step::Yellow);
    assert!(matches!(game.state, State::ChoosePirate));
    assert!(game.is_sound());
    game.state = State::Idle;
    assert_eq!(game.apply(Event::Start), Ok(()));
    assert_eq!(game.step, Step::Red);
    assert!(matches!(game.state, State::ChoosePirate));
    game.state = State::Idle;
    assert_eq!(game.apply(Event::Start), Ok(()));
    assert_eq!(game.step, Step::Pirate);
    assert!(matches!(game.state, State::ChoosePirate));
    game.state = State::Idle;
    assert_eq!(game.apply(Event::Start), Ok(()));
    assert_eq!(game.step, Step::Pirate);
    assert!(matches!(game.state, State::ChoosePirate));
    assert_eq!(game.pirate_cards.len(), 4);
    assert!(game.hazard_deck.is_empty());
}

#[test]
fn the_hazards_discarded_come_back_at_the_next_tier() {
    let mut game = bare(1);
    game.step = Step::Yellow;
    game.hazard_discard = cards(&[WEAPON]);
    assert_eq!(game.apply(Event::Start), Ok(()));
    assert_eq!(game.step, Step::Red);
    match &game.state {
        State::ChooseHazard(shown) => assert_eq!(names(shown), vec![WEAPON]),
        other => panic!("unexpected state {:?}", other),
    }
    assert!(game.hazard_deck.is_empty());
    assert!(game.hazard_discard.is_empty());
}

#[test]
fn the_last_pirate_is_fought_at_once() {
    let mut game = bare(1);
    game.step = Step::Pirate;
    game.pirate_cards = cards(&[PIRATE_ADD]);
    assert_eq!(game.apply(Event::Start), Ok(()));
    match &game.state {
        State::Fighting(hazard, used, left, right, _) => {
            assert_eq!(hazard.description.filename, PIRATE_ADD);
            assert_eq!(*used, 0);
            assert!(left.is_empty() && right.is_empty());
        }
        other => panic!("unexpected state {:?}", other),
    }
    assert!(game.pirate_cards.is_empty());
}

#[test]
fn with_no_pirate_left_the_game_is_won() {
    let mut game = bare(1);
    game.step = Step::Pirate;
    assert_eq!(game.apply(Event::Start), Ok(()));
    assert!(matches!(game.state, State::Ended(true)));
}

#[test]
fn choosing_a_pirate_leaves_the_other() {
    let mut game = bare(1);
    game.step = Step::Pirate;
    game.pirate_cards = cards(&[PIRATE_40, PIRATE_ADD]);
    game.state = State::ChoosePirate;
    let before = snapshot(&game);
    assert_eq!(game.apply(Event::Choice(2)), Err(Rejection::InvalidPirate));
    assert_eq!(snapshot(&game), before);
    assert_eq!(game.apply(Event::Choice(0)), Ok(()));
    assert_eq!(names(&game.pirate_cards), vec![PIRATE_ADD]);
    match &game.state {
        State::Fighting(hazard, _, _, _, _) => {
            assert_eq!(hazard.description.filename, PIRATE_40)
        }
        other => panic!("unexpected state {:?}", other),
    }
}

#[test]
fn events_out_of_place_are_turned_down() {
    let mut game = Friday::with_rng(1, StdRng::seed_from_u64(2));
    let before = snapshot(&game);
    assert_eq!(game.apply(Event::Start), Err(Rejection::WrongState));
    assert_eq!(game.apply(Event::Fight), Err(Rejection::WrongState));
    assert_eq!(game.apply(Event::Use(0)), Err(Rejection::WrongState));
    assert_eq!(game.apply(Event::Win), Err(Rejection::WrongState));
    assert_eq!(game.apply(Event::Lose(vec![])), Err(Rejection::WrongState));
    assert_eq!(game.apply(Event::Continue), Err(Rejection::WrongState));
    assert_eq!(game.apply(Event::Break), Err(Rejection::WrongState));
    assert_eq!(game.apply(Event::Choice(0)), Err(Rejection::WrongState));
    assert_eq!(game.apply(Event::ChoiceUnder(0, false)), Err(Rejection::WrongState));
    assert_eq!(game.apply(Event::Sort(vec![0], false)), Err(Rejection::WrongState));
    assert_eq!(snapshot(&game), before);
    assert_eq!(
        game.next(Event::Fight),
        Err("Wrong state, event combination".to_string())
    );
}

#[test]
fn a_game_that_is_over_takes_no_event() {
    let mut game = bare(1);
    game.state = State::Ended(false);
    let before = snapshot(&game);
    assert_eq!(game.apply(Event::Start), Err(Rejection::WrongState));
    assert_eq!(game.apply(Event::Fight), Err(Rejection::WrongState));
    assert_eq!(game.apply(Event::Break), Err(Rejection::WrongState));
    assert_eq!(game.apply(Event::HazardChoice(None)), Err(Rejection::WrongState));
    assert_eq!(snapshot(&game), before);
}

#[test]
fn the_first_draws_are_free() {
    let mut game = fighting(WEAPON, 0, &[], &[]);
    game.fighting_deck = cards(&[WEAK, FOCUSED, GENIUS, DISTRACTED]);
    assert_eq!(game.apply(Event::Fight), Ok(()));
    assert_eq!(game.life_points, 20);
    assert_eq!(names(game.get_left().unwrap()), vec![DISTRACTED]);
    assert!(game.get_right().unwrap().is_empty());
    assert_eq!(used_free(&game), 1);
    assert_eq!(game.apply(Event::Fight), Ok(()));
    assert_eq!(names(game.get_left().unwrap()), vec![DISTRACTED, GENIUS]);
    assert_eq!(used_free(&game), 2);
    assert_eq!(game.life_points, 20);
    assert_eq!(game.apply(Event::Fight), Ok(()));
    assert_eq!(names(game.get_left().unwrap()), vec![DISTRACTED, GENIUS]);
    assert_eq!(names(game.get_right().unwrap()), vec![FOCUSED]);
    assert_eq!(used_free(&game), 2);
    assert_eq!(game.life_points, 19);
    assert_eq!(names(&game.fighting_deck), vec![WEAK]);
}

#[test]
fn a_stop_card_ends_the_free_draws() {
    let mut game = fighting(CANNIBAL, 1, &[VERY_TIRED], &[]);
    game.fighting_deck = cards(&[WEAK, FOCUSED]);
    assert_eq!(game.apply(Event::Fight), Ok(()));
    assert_eq!(game.life_points, 19);
    assert_eq!(names(game.get_right().unwrap()), vec![FOCUSED]);
    assert_eq!(used_free(&game), 1);
}

#[test]
fn a_stop_card_to_be_destroyed_stops_nothing() {
    let mut game = fighting(CANNIBAL, 1, &[VERY_TIRED], &[]);
    game.fighting_deck = cards(&[WEAK, FOCUSED]);
    let mut tired = card(VERY_TIRED);
    tired.destroy = true;
    game.state = State::Fighting(card(CANNIBAL), 1, vec![tired], vec![], Using::Nothing);
    assert_eq!(game.apply(Event::Fight), Ok(()));
    assert_eq!(game.life_points, 20);
    assert_eq!(names(game.get_left().unwrap()), vec![VERY_TIRED, FOCUSED]);
    assert_eq!(used_free(&game), 2);
}

#[test]
fn a_paid_draw_costs_two_against_the_pirate_who_doubles() {
    let mut game = fighting(PIRATE_TWICE, 7, &[], &[]);
    game.fighting_deck = cards(&[WEAK, FOCUSED]);
    assert_eq!(game.apply(Event::Fight), Ok(()));
    assert_eq!(game.life_points, 18);
    assert_eq!(names(game.get_right().unwrap()), vec![FOCUSED]);
}

#[test]
fn a_draw_that_costs_more_life_than_is_left_ends_the_game() {
    let mut game = fighting(WEAPON, 2, &[GENIUS], &[WEAK]);
    game.life_points = 0;
    game.fighting_deck = cards(&[FOCUSED]);
    assert_eq!(game.apply(Event::Fight), Err(Rejection::Died));
    assert!(matches!(game.state, State::Ended(false)));
    assert_eq!(game.life_points, 0);
    assert_eq!(names(&game.fighting_discard), vec![GENIUS, WEAK]);
    assert_eq!(names(&game.hazard_discard), vec![WEAPON]);
    assert_eq!(names(&game.fighting_deck), vec![FOCUSED]);
    let mut game = fighting(PIRATE_TWICE, 7, &[], &[]);
    game.life_points = 1;
    game.fighting_deck = cards(&[FOCUSED]);
    assert_eq!(game.next(Event::Fight), Err("You died!".to_string()));
    assert!(matches!(game.state, State::Ended(false)));
    assert_eq!(game.life_points, 0);
    assert_eq!(names(&game.pirate_cards), vec![PIRATE_TWICE]);
}

#[test]
fn with_no_card_left_to_draw_the_game_is_lost() {
    let mut game = fighting(WEAPON, 0, &[], &[]);
    assert_eq!(game.apply(Event::Fight), Err(Rejection::DeckEmpty));
    assert!(matches!(game.state, State::Ended(false)));
    assert_eq!(game.life_points, 20);
    assert_eq!(names(&game.hazard_discard), vec![WEAPON]);
    let mut game = fighting(WEAPON, 2, &[], &[]);
    assert_eq!(game.next(Event::Fight), Err("Fighting deck is empty".to_string()));
    assert_eq!(game.life_points, 19);
}

#[test]
fn an_empty_deck_is_refilled_once_and_the_marks_come_off() {
    let mut game = fighting(CANNIBAL, 0, &[], &[]);
    game.fighting_deck = cards(&[WEAK]);
    let mut tapped = card(GENIUS);
    tapped.tapped = true;
    let mut doubled = card(FOCUSED);
    doubled.double = true;
    game.fighting_discard = vec![tapped, doubled];
    game.aging_deck = cards(&[IDIOT, STUPID]);
    assert_eq!(game.apply(Event::Fight), Ok(()));
    assert_eq!(names(&game.fighting_discard), vec![GENIUS, FOCUSED]);
    assert_eq!(names(&game.aging_deck), vec![IDIOT, STUPID]);
    assert!(game.fighting_deck.is_empty());
    assert_eq!(game.apply(Event::Fight), Ok(()));
    assert!(game.fighting_discard.is_empty());
    assert_eq!(names(&game.aging_deck), vec![IDIOT]);
    assert_eq!(game.fighting_deck.len(), 2);
    let mut pool = game.fighting_deck.clone();
    pool.push(*game.get_left().unwrap().last().unwrap());
    assert_eq!(sorted_names(&pool), vec![FOCUSED, GENIUS, STUPID]);
    assert!(pool.iter().all(|c| !c.tapped && !c.destroy && !c.double));
    assert_eq!(game.apply(Event::Fight), Ok(()));
    assert_eq!(game.apply(Event::Fight), Ok(()));
    assert_eq!(names(&game.aging_deck), vec![IDIOT]);
    assert!(game.fighting_deck.is_empty());
    assert_eq!(game.apply(Event::Fight), Ok(()));
    assert!(game.aging_deck.is_empty());
    assert!(game.fighting_deck.is_empty());
    assert_eq!(game.get_left().unwrap().last().unwrap().description.filename, IDIOT);
    assert_eq!(population(&game), {
        let mut all = vec![CANNIBAL, WEAK, GENIUS, FOCUSED, IDIOT, STUPID];
        all.sort();
        all
    });
}

#[test]
fn aging_recycles_the_discard_pile() {
    let mut game = bare(1);
    let mut tapped = card(GENIUS);
    tapped.tapped = true;
    tapped.destroy = true;
    game.fighting_deck = cards(&[WEAK]);
    game.fighting_discard = vec![tapped];
    game.aging_deck = cards(&[IDIOT, STUPID]);
    game.aging();
    assert!(game.fighting_discard.is_empty());
    assert_eq!(names(&game.aging_deck), vec![IDIOT]);
    assert_eq!(sorted_names(&game.fighting_deck), vec![GENIUS, WEAK, STUPID]);
    assert!(game.fighting_deck.iter().all(|c| !c.tapped && !c.destroy && !c.double));
}

#[test]
fn winning_needs_a_draw() {
    let mut game = fighting(READER, 0, &[], &[]);
    let before = snapshot(&game);
    assert_eq!(game.apply(Event::Win), Err(Rejection::MustDraw));
    assert_eq!(snapshot(&game), before);
    assert_eq!(
        game.next(Event::Win),
        Err("You must draw at least one card".to_string())
    );
    assert!(matches!(game.state, State::Fighting(..)));
}

#[test]
fn winning_needs_enough_points() {
    let mut game = fighting(CANNIBAL, 2, &[GENIUS, FOCUSED], &[]);
    assert_eq!(game.fight_diff(), Some(-2));
    let before = snapshot(&game);
    assert_eq!(game.apply(Event::Win), Err(Rejection::CannotWin));
    assert_eq!(snapshot(&game), before);
    assert_eq!(game.next(Event::Win), Err("It's not possible to win!".to_string()));
}

#[test]
fn a_hazard_beaten_becomes_knowledge() {
    let mut game = fighting(READER, 1, &[GENIUS], &[WEAK]);
    game.hazard_deck = cards(&[WEAPON, CANNIBAL, TRICK]);
    game.step_modif = 1;
    let mut weak = card(WEAK);
    weak.destroy = true;
    let mut genius = card(GENIUS);
    genius.tapped = true;
    game.state = State::Fighting(card(READER), 1, vec![genius], vec![weak], Using::Nothing);
    assert_eq!(game.apply(Event::Win), Ok(()));
    assert_eq!(names(&game.fighting_discard), vec![READER, GENIUS]);
    assert_eq!(names(&game.destroyed), vec![WEAK]);
    assert_eq!(game.step_modif, 0);
    assert_eq!(game.life_points, 20);
    match &game.state {
        State::ChooseHazard(shown) => assert_eq!(names(shown), vec![CANNIBAL, TRICK]),
        other => panic!("unexpected state {:?}", other),
    }
    assert_eq!(names(&game.hazard_deck), vec![WEAPON]);
}

#[test]
fn a_pirate_beaten_joins_the_pirates_won() {
    let mut game = fighting(PIRATE_40, 1, &[GENIUS], &[]);
    game.step = Step::Pirate;
    let mut strong = card(GENIUS);
    strong.description = CardDescription::new_starting("giant", 50, 1, "giant.jpg");
    game.state = State::Fighting(card(PIRATE_40), 1, vec![strong], vec![], Using::Nothing);
    assert_eq!(game.fight_diff(), Some(10));
    assert_eq!(game.apply(Event::Win), Ok(()));
    assert_eq!(names(&game.pirate_cards_won), vec![PIRATE_40]);
    assert_eq!(names(&game.fighting_discard), vec!["giant.jpg"]);
    assert!(matches!(game.state, State::Ended(true)));
}

#[test]
fn hunger_takes_its_toll_when_the_fight_ends() {
    let mut game = fighting(READER, 1, &[HUNGRY, GENIUS], &[VERY_HUNGRY]);
    game.hazard_deck = cards(&[WEAPON]);
    game.life_points = 5;
    assert_eq!(game.apply(Event::Win), Ok(()));
    assert_eq!(game.life_points, 2);
    assert_eq!(names(&game.fighting_discard), vec![READER, HUNGRY, GENIUS, VERY_HUNGRY]);
}

#[test]
fn hunger_can_end_the_game_after_a_fight_won() {
    let mut game = fighting(READER, 1, &[HUNGRY, GENIUS], &[VERY_HUNGRY]);
    game.hazard_deck = cards(&[WEAPON]);
    game.life_points = 2;
    assert_eq!(game.apply(Event::Win), Err(Rejection::Died));
    assert_eq!(game.life_points, 0);
    assert!(matches!(game.state, State::Ended(false)));
    assert_eq!(names(&game.fighting_discard), vec![READER, HUNGRY, GENIUS, VERY_HUNGRY]);
    assert_eq!(names(&game.hazard_deck), vec![WEAPON]);
}

#[test]
fn a_hungry_card_destroyed_takes_no_toll() {
    let mut game = fighting(READER, 1, &[GENIUS], &[]);
    game.hazard_deck = cards(&[WEAPON]);
    let mut hungry = card(VERY_HUNGRY);
    hungry.destroy = true;
    game.state = State::Fighting(card(READER), 1, vec![card(GENIUS), hungry], vec![], Using::Nothing);
    game.life_points = 1;
    assert_eq!(game.apply(Event::Win), Ok(()));
    assert_eq!(game.life_points, 1);
    assert_eq!(names(&game.destroyed), vec![VERY_HUNGRY]);
}

#[test]
fn a_fight_cannot_be_given_up_against_a_pirate() {
    let mut game = fighting(PIRATE_40, 1, &[GENIUS], &[]);
    let before = snapshot(&game);
    assert_eq!(game.apply(Event::Lose(vec![])), Err(Rejection::LoseToPirate));
    assert_eq!(snapshot(&game), before);
    assert_eq!(
        game.next(Event::Lose(vec![])),
        Err("Arrr, you can't decide to lose against a pirate!".to_string())
    );
}

#[test]
fn giving_up_needs_a_draw() {
    let mut game = fighting(CANNIBAL, 0, &[], &[GENIUS]);
    let before = snapshot(&game);
    assert_eq!(game.apply(Event::Lose(vec![])), Err(Rejection::MustPlay));
    assert_eq!(snapshot(&game), before);
    assert_eq!(
        game.next(Event::Lose(vec![])),
        Err("You must first play a card".to_string())
    );
}

#[test]
fn the_cards_to_destroy_must_be_in_play() {
    let mut game = fighting(CANNIBAL, 1, &[GENIUS], &[WEAK]);
    let before = snapshot(&game);
    assert_eq!(game.apply(Event::Lose(vec![0, 2])), Err(Rejection::InvalidDiscard));
    assert_eq!(snapshot(&game), before);
    assert_eq!(game.next(Event::Lose(vec![5])), Err("Invalid discard #".to_string()));
}

#[test]
fn destroying_cannot_cost_more_than_the_fight_was_lost_by() {
    let mut game = fighting(CANNIBAL, 2, &[GENIUS, STUPID], &[WEAK]);
    assert_eq!(game.fight_diff(), Some(-5));
    let mut game = fighting(CANNIBAL, 2, &[GENIUS, FOCUSED], &[STUPID, WEAK]);
    assert_eq!(game.fight_diff(), Some(-4));
    let before = snapshot(&game);
    assert_eq!(
        game.apply(Event::Lose(vec![0, 1, 2, 3])),
        Err(Rejection::NotEnoughDiff { diff: -4, cost: 5 })
    );
    assert_eq!(snapshot(&game), before);
    assert_eq!(game.life_points, 20);
    assert_eq!(
        game.next(Event::Lose(vec![3, 2, 1, 0, 0, 3])),
        Err("Not enough diff:-4 for this much discard:5".to_string())
    );
    assert_eq!(snapshot(&game), before);
}

#[test]
fn giving_up_costs_life_and_destroys_the_cards_picked() {
    let mut game = fighting(CANNIBAL, 2, &[GENIUS, FOCUSED], &[STUPID, WEAK]);
    game.hazard_deck = cards(&[WEAPON, READER, TRICK]);
    game.step_modif = 1;
    assert_eq!(game.apply(Event::Lose(vec![2, 0, 2])), Ok(()));
    assert_eq!(game.life_points, 16);
    assert_eq!(names(&game.destroyed), vec![GENIUS, STUPID]);
    assert_eq!(names(&game.fighting_discard), vec![FOCUSED, WEAK]);
    assert_eq!(names(&game.hazard_discard), vec![CANNIBAL]);
    assert_eq!(game.step_modif, 0);
    match &game.state {
        State::ChooseHazard(shown) => assert_eq!(names(shown), vec![READER, TRICK]),
        other => panic!("unexpected state {:?}", other),
    }
}

#[test]
fn giving_up_with_too_little_life_ends_the_game() {
    let mut game = fighting(CANNIBAL, 2, &[GENIUS, FOCUSED], &[STUPID, WEAK]);
    game.life_points = 3;
    assert_eq!(game.apply(Event::Lose(vec![])), Err(Rejection::Died));
    assert_eq!(game.life_points, 0);
    assert!(matches!(game.state, State::Ended(false)));
    assert_eq!(names(&game.fighting_discard), vec![GENIUS, FOCUSED, STUPID, WEAK]);
    assert_eq!(names(&game.hazard_discard), vec![CANNIBAL]);
    assert!(game.destroyed.is_empty());
}

#[test]
fn a_fight_ahead_cannot_be_given_up() {
    let mut game = fighting(READER, 1, &[GENIUS], &[]);
    game.hazard_deck = cards(&[WEAPON]);
    game.life_points = 21;
    assert_eq!(game.fight_diff(), Some(2));
    let before = snapshot(&game);
    assert_eq!(game.apply(Event::Lose(vec![0])), Err(Rejection::NotLost));
    assert_eq!(game.apply(Event::Lose(vec![])), Err(Rejection::NotLost));
    assert_eq!(game.next(Event::Lose(vec![])), Err("The fight is not lost".to_string()));
    assert_eq!(snapshot(&game), before);
    assert_eq!(game.life_points, 21);
}

#[test]
fn a_fight_drawn_can_be_given_up_at_no_cost() {
    let mut game = fighting(READER, 1, &[WEAK], &[]);
    game.hazard_deck = cards(&[WEAPON]);
    assert_eq!(game.fight_diff(), Some(0));
    let before = snapshot(&game);
    assert_eq!(
        game.apply(Event::Lose(vec![0])),
        Err(Rejection::NotEnoughDiff { diff: 0, cost: 1 })
    );
    assert_eq!(snapshot(&game), before);
    assert_eq!(game.apply(Event::Lose(vec![])), Ok(()));
    assert_eq!(game.life_points, 20);
    assert_eq!(names(&game.hazard_discard), vec![READER]);
    assert_eq!(names(&game.fighting_discard), vec![WEAK]);
    assert!(game.destroyed.is_empty());
}

#[test]
fn using_a_card_taps_it() {
    let mut game = fighting(CANNIBAL, 1, &[EATING], &[GENIUS]);
    game.life_points = 10;
    assert_eq!(game.apply(Event::Use(0)), Ok(()));
    assert_eq!(game.life_points, 12);
    assert!(game.get_left().unwrap()[0].tapped);
    assert!(!game.get_right().unwrap()[0].tapped);
    let before = snapshot(&game);
    assert_eq!(game.apply(Event::Use(0)), Err(Rejection::AlreadyUsed));
    assert_eq!(snapshot(&game), before);
    assert_eq!(game.next(Event::Use(0)), Err("Card already used".to_string()));
    assert_eq!(game.apply(Event::Use(2)), Err(Rejection::InvalidCard));
    assert_eq!(game.next(Event::Use(9)), Err("Invalid card".to_string()));
    assert_eq!(snapshot(&game), before);
}

#[test]
fn healing_stops_at_the_most_life() {
    let mut game = fighting(CANNIBAL, 1, &[EATING], &[]);
    game.life_points = 21;
    assert_eq!(game.apply(Event::Use(0)), Ok(()));
    assert_eq!(game.life_points, 22);
    let mut game = fighting(CANNIBAL, 1, &[EATING], &[]);
    game.level = 4;
    game.life_points = 19;
    assert_eq!(game.apply(Event::Use(0)), Ok(()));
    assert_eq!(game.life_points, 20);
}

#[test]
fn a_card_to_be_destroyed_cannot_be_used() {
    let mut game = fighting(CANNIBAL, 1, &[], &[]);
    let mut eating = card(EATING);
    eating.destroy = true;
    game.state = State::Fighting(card(CANNIBAL), 1, vec![eating], vec![], Using::Nothing);
    let before = snapshot(&game);
    assert_eq!(game.apply(Event::Use(0)), Err(Rejection::ToBeDestroyed));
    assert_eq!(snapshot(&game), before);
    assert_eq!(game.next(Event::Use(0)), Err("Card is to be destroyed".to_string()));
}

#[test]
fn no_card_is_used_while_an_ability_waits() {
    let mut game = fighting(CANNIBAL, 1, &[EATING, KNOWLEDGE], &[]);
    assert_eq!(game.apply(Event::Use(1)), Ok(()));
    assert!(matches!(using_of(&game), Using::Destroy(1)));
    let before = snapshot(&game);
    assert_eq!(game.apply(Event::Use(0)), Err(Rejection::WrongState));
    assert_eq!(snapshot(&game), before);
}

#[test]
fn a_card_without_ability_is_tapped_for_nothing() {
    let mut game = fighting(CANNIBAL, 1, &[GENIUS, AFRAID, HUNGRY, VERY_TIRED], &[]);
    for c in 0..4 {
        assert_eq!(game.apply(Event::Use(c)), Ok(()));
        assert!(matches!(using_of(&game), Using::Nothing));
        assert!(game.get_left().unwrap()[c].tapped);
    }
    assert_eq!(game.life_points, 20);
}

#[test]
fn extra_cards_are_drawn_one_by_one() {
    let mut game = fighting(CANNIBAL, 1, &[EQUIPMENT], &[]);
    game.fighting_deck = cards(&[WEAK, FOCUSED, GENIUS]);
    assert_eq!(game.apply(Event::Use(0)), Ok(()));
    assert!(game.get_left().unwrap()[0].tapped);
    assert!(game.get_right().unwrap().is_empty());
    assert_eq!(names(&game.fighting_deck), vec![WEAK, FOCUSED, GENIUS]);
    assert!(matches!(using_of(&game), Using::Draw(2)));
    assert_eq!(game.apply(Event::Continue), Ok(()));
    assert_eq!(names(game.get_right().unwrap()), vec![GENIUS]);
    assert!(matches!(using_of(&game), Using::Draw(1)));
    assert_eq!(game.apply(Event::Continue), Ok(()));
    assert_eq!(names(game.get_right().unwrap()), vec![GENIUS, FOCUSED]);
    assert!(matches!(using_of(&game), Using::Nothing));
    assert_eq!(names(&game.fighting_deck), vec![WEAK]);
    assert_eq!(game.life_points, 20);
    assert_eq!(used_free(&game), 1);
    let before = snapshot(&game);
    assert_eq!(game.apply(Event::Continue), Err(Rejection::WrongState));
    assert_eq!(snapshot(&game), before);
}

#[test]
fn one_extra_card_is_drawn_on_going_on() {
    let mut game = fighting(CANNIBAL, 1, &[EXPERIENCE], &[]);
    game.fighting_deck = cards(&[WEAK]);
    assert_eq!(game.apply(Event::Use(0)), Ok(()));
    assert!(game.get_right().unwrap().is_empty());
    assert_eq!(names(&game.fighting_deck), vec![WEAK]);
    assert!(matches!(using_of(&game), Using::Draw(1)));
    assert_eq!(game.apply(Event::Continue), Ok(()));
    assert_eq!(names(game.get_right().unwrap()), vec![WEAK]);
    assert!(game.fighting_deck.is_empty());
    assert!(matches!(using_of(&game), Using::Nothing));
}

#[test]
fn extra_cards_can_be_left_undrawn() {
    let mut game = fighting(CANNIBAL, 1, &[EQUIPMENT], &[]);
    game.fighting_deck = cards(&[WEAK, FOCUSED]);
    assert_eq!(game.apply(Event::Use(0)), Ok(()));
    assert_eq!(game.apply(Event::Continue), Ok(()));
    assert_eq!(game.apply(Event::Break), Ok(()));
    assert!(matches!(using_of(&game), Using::Nothing));
    assert_eq!(names(game.get_right().unwrap()), vec![FOCUSED]);
    assert_eq!(names(&game.fighting_deck), vec![WEAK]);
}

#[test]
fn copying_a_card_that_draws_sets_the_draws_to_come() {
    let mut game = fighting(CANNIBAL, 1, &[MIMICRY, EQUIPMENT], &[]);
    game.fighting_deck = cards(&[WEAK, FOCUSED]);
    set_using(&mut game, Using::Copy);
    assert_eq!(game.apply(Event::Choice(1)), Ok(()));
    assert!(matches!(using_of(&game), Using::Draw(2)));
    assert!(!game.get_left().unwrap()[1].tapped);
    assert!(game.get_right().unwrap().is_empty());
    assert_eq!(names(&game.fighting_deck), vec![WEAK, FOCUSED]);
}

#[test]
fn a_card_that_draws_can_be_used_on_an_empty_deck() {
    let mut game = fighting(CANNIBAL, 1, &[EQUIPMENT], &[]);
    assert_eq!(game.apply(Event::Use(0)), Ok(()));
    assert!(matches!(using_of(&game), Using::Draw(2)));
    assert!(matches!(game.state, State::Fighting(..)));
    assert_eq!(game.apply(Event::Continue), Err(Rejection::DeckEmpty));
    assert!(matches!(game.state, State::Ended(false)));
    assert_eq!(names(&game.fighting_discard), vec![EQUIPMENT]);
    assert!(game.fighting_discard[0].tapped);
    assert_eq!(names(&game.hazard_discard), vec![CANNIBAL]);
}

#[test]
fn an_ability_that_finds_no_card_to_take_ends_the_game() {
    let mut game = fighting(CANNIBAL, 1, &[VISION], &[]);
    assert_eq!(game.apply(Event::Use(0)), Err(Rejection::DeckEmpty));
    assert!(matches!(game.state, State::Ended(false)));
    assert_eq!(names(&game.fighting_discard), vec![VISION]);
    assert!(!game.fighting_discard[0].tapped);
    assert_eq!(names(&game.hazard_discard), vec![CANNIBAL]);
}

#[test]
fn destroying_marks_another_card() {
    let mut game = fighting(CANNIBAL, 1, &[KNOWLEDGE], &[GENIUS]);
    assert_eq!(game.apply(Event::Use(0)), Ok(()));
    assert!(matches!(using_of(&game), Using::Destroy(0)));
    let before = snapshot(&game);
    assert_eq!(game.apply(Event::Choice(0)), Err(Rejection::DestroyCurrent));
    assert_eq!(
        game.next(Event::Choice(0)),
        Err("You can't destroy the current card".to_string())
    );
    assert_eq!(game.apply(Event::Choice(2)), Err(Rejection::InvalidCard));
    assert_eq!(snapshot(&game), before);
    assert_eq!(game.apply(Event::Choice(1)), Ok(()));
    assert!(game.get_right().unwrap()[0].destroy);
    assert!(matches!(using_of(&game), Using::Nothing));
    assert_eq!(game.get_fight_value(), Some(0));
}

#[test]
fn a_card_is_not_marked_twice() {
    let mut game = fighting(CANNIBAL, 1, &[KNOWLEDGE], &[]);
    let mut genius = card(GENIUS);
    genius.destroy = true;
    game.state = State::Fighting(
        card(CANNIBAL),
        1,
        vec![card(KNOWLEDGE)],
        vec![genius],
        Using::Destroy(0),
    );
    let before = snapshot(&game);
    assert_eq!(game.apply(Event::Choice(1)), Err(Rejection::AlreadyDestroyed));
    assert_eq!(game.next(Event::Choice(1)), Err("Card already destroyed".to_string()));
    assert_eq!(snapshot(&game), before);
}

#[test]
fn doubling_counts_a_card_twice() {
    let mut game = fighting(CANNIBAL, 1, &[REPETITION], &[GENIUS]);
    assert_eq!(game.get_fight_value(), Some(3));
    assert_eq!(game.apply(Event::Use(0)), Ok(()));
    assert!(matches!(using_of(&game), Using::Double));
    assert_eq!(game.apply(Event::Choice(3)), Err(Rejection::InvalidCard));
    assert_eq!(game.apply(Event::Choice(1)), Ok(()));
    assert!(game.get_right().unwrap()[0].double);
    assert_eq!(game.get_fight_value(), Some(5));
    set_using(&mut game, Using::Double);
    let before = snapshot(&game);
    assert_eq!(game.apply(Event::Choice(1)), Err(Rejection::AlreadyDoubled));
    assert_eq!(game.next(Event::Choice(1)), Err("Card already doubled".to_string()));
    assert_eq!(snapshot(&game), before);
    assert_eq!(game.apply(Event::Choice(0)), Ok(()));
    assert_eq!(game.get_fight_value(), Some(6));
}

#[test]
fn a_card_to_be_destroyed_is_not_doubled() {
    let mut game = fighting(CANNIBAL, 1, &[], &[]);
    let mut genius = card(GENIUS);
    genius.destroy = true;
    game.state = State::Fighting(card(CANNIBAL), 1, vec![genius], vec![], Using::Double);
    let before = snapshot(&game);
    assert_eq!(game.apply(Event::Choice(0)), Err(Rejection::ToBeDestroyed));
    assert_eq!(snapshot(&game), before);
}

#[test]
fn copying_uses_the_ability_of_another_card() {
    let mut game = fighting(CANNIBAL, 1, &[MIMICRY, EATING, READER], &[KNOWLEDGE]);
    game.life_points = 10;
    assert_eq!(game.apply(Event::Use(0)), Ok(()));
    assert!(matches!(using_of(&game), Using::Copy));
    assert_eq!(game.apply(Event::Choice(4)), Err(Rejection::InvalidCard));
    assert_eq!(game.apply(Event::Choice(1)), Ok(()));
    assert_eq!(game.life_points, 12);
    assert!(!game.get_left().unwrap()[1].tapped);
    assert!(matches!(using_of(&game), Using::Nothing));
    set_using(&mut game, Using::Copy);
    assert_eq!(game.apply(Event::Choice(2)), Ok(()));
    assert_eq!(game.step_modif, 1);
    assert!(matches!(using_of(&game), Using::Nothing));
    set_using(&mut game, Using::Copy);
    assert_eq!(game.apply(Event::Choice(3)), Ok(()));
    assert!(matches!(using_of(&game), Using::Destroy(3)));
    set_using(&mut game, Using::Copy);
    assert_eq!(game.apply(Event::Choice(0)), Ok(()));
    assert!(matches!(using_of(&game), Using::Copy));
}

#[test]
fn copying_a_card_that_sorts_takes_a_card_off_the_deck() {
    let mut game = fighting(CANNIBAL, 1, &[MIMICRY, VISION], &[]);
    game.fighting_deck = cards(&[WEAK, GENIUS]);
    set_using(&mut game, Using::Copy);
    assert_eq!(game.apply(Event::Choice(1)), Ok(()));
    match using_of(&game) {
        Using::Sort(held) => assert_eq!(names(&held), vec![GENIUS]),
        other => panic!("unexpected ability {:?}", other),
    }
    assert_eq!(names(&game.fighting_deck), vec![WEAK]);
    assert!(!game.get_left().unwrap()[1].tapped);
}

#[test]
fn a_card_to_be_destroyed_is_not_copied() {
    let mut game = fighting(CANNIBAL, 1, &[], &[]);
    let mut eating = card(EATING);
    eating.destroy = true;
    game.state = State::Fighting(card(CANNIBAL), 1, vec![eating], vec![], Using::Copy);
    let before = snapshot(&game);
    assert_eq!(game.apply(Event::Choice(0)), Err(Rejection::ToBeDestroyed));
    assert_eq!(snapshot(&game), before);
}

#[test]
fn lowering_the_step_lowers_the_threshold() {
    let mut game = fighting(CANNIBAL, 1, &[READER], &[]);
    game.step = Step::Red;
    assert_eq!(game.fight_diff(), Some(-14));
    assert_eq!(game.apply(Event::Use(0)), Ok(()));
    assert_eq!(game.step_modif, 1);
    assert_eq!(game.step, Step::Red);
    assert_eq!(game.fought_step(), Step::Yellow);
    assert_eq!(game.fight_diff(), Some(-9));
    game.step_modif = 2;
    assert_eq!(game.fight_diff(), Some(-5));
    game.step_modif = 3;
    assert_eq!(game.fought_step(), Step::Green);
    assert_eq!(game.fight_diff(), Some(-5));
    game.step = Step::Yellow;
    game.step_modif = 1;
    assert_eq!(game.fight_diff(), Some(-5));
}

#[test]
fn exchanging_replaces_a_card_in_its_place() {
    let mut game = fighting(CANNIBAL, 2, &[STRATEGY, WEAK], &[DISTRACTED]);
    game.fighting_deck = cards(&[FOCUSED, GENIUS]);
    assert_eq!(game.apply(Event::Use(0)), Ok(()));
    assert!(matches!(using_of(&game), Using::Swap(0, 2)));
    let before = snapshot(&game);
    assert_eq!(game.apply(Event::Choice(0)), Err(Rejection::SwapCurrent));
    assert_eq!(
        game.next(Event::Choice(0)),
        Err("You can't swap the current card".to_string())
    );
    assert_eq!(game.apply(Event::Choice(3)), Err(Rejection::InvalidCard));
    assert_eq!(snapshot(&game), before);
    assert_eq!(game.apply(Event::Choice(1)), Ok(()));
    assert_eq!(names(game.get_left().unwrap()), vec![STRATEGY, GENIUS]);
    assert_eq!(names(&game.fighting_discard), vec![WEAK]);
    assert!(matches!(using_of(&game), Using::Swap(0, 1)));
    assert_eq!(game.apply(Event::Choice(2)), Ok(()));
    assert_eq!(names(game.get_right().unwrap()), vec![FOCUSED]);
    assert_eq!(names(&game.fighting_discard), vec![WEAK, DISTRACTED]);
    assert!(matches!(using_of(&game), Using::Nothing));
    assert_eq!(game.life_points, 20);
    assert_eq!(used_free(&game), 2);
}

#[test]
fn exchanging_with_an_empty_deck_recycles_the_card_given() {
    let mut game = fighting(CANNIBAL, 2, &[STRATEGY, WEAK], &[]);
    set_using(&mut game, Using::Swap(0, 1));
    assert_eq!(game.apply(Event::Choice(1)), Ok(()));
    assert_eq!(names(game.get_left().unwrap()), vec![STRATEGY, WEAK]);
    assert!(game.fighting_discard.is_empty());
    assert!(game.fighting_deck.is_empty());
}

#[test]
fn a_card_to_be_destroyed_is_not_exchanged() {
    let mut game = fighting(CANNIBAL, 1, &[], &[]);
    let mut weak = card(WEAK);
    weak.destroy = true;
    game.state = State::Fighting(
        card(CANNIBAL),
        1,
        vec![card(STRATEGY), weak],
        vec![],
        Using::Swap(0, 2),
    );
    game.fighting_deck = cards(&[GENIUS]);
    let before = snapshot(&game);
    assert_eq!(game.apply(Event::Choice(1)), Err(Rejection::ToBeDestroyed));
    assert_eq!(snapshot(&game), before);
}

#[test]
fn a_card_goes_under_the_deck_without_its_marks() {
    let mut game = fighting(CANNIBAL, 2, &[TRICK, WEAK], &[DISTRACTED]);
    game.fighting_deck = cards(&[FOCUSED, GENIUS]);
    let mut distracted = card(DISTRACTED);
    distracted.tapped = true;
    distracted.double = true;
    game.state = State::Fighting(
        card(CANNIBAL),
        2,
        cards(&[TRICK, WEAK]),
        vec![distracted],
        Using::Nothing,
    );
    assert_eq!(game.apply(Event::Use(0)), Ok(()));
    assert!(matches!(using_of(&game), Using::UnderDeck(0)));
    let before = snapshot(&game);
    assert_eq!(game.apply(Event::ChoiceUnder(0, false)), Err(Rejection::SwapCurrent));
    assert_eq!(game.apply(Event::ChoiceUnder(2, true)), Err(Rejection::ReplaceFromRight));
    assert_eq!(
        game.next(Event::ChoiceUnder(2, true)),
        Err("Can't replace a card from the right pile".to_string())
    );
    assert_eq!(game.apply(Event::ChoiceUnder(3, false)), Err(Rejection::InvalidCard));
    assert_eq!(game.apply(Event::Choice(1)), Err(Rejection::WrongState));
    assert_eq!(snapshot(&game), before);
    assert_eq!(game.apply(Event::ChoiceUnder(2, false)), Ok(()));
    assert!(game.get_right().unwrap().is_empty());
    assert_eq!(names(&game.fighting_deck), vec![DISTRACTED, FOCUSED, GENIUS]);
    assert!(!game.fighting_deck[0].tapped && !game.fighting_deck[0].double);
    assert!(matches!(using_of(&game), Using::Nothing));
}

#[test]
fn a_card_of_the_left_pile_can_be_replaced() {
    let mut game = fighting(CANNIBAL, 2, &[TRICK, WEAK, DISTRACTED], &[]);
    game.fighting_deck = cards(&[FOCUSED, GENIUS]);
    set_using(&mut game, Using::UnderDeck(0));
    assert_eq!(game.apply(Event::ChoiceUnder(1, true)), Ok(()));
    assert_eq!(names(game.get_left().unwrap()), vec![TRICK, GENIUS, DISTRACTED]);
    assert_eq!(names(&game.fighting_deck), vec![WEAK, FOCUSED]);
    assert_eq!(game.life_points, 20);
    assert_eq!(used_free(&game), 2);
}

#[test]
fn replacing_from_an_empty_deck_brings_the_card_back() {
    let mut game = fighting(CANNIBAL, 2, &[TRICK, WEAK], &[]);
    let mut weak = card(WEAK);
    weak.tapped = true;
    game.state = State::Fighting(
        card(CANNIBAL),
        2,
        vec![card(TRICK), weak],
        vec![],
        Using::UnderDeck(0),
    );
    assert_eq!(game.apply(Event::ChoiceUnder(1, true)), Ok(()));
    assert_eq!(names(game.get_left().unwrap()), vec![TRICK, WEAK]);
    assert!(!game.get_left().unwrap()[1].tapped);
    assert!(game.fighting_deck.is_empty());
}

#[test]
fn a_card_to_be_destroyed_stays_in_play() {
    let mut game = fighting(CANNIBAL, 1, &[], &[]);
    let mut weak = card(WEAK);
    weak.destroy = true;
    game.state = State::Fighting(
        card(CANNIBAL),
        1,
        vec![card(TRICK), weak],
        vec![],
        Using::UnderDeck(0),
    );
    let before = snapshot(&game);
    assert_eq!(game.apply(Event::ChoiceUnder(1, false)), Err(Rejection::AlreadyDestroyed));
    assert_eq!(snapshot(&game), before);
}

#[test]
fn up_to_three_cards_are_taken_to_be_sorted() {
    let mut game = fighting(CANNIBAL, 1, &[VISION], &[]);
    game.fighting_deck = cards(&[WEAK, FOCUSED, GENIUS, DISTRACTED]);
    assert_eq!(game.apply(Event::Use(0)), Ok(()));
    match using_of(&game) {
        Using::Sort(held) => assert_eq!(names(&held), vec![DISTRACTED]),
        other => panic!("unexpected ability {:?}", other),
    }
    assert_eq!(game.apply(Event::Continue), Ok(()));
    assert_eq!(game.apply(Event::Continue), Ok(()));
    match using_of(&game) {
        Using::Sort(held) => assert_eq!(names(&held), vec![DISTRACTED, GENIUS, FOCUSED]),
        other => panic!("unexpected ability {:?}", other),
    }
    let before = snapshot(&game);
    assert_eq!(game.apply(Event::Continue), Err(Rejection::AlreadyDrawnThree));
    assert_eq!(game.next(Event::Continue), Err("Already drawn 3 cards".to_string()));
    assert_eq!(snapshot(&game), before);
    assert_eq!(names(&game.fighting_deck), vec![WEAK]);
    assert_eq!(game.life_points, 20);
}

#[test]
fn the_cards_sorted_go_back_in_the_order_given() {
    let mut game = fighting(CANNIBAL, 1, &[VISION], &[]);
    game.fighting_deck = cards(&[WEAK]);
    set_using(&mut game, Using::Sort(cards(&[DISTRACTED, GENIUS, FOCUSED])));
    assert_eq!(game.apply(Event::Sort(vec![2, 0, 1], false)), Ok(()));
    assert_eq!(names(&game.fighting_deck), vec![WEAK, FOCUSED, DISTRACTED, GENIUS]);
    assert!(game.destroyed.is_empty());
    assert!(matches!(using_of(&game), Using::Nothing));
    game.fighting_deck = cards(&[WEAK]);
    set_using(&mut game, Using::Sort(cards(&[DISTRACTED, GENIUS, FOCUSED])));
    assert_eq!(game.apply(Event::Sort(vec![1, 2, 0], true)), Ok(()));
    assert_eq!(names(&game.destroyed), vec![GENIUS]);
    assert_eq!(names(&game.fighting_deck), vec![WEAK, FOCUSED, DISTRACTED]);
    set_using(&mut game, Using::Sort(cards(&[EATING])));
    assert_eq!(game.apply(Event::Sort(vec![0], true)), Ok(()));
    assert_eq!(names(&game.destroyed), vec![GENIUS, EATING]);
    assert_eq!(names(&game.fighting_deck), vec![WEAK, FOCUSED, DISTRACTED]);
}

#[test]
fn an_order_must_name_each_card_once() {
    let mut game = fighting(CANNIBAL, 1, &[VISION], &[]);
    game.fighting_deck = cards(&[WEAK]);
    set_using(&mut game, Using::Sort(cards(&[DISTRACTED, GENIUS])));
    let before = snapshot(&game);
    assert_eq!(game.apply(Event::Sort(vec![], false)), Err(Rejection::InvalidSort));
    assert_eq!(game.apply(Event::Sort(vec![0], false)), Err(Rejection::InvalidSort));
    assert_eq!(game.apply(Event::Sort(vec![0, 0], false)), Err(Rejection::InvalidSort));
    assert_eq!(game.apply(Event::Sort(vec![0, 2], false)), Err(Rejection::InvalidSort));
    assert_eq!(game.apply(Event::Sort(vec![0, 1, 0], true)), Err(Rejection::InvalidSort));
    assert_eq!(game.apply(Event::Sort(vec![1, 1, 0], false)), Err(Rejection::InvalidSort));
    assert_eq!(game.next(Event::Sort(vec![2, 1], true)), Err("Invalid sort".to_string()));
    assert_eq!(snapshot(&game), before);
    assert_eq!(game.apply(Event::Choice(0)), Err(Rejection::WrongState));
    assert_eq!(snapshot(&game), before);
}

#[test]
fn breaking_off_puts_the_cards_held_back_on_the_deck() {
    let mut game = fighting(CANNIBAL, 1, &[VISION], &[]);
    game.fighting_deck = cards(&[WEAK, FOCUSED, GENIUS, DISTRACTED]);
    let deck = names(&game.fighting_deck);
    assert_eq!(game.apply(Event::Use(0)), Ok(()));
    assert_eq!(game.apply(Event::Continue), Ok(()));
    assert_eq!(game.apply(Event::Break), Ok(()));
    assert!(matches!(using_of(&game), Using::Nothing));
    assert_eq!(names(&game.fighting_deck), deck);
}

#[test]
fn breaking_off_drops_the_ability_that_waits() {
    let mut game = fighting(CANNIBAL, 1, &[KNOWLEDGE, GENIUS], &[]);
    assert_eq!(game.apply(Event::Use(0)), Ok(()));
    assert_eq!(game.apply(Event::Break), Ok(()));
    assert!(matches!(using_of(&game), Using::Nothing));
    assert!(game.get_left().unwrap()[0].tapped);
    assert!(!game.get_left().unwrap()[1].destroy);
}

#[test]
fn breaking_off_with_nothing_waiting_changes_nothing() {
    let mut game = fighting(CANNIBAL, 1, &[KNOWLEDGE, GENIUS], &[WEAK]);
    game.fighting_deck = cards(&[FOCUSED]);
    let before = snapshot(&game);
    assert_eq!(game.apply(Event::Break), Ok(()));
    assert_eq!(snapshot(&game), before);
    assert_eq!(game.next(Event::Break), Ok(()));
    assert_eq!(snapshot(&game), before);
}

#[test]
fn a_draw_takes_the_top_of_the_deck_while_cards_are_held() {
    let mut game = fighting(CANNIBAL, 1, &[VISION], &[]);
    game.fighting_deck = cards(&[WEAK, FOCUSED, GENIUS]);
    assert_eq!(game.apply(Event::Use(0)), Ok(()));
    assert_eq!(game.apply(Event::Continue), Ok(()));
    match using_of(&game) {
        Using::Sort(held) => assert_eq!(names(&held), vec![GENIUS, FOCUSED]),
        other => panic!("unexpected ability {:?}", other),
    }
    assert_eq!(names(&game.fighting_deck), vec![WEAK]);
    assert_eq!(game.apply(Event::Fight), Ok(()));
    assert!(matches!(using_of(&game), Using::Nothing));
    assert_eq!(names(game.get_left().unwrap()), vec![VISION, WEAK]);
    assert_eq!(names(&game.fighting_deck), vec![FOCUSED, GENIUS]);
    assert_eq!(used_free(&game), 2);
    assert_eq!(game.life_points, 20);
    assert!(game.is_sound());
}

#[test]
fn a_paid_draw_takes_the_top_of_the_deck_while_cards_are_held() {
    let mut game = fighting(CANNIBAL, 5, &[VISION], &[]);
    game.fighting_deck = cards(&[WEAK, EATING]);
    set_using(&mut game, Using::Sort(cards(&[GENIUS, FOCUSED, DISTRACTED])));
    assert_eq!(game.apply(Event::Fight), Ok(()));
    assert_eq!(names(game.get_right().unwrap()), vec![EATING]);
    assert_eq!(names(&game.fighting_deck), vec![WEAK, DISTRACTED, FOCUSED, GENIUS]);
    assert_eq!(game.life_points, 19);
    assert_eq!(used_free(&game), 5);
    assert!(matches!(using_of(&game), Using::Nothing));
}

#[test]
fn a_draw_refills_an_empty_deck_while_cards_are_held() {
    let mut game = fighting(CANNIBAL, 1, &[VISION], &[]);
    game.fighting_discard = cards(&[WEAK]);
    set_using(&mut game, Using::Sort(cards(&[GENIUS, FOCUSED])));
    assert_eq!(game.apply(Event::Fight), Ok(()));
    assert_eq!(names(game.get_left().unwrap()), vec![VISION, WEAK]);
    assert_eq!(names(&game.fighting_deck), vec![FOCUSED, GENIUS]);
    assert!(game.fighting_discard.is_empty());
}

#[test]
fn a_draw_finds_no_card_though_cards_are_held() {
    let mut game = fighting(CANNIBAL, 1, &[VISION], &[]);
    set_using(&mut game, Using::Sort(cards(&[GENIUS, FOCUSED])));
    assert_eq!(game.apply(Event::Fight), Err(Rejection::DeckEmpty));
    assert!(matches!(game.state, State::Ended(false)));
    assert_eq!(names(&game.fighting_deck), vec![FOCUSED, GENIUS]);
    assert_eq!(names(&game.fighting_discard), vec![VISION]);
}

#[test]
fn the_fight_value_adds_up_the_cards_in_play() {
    let game = fighting(CANNIBAL, 1, &[GENIUS, FOCUSED], &[WEAK, DISTRACTED]);
    assert_eq!(game.get_fight_value(), Some(2));
    assert_eq!(game.fight_diff(), Some(-3));
    let game = fighting(CANNIBAL, 0, &[], &[]);
    assert_eq!(game.get_fight_value(), Some(0));
    assert_eq!(game.fight_diff(), Some(-5));
    let game = bare(1);
    assert_eq!(game.get_fight_value(), None);
    assert_eq!(game.fight_diff(), None);
    assert!(game.get_left().is_none());
    assert!(game.get_right().is_none());
}

#[test]
fn a_card_that_cancels_takes_the_highest_away() {
    let game = fighting(CANNIBAL, 1, &[AFRAID, GENIUS], &[FOCUSED]);
    assert_eq!(game.get_fight_value(), Some(1));
    let game = fighting(CANNIBAL, 1, &[AFRAID, GENIUS, AFRAID], &[FOCUSED, WEAPON]);
    assert_eq!(game.get_fight_value(), Some(1));
    let game = fighting(CANNIBAL, 1, &[AFRAID], &[DISTRACTED]);
    assert_eq!(game.get_fight_value(), Some(-1));
    let mut game = fighting(CANNIBAL, 1, &[], &[]);
    let mut afraid = card(AFRAID);
    afraid.destroy = true;
    game.state = State::Fighting(
        card(CANNIBAL),
        1,
        vec![afraid, card(GENIUS)],
        vec![card(FOCUSED)],
        Using::Nothing,
    );
    assert_eq!(game.get_fight_value(), Some(3));
}

#[test]
fn against_the_pirate_who_halves_the_higher_half_counts() {
    let game = fighting(PIRATE_HALF, 1, &[GENIUS, FOCUSED, WEAK], &[DISTRACTED, WEAPON]);
    assert_eq!(game.get_fight_value(), Some(5));
    assert_eq!(game.fight_diff(), Some(-17));
    let game = fighting(PIRATE_HALF, 1, &[GENIUS, FOCUSED], &[DISTRACTED, IDIOT]);
    assert_eq!(game.get_fight_value(), Some(3));
    let game = fighting(PIRATE_HALF, 1, &[AFRAID, AFRAID], &[GENIUS]);
    assert_eq!(game.get_fight_value(), Some(0));
    let game = fighting(PIRATE_HALF, 1, &[AFRAID, GENIUS], &[FOCUSED, WEAPON]);
    assert_eq!(game.get_fight_value(), Some(2));
}

#[test]
fn against_the_pirate_who_adds_each_card_counts_one_more() {
    let game = fighting(PIRATE_ADD, 1, &[GENIUS, FOCUSED], &[DISTRACTED]);
    assert_eq!(game.get_fight_value(), Some(5));
    assert_eq!(game.fight_diff(), Some(-47));
}

#[test]
fn the_thresholds_follow_the_tier() {
    let mut game = bare(1);
    let cannibal = entry(CANNIBAL).kind.to_hazard_card().hazard;
    assert_eq!(game.hazard_level(&cannibal, Step::Green), 5);
    assert_eq!(game.hazard_level(&cannibal, Step::Yellow), 9);
    assert_eq!(game.hazard_level(&cannibal, Step::Red), 14);
    let flat = entry(PIRATE_40).kind.to_hazard_card().hazard;
    assert_eq!(game.hazard_level(&flat, Step::Pirate), 40);
    let twice = entry(PIRATE_TWICE).kind.to_hazard_card().hazard;
    assert_eq!(game.hazard_level(&twice, Step::Pirate), 16);
    let half = entry(PIRATE_HALF).kind.to_hazard_card().hazard;
    assert_eq!(game.hazard_level(&half, Step::Pirate), 22);
    let add = entry(PIRATE_ADD).kind.to_hazard_card().hazard;
    assert_eq!(game.hazard_level(&add, Step::Pirate), 52);
    let aging = entry(PIRATE_AGING).kind.to_hazard_card().hazard;
    game.aging_deck = cards(&[IDIOT, STUPID, AFRAID]);
    assert_eq!(game.hazard_level(&aging, Step::Pirate), 14);
    game.level = 3;
    assert_eq!(game.hazard_level(&aging, Step::Pirate), 16);
    game.aging_deck = vec![];
    assert_eq!(game.hazard_level(&aging, Step::Pirate), 22);
}

#[test]
fn the_pirate_of_all_hazards_is_worth_what_is_left() {
    let catalog = all_card_description();
    let mut game = bare(1);
    let all = entry(PIRATE_HAZARD).kind.to_hazard_card().clone();
    assert_eq!(game.hazard_level(&all.hazard, Step::Pirate), 0);
    assert_eq!(game.free_cards(&all), 0);
    game.hazard_deck = cards(&[CANNIBAL, READER]);
    game.hazard_discard = cards(&[WEAPON]);
    assert_eq!(game.hazard_level(&all.hazard, Step::Pirate), 23);
    assert_eq!(game.free_cards(&all), 8);
    game.hazard_deck = deal(&catalog, Family::Hazards);
    game.hazard_discard = vec![];
    assert_eq!(game.hazard_level(&all.hazard, Step::Pirate), 198);
    assert_eq!(game.free_cards(&all), 70);
    let cannibal = entry(CANNIBAL).kind.to_hazard_card().clone();
    assert_eq!(game.free_cards(&cannibal), 5);
}

#[test]
fn the_score_counts_cards_pirates_life_and_hazards() {
    let mut game = bare(1);
    game.fighting_discard = cards(&[GENIUS, STUPID, WEAPON, IDIOT, DISTRACTED]);
    game.pirate_cards_won = cards(&[PIRATE_40]);
    game.hazard_deck = cards(&[CANNIBAL, READER]);
    game.hazard_discard = cards(&[TRICK]);
    game.life_points = 7;
    assert_eq!(game.score(), 2 - 5 + 2 - 5 - 1 + 15 - 9);
    game.state = State::Ended(false);
    assert_eq!(game.score(), -1);
    game.state = State::Ended(true);
    assert_eq!(game.score(), 34);
    let bare_game = bare(1);
    assert_eq!(bare_game.score(), 0);
}

#[test]
fn the_reasons_are_put_in_words() {
    assert_eq!(Rejection::MustChoose.message(), "You must choose a card");
    assert_eq!(Rejection::InvalidPirate.message(), "Invalid pirate card");
    assert_eq!(Rejection::DeckEmpty.message(), "Fighting deck is empty");
    assert_eq!(Rejection::NotLost.message(), "The fight is not lost");
    assert_eq!(
        Rejection::NotEnoughDiff { diff: -2, cost: 3 }.message(),
        "Not enough diff:-2 for this much discard:3"
    );
    assert_eq!(
        Rejection::NotEnoughDiff { diff: 12, cost: 40 }.message(),
        "Not enough diff:12 for this much discard:40"
    );
    assert!(Rejection::Died.is_fatal());
    assert!(Rejection::DeckEmpty.is_fatal());
    assert!(!Rejection::WrongState.is_fatal());
    assert!(!Rejection::NotEnoughDiff { diff: 0, cost: 1 }.is_fatal());
}

/// Plays what the game asks for, with choices taken from the seed.
fn play(level: usize, seed: u64, moves: usize) {
    let mut game = Friday::with_rng(level, StdRng::seed_from_u64(seed));
    let everything = population(&game);
    let mut step = game.step;
    let mut pick = seed;
    for _ in 0..moves {
        pick = pick.wrapping_mul(6364136223846793005).wrapping_add(1442695040888963407);
        let n = ((pick >> 33) % 7) as usize;
        let event = match (&game.state, n) {
            (State::Ended(_), _) => break,
            (State::Idle, _) => Event::Start,
            (State::ChooseHazard(_), _) => Event::HazardChoice(Some(n % 2)),
            (State::ChoosePirate, _) => Event::Choice(n % 2),
            (State::Fighting(_, _, _, _, Using::Sort(held)), 0) => {
                Event::Sort((0..held.len()).rev().collect(), true)
            }
            (State::Fighting(_, _, _, _, Using::UnderDeck(_)), 0) => Event::ChoiceUnder(1, true),
            (State::Fighting(..), 0) => Event::Continue,
            (State::Fighting(..), 1) => Event::Choice(1),
            (State::Fighting(..), 2) => Event::Use(((pick >> 40) % 5) as usize),
            (State::Fighting(..), 3) => Event::Win,
            (State::Fighting(..), 4) => Event::Lose(vec![((pick >> 40) % 3) as usize]),
            (State::Fighting(..), 5) => Event::Break,
            (State::Fighting(..), _) => Event::Fight,
        };
        let before = snapshot(&game);
        let closing = matches!(event, Event::Win | Event::Lose(_));
        let outcome = game.apply(event);
        match outcome {
            Ok(()) => {
                if closing {
                    assert_eq!(game.step_modif, 0);
                }
            }
            Err(e) => {
                if e.is_fatal() {
                    assert!(matches!(game.state, State::Ended(false)));
                } else {
                    assert_eq!(snapshot(&game), before);
                }
            }
        }
        assert_eq!(population(&game), everything);
        assert!(game.is_sound());
        assert!(game.life_points >= 0);
        assert!(game.life_points <= game.max_life_points() as isize);
        assert!(game.step.index() >= step.index());
        assert!(game.step.index() <= step.index() + 1);
        step = game.step;
        if let State::Fighting(hazard, used, ..) = &game.state {
            let allowance = game.free_cards(hazard.description.kind.to_hazard_card());
            assert!(*used <= allowance);
        }
    }
}

#[test]
fn no_card_is_lost_or_made_in_play() {
    for seed in 0..40 {
        play(1 + (seed % 4) as usize, seed, 400);
    }
}

#[test]
fn a_game_played_to_the_end_keeps_its_cards() {
    let mut game = Friday::with_rng(1, StdRng::seed_from_u64(17));
    let everything = population(&game);
    assert_eq!(everything.len(), 18 + 10 + 30 + 2);
    let mut turns = 0;
    while !matches!(game.state, State::Ended(_)) && turns < 10_000 {
        turns += 1;
        let event = match &game.state {
            State::Idle => Event::Start,
            State::ChooseHazard(_) => Event::HazardChoice(Some(0)),
            State::ChoosePirate => Event::Choice(0),
            State::Fighting(hazard, ..) => {
                if game.fight_diff().unwrap() >= 0 && used_free(&game) > 0 {
                    Event::Win
                } else if used_free(&game) > 0
                    && !hazard.description.is_pirate()
                    && in_play(&game).len() > 4
                {
                    Event::Lose(vec![])
                } else {
                    Event::Fight
                }
            }
            State::Ended(_) => break,
        };
        let _ = game.apply(event);
        assert_eq!(population(&game), everything);
    }
    assert!(matches!(game.state, State::Ended(_)));
}

#[test]
fn a_new_game_is_in_order() {
    for level in 1..=4 {
        for seed in 0..10 {
            assert!(Friday::with_rng(level, StdRng::seed_from_u64(seed)).is_sound());
        }
    }
    assert!(Friday::new(2).is_sound());
    assert!(bare(1).is_sound());
}

#[test]
fn a_game_out_of_order_is_found_out() {
    let mut game = bare(1);
    game.level = 0;
    assert!(!game.is_sound());
    game.level = 5;
    assert!(!game.is_sound());
    let mut game = bare(4);
    game.life_points = 21;
    assert!(!game.is_sound());
    game.life_points = 20;
    assert!(game.is_sound());
    game.life_points = -1;
    assert!(!game.is_sound());
    let mut game = bare(1);
    game.step_modif = 1;
    assert!(!game.is_sound());
    let mut game = bare(1);
    game.fighting_deck = cards(&[PIRATE_40]);
    assert!(!game.is_sound());
    let mut game = bare(1);
    game.hazard_deck = cards(&[GENIUS]);
    assert!(!game.is_sound());
    let mut game = bare(1);
    game.pirate_cards = cards(&[CANNIBAL]);
    assert!(!game.is_sound());
    let mut game = bare(1);
    game.aging_deck = cards(&[STUPID; 11]);
    assert!(!game.is_sound());
    game.level = 3;
    assert!(game.is_sound());
    let mut game = bare(1);
    game.state = State::ChooseHazard(vec![]);
    assert!(!game.is_sound());
    game.state = State::ChooseHazard(cards(&[CANNIBAL, READER, TRICK]));
    assert!(!game.is_sound());
    game.state = State::ChooseHazard(cards(&[CANNIBAL, READER]));
    assert!(game.is_sound());
    game.step = Step::Pirate;
    assert!(!game.is_sound());
    let mut game = bare(1);
    game.state = State::ChoosePirate;
    assert!(!game.is_sound());
    game.pirate_cards = cards(&[PIRATE_40, PIRATE_ADD]);
    assert!(game.is_sound());
    let mut game = fighting(CANNIBAL, 5, &[], &[]);
    assert!(game.is_sound());
    game.state = State::Fighting(card(CANNIBAL), 6, vec![], vec![], Using::Nothing);
    assert!(!game.is_sound());
    game.state = State::Fighting(card(GENIUS), 0, vec![], vec![], Using::Nothing);
    assert!(!game.is_sound());
    game.state = State::Fighting(card(CANNIBAL), 0, vec![], vec![], Using::Sort(vec![]));
    assert!(!game.is_sound());
    game.state = State::Fighting(card(CANNIBAL), 0, vec![], vec![], Using::Swap(0, 0));
    assert!(!game.is_sound());
    game.state = State::Fighting(card(CANNIBAL), 0, vec![], vec![], Using::Draw(0));
    assert!(!game.is_sound());
    game.state = State::Fighting(card(PIRATE_HAZARD), 1, vec![], vec![], Using::Nothing);
    assert!(!game.is_sound());
    game.hazard_discard = cards(&[READER]);
    assert!(game.is_sound());
    let mut game = bare(1);
    game.fighting_deck = cards(&[WEAK; 1001]);
    assert!(!game.is_sound());
    let mut game = bare(1);
    game.hazard_deck = cards(&[CANNIBAL; 19]);
    assert!(!game.is_sound());
    game.hazard_deck = cards(&[CANNIBAL; 18]);
    assert!(game.is_sound());
    let mut unknown = card(GENIUS);
    unknown.description = CardDescription::new_starting("giant", 500_001, 1, "giant.jpg");
    let mut game = bare(1);
    game.fighting_deck = vec![unknown];
    assert!(!game.is_sound());
    unknown.description = CardDescription::new_starting("giant", -500_000, 40, "giant.jpg");
    game.fighting_deck = vec![unknown];
    assert!(game.is_sound());
}

#[test]
fn winning_puts_the_cards_held_back_on_the_deck() {
    let mut game = fighting(READER, 1, &[VISION], &[GENIUS]);
    game.hazard_deck = cards(&[WEAPON]);
    game.fighting_deck = cards(&[WEAK]);
    set_using(&mut game, Using::Sort(cards(&[DISTRACTED, FOCUSED])));
    assert!(game.is_sound());
    assert_eq!(game.apply(Event::Win), Ok(()));
    assert_eq!(names(&game.fighting_deck), vec![WEAK, FOCUSED, DISTRACTED]);
    assert_eq!(names(&game.fighting_discard), vec![READER, VISION, GENIUS]);
    assert!(game.is_sound());
}

#[test]
fn giving_up_puts_the_cards_held_back_on_the_deck() {
    let mut game = fighting(CANNIBAL, 1, &[VISION], &[GENIUS]);
    game.hazard_deck = cards(&[WEAPON]);
    game.fighting_deck = cards(&[WEAK]);
    set_using(&mut game, Using::Sort(cards(&[DISTRACTED, FOCUSED])));
    assert_eq!(game.fight_diff(), Some(-1));
    assert_eq!(game.apply(Event::Lose(vec![1])), Ok(()));
    assert_eq!(game.life_points, 19);
    assert_eq!(names(&game.fighting_deck), vec![WEAK, FOCUSED, DISTRACTED]);
    assert_eq!(names(&game.fighting_discard), vec![VISION]);
    assert_eq!(names(&game.destroyed), vec![GENIUS]);
    assert!(game.is_sound());
}

#[test]
fn a_game_lost_puts_the_cards_held_back_on_the_deck() {
    let mut game = fighting(CANNIBAL, 5, &[VISION], &[GENIUS]);
    game.life_points = 0;
    game.fighting_deck = cards(&[WEAK]);
    set_using(&mut game, Using::Sort(cards(&[DISTRACTED, FOCUSED])));
    assert_eq!(game.apply(Event::Fight), Err(Rejection::Died));
    assert_eq!(names(&game.fighting_deck), vec![WEAK, FOCUSED, DISTRACTED]);
    assert_eq!(names(&game.fighting_discard), vec![VISION, GENIUS]);
    assert_eq!(names(&game.hazard_discard), vec![CANNIBAL]);
    assert!(matches!(game.state, State::Ended(false)));
    assert!(game.is_sound());
}

#[test]
fn sorting_with_no_card_left_ends_the_game() {
    let mut game = fighting(CANNIBAL, 1, &[VISION], &[]);
    set_using(&mut game, Using::Sort(cards(&[DISTRACTED])));
    assert_eq!(game.apply(Event::Continue), Err(Rejection::DeckEmpty));
    assert!(matches!(game.state, State::Ended(false)));
    assert_eq!(names(&game.fighting_deck), vec![DISTRACTED]);
    assert_eq!(names(&game.fighting_discard), vec![VISION]);
}

#[test]
fn a_fight_ahead_is_turned_down_whatever_the_cards_picked() {
    let mut game = fighting(READER, 1, &[GENIUS, STUPID], &[WEAPON]);
    assert_eq!(game.fight_diff(), Some(2));
    let before = snapshot(&game);
    assert_eq!(game.apply(Event::Lose(vec![0, 1])), Err(Rejection::NotLost));
    assert_eq!(game.apply(Event::Lose(vec![7])), Err(Rejection::InvalidDiscard));
    assert_eq!(snapshot(&game), before);
}

#[test]
fn the_pirate_of_aging_grows_with_the_cards_that_joined() {
    let mut game = fighting(PIRATE_AGING, 5, &[GENIUS], &[]);
    game.step = Step::Pirate;
    game.aging_deck = cards(&[IDIOT, STUPID, AFRAID, HUNGRY]);
    assert_eq!(game.fight_diff(), Some(2 - 12));
    game.level = 4;
    assert_eq!(game.fight_diff(), Some(2 - 14));
}

#[test]
fn the_pirate_of_all_hazards_grants_what_is_left() {
    let mut game = fighting(PIRATE_HAZARD, 0, &[], &[]);
    game.step = Step::Pirate;
    game.hazard_deck = cards(&[READER]);
    game.fighting_deck = cards(&[WEAK, GENIUS, FOCUSED]);
    assert_eq!(game.fight_diff(), Some(-3));
    assert_eq!(game.apply(Event::Fight), Ok(()));
    assert_eq!(game.life_points, 20);
    assert_eq!(used_free(&game), 1);
    assert_eq!(game.apply(Event::Fight), Ok(()));
    assert_eq!(game.life_points, 19);
    assert_eq!(used_free(&game), 1);
    assert_eq!(names(game.get_left().unwrap()), vec![FOCUSED]);
    assert_eq!(names(game.get_right().unwrap()), vec![GENIUS]);
    assert_eq!(game.fight_diff(), Some(0));
    assert_eq!(game.apply(Event::Win), Ok(()));
    assert_eq!(names(&game.pirate_cards_won), vec![PIRATE_HAZARD]);
    assert!(matches!(game.state, State::Ended(true)));
    assert_eq!(game.score(), 1 + 2 + 15 + 19 * 5 - 3);
}

#[test]
fn the_lowering_of_the_tier_ends_with_the_fight() {
    let mut game = fighting(READER, 1, &[READER, GENIUS], &[]);
    game.step = Step::Yellow;
    game.hazard_deck = cards(&[WEAPON, CANNIBAL]);
    assert_eq!(game.fight_diff(), Some(1));
    assert_eq!(game.apply(Event::Use(0)), Ok(()));
    assert_eq!(game.step_modif, 1);
    assert_eq!(game.fight_diff(), Some(2));
    assert_eq!(game.apply(Event::Win), Ok(()));
    assert_eq!(game.step_modif, 0);
    assert_eq!(game.step, Step::Yellow);
    assert_eq!(game.apply(Event::HazardChoice(Some(1))), Ok(()));
    assert_eq!(game.fought_step(), Step::Yellow);
    assert_eq!(game.fight_diff(), Some(-9));
}

#[test]
fn a_seed_given_as_a_number_gives_the_same_game_again() {
    let one = Friday::with_seed(3, 7);
    let two = Friday::with_seed(3, 7);
    let other = Friday::with_seed(3, 8);
    assert_eq!(snapshot(&one), snapshot(&two));
    assert_ne!(snapshot(&one), snapshot(&other));
    assert!(one.is_sound());
    assert_eq!(one.aging_deck.len(), 10);
    assert_eq!(one.fighting_deck.len(), 19);
}

#[test]
fn the_aging_card_that_joins_the_deck_is_of_the_normal_tier() {
    for level in 2..=4 {
        for seed in 0..20 {
            let game = Friday::with_seed(level, seed);
            let joined: Vec<&Card> = game
                .fighting_deck
                .iter()
                .filter(|c| !c.description.is_starting())
                .collect();
            assert_eq!(joined.len(), 1);
            assert!(joined[0].description.is_aging_normal());
            assert!(level > 2 || !joined[0].description.is_very_stupid());
            assert!(game.aging_deck.iter().all(|c| {
                c.description.is_aging_normal() || c.description.is_aging_difficult()
            }));
        }
    }
}

#[test]
fn a_loss_never_raises_the_life() {
    let mut game = fighting(CANNIBAL, 1, &[GENIUS], &[]);
    game.hazard_deck = cards(&[WEAPON]);
    game.life_points = 22;
    assert_eq!(game.fight_diff(), Some(-3));
    assert_eq!(game.apply(Event::Lose(vec![])), Ok(()));
    assert_eq!(game.life_points, 19);
}

#[test]
fn cards_of_great_value_are_reckoned_with() {
    let mut giant = card(GENIUS);
    giant.description = CardDescription::new_starting("giant", 500_000, 1, "giant.jpg");
    giant.double = true;
    let mut dwarf = card(GENIUS);
    dwarf.description = CardDescription::new_starting("dwarf", -500_000, 1, "dwarf.jpg");
    let mut game = fighting(PIRATE_40, 1, &[], &[]);
    game.state = State::Fighting(
        card(PIRATE_40),
        1,
        vec![giant, giant, card(AFRAID)],
        vec![dwarf, giant],
        Using::Nothing,
    );
    assert!(game.is_sound());
    assert_eq!(game.get_fight_value(), Some(1_500_000));
    assert_eq!(game.fight_diff(), Some(1_499_960));
    game.fighting_discard = vec![giant, dwarf, giant];
    assert_eq!(game.score(), 500_000);
}
