use spooky_pranks::geometry::Vec2;
use spooky_pranks::house::{
    build_houses, is_light_cycle_due, light_cycle_with, switch_lights, switch_lights_with, House,
    HouseState,
    HouseTint, FLIP_PROBABILITY, HOUSE_COUNT, INTERACTION_TIME, LIGHT_INTERVAL,
};
use spooky_pranks::interaction::{collect_loot, visit_houses, LootEvent, NoticeAction};
use spooky_pranks::inventory::{LootType, PlayerInventory};
use spooky_pranks::sack::CandySack;
use spooky_pranks::timer::TimerMode;
use spooky_pranks::transient::{Message, Payload};

const U: i64 = 1_000_000;
const SECOND: u64 = 1_000_000_000;

fn consistent(house: &House) -> bool {
    house.light_status == (house.state == HouseState::Lit)
}

#[test]
fn new_house_is_consistent() {
    let lit = House::new(Vec2::new(300 * U, 0), true);
    assert_eq!(lit.state, HouseState::Lit);
    assert!(lit.light_status);
    assert_eq!(lit.loot, LootType::Candy);
    assert_eq!(lit.tint, HouseTint::Plain);
    assert_eq!(lit.interaction_timer.duration, INTERACTION_TIME);
    assert_eq!(lit.interaction_timer.mode, TimerMode::Once);
    assert_eq!(lit.interaction_timer.elapsed, 0);
    let dark = House::new(Vec2::new(300 * U, 0), false);
    assert_eq!(dark.state, HouseState::Dark);
    assert!(!dark.light_status);
}

#[test]
fn grid_has_eight_houses_around_the_middle() {
    let houses = build_houses();
    assert_eq!(houses.len(), HOUSE_COUNT);
    let expected = [
        (-300, -300),
        (0, -300),
        (300, -300),
        (-300, 0),
        (300, 0),
        (-300, 300),
        (0, 300),
        (300, 300),
    ];
    for (house, (x, y)) in houses.iter().zip(expected.iter()) {
        assert_eq!(house.position, Vec2 { x: x * U, y: y * U });
        assert!(consistent(house));
        assert_eq!(house.loot, LootType::Candy);
        assert_eq!(house.tint, HouseTint::Plain);
        assert_eq!(house.interaction_timer.duration, 3 * SECOND);
        assert_eq!(house.interaction_timer.elapsed, 0);
        assert!(!house.interaction_timer.finished());
    }
    assert!(houses.iter().all(|h| h.position != Vec2::zero()));
}

#[test]
fn grids_are_lit_at_random() {
    let mut lit = 0;
    let mut dark = 0;
    for _ in 0..200 {
        for house in build_houses() {
            if house.light_status {
                lit += 1;
            } else {
                dark += 1;
            }
        }
    }
    assert_eq!(lit + dark, 1600);
    assert!(lit > 600);
    assert!(dark > 600);
}

#[test]
fn visit_completes_after_the_whole_duration_in_range() {
    let mut house = House::new(Vec2::new(300 * U, 0), true);
    let ghost = Vec2::new(250 * U, 0);
    assert_eq!(house.visit(&ghost, SECOND), None);
    assert_eq!(house.tint, HouseTint::InRange);
    assert_eq!(house.interaction_timer.elapsed, SECOND);
    assert_eq!(house.visit(&ghost, SECOND), None);
    assert_eq!(house.visit(&ghost, SECOND), Some(LootType::Candy));
    assert_eq!(house.interaction_timer.elapsed, 0);
    assert!(!house.interaction_timer.finished());
    assert!(!house.interaction_timer.just_finished());
    assert_eq!(house.tint, HouseTint::InRange);
    assert_eq!(house.visit(&ghost, SECOND), None);
    assert_eq!(house.interaction_timer.elapsed, SECOND);
}

#[test]
fn visit_hands_out_the_loot_and_leaves_candy() {
    let mut house = House::new(Vec2::new(0, 300 * U), true);
    house.loot = LootType::RareItem(String::from("silver bat"));
    let ghost = Vec2::new(0, 300 * U);
    assert_eq!(
        house.visit(&ghost, 3 * SECOND),
        Some(LootType::RareItem(String::from("silver bat")))
    );
    assert_eq!(house.loot, LootType::Candy);
    assert_eq!(house.visit(&ghost, 3 * SECOND), Some(LootType::Candy));
}

#[test]
fn dark_house_is_skipped() {
    let mut house = House::new(Vec2::new(300 * U, 0), false);
    house.interaction_timer.tick(SECOND);
    let before_timer = house.interaction_timer;
    let ghost = Vec2::new(300 * U, 0);
    assert_eq!(house.visit(&ghost, 10 * SECOND), None);
    assert_eq!(house.interaction_timer, before_timer);
    assert_eq!(house.tint, HouseTint::Plain);
    let away = Vec2::new(0, 0);
    assert_eq!(house.visit(&away, SECOND), None);
    assert_eq!(house.interaction_timer, before_timer);
}

#[test]
fn range_of_a_house_is_strict() {
    let mut house = House::new(Vec2::new(300 * U, 0), true);
    assert_eq!(house.visit(&Vec2::new(200 * U, 0), SECOND), None);
    assert_eq!(house.tint, HouseTint::Plain);
    assert_eq!(house.interaction_timer.elapsed, 0);
    assert_eq!(house.visit(&Vec2::new(200 * U + 1, 0), SECOND), None);
    assert_eq!(house.tint, HouseTint::InRange);
    assert_eq!(house.interaction_timer.elapsed, SECOND);
}

#[test]
fn leaving_the_range_starts_the_visit_over() {
    let mut house = House::new(Vec2::new(300 * U, 0), true);
    let near = Vec2::new(280 * U, 0);
    let far = Vec2::new(0, 0);
    assert_eq!(house.visit(&near, SECOND + SECOND / 2), None);
    assert_eq!(house.interaction_timer.fraction(), 500_000);
    assert_eq!(house.visit(&far, 16_000_000), None);
    assert_eq!(house.interaction_timer.elapsed, 0);
    assert_eq!(house.interaction_timer.fraction(), 0);
    assert_eq!(house.tint, HouseTint::Plain);
    assert_eq!(house.visit(&near, SECOND + SECOND / 2), None);
    assert_eq!(house.visit(&near, SECOND), None);
    assert_eq!(house.visit(&near, SECOND / 2 - 1), None);
    assert_eq!(house.visit(&near, 1), Some(LootType::Candy));
}

#[test]
fn toggling_keeps_flag_and_state_together() {
    let mut house = House::new(Vec2::zero(), true);
    house.toggle_light();
    assert!(!house.light_status);
    assert_eq!(house.state, HouseState::Dark);
    house.toggle_light();
    assert!(house.light_status);
    assert_eq!(house.state, HouseState::Lit);
}

#[test]
fn flip_follows_the_roll() {
    let mut house = House::new(Vec2::zero(), true);
    assert!(house.flip(0));
    assert!(!house.light_status);
    assert!(!house.flip(u32::MAX));
    assert!(!house.light_status);
    assert!(house.flip(1_288_490_188));
    assert!(house.light_status);
    assert!(!house.flip(1_288_490_189));
    assert!(house.light_status);
    assert!(consistent(&house));
    assert_eq!(FLIP_PROBABILITY, 300_000);
}

#[test]
fn light_cycle_falls_due_when_an_interval_is_crossed() {
    let delta = 16_666_667;
    assert!(is_light_cycle_due(5 * SECOND, delta, LIGHT_INTERVAL));
    assert!(is_light_cycle_due(5 * SECOND + delta - 1, delta, LIGHT_INTERVAL));
    assert!(!is_light_cycle_due(5 * SECOND + delta, delta, LIGHT_INTERVAL));
    assert!(!is_light_cycle_due(4 * SECOND, delta, LIGHT_INTERVAL));
    assert!(is_light_cycle_due(0, delta, LIGHT_INTERVAL));
    assert!(!is_light_cycle_due(0, 0, LIGHT_INTERVAL));
    assert!(!is_light_cycle_due(5 * SECOND, delta, 0));
    assert!(is_light_cycle_due(u64::MAX, u64::MAX, LIGHT_INTERVAL));
}

#[test]
fn lights_switch_house_by_house() {
    let mut houses = vec![
        House::new(Vec2::new(-300 * U, 0), true),
        House::new(Vec2::new(300 * U, 0), true),
        House::new(Vec2::new(0, 300 * U), false),
        House::new(Vec2::new(0, -300 * U), false),
    ];
    switch_lights_with(&mut houses, &vec![0, u32::MAX, 1_000_000_000]);
    assert!(!houses[0].light_status);
    assert!(houses[1].light_status);
    assert!(houses[2].light_status);
    assert!(!houses[3].light_status);
    assert!(houses.iter().all(consistent));
    switch_lights_with(&mut houses, &vec![u32::MAX, 5, 2_000_000_000, 7, 0, 0]);
    assert!(!houses[0].light_status);
    assert!(!houses[1].light_status);
    assert!(houses[2].light_status);
    assert!(houses[3].light_status);
    assert!(houses.iter().all(consistent));
}

#[test]
fn lights_stay_between_rounds() {
    let mut houses = build_houses();
    let before: Vec<bool> = houses.iter().map(|h| h.light_status).collect();
    for frame in 1..200u64 {
        switch_lights(&mut houses, frame * 20_000_000, 16_666_667);
    }
    let after: Vec<bool> = houses.iter().map(|h| h.light_status).collect();
    assert_eq!(before, after);
}

#[test]
fn houses_stay_consistent_through_many_rounds() {
    let mut houses = build_houses();
    for round in 0..2000u64 {
        switch_lights(&mut houses, round * LIGHT_INTERVAL, 16_666_667);
        assert_eq!(houses.len(), HOUSE_COUNT);
        assert!(houses.iter().all(consistent));
    }
}

#[test]
fn about_three_in_ten_lights_switch_in_a_round() {
    let mut houses = build_houses();
    let mut flips = 0u32;
    let rounds = 5000u64;
    for round in 0..rounds {
        let before: Vec<bool> = houses.iter().map(|h| h.light_status).collect();
        switch_lights(&mut houses, round * LIGHT_INTERVAL, 16_666_667);
        for (house, was) in houses.iter().zip(before.iter()) {
            if house.light_status != *was {
                flips += 1;
            }
        }
    }
    let share = flips as f64 / (rounds as f64 * HOUSE_COUNT as f64);
    assert!(share > 0.27, "share {}", share);
    assert!(share < 0.33, "share {}", share);
}

#[test]
fn visits_fill_the_sack_in_the_order_of_the_houses() {
    let mut houses = vec![
        House::new(Vec2::new(0, 50 * U), true),
        House::new(Vec2::new(0, -50 * U), false),
        House::new(Vec2::new(50 * U, 0), true),
        House::new(Vec2::new(500 * U, 0), true),
    ];
    houses[2].loot = LootType::SpecialTreat(String::from("caramel apple"));
    houses[3].interaction_timer.tick(SECOND);
    let ghost = Vec2::zero();
    let mut sack = CandySack::new(10);
    let mut notice = false;
    let outcome = visit_houses(&ghost, &mut sack, &mut houses, &mut notice, 2 * SECOND);
    assert!(outcome.events.is_empty());
    assert_eq!(outcome.notice, NoticeAction::Keep);
    assert_eq!(houses[0].interaction_timer.elapsed, 2 * SECOND);
    assert_eq!(houses[1].interaction_timer.elapsed, 0);
    assert_eq!(houses[3].interaction_timer.elapsed, 0);
    assert_eq!(houses[0].tint, HouseTint::InRange);
    assert_eq!(houses[1].tint, HouseTint::Plain);
    assert_eq!(houses[3].tint, HouseTint::Plain);
    let outcome = visit_houses(&ghost, &mut sack, &mut houses, &mut notice, SECOND);
    assert_eq!(
        outcome.events,
        vec![
            LootEvent { house: 0, position: Vec2::new(0, 50 * U), loot: LootType::Candy },
            LootEvent {
                house: 2,
                position: Vec2::new(50 * U, 0),
                loot: LootType::SpecialTreat(String::from("caramel apple")),
            },
        ]
    );
    assert_eq!(sack, CandySack { capacity: 10, current: 2 });
    assert_eq!(houses[2].loot, LootType::Candy);
    assert!(houses.iter().all(consistent));
}

#[test]
fn completion_with_a_full_sack_leaves_the_sack_unchanged() {
    let mut houses = vec![House::new(Vec2::zero(), true), House::new(Vec2::new(U, U), true)];
    let ghost = Vec2::zero();
    let mut sack = CandySack { capacity: 10, current: 10 };
    let mut notice = false;
    let outcome = visit_houses(&ghost, &mut sack, &mut houses, &mut notice, 3 * SECOND);
    assert_eq!(outcome.events.len(), 2);
    assert_eq!(outcome.notice, NoticeAction::Show);
    assert!(notice);
    assert_eq!(sack, CandySack { capacity: 10, current: 10 });
}

#[test]
fn sack_is_capped_in_the_middle_of_a_tick() {
    let mut houses = vec![
        House::new(Vec2::zero(), true),
        House::new(Vec2::new(U, 0), true),
        House::new(Vec2::new(0, U), true),
    ];
    let ghost = Vec2::zero();
    let mut sack = CandySack { capacity: 10, current: 9 };
    let mut notice = true;
    let outcome = visit_houses(&ghost, &mut sack, &mut houses, &mut notice, 3 * SECOND);
    assert_eq!(outcome.events.len(), 3);
    assert_eq!(outcome.notice, NoticeAction::Remove);
    assert!(!notice);
    assert_eq!(sack.current, 10);
    let outcome = visit_houses(&ghost, &mut sack, &mut houses, &mut notice, 1);
    assert_eq!(outcome.notice, NoticeAction::Show);
    assert!(notice);
}

#[test]
fn sack_never_exceeds_its_capacity_over_a_long_stay() {
    let mut houses = build_houses();
    for house in houses.iter_mut() {
        if !house.light_status {
            house.toggle_light();
        }
    }
    let ghost = Vec2::new(-300 * U, -300 * U);
    let mut sack = CandySack::new(10);
    let mut notice = false;
    let mut collected = 0;
    for _ in 0..7200 {
        let outcome = visit_houses(&ghost, &mut sack, &mut houses, &mut notice, 16_666_667);
        collected += outcome.events.len();
        assert!(sack.current <= sack.capacity);
        assert!(outcome.events.iter().all(|e| e.house == 0));
    }
    assert_eq!(collected, 40);
    assert_eq!(sack.current, 10);
    assert!(notice);
}

#[test]
fn loot_is_recorded_and_told() {
    let mut inventory = PlayerInventory::new();
    inventory.candies = 41;
    let events = vec![
        LootEvent { house: 0, position: Vec2::new(0, 50 * U), loot: LootType::Candy },
        LootEvent {
            house: 2,
            position: Vec2::new(50 * U, 0),
            loot: LootType::RareItem(String::from("silver bat")),
        },
        LootEvent {
            house: 5,
            position: Vec2::new(-50 * U, 0),
            loot: LootType::SpecialTreat(String::from("caramel apple")),
        },
    ];
    let texts = collect_loot(&mut inventory, events);
    assert_eq!(inventory.candies, 44);
    assert_eq!(
        inventory.rare_items,
        vec![
            LootType::RareItem(String::from("silver bat")),
            LootType::SpecialTreat(String::from("caramel apple")),
        ]
    );
    assert_eq!(texts.len(), 3);
    assert_eq!(texts[0].position, Vec2::new(0, 80 * U));
    assert_eq!(
        texts[0].payload,
        Payload::FloatingText { anchor: Vec2::new(0, 50 * U), message: Message::TotalCandies(42) }
    );
    assert_eq!(
        texts[1].payload,
        Payload::FloatingText { anchor: Vec2::new(50 * U, 0), message: Message::TotalCandies(43) }
    );
    assert_eq!(
        texts[2].payload,
        Payload::FloatingText { anchor: Vec2::new(-50 * U, 0), message: Message::TotalCandies(44) }
    );
}

#[test]
fn candy_count_stops_at_the_largest_number() {
    let mut inventory = PlayerInventory::new();
    inventory.candies = u32::MAX - 1;
    assert_eq!(inventory.collect(LootType::Candy), u32::MAX);
    assert_eq!(inventory.collect(LootType::Candy), u32::MAX);
    assert!(inventory.rare_items.is_empty());
}

#[test]
fn loading_nothing_leaves_the_inventory() {
    let mut inventory = PlayerInventory::new();
    inventory.collect(LootType::RareItem(String::from("silver bat")));
    inventory.restore(None);
    assert_eq!(inventory.candies, 1);
    assert_eq!(inventory.rare_items, vec![LootType::RareItem(String::from("silver bat"))]);
    inventory.restore(Some(PlayerInventory { candies: 7, rare_items: Vec::new() }));
    assert_eq!(inventory, PlayerInventory { candies: 7, rare_items: Vec::new() });
}

#[test]
fn loot_clones_keep_kind_and_name() {
    let treat = LootType::SpecialTreat(String::from("caramel apple"));
    assert_eq!(treat.clone(), treat);
    assert_eq!(LootType::Candy.clone(), LootType::Candy);
    assert!(LootType::Candy.is_candy());
    assert!(!treat.is_candy());
    assert_ne!(LootType::RareItem(String::from("x")), LootType::SpecialTreat(String::from("x")));
}

#[test]
fn light_cycle_with_given_rolls_switches_in_a_round_only() {
    let mut houses = vec![
        House::new(Vec2::new(-300 * U, 0), true),
        House::new(Vec2::new(300 * U, 0), false),
        House::new(Vec2::new(0, 300 * U), true),
    ];
    let rolls = vec![1_288_490_188, 1_288_490_189, 0];
    light_cycle_with(&mut houses, 4 * SECOND, 16_666_667, &rolls);
    assert!(houses[0].light_status);
    assert!(!houses[1].light_status);
    assert!(houses[2].light_status);
    light_cycle_with(&mut houses, 5 * SECOND, 16_666_667, &rolls);
    assert!(!houses[0].light_status);
    assert!(!houses[1].light_status);
    assert!(!houses[2].light_status);
    assert_eq!(houses[0].state, HouseState::Dark);
    assert_eq!(houses[2].state, HouseState::Dark);
    assert!(houses.iter().all(consistent));
}

#[test]
fn three_in_ten_of_all_rolls_switch_a_light() {
    let mut flips: u64 = 0;
    let step: u64 = 65_537;
    let mut roll: u64 = 0;
    let mut tried: u64 = 0;
    while roll <= u32::MAX as u64 {
        let mut house = House::new(Vec2::zero(), true);
        if house.flip(roll as u32) {
            flips += 1;
        }
        tried += 1;
        roll += step;
    }
    let share = flips as f64 / tried as f64;
    assert!((share - 0.3).abs() < 0.0001, "share {}", share);
}
