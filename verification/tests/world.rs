use spooky_pranks::fixed::UNIT;
use spooky_pranks::game_state::GameState;
use spooky_pranks::geometry::Vec2;
use spooky_pranks::house::{HouseState, HOUSE_COUNT, LIGHT_INTERVAL};
use spooky_pranks::interaction::{DepositEvent, NoticeAction};
use spooky_pranks::inventory::{LootType, PlayerInventory};
use spooky_pranks::player::{GhostState, Phases, Player};
use spooky_pranks::projectile::{Bullet, BulletTint, FloatingTarget};
use spooky_pranks::sack::{CandySack, ProgressMeter};
use spooky_pranks::trail::{trail, TrailSettings, TRAIL_INTERVAL};
use spooky_pranks::transient::{Message, Payload, TransientEntity};
use spooky_pranks::world::{Sines, TickInput, World};

const U: i64 = 1_000_000;
const SECOND: u64 = 1_000_000_000;
const FRAME: u64 = 16_666_667;

const STILL: Sines = Sines { primary: 0, secondary: 0 };

fn game() -> World {
    let mut world = World::new();
    world.setup();
    world.spawn_houses();
    world
}

fn texts(world: &World) -> Vec<Message> {
    world
        .transients
        .iter()
        .filter_map(|e| match e.payload {
            Payload::FloatingText { message, .. } => Some(message),
            _ => None,
        })
        .collect()
}

fn particles(world: &World) -> usize {
    world.transients.iter().filter(|e| matches!(e.payload, Payload::Particle { .. })).count()
}

fn invariants_hold(world: &World) -> bool {
    let sack_ok = world.player.map_or(true, |p| p.sack.current <= p.sack.capacity);
    let meter_ok = world
        .meter
        .map_or(true, |m| m.value >= 0 && m.value <= 100 * U && m.full == (m.value == 100 * U));
    let houses_ok =
        world.houses.iter().all(|h| h.light_status == (h.state == HouseState::Lit));
    let transients_ok = world.transients.iter().all(|e| !e.lifetime.finished());
    sack_ok && meter_ok && houses_ok && transients_ok
}

#[test]
fn new_world_is_empty() {
    let world = World::new();
    assert_eq!(world.player, None);
    assert!(world.houses.is_empty());
    assert_eq!(world.pumpkin, None);
    assert_eq!(world.balloon, None);
    assert!(world.bullets.is_empty());
    assert!(world.transients.is_empty());
    assert_eq!(world.meter, None);
    assert_eq!(world.inventory, PlayerInventory { candies: 0, rare_items: Vec::new() });
    assert_eq!(world.trail, TrailSettings::new());
    assert_eq!(world.trail.spawn_timer.duration, TRAIL_INTERVAL);
    assert!(!world.notice_shown);
}

#[test]
fn setup_spawns_the_ghost_and_the_meter() {
    let mut world = World::new();
    world.setup();
    assert_eq!(world.player, Some(Player::new()));
    assert_eq!(world.meter, Some(ProgressMeter { value: 0, full: false }));
    assert!(world.houses.is_empty());
    world.spawn_houses();
    assert_eq!(world.houses.len(), HOUSE_COUNT);
    assert_eq!(world.pumpkin, Some(Vec2::zero()));
    assert_eq!(world.balloon, Some(FloatingTarget::new()));
    assert!(invariants_hold(&world));
}

#[test]
fn systems_do_nothing_in_an_empty_world() {
    let mut world = World::new();
    assert_eq!(world.follow_mouse(&Vec2::new(100 * U, 0), 0, FRAME), ());
    assert_eq!(world.float_phases(SECOND), (None, None));
    world.float_ghost(Sines { primary: UNIT, secondary: UNIT }, STILL);
    assert!(!world.fade_ghost(10 * SECOND));
    assert!(!world.spawn_ghost_trail(SECOND));
    world.switch_house_lights(LIGHT_INTERVAL, FRAME);
    assert_eq!(world.ghost_house_interaction(10 * SECOND), NoticeAction::Keep);
    assert_eq!(world.candy_deposit_system(), None);
    assert!(!world.animate_progress_particles());
    assert!(world.bullet_system(FRAME).is_empty());
    assert!(!world.shoot_balloon(&Vec2::new(100 * U, 0), true, true));
    assert_eq!(world.update_transients(FRAME), 0);
    assert_eq!(world.player, None);
    assert!(world.houses.is_empty());
    assert!(world.bullets.is_empty());
    assert!(world.transients.is_empty());
    assert_eq!(world.meter, None);
    assert!(!world.notice_shown);
    assert_eq!(world.inventory, PlayerInventory::new());
}

#[test]
fn ghost_follows_the_pointer_in_the_world() {
    let mut world = game();
    world.follow_mouse(&Vec2::new(100 * U, 50 * U), 463_647, FRAME);
    let ghost = world.player.unwrap();
    assert_eq!(ghost.position.x, 42_129_500);
    assert_eq!(ghost.float.original_y, 21_064_750);
    assert_eq!(ghost.rotation, 467_403);
    world.float_ghost(
        Sines { primary: UNIT, secondary: 0 },
        Sines { primary: -UNIT, secondary: 0 },
    );
    assert_eq!(world.player.unwrap().position.y, 21_064_750 + 10 * U);
    assert_eq!(world.player.unwrap().float.original_y, 21_064_750);
    assert_eq!(world.balloon.unwrap().position.y, -15 * U);
    assert_eq!(world.balloon.unwrap().float.original_y, 0);
}

#[test]
fn world_tells_the_phases_of_both_floaters() {
    let world = game();
    assert_eq!(
        world.float_phases(1_500_000_000),
        (
            Some(Phases { primary: 3_000_000, secondary: 7_500_000 }),
            Some(Phases { primary: 2_250_000, secondary: 5_625_000 }),
        )
    );
}

#[test]
fn ghost_fades_in_the_world() {
    let mut world = game();
    assert!(!world.fade_ghost(2 * SECOND));
    assert_eq!(world.player.unwrap().state, GhostState::Normal);
    assert!(world.fade_ghost(SECOND));
    assert_eq!(world.player.unwrap().state, GhostState::Faded);
    assert!(world.fade_ghost(3 * SECOND));
    assert_eq!(world.player.unwrap().state, GhostState::Normal);
}

#[test]
fn ghost_leaves_a_copy_every_twentieth_of_a_second() {
    let mut world = game();
    let mut copies = 0;
    for _ in 0..30 {
        if world.spawn_ghost_trail(FRAME) {
            copies += 1;
            let copy = *world.transients.last().unwrap();
            assert_eq!(copy.position, world.player.unwrap().position);
            assert_eq!(copy.alpha, 800_000);
            assert_eq!(copy.lifetime.duration, 800_000_000);
            match copy.payload {
                Payload::Trail { scale, rotation } => {
                    assert!(scale >= 190_000 && scale < 210_000);
                    assert!(rotation >= -50_000 && rotation < 50_000);
                },
                _ => panic!("not a trail"),
            }
        }
    }
    assert_eq!(copies, 10);
    assert_eq!(world.transients.len(), 10);
}

#[test]
fn copy_of_the_ghost_from_its_rolls() {
    let mut ghost = Player::new();
    ghost.position = Vec2::new(3 * U, 4 * U);
    ghost.scale = 220_000;
    ghost.rotation = 100_000;
    let copy = trail(&ghost, 1 << 31, 1 << 30);
    assert_eq!(
        copy,
        TransientEntity {
            position: Vec2 { x: 3 * U, y: 4 * U },
            lifetime: spooky_pranks::timer::Timer::new(
                800_000_000,
                spooky_pranks::timer::TimerMode::Once
            ),
            alpha: 800_000,
            payload: Payload::Trail { scale: 220_000, rotation: 75_000 },
        }
    );
    let small = trail(&ghost, 0, 0);
    assert_eq!(small.payload, Payload::Trail { scale: 209_000, rotation: 50_000 });
    ghost.rotation = 3_141_592;
    let turned = trail(&ghost, 0, u32::MAX);
    assert_eq!(turned.payload, Payload::Trail { scale: 209_000, rotation: -3_091_594 });
}

#[test]
fn trick_or_treating_fills_sack_and_inventory() {
    let mut world = game();
    for house in world.houses.iter_mut() {
        if !house.light_status {
            house.toggle_light();
        }
    }
    world.houses[0].loot = LootType::RareItem(String::from("silver bat"));
    let mut ghost = Player::new();
    ghost.position = Vec2::new(-300 * U, -250 * U);
    ghost.float.original_y = -250 * U;
    world.player = Some(ghost);
    assert_eq!(world.ghost_house_interaction(2 * SECOND), NoticeAction::Keep);
    assert_eq!(world.player.unwrap().sack.current, 0);
    assert!(world.transients.is_empty());
    assert_eq!(world.ghost_house_interaction(SECOND), NoticeAction::Keep);
    assert_eq!(world.player.unwrap().sack.current, 1);
    assert_eq!(world.inventory.candies, 1);
    assert_eq!(world.inventory.rare_items, vec![LootType::RareItem(String::from("silver bat"))]);
    assert_eq!(world.houses[0].loot, LootType::Candy);
    assert_eq!(texts(&world), vec![Message::TotalCandies(1)]);
    assert_eq!(world.transients[0].position, Vec2 { x: -300 * U, y: -270 * U });
    assert_eq!(world.ghost_house_interaction(3 * SECOND), NoticeAction::Keep);
    assert_eq!(world.inventory.candies, 2);
    assert_eq!(world.inventory.rare_items.len(), 1);
    assert_eq!(texts(&world), vec![Message::TotalCandies(1), Message::TotalCandies(2)]);
    assert!(invariants_hold(&world));
}

#[test]
fn notice_of_a_full_sack_comes_and_goes() {
    let mut world = game();
    for house in world.houses.iter_mut() {
        if !house.light_status {
            house.toggle_light();
        }
    }
    let mut ghost = Player::new();
    ghost.position = Vec2::new(300 * U, 300 * U);
    ghost.float.original_y = 300 * U;
    ghost.sack = CandySack { capacity: 10, current: 9 };
    world.player = Some(ghost);
    assert_eq!(world.ghost_house_interaction(3 * SECOND), NoticeAction::Keep);
    assert_eq!(world.player.unwrap().sack.current, 10);
    assert!(!world.notice_shown);
    assert_eq!(world.ghost_house_interaction(3 * SECOND), NoticeAction::Show);
    assert!(world.notice_shown);
    assert_eq!(world.player.unwrap().sack.current, 10);
    assert_eq!(world.inventory.candies, 2);
    assert_eq!(world.ghost_house_interaction(FRAME), NoticeAction::Keep);
    assert!(world.notice_shown);
    let mut ghost = world.player.unwrap();
    ghost.position = Vec2::new(0, 0);
    world.player = Some(ghost);
    assert_eq!(
        world.candy_deposit_system(),
        Some(DepositEvent { candies: 10, notice_removed: true })
    );
    assert!(!world.notice_shown);
    assert_eq!(world.ghost_house_interaction(FRAME), NoticeAction::Keep);
    assert!(!world.notice_shown);
}

#[test]
fn deposit_at_the_pumpkin_fills_the_meter() {
    let mut world = game();
    let mut ghost = Player::new();
    ghost.sack = CandySack { capacity: 10, current: 10 };
    world.player = Some(ghost);
    world.meter = Some(ProgressMeter { value: 75 * U, full: false });
    world.notice_shown = true;
    let event = world.candy_deposit_system();
    assert_eq!(event, Some(DepositEvent { candies: 10, notice_removed: true }));
    assert_eq!(world.meter, Some(ProgressMeter { value: 100 * U, full: true }));
    assert_eq!(world.player.unwrap().sack, CandySack { capacity: 10, current: 0 });
    assert!(!world.notice_shown);
    assert_eq!(texts(&world), vec![Message::Deposited(10)]);
    assert_eq!(world.transients[0].position, Vec2 { x: 0, y: 30 * U });
    assert_eq!(world.candy_deposit_system(), None);
    assert_eq!(world.meter, Some(ProgressMeter { value: 100 * U, full: true }));
    assert_eq!(world.transients.len(), 1);
    assert!(invariants_hold(&world));
}

#[test]
fn no_deposit_without_a_pumpkin() {
    let mut world = World::new();
    world.setup();
    let mut ghost = Player::new();
    ghost.sack = CandySack { capacity: 10, current: 10 };
    world.player = Some(ghost);
    assert_eq!(world.candy_deposit_system(), None);
    assert_eq!(world.player.unwrap().sack.current, 10);
    assert_eq!(world.meter, Some(ProgressMeter::new()));
}

#[test]
fn no_deposit_without_a_meter_in_the_world() {
    let mut world = World::new();
    world.spawn_houses();
    let mut ghost = Player::new();
    ghost.position = Vec2::new(50 * U, 0);
    ghost.sack = CandySack { capacity: 10, current: 7 };
    world.player = Some(ghost);
    world.notice_shown = true;
    assert_eq!(world.meter, None);
    assert_eq!(world.candy_deposit_system(), None);
    assert_eq!(world.player.unwrap().sack, CandySack { capacity: 10, current: 7 });
    assert!(world.transients.is_empty());
    assert!(world.notice_shown);
    assert_eq!(world.meter, None);
    world.meter = Some(ProgressMeter::new());
    assert_eq!(
        world.candy_deposit_system(),
        Some(DepositEvent { candies: 7, notice_removed: true })
    );
    assert_eq!(world.player.unwrap().sack.current, 0);
    assert_eq!(texts(&world), vec![Message::Deposited(7)]);
}

#[test]
fn each_bullet_in_range_sets_off_a_jackpot_of_its_own() {
    let mut world = game();
    let mut balloon = FloatingTarget::new();
    balloon.position = Vec2::new(40 * U, 0);
    world.balloon = Some(balloon);
    let toward = |x: i64, y: i64| Bullet {
        position: Vec2::new(x, y),
        direction: Vec2 { x: UNIT, y: 0 },
        speed: 0,
        tint: BulletTint::Red,
    };
    world.bullets =
        vec![toward(0, 0), toward(30 * U, 0), toward(-20 * U, 0), toward(40 * U, 49 * U)];
    let seeds = world.bullet_system(FRAME);
    assert_eq!(seeds.len(), 90);
    assert_eq!(world.balloon, None);
    assert_eq!(world.bullets, vec![toward(-20 * U, 0)]);
    assert_eq!(texts(&world), vec![Message::Jackpot, Message::Jackpot, Message::Jackpot]);
    for block in 0..3 {
        for i in 0..12 {
            assert_eq!(seeds[30 * block + i].angle, 6_283_185 * i as i64 / 12);
            assert_eq!(seeds[30 * block + i].position, Vec2 { x: 40 * U, y: 0 });
        }
    }
    let directions: Vec<Vec2> = seeds
        .iter()
        .map(|seed| {
            let angle = seed.angle as f64 / 1e6;
            Vec2::new((angle.cos() * 1e6) as i64, (angle.sin() * 1e6) as i64)
        })
        .collect();
    world.launch_all(&seeds, &directions);
    assert_eq!(particles(&world), 90);
    assert_eq!(world.transients.len(), 93);
    assert_eq!(world.transients[3], seeds[0].launch(&directions[0]));
    assert_eq!(world.transients[92], seeds[89].launch(&directions[89]));
    assert!(world.bullet_system(FRAME).is_empty());
    assert_eq!(world.bullets.len(), 1);
    assert!(invariants_hold(&world));
}

#[test]
fn launching_stops_where_the_directions_end() {
    let mut world = game();
    let seeds = spooky_pranks::burst::spawn_money_burst(
        &Vec2::zero(),
        &spooky_pranks::burst::inner_burst(),
    );
    world.launch_all(&seeds, &vec![Vec2 { x: UNIT, y: 0 }, Vec2 { x: 0, y: -UNIT }]);
    assert_eq!(world.transients.len(), 2);
    assert_eq!(world.transients[1], seeds[1].launch(&Vec2 { x: 0, y: -UNIT }));
    world.launch_all(&Vec::new(), &vec![Vec2 { x: UNIT, y: 0 }]);
    assert_eq!(world.transients.len(), 2);
}

#[test]
fn lights_switch_by_the_rolls_given_in_a_round_only() {
    let mut world = game();
    let before: Vec<bool> = world.houses.iter().map(|h| h.light_status).collect();
    let rolls = vec![
        0,
        1_288_490_188,
        1_288_490_189,
        u32::MAX,
        1_000_000_000,
        2_000_000_000,
        5,
        4_000_000_000,
    ];
    world.switch_house_lights_with(LIGHT_INTERVAL + FRAME, FRAME, &rolls);
    let same: Vec<bool> = world.houses.iter().map(|h| h.light_status).collect();
    assert_eq!(before, same);
    world.switch_house_lights_with(LIGHT_INTERVAL, FRAME, &rolls);
    let flips = [true, true, false, false, true, false, true, false];
    for (i, house) in world.houses.iter().enumerate() {
        assert_eq!(house.light_status != before[i], flips[i]);
        assert_eq!(house.light_status, house.state == HouseState::Lit);
        assert_eq!(house.interaction_timer.elapsed, 0);
        assert_eq!(house.loot, LootType::Candy);
    }
    world.switch_house_lights_with(2 * LIGHT_INTERVAL, FRAME, &vec![0, 0]);
    for (i, house) in world.houses.iter().enumerate() {
        let flipped_twice = i < 2;
        assert_eq!(house.light_status != before[i], flips[i] != flipped_twice);
    }
    assert!(invariants_hold(&world));
}

#[test]
fn shooting_at_the_ghosts_own_spot_fires_and_leaves_the_meter() {
    let mut world = game();
    world.meter = Some(ProgressMeter { value: 100 * U, full: true });
    let spot = world.player.unwrap().position;
    assert!(world.shoot_balloon(&spot, true, false));
    assert_eq!(world.bullets.len(), 1);
    assert_eq!(world.bullets[0].position, spot);
    assert_eq!(world.bullets[0].direction, Vec2 { x: 0, y: 0 });
    assert_eq!(world.bullets[0].tint, BulletTint::Red);
    assert_eq!(world.meter, Some(ProgressMeter { value: 100 * U, full: true }));
    assert!(invariants_hold(&world));
}

#[test]
fn shooting_needs_a_full_meter() {
    let mut world = game();
    assert!(!world.shoot_balloon(&Vec2::new(40 * U, 0), true, false));
    assert!(world.bullets.is_empty());
    world.meter = Some(ProgressMeter { value: 100 * U, full: true });
    assert!(!world.shoot_balloon(&Vec2::new(40 * U, 0), false, false));
    assert!(world.shoot_balloon(&Vec2::new(40 * U, 0), false, true));
    assert_eq!(world.bullets.len(), 1);
    assert_eq!(world.bullets[0].tint, BulletTint::Blue);
    assert_eq!(world.bullets[0].direction, Vec2 { x: UNIT, y: 0 });
    assert_eq!(world.bullets[0].position, Vec2::zero());
}

#[test]
fn hit_destroys_bullet_and_balloon_and_sets_off_thirty_particles_and_a_text() {
    let mut world = game();
    world.meter = Some(ProgressMeter { value: 100 * U, full: true });
    let mut balloon = FloatingTarget::new();
    balloon.position = Vec2::new(40 * U, 0);
    world.balloon = Some(balloon);
    assert!(world.shoot_balloon(&Vec2::new(40 * U, 0), true, false));
    let seeds = world.bullet_system(FRAME);
    assert_eq!(seeds.len(), 30);
    assert_eq!(world.balloon, None);
    assert!(world.bullets.is_empty());
    assert_eq!(texts(&world), vec![Message::Jackpot]);
    assert_eq!(world.transients.len(), 1);
    for seed in seeds.iter() {
        assert_eq!(seed.position, Vec2 { x: 40 * U, y: 0 });
        let angle = seed.angle as f64 / 1e6;
        let direction = Vec2::new((angle.cos() * 1e6) as i64, (angle.sin() * 1e6) as i64);
        world.launch(seed, &direction);
    }
    assert_eq!(particles(&world), 12 + 8 + 6 + 4);
    assert_eq!(world.transients.len(), 31);
    assert!(world.bullet_system(FRAME).is_empty());
    assert!(world.shoot_balloon(&Vec2::new(40 * U, 0), true, false));
    assert!(world.bullet_system(FRAME).is_empty());
    assert_eq!(world.bullets.len(), 1);
    assert_eq!(world.balloon, None);
    assert_eq!(world.transients.len(), 31);
    assert!(invariants_hold(&world));
}

#[test]
fn particles_of_a_hit_fly_apart_and_burn_out() {
    let mut world = game();
    world.meter = Some(ProgressMeter { value: 100 * U, full: true });
    assert!(world.shoot_balloon(&Vec2::new(0, 40 * U), true, false));
    let seeds = world.bullet_system(FRAME);
    assert_eq!(seeds.len(), 30);
    for seed in seeds.iter() {
        let angle = seed.angle as f64 / 1e6;
        let direction = Vec2::new((angle.cos() * 1e6) as i64, (angle.sin() * 1e6) as i64);
        world.launch(seed, &direction);
    }
    let mut removed = 0;
    let mut frames = 0;
    while !world.transients.is_empty() {
        removed += world.update_transients(FRAME);
        frames += 1;
        assert!(invariants_hold(&world));
        if frames == 29 {
            assert_eq!(world.transients.len(), 31);
        }
        if frames == 30 {
            assert_eq!(world.transients.len(), 19);
            for e in world.transients.iter() {
                let far = e.position.distance(&Vec2::zero());
                match e.payload {
                    Payload::Particle { .. } => assert!(far > 10 * U as u64),
                    _ => {},
                }
            }
        }
        assert!(frames < 200);
    }
    assert_eq!(removed, 31);
    assert_eq!(frames, 90);
}

#[test]
fn sparkles_need_a_full_meter() {
    let mut world = game();
    for _ in 0..200 {
        assert!(!world.animate_progress_particles());
    }
    assert!(world.transients.is_empty());
    world.meter = Some(ProgressMeter { value: 100 * U, full: true });
    let mut sparkles = 0;
    for _ in 0..2000 {
        if world.animate_progress_particles() {
            sparkles += 1;
        }
    }
    assert_eq!(world.transients.len(), sparkles);
    assert!(sparkles > 120);
    assert!(sparkles < 280);
}

#[test]
fn loading_replaces_the_inventory_or_leaves_it() {
    let mut world = game();
    world.inventory.collect(LootType::Candy);
    world.load_game(None);
    assert_eq!(world.inventory.candies, 1);
    world.load_game(Some(PlayerInventory {
        candies: 12,
        rare_items: vec![LootType::SpecialTreat(String::from("caramel apple"))],
    }));
    assert_eq!(world.inventory.candies, 12);
    assert_eq!(
        world.inventory.rare_items,
        vec![LootType::SpecialTreat(String::from("caramel apple"))]
    );
}

#[test]
fn invariants_hold_through_a_whole_game() {
    let mut world = game();
    let mut state = GameState::initial().leave_menu();
    let stops = [
        Vec2::new(-300 * U, -300 * U),
        Vec2::new(0, -300 * U),
        Vec2::new(300 * U, -300 * U),
        Vec2::new(0, 0),
        Vec2::new(-300 * U, 0),
        Vec2::new(300 * U, 0),
        Vec2::new(0, 0),
    ];
    let mut elapsed: u64 = 0;
    let mut last_meter = 0;
    let mut fired = 0;
    for frame in 0..60_000u64 {
        if frame % 5_000 == 4_999 {
            state = state.toggle_pause().toggle_pause();
        }
        if !state.runs() {
            continue;
        }
        elapsed += FRAME;
        let cursor = stops[(frame / 400) as usize % stops.len()];
        world.spawn_ghost_trail(FRAME);
        world.update_transients(FRAME);
        world.follow_mouse(&cursor, (frame % 6_000) as i64 * 1_000 - 3_000_000, FRAME);
        let wave = ((frame % 100) as i64 - 50) * 20_000;
        world.float_ghost(
            Sines { primary: wave, secondary: -wave },
            Sines { primary: -wave, secondary: wave },
        );
        world.fade_ghost(FRAME);
        world.switch_house_lights(elapsed, FRAME);
        if state.plays() {
            world.ghost_house_interaction(FRAME);
        }
        world.candy_deposit_system();
        world.animate_progress_particles();
        for seed in world.bullet_system(FRAME).iter() {
            world.launch(seed, &Vec2::new(UNIT, 0));
        }
        if frame % 97 == 0 && world.shoot_balloon(&Vec2::new(0, 200 * U), true, false) {
            fired += 1;
        }
        assert!(invariants_hold(&world), "frame {}", frame);
        let meter = world.meter.unwrap().value;
        assert!(meter >= last_meter);
        last_meter = meter;
        assert!(world.transients.len() < 200);
        assert!(world.bullets.len() < 10);
    }
    assert!(world.inventory.candies > 0);
    assert!(last_meter > 0);
    assert!(fired == 0 || last_meter == 100 * U);
}

fn sines_of(phases: Option<Phases>) -> Sines {
    match phases {
        Some(p) => Sines {
            primary: ((p.primary as f64 / 1e6).sin() * 1e6) as i64,
            secondary: ((p.secondary as f64 / 1e6).sin() * 1e6) as i64,
        },
        None => STILL,
    }
}

fn input_at(world: &World, elapsed: u64, cursor: Vec2) -> TickInput {
    let (ghost_phases, balloon_phases) = world.float_phases(elapsed);
    let facing = match world.player {
        Some(ghost) => {
            let from = ghost.resting_place();
            let dx = (cursor.x - from.x) as f64;
            let dy = (cursor.y - from.y) as f64;
            (dy.atan2(dx) * 1e6) as i64
        },
        None => 0,
    };
    TickInput {
        delta: FRAME,
        elapsed,
        cursor,
        facing,
        left: false,
        right: false,
        state: GameState::Playing,
        ghost_sines: sines_of(ghost_phases),
        balloon_sines: sines_of(balloon_phases),
    }
}

#[test]
fn tick_runs_every_system_once() {
    let mut world = game();
    world.meter = Some(ProgressMeter { value: 100 * U, full: true });
    let mut balloon = FloatingTarget::new();
    balloon.position = Vec2::new(40 * U, 0);
    balloon.float.amplitude = 0;
    world.balloon = Some(balloon);
    let mut first = input_at(&world, FRAME, Vec2::new(40 * U, 0));
    first.left = true;
    let out = world.tick(&first).unwrap();
    assert_eq!(world.player.unwrap().rotation, 360_882);
    assert!(!out.look_changed);
    assert!(!out.trail_spawned);
    assert_eq!(out.notice, NoticeAction::Keep);
    assert_eq!(out.deposit, None);
    assert!(out.particles.is_empty());
    assert!(out.fired);
    assert_eq!(out.removed, 0);
    assert_eq!(world.bullets.len(), 1);
    assert_eq!(world.player.unwrap().position.x, 16_851_800);
    assert_eq!(world.trail.spawn_timer.elapsed, FRAME);
    assert_eq!(world.player.unwrap().fade.elapsed, FRAME);
    let second = input_at(&world, 2 * FRAME, Vec2::new(40 * U, 0));
    let out = world.tick(&second).unwrap();
    assert_eq!(out.particles.len(), 30);
    assert!(!out.fired);
    assert_eq!(world.balloon, None);
    assert!(world.bullets.is_empty());
    let told: Vec<Message> = texts(&world);
    assert_eq!(told, vec![Message::Jackpot]);
    let text = world
        .transients
        .iter()
        .find(|e| matches!(e.payload, Payload::FloatingText { .. }))
        .unwrap();
    assert_eq!(text.lifetime.elapsed, FRAME);
    assert_eq!(text.alpha, 983_334);
    assert!(invariants_hold(&world));
}

#[test]
fn tick_does_not_trick_or_treat_outside_the_game() {
    let mut world = game();
    for house in world.houses.iter_mut() {
        if !house.light_status {
            house.toggle_light();
        }
    }
    let mut ghost = Player::new();
    ghost.position = Vec2::new(300 * U, 300 * U);
    ghost.float.original_y = 300 * U;
    ghost.float.amplitude = 0;
    world.player = Some(ghost);
    let mut elapsed = 0;
    for _ in 0..400 {
        elapsed += FRAME;
        if elapsed % LIGHT_INTERVAL < FRAME {
            continue;
        }
        let mut input = input_at(&world, elapsed, Vec2::new(300 * U, 300 * U));
        input.state = GameState::Menu;
        let out = world.tick(&input).unwrap();
        assert_eq!(out.notice, NoticeAction::Keep);
    }
    assert_eq!(world.inventory.candies, 0);
    assert_eq!(world.player.unwrap().sack.current, 0);
    assert_eq!(world.houses[7].interaction_timer.elapsed, 0);
    let mut collected = 0;
    for _ in 0..400 {
        elapsed += FRAME;
        if elapsed % LIGHT_INTERVAL < FRAME {
            continue;
        }
        let input = input_at(&world, elapsed, Vec2::new(300 * U, 300 * U));
        assert!(world.tick(&input).is_some());
        collected = world.inventory.candies;
    }
    assert_eq!(collected, 2);
    assert_eq!(world.player.unwrap().sack.current, 2);
}

#[test]
fn invariants_hold_through_a_game_of_ticks() {
    let mut world = game();
    let stops = [
        Vec2::new(-300 * U, -300 * U),
        Vec2::new(0, 0),
        Vec2::new(300 * U, 0),
        Vec2::new(0, 0),
        Vec2::new(0, 300 * U),
        Vec2::new(10 * U, 0),
    ];
    let mut elapsed: u64 = 0;
    let mut last_meter = 0;
    let mut launched = 0;
    let mut hits = 0;
    for frame in 0..40_000u64 {
        elapsed += FRAME;
        let cursor = stops[(frame / 300) as usize % stops.len()];
        let mut input = input_at(&world, elapsed, cursor);
        input.left = frame % 97 == 0;
        input.right = frame % 61 == 0;
        let before = world.transients.len();
        let out = world.tick(&input).unwrap();
        assert!(invariants_hold(&world), "frame {}", frame);
        assert!(world.transients.len() + out.removed >= before);
        if !out.particles.is_empty() {
            hits += 1;
            assert_eq!(out.particles.len(), 30);
        }
        for seed in out.particles.iter() {
            let angle = seed.angle as f64 / 1e6;
            let direction = Vec2::new((angle.cos() * 1e6) as i64, (angle.sin() * 1e6) as i64);
            world.launch(seed, &direction);
            launched += 1;
        }
        let meter = world.meter.unwrap().value;
        assert!(meter >= last_meter);
        last_meter = meter;
        if out.fired {
            assert_eq!(meter, 100 * U);
        }
        let ghost = world.player.unwrap();
        assert!((ghost.position.y - ghost.float.original_y).abs() <= 13 * U);
    }
    assert!(hits <= 1);
    assert_eq!(launched, 30 * hits);
    assert!(world.balloon.is_none() == (hits == 1));
}

#[test]
fn paused_game_does_not_tick() {
    let mut world = game();
    world.meter = Some(ProgressMeter { value: 100 * U, full: true });
    let mut ghost = Player::new();
    ghost.sack = CandySack { capacity: 10, current: 5 };
    world.player = Some(ghost);
    let mut input = input_at(&world, LIGHT_INTERVAL, Vec2::new(10 * U, 0));
    input.state = GameState::Paused;
    input.left = true;
    input.delta = 10 * SECOND;
    let lights: Vec<bool> = world.houses.iter().map(|h| h.light_status).collect();
    for _ in 0..50 {
        assert_eq!(world.tick(&input), None);
    }
    assert_eq!(world.player, Some(ghost));
    assert_eq!(world.meter, Some(ProgressMeter { value: 100 * U, full: true }));
    assert!(world.bullets.is_empty());
    assert!(world.transients.is_empty());
    assert_eq!(world.trail, TrailSettings::new());
    assert_eq!(world.balloon, Some(FloatingTarget::new()));
    assert_eq!(lights, world.houses.iter().map(|h| h.light_status).collect::<Vec<bool>>());
    input.state = GameState::Menu;
    let out = world.tick(&input).unwrap();
    assert!(out.fired);
    assert_eq!(out.deposit, Some(DepositEvent { candies: 5, notice_removed: false }));
    assert!(out.look_changed);
    assert!(out.trail_spawned);
}
