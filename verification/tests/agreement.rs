use std::time::Duration;

use spooky_pranks::easing::{ease_out_cubic, lerp};
use spooky_pranks::fixed::UNIT;
use spooky_pranks::geometry::Vec2;
use spooky_pranks::player::FloatingAnimation;
use spooky_pranks::timer::{Timer, TimerMode};

fn engine_mode(mode: TimerMode) -> bevy::time::TimerMode {
    match mode {
        TimerMode::Once => bevy::time::TimerMode::Once,
        TimerMode::Repeating => bevy::time::TimerMode::Repeating,
    }
}

fn same_state(ours: &Timer, theirs: &bevy::time::Timer) {
    assert_eq!(ours.finished(), theirs.finished());
    assert_eq!(ours.just_finished(), theirs.just_finished());
    assert_eq!(ours.elapsed as u128, theirs.elapsed().as_nanos());
    assert_eq!(ours.duration as u128, theirs.duration().as_nanos());
    let share = ours.fraction() as f64 / UNIT as f64;
    assert!((share - theirs.fraction() as f64).abs() < 2e-6);
}

fn run_side_by_side(duration: u64, mode: TimerMode, deltas: &[u64]) {
    let mut ours = Timer::new(duration, mode);
    let mut theirs = bevy::time::Timer::new(Duration::from_nanos(duration), engine_mode(mode));
    same_state(&ours, &theirs);
    for (step, delta) in deltas.iter().enumerate() {
        ours.tick(*delta);
        theirs.tick(Duration::from_nanos(*delta));
        same_state(&ours, &theirs);
        if step % 17 == 16 {
            ours.reset();
            theirs.reset();
            same_state(&ours, &theirs);
        }
    }
}

#[test]
fn timer_agrees_with_the_engine_timer_on_the_game_timers() {
    let frames = vec![16_666_667u64; 400];
    for duration in [50_000_000, 500_000_000, 800_000_000, 1_000_000_000, 3_000_000_000] {
        run_side_by_side(duration, TimerMode::Once, &frames);
        run_side_by_side(duration, TimerMode::Repeating, &frames);
    }
}

#[test]
fn timer_agrees_with_the_engine_timer_on_random_runs() {
    for round in 0..400u64 {
        let duration = match round % 4 {
            0 => 0,
            1 => rand::random::<u64>() % 1_000,
            2 => rand::random::<u64>() % 5_000_000_000,
            _ => rand::random::<u64>() % (1 << 40),
        };
        let mut deltas = Vec::new();
        for _ in 0..60 {
            let delta = match rand::random::<u8>() % 5 {
                0 => 0,
                1 => rand::random::<u64>() % 10,
                2 => rand::random::<u64>() % 100_000_000,
                3 => duration,
                _ => rand::random::<u64>() % (1 << 42),
            };
            deltas.push(delta);
        }
        run_side_by_side(duration, TimerMode::Once, &deltas);
        run_side_by_side(duration, TimerMode::Repeating, &deltas);
    }
}

#[test]
fn easing_agrees_with_the_real_formula() {
    let mut x = 0i64;
    while x <= 3 * UNIT {
        let real = 1.0 - (1.0 - x as f64 / 1e6).powi(3);
        let ours = ease_out_cubic(x) as f64 / 1e6;
        assert!((ours - real).abs() < 1.5e-6, "x {} ours {} real {}", x, ours, real);
        x += 997;
    }
}

#[test]
fn lerp_agrees_with_the_engine_vectors() {
    for _ in 0..2000 {
        let a = (rand::random::<i32>() % 1_000_000) as i64 * 1_000;
        let b = (rand::random::<i32>() % 1_000_000) as i64 * 1_000;
        let t = (rand::random::<u32>() % 1_000_001) as i64;
        let ours = lerp(a, b, t) as f64 / 1e6;
        let from = bevy::math::DVec2::new(a as f64 / 1e6, 0.0);
        let to = bevy::math::DVec2::new(b as f64 / 1e6, 0.0);
        let theirs = from.lerp(to, t as f64 / 1e6).x;
        assert!((ours - theirs).abs() < 2e-6, "a {} b {} t {}", a, b, t);
    }
}

#[test]
fn distance_and_direction_agree_with_the_engine_vectors() {
    for _ in 0..2000 {
        let ax = (rand::random::<i32>() % 2_000_000) as i64 * 1_000;
        let ay = (rand::random::<i32>() % 2_000_000) as i64 * 1_000;
        let bx = (rand::random::<i32>() % 2_000_000) as i64 * 1_000;
        let by = (rand::random::<i32>() % 2_000_000) as i64 * 1_000;
        let a = Vec2::new(ax, ay);
        let b = Vec2::new(bx, by);
        let from = bevy::math::DVec2::new(ax as f64 / 1e6, ay as f64 / 1e6);
        let to = bevy::math::DVec2::new(bx as f64 / 1e6, by as f64 / 1e6);
        let theirs = from.distance(to);
        let ours = a.distance(&b) as f64 / 1e6;
        assert!((ours - theirs).abs() < 2e-6);
        assert_eq!(a.within(&b, 100_000_000), theirs < 100.0);
        if theirs > 1.0 {
            let direction = a.toward(&b).unwrap();
            let unit = (to - from).normalize();
            assert!((direction.x as f64 / 1e6 - unit.x).abs() < 3e-6);
            assert!((direction.y as f64 / 1e6 - unit.y).abs() < 3e-6);
        }
    }
}

#[test]
fn floating_agrees_with_the_real_waves() {
    let anim =
        FloatingAnimation { original_y: 40_000_000, amplitude: 10_000_000, frequency: 2_000_000 };
    for frame in 0..2000u64 {
        let elapsed = frame * 16_666_667;
        let seconds = elapsed as f64 / 1e9;
        let real = 40.0 + (seconds * 2.0).sin() * 10.0 + (seconds * 5.0).sin() * 3.0;
        let phases = anim.phases(elapsed);
        let sin1 = ((phases.primary as f64 / 1e6).sin() * 1e6) as i64;
        let sin2 = ((phases.secondary as f64 / 1e6).sin() * 1e6) as i64;
        let ours = anim.float_height(sin1, sin2) as f64 / 1e6;
        assert!((ours - real).abs() < 1e-4, "frame {} ours {} real {}", frame, ours, real);
    }
}
