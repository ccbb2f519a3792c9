use spooky_pranks::angle::{turn_toward, wrap, HALF_TURN, QUARTER_TURN, TAU};
use spooky_pranks::fixed::UNIT;

#[test]
fn wrap_brings_an_angle_within_half_a_turn_of_zero() {
    assert_eq!(wrap(0), 0);
    assert_eq!(wrap(1_000_000), 1_000_000);
    assert_eq!(wrap(-1_000_000), -1_000_000);
    assert_eq!(wrap(HALF_TURN as i128), HALF_TURN);
    assert_eq!(wrap(-HALF_TURN as i128), -HALF_TURN);
    assert_eq!(wrap(HALF_TURN as i128 + 1), -HALF_TURN);
    assert_eq!(wrap(-HALF_TURN as i128 - 1), HALF_TURN);
    assert_eq!(wrap(TAU as i128), 0);
    assert_eq!(wrap(7 * TAU as i128 + 5), 5);
    assert_eq!(wrap(-7 * TAU as i128 + 5), 5);
    assert_eq!(wrap(1_000_000_000_000), -308_675);
    assert_eq!(wrap(-1_000_000_000_000), 308_675);
    assert_eq!(wrap(1 << 96), ((1i128 << 96) + 3_141_592).rem_euclid(6_283_185) as i64 - 3_141_592);
    assert_eq!(
        wrap(-(1 << 96)),
        (-(1i128 << 96) + 3_141_592).rem_euclid(6_283_185) as i64 - 3_141_592
    );
}

#[test]
fn turning_covers_a_share_of_the_way() {
    assert_eq!(turn_toward(0, QUARTER_TURN, 229_745), 360_882);
    assert_eq!(turn_toward(0, QUARTER_TURN, 0), 0);
    assert_eq!(turn_toward(0, QUARTER_TURN, UNIT), QUARTER_TURN);
    assert_eq!(turn_toward(0, 2_034_443, 229_745), 467_403);
    assert_eq!(turn_toward(1_000_000, -1_000_000, 500_000), 0);
    assert_eq!(turn_toward(-1_000_000, 1_000_000, 250_000), -500_000);
}

#[test]
fn turning_takes_the_shorter_way_round() {
    assert_eq!(turn_toward(3_000_000, -3_000_000, 500_000), 3_141_592);
    assert_eq!(turn_toward(3_000_000, -3_000_000, 500_004), -3_141_592);
    assert_eq!(turn_toward(3_000_000, -3_000_000, UNIT), -3_000_000);
    assert_eq!(turn_toward(-3_000_000, 3_000_000, 250_000), -3_070_796);
    assert_eq!(turn_toward(-3_000_000, 3_000_000, UNIT), 3_000_000);
}

#[test]
fn turning_beyond_the_whole_way_carries_on() {
    assert_eq!(turn_toward(0, QUARTER_TURN, 2 * UNIT), 3_141_592);
    assert_eq!(turn_toward(0, 1_000_000, 3 * UNIT), 3_000_000);
    assert_eq!(turn_toward(0, 1_000_000, 7 * UNIT), 7_000_000 - TAU);
}

#[test]
fn turning_copes_with_the_whole_range() {
    for (current, target, share) in [
        (i64::MAX, i64::MIN, i64::MAX),
        (i64::MIN, i64::MAX, i64::MIN),
        (i64::MAX, i64::MAX, i64::MAX),
        (0, i64::MIN, 1),
    ] {
        let r = turn_toward(current, target, share);
        assert!(r >= -HALF_TURN && r <= HALF_TURN);
    }
}

#[test]
fn turning_agrees_with_the_engine_rotations() {
    for _ in 0..2000 {
        let current = (rand::random::<u32>() % 6_283_185) as i64 - 3_141_592;
        let target = (rand::random::<u32>() % 6_283_185) as i64 - 3_141_592;
        let share = (rand::random::<u32>() % 1_000_001) as i64;
        let gap = (target - current).rem_euclid(6_283_185);
        if (gap - 3_141_592).abs() < 1_000 {
            continue;
        }
        let ours = turn_toward(current, target, share) as f64 / 1e6;
        let from = bevy::math::DQuat::from_rotation_z(current as f64 / 1e6);
        let to = bevy::math::DQuat::from_rotation_z(target as f64 / 1e6);
        let theirs = from.slerp(to, share as f64 / 1e6);
        let ours = bevy::math::DQuat::from_rotation_z(ours);
        assert!(ours.angle_between(theirs) < 1e-5, "{} {} {}", current, target, share);
    }
}
