use spooky_pranks::geometry::{gap, Vec2, COORD_MAX};

const U: i64 = 1_000_000;

#[test]
fn new_point_is_brought_into_the_world() {
    assert_eq!(Vec2::new(3, -4), Vec2 { x: 3, y: -4 });
    assert_eq!(Vec2::new(i64::MAX, i64::MIN), Vec2 { x: COORD_MAX, y: -COORD_MAX });
    assert_eq!(Vec2::zero(), Vec2 { x: 0, y: 0 });
}

#[test]
fn gap_is_the_absolute_difference() {
    assert_eq!(gap(3, 10), 7);
    assert_eq!(gap(10, 3), 7);
    assert_eq!(gap(i64::MIN, i64::MAX), u64::MAX as u128);
}

#[test]
fn within_is_strict() {
    let a = Vec2::new(0, 0);
    assert!(a.within(&Vec2::new(30 * U, 40 * U), 50 * U as u64 + 1));
    assert!(!a.within(&Vec2::new(30 * U, 40 * U), 50 * U as u64));
    assert!(!a.within(&Vec2::new(30 * U, 40 * U), 0));
    assert!(!a.within(&a, 0));
    assert!(a.within(&a, 1));
    assert!(a.within(&Vec2::new(99 * U, 0), 100 * U as u64));
    assert!(!a.within(&Vec2::new(100 * U, 0), 100 * U as u64));
    assert!(!a.within(&Vec2::new(71 * U, 71 * U), 100 * U as u64));
    assert!(a.within(&Vec2::new(70 * U, 70 * U), 100 * U as u64));
}

#[test]
fn within_and_beyond_cope_with_the_whole_range() {
    let a = Vec2 { x: i64::MIN, y: i64::MIN };
    let b = Vec2 { x: i64::MAX, y: i64::MAX };
    assert!(!a.within(&b, u64::MAX));
    assert!(a.beyond(&b, u64::MAX));
    assert!(a.within(&a, u64::MAX));
    assert!(!a.beyond(&a, 0));
    let c = Vec2 { x: i64::MAX, y: i64::MIN };
    assert!(!a.within(&c, u64::MAX));
    assert!(!a.beyond(&c, u64::MAX));
    assert!(a.beyond(&c, u64::MAX - 1));
}

#[test]
fn beyond_is_strict() {
    let origin = Vec2::zero();
    assert!(!Vec2::new(1000 * U, 0).beyond(&origin, 1000 * U as u64));
    assert!(Vec2::new(1000 * U + 1, 0).beyond(&origin, 1000 * U as u64));
    assert!(Vec2::new(800 * U, 601 * U).beyond(&origin, 1000 * U as u64));
    assert!(!Vec2::new(800 * U, 600 * U).beyond(&origin, 1000 * U as u64));
}

#[test]
fn distance_rounds_down() {
    let a = Vec2::new(0, 0);
    assert_eq!(a.distance(&Vec2::new(30 * U, 40 * U)), 50_000_000);
    assert_eq!(a.distance(&Vec2::new(100 * U, 50 * U)), 111_803_398);
    assert_eq!(a.distance(&a), 0);
    assert_eq!(a.distance(&Vec2::new(1, 1)), 1);
    assert_eq!(
        Vec2::new(-COORD_MAX, -COORD_MAX).distance(&Vec2::new(COORD_MAX, COORD_MAX)),
        2_828_427_124_746_190
    );
}

#[test]
fn toward_gives_a_unit_direction() {
    let a = Vec2::new(0, 0);
    assert_eq!(a.toward(&Vec2::new(30 * U, 40 * U)), Some(Vec2 { x: 600_000, y: 800_000 }));
    assert_eq!(a.toward(&Vec2::new(7 * U, -24 * U)), Some(Vec2 { x: 280_000, y: -960_000 }));
    assert_eq!(a.toward(&Vec2::new(40 * U, 0)), Some(Vec2 { x: 1_000_000, y: 0 }));
    assert_eq!(a.toward(&Vec2::new(0, -5)), Some(Vec2 { x: 0, y: -1_000_000 }));
    assert_eq!(
        Vec2::new(10 * U, 10 * U).toward(&Vec2::new(-20 * U, -30 * U)),
        Some(Vec2 { x: -600_000, y: -800_000 })
    );
}

#[test]
fn toward_has_no_direction_to_the_same_point() {
    let a = Vec2::new(5, 5);
    assert_eq!(a.toward(&a), None);
    assert_eq!(Vec2::zero().toward(&Vec2::zero()), None);
}

#[test]
fn point_lerp_moves_both_coordinates() {
    let a = Vec2::new(0, 0);
    let b = Vec2::new(100 * U, 50 * U);
    assert_eq!(a.lerp(&b, 421_295), Vec2 { x: 42_129_500, y: 21_064_750 });
    assert_eq!(a.lerp(&b, 0), a);
    assert_eq!(a.lerp(&b, U), b);
}

#[test]
fn advance_moves_with_the_velocity() {
    let p = Vec2::new(0, 0);
    let v = Vec2 { x: 500 * U, y: -250 * U };
    assert_eq!(p.advance(&v, 16_666_667), Vec2 { x: 8_333_333, y: -4_166_666 });
    assert_eq!(p.advance(&v, 1_000_000_000), Vec2 { x: 500 * U, y: -250 * U });
    assert_eq!(p.advance(&v, 0), p);
}

#[test]
fn advance_stops_at_the_edge_of_the_world() {
    let p = Vec2::new(COORD_MAX - 5, -COORD_MAX + 5);
    let v = Vec2 { x: 10, y: -10 };
    assert_eq!(p.advance(&v, 1_000_000_000), Vec2 { x: COORD_MAX, y: -COORD_MAX });
    let fast = Vec2 { x: i64::MAX, y: i64::MIN };
    assert_eq!(
        Vec2::zero().advance(&fast, u64::MAX),
        Vec2 { x: COORD_MAX, y: -COORD_MAX }
    );
}
