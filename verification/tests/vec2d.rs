use snake_game::utils::fixed::{int_sqrt, COORD_MAX, UNIT};
use snake_game::utils::vec2d::Vec2D;

#[test]
fn unit_is_one_million() {
    assert_eq!(UNIT, 1_000_000);
    assert_eq!(COORD_MAX, 1_000_000 * UNIT);
}

#[test]
fn int_sqrt_of_small_numbers() {
    assert_eq!(int_sqrt(0), 0);
    assert_eq!(int_sqrt(1), 1);
    assert_eq!(int_sqrt(2), 1);
    assert_eq!(int_sqrt(3), 1);
    assert_eq!(int_sqrt(4), 2);
    assert_eq!(int_sqrt(15), 3);
    assert_eq!(int_sqrt(16), 4);
    assert_eq!(int_sqrt(17), 4);
}

#[test]
fn int_sqrt_of_large_numbers() {
    assert_eq!(int_sqrt(1_000_000_000_000), 1_000_000);
    assert_eq!(int_sqrt(999_999_999_999), 999_999);
    assert_eq!(int_sqrt(u128::MAX), u64::MAX);
    assert_eq!(int_sqrt(1u128 << 64), 1u64 << 32);
    assert_eq!(int_sqrt((1u128 << 64) - 1), (1u64 << 32) - 1);
}

#[test]
fn new_keeps_the_coordinates() {
    let v = Vec2D::new(-7, 9);
    assert_eq!(v.x, -7);
    assert_eq!(v.y, 9);
}

#[test]
fn len_of_a_3_4_5_triangle() {
    assert_eq!(Vec2D::new(3 * UNIT, 4 * UNIT).len(), 5 * UNIT);
    assert_eq!(Vec2D::new(-3 * UNIT, 4 * UNIT).len(), 5 * UNIT);
    assert_eq!(Vec2D::new(3 * UNIT, -4 * UNIT).len(), 5 * UNIT);
}

#[test]
fn len_rounds_down() {
    assert_eq!(Vec2D::new(1, 1).len(), 1);
    assert_eq!(Vec2D::new(UNIT, UNIT).len(), 1_414_213);
    assert_eq!(Vec2D::new(0, 0).len(), 0);
}

#[test]
fn len_at_the_limit_of_an_offset() {
    let v = Vec2D::new(2 * COORD_MAX, -2 * COORD_MAX);
    assert_eq!(v.len(), 2_828_427_124_746);
}

#[test]
fn dist_between_two_points() {
    let a = Vec2D::new(10 * UNIT, 20 * UNIT);
    let b = Vec2D::new(13 * UNIT, 16 * UNIT);
    assert_eq!(Vec2D::dist(a, b), 5 * UNIT);
    assert_eq!(Vec2D::dist(b, a), 5 * UNIT);
    assert_eq!(Vec2D::dist(a, a), 0);
}

#[test]
fn dist_across_the_whole_range() {
    let a = Vec2D::new(-COORD_MAX, 0);
    let b = Vec2D::new(COORD_MAX, 0);
    assert_eq!(Vec2D::dist(a, b), 2 * COORD_MAX);
}

#[test]
fn norm_scales_to_unit_length_in_place() {
    let mut v = Vec2D::new(3 * UNIT, 4 * UNIT);
    let r = v.norm();
    assert_eq!(v, Vec2D::new(600_000, 800_000));
    assert_eq!(r, v);
}

#[test]
fn norm_keeps_the_signs() {
    let mut v = Vec2D::new(-3 * UNIT, 4 * UNIT);
    assert_eq!(v.norm(), Vec2D::new(-600_000, 800_000));
    let mut w = Vec2D::new(0, -17);
    assert_eq!(w.norm(), Vec2D::new(0, -UNIT));
}

#[test]
fn norm_rounds_toward_zero() {
    let mut v = Vec2D::new(UNIT, -UNIT);
    assert_eq!(v.norm(), Vec2D::new(707_107, -707_107));
}

#[test]
fn sum_difference_and_dot_product() {
    let a = Vec2D::new(1, 2);
    let b = Vec2D::new(10, -20);
    assert_eq!(a + b, Vec2D::new(11, -18));
    assert_eq!(a - b, Vec2D::new(-9, 22));
    assert_eq!(a * b, -30);
}

#[test]
fn dot_product_of_large_vectors() {
    let a = Vec2D::new(i64::MAX, 0);
    assert_eq!(a * a, (i64::MAX as i128) * (i64::MAX as i128));
}

#[test]
fn is_in_range_at_the_limits() {
    assert!(Vec2D::new(COORD_MAX, -COORD_MAX).is_in_range());
    assert!(!Vec2D::new(COORD_MAX + 1, 0).is_in_range());
    assert!(!Vec2D::new(0, -COORD_MAX - 1).is_in_range());
}
