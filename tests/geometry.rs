use tower_defense::geometry::{distance_squared, isqrt, scale_component};
use tower_defense::Vec3;

#[test]
fn isqrt_is_floor_of_square_root() {
    assert_eq!(isqrt(0), 0);
    assert_eq!(isqrt(1), 1);
    assert_eq!(isqrt(15), 3);
    assert_eq!(isqrt(16), 4);
    assert_eq!(isqrt(25_000_000), 5000);
    assert_eq!(isqrt(u128::MAX), u64::MAX);
}

#[test]
fn distance_squared_is_exact() {
    let a = Vec3::new(1000, 2000, -3000);
    let b = Vec3::new(4000, -2000, -3000);
    assert_eq!(distance_squared(&a, &b), 25_000_000);
}

#[test]
fn scale_component_rounds_toward_zero() {
    assert_eq!(scale_component(3000, 1000, 5000), 600);
    assert_eq!(scale_component(-3000, 1000, 5000), -600);
    assert_eq!(scale_component(1, 1, 3), 0);
    assert_eq!(scale_component(-1, 1, 3), 0);
}
