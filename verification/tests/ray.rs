use pbrt_rs::ray::{mul32, mul64, narrow32, Ray, Vec2, Vec3};

#[test]
fn vec3_arithmetic_saturates() {
    let a = Vec3::new(i32::MAX, i32::MIN, 5);
    let b = Vec3::new(1, 1, -7);
    assert_eq!(a.plus(&b), Vec3::new(i32::MAX, i32::MIN + 1, -2));
    assert_eq!(a.minus(&b), Vec3::new(i32::MAX - 1, i32::MIN, 12));
    assert_eq!(a.negated(), Vec3::new(-i32::MAX, i32::MAX, -5));
    assert_eq!(Vec3::zeros(), Vec3::new(0, 0, 0));
}

#[test]
fn vec3_dot_is_exact() {
    let a = Vec3::new(i32::MIN, i32::MIN, i32::MIN);
    assert_eq!(a.dot(&a), 3 * (1i128 << 62));
    assert_eq!(Vec3::new(1, 2, 3).dot(&Vec3::new(4, -5, 6)), 12);
    assert_eq!(mul32(i32::MIN, i32::MIN), 1i64 << 62);
    assert_eq!(mul64(i64::MIN, i32::MIN), 1i128 << 94);
    assert_eq!(narrow32(1 << 40), i32::MAX);
    assert_eq!(narrow32(-(1 << 40)), i32::MIN);
    assert_eq!(narrow32(-17), -17);
}

#[test]
fn vec3_index() {
    let a = Vec3::new(1, 2, 3);
    assert_eq!((a.index(0), a.index(1), a.index(2), a.index(9)), (1, 2, 3, 3));
    assert_eq!(Vec2::new(4, 5), Vec2 { x: 4, y: 5 });
}

#[test]
fn ray_at() {
    let r = Ray::new(Vec3::new(1, 2, 3), Vec3::new(10, -20, 0));
    assert_eq!(r.time, 0);
    assert_eq!(r.at(0), Vec3::new(1, 2, 3));
    assert_eq!(r.at(3), Vec3::new(31, -58, 3));
    assert_eq!(r.at(-1), Vec3::new(-9, 22, 3));
    assert_eq!(r.at(i64::MAX), Vec3::new(i32::MAX, i32::MIN, 3));
    let timed = Ray::new_with_time(Vec3::new(1, 2, 3), Vec3::new(10, -20, 0), 17);
    assert_eq!(timed.time, 17);
    assert_eq!(Ray::default(), Ray::new(Vec3::new(0, 0, 0), Vec3::new(0, 0, 0)));
}
