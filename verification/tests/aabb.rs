use pbrt_rs::aabb::{floor_div, AABB, MIN_THICKNESS};
use pbrt_rs::ray::{Ray, Vec3};
use pbrt_rs::util::{Interval, NEG_INF, POS_INF};

fn cube(lo: i32, hi: i32) -> AABB {
    AABB::new(Vec3::new(lo, lo, lo), Vec3::new(hi, hi, hi))
}

#[test]
fn new_orders_the_corners() {
    let b = AABB::new(Vec3::new(5, -1, 9), Vec3::new(-3, 4, 2));
    assert_eq!(b.x, Interval::new(-3, 5));
    assert_eq!(b.y, Interval::new(-1, 4));
    assert_eq!(b.z, Interval::new(2, 9));
}

#[test]
fn new_pads_a_flat_axis() {
    let b = AABB::new(Vec3::new(0, 7, 0), Vec3::new(10, 7, 10));
    assert_eq!(b.y, Interval::new(6, 8));
    assert!(b.y.size() >= MIN_THICKNESS);
    assert_eq!(b.x, Interval::new(0, 10));
}

#[test]
fn new_pads_an_axis_one_cell_long() {
    let b = AABB::new(Vec3::new(0, 0, 0), Vec3::new(1, 2, 3));
    assert_eq!(b.x, Interval::new(-1, 2));
    assert_eq!(b.y, Interval::new(0, 2));
    assert_eq!(b.z, Interval::new(0, 3));
}

#[test]
fn merge_holds_both_boxes() {
    let a = cube(0, 10);
    let b = AABB::new(Vec3::new(-5, 3, 20), Vec3::new(2, 4, 30));
    let m = AABB::merge(&a, &b);
    assert_eq!(m.x, Interval::new(-5, 10));
    assert_eq!(m.y, Interval::new(0, 10));
    assert_eq!(m.z, Interval::new(0, 30));
    for (iv, part) in [(m.x, a.x), (m.y, a.y), (m.z, a.z), (m.x, b.x), (m.y, b.y), (m.z, b.z)] {
        assert!(iv.contains(part.min));
        assert!(iv.contains(part.max));
    }
}

#[test]
fn merge_is_commutative_and_associative_on_boxes() {
    let a = cube(0, 10);
    let b = AABB::new(Vec3::new(-5, 3, 20), Vec3::new(2, 4, 30));
    let c = AABB::new(Vec3::new(100, -100, 0), Vec3::new(101, -90, 0));
    assert_eq!(AABB::merge(&a, &b), AABB::merge(&b, &a));
    assert_eq!(
        AABB::merge(&AABB::merge(&a, &b), &c),
        AABB::merge(&a, &AABB::merge(&b, &c))
    );
}

#[test]
fn merge_with_empty_is_neutral() {
    let a = cube(-4, 9);
    assert_eq!(AABB::merge(&AABB::empty(), &a), a);
    assert_eq!(AABB::merge(&a, &AABB::empty()), a);
    assert_eq!(AABB::merge(&AABB::empty(), &AABB::empty()), AABB::empty());
}

#[test]
fn merge_pads_boxes_that_were_not_constructed() {
    let flat = AABB { x: Interval::new(0, 0), y: Interval::new(0, 0), z: Interval::new(0, 0) };
    let far = AABB { x: Interval::new(10, 10), y: Interval::new(10, 10), z: Interval::new(10, 10) };
    let left = AABB::merge(&AABB::merge(&flat, &flat), &far);
    let right = AABB::merge(&flat, &AABB::merge(&flat, &far));
    assert_eq!(left.x, Interval::new(-1, 10));
    assert_eq!(right.x, Interval::new(0, 10));
}

#[test]
fn longest_axis_picks_the_greatest() {
    assert_eq!(AABB::new(Vec3::new(0, 0, 0), Vec3::new(9, 5, 7)).longest_axis(), 0);
    assert_eq!(AABB::new(Vec3::new(0, 0, 0), Vec3::new(4, 8, 7)).longest_axis(), 1);
    assert_eq!(AABB::new(Vec3::new(0, 0, 0), Vec3::new(4, 5, 7)).longest_axis(), 2);
}

#[test]
fn longest_axis_breaks_ties_toward_the_higher_axis() {
    assert_eq!(cube(0, 5).longest_axis(), 2);
    assert_eq!(AABB::new(Vec3::new(0, 0, 0), Vec3::new(8, 8, 3)).longest_axis(), 1);
    assert_eq!(AABB::new(Vec3::new(0, 0, 0), Vec3::new(8, 3, 8)).longest_axis(), 2);
    assert_eq!(AABB::new(Vec3::new(0, 0, 0), Vec3::new(3, 8, 8)).longest_axis(), 2);
}

#[test]
fn axis_selects_by_number() {
    let b = AABB::new(Vec3::new(1, 2, 3), Vec3::new(11, 12, 13));
    assert_eq!(*b.axis(0), Interval::new(1, 11));
    assert_eq!(*b.axis(1), Interval::new(2, 12));
    assert_eq!(*b.axis(2), Interval::new(3, 13));
    assert_eq!(*b.axis(7), Interval::new(3, 13));
}

#[test]
fn slab_test_hits_a_box_ahead() {
    let b = cube(10, 20);
    let ray = Ray::new(Vec3::new(0, 0, 0), Vec3::new(1, 1, 1));
    let mut iv = Interval::new(0, POS_INF);
    assert!(b.hit(&ray, &mut iv));
    assert_eq!(iv, Interval::new(10, 20));
}

#[test]
fn slab_test_misses_a_box_behind() {
    let b = cube(10, 20);
    let ray = Ray::new(Vec3::new(0, 0, 0), Vec3::new(-1, -1, -1));
    let mut iv = Interval::new(0, POS_INF);
    assert!(!b.hit(&ray, &mut iv));
}

#[test]
fn slab_test_misses_a_box_beside() {
    let b = cube(10, 20);
    let ray = Ray::new(Vec3::new(0, 0, 0), Vec3::new(1, 3, 1));
    let mut iv = Interval::new(0, POS_INF);
    assert!(!b.hit(&ray, &mut iv));
}

#[test]
fn slab_test_with_ray_along_an_axis_inside_the_slabs() {
    let b = cube(10, 20);
    let ray = Ray::new(Vec3::new(15, 15, 0), Vec3::new(0, 0, 2));
    let mut iv = Interval::new(0, POS_INF);
    assert!(b.hit(&ray, &mut iv));
    assert_eq!(iv, Interval::new(5, 10));
}

#[test]
fn slab_test_with_ray_along_an_axis_outside_a_slab() {
    let b = cube(10, 20);
    let below = Ray::new(Vec3::new(15, 9, 0), Vec3::new(0, 0, 2));
    let mut iv = Interval::new(0, POS_INF);
    assert!(!b.hit(&below, &mut iv));
    let above = Ray::new(Vec3::new(21, 15, 0), Vec3::new(0, 0, 2));
    let mut iv = Interval::new(0, POS_INF);
    assert!(!b.hit(&above, &mut iv));
}

#[test]
fn slab_test_with_ray_along_an_axis_on_a_face() {
    let b = cube(10, 20);
    let ray = Ray::new(Vec3::new(10, 20, 0), Vec3::new(0, 0, 1));
    let mut iv = Interval::new(0, POS_INF);
    assert!(b.hit(&ray, &mut iv));
    assert_eq!(iv, Interval::new(10, 20));
}

#[test]
fn slab_test_rounds_outward() {
    let b = cube(10, 20);
    let ray = Ray::new(Vec3::new(0, 0, 0), Vec3::new(3, 3, 3));
    let mut iv = Interval::new(0, POS_INF);
    assert!(b.hit(&ray, &mut iv));
    assert_eq!(iv, Interval::new(3, 7));
}

#[test]
fn slab_test_with_negative_direction() {
    let b = cube(10, 20);
    let ray = Ray::new(Vec3::new(30, 30, 30), Vec3::new(-3, -3, -3));
    let mut iv = Interval::new(NEG_INF, POS_INF);
    assert!(b.hit(&ray, &mut iv));
    assert_eq!(iv, Interval::new(3, 7));
}

#[test]
fn slab_test_respects_the_working_interval() {
    let b = cube(10, 20);
    let ray = Ray::new(Vec3::new(0, 0, 0), Vec3::new(1, 1, 1));
    let mut iv = Interval::new(0, 10);
    assert!(!b.hit(&ray, &mut iv));
    let mut iv = Interval::new(12, 15);
    assert!(b.hit(&ray, &mut iv));
    assert_eq!(iv, Interval::new(12, 15));
    let mut iv = Interval::new(20, 30);
    assert!(!b.hit(&ray, &mut iv));
}

#[test]
fn slab_test_stops_at_the_first_emptied_axis() {
    let b = cube(10, 20);
    let ray = Ray::new(Vec3::new(0, 100, 0), Vec3::new(1, 1, 1));
    let mut iv = Interval::new(0, POS_INF);
    assert!(!b.hit(&ray, &mut iv));
    assert_eq!(iv, Interval::new(10, -80));
}

#[test]
fn slab_test_against_the_universe_and_the_empty_box() {
    let ray = Ray::new(Vec3::new(0, 0, 0), Vec3::new(1, -2, 3));
    let mut iv = Interval::new(1, 50);
    assert!(AABB::universe().hit(&ray, &mut iv));
    assert_eq!(iv, Interval::new(1, 50));
    let mut iv = Interval::new(1, 50);
    assert!(!AABB::empty().hit(&ray, &mut iv));
}

#[test]
fn add_vec_moves_the_box() {
    let b = cube(0, 10).add_vec(Vec3::new(5, -5, 100));
    assert_eq!(b.x, Interval::new(5, 15));
    assert_eq!(b.y, Interval::new(-5, 5));
    assert_eq!(b.z, Interval::new(100, 110));
    assert_eq!(AABB::empty().add_vec(Vec3::new(5, -5, 100)), AABB::empty());
    assert_eq!(cube(0, 10).add_scalar(3), cube(3, 13));
}

#[test]
fn default_box_is_empty() {
    assert_eq!(AABB::default(), AABB::empty());
}

#[test]
fn floor_div_rounds_toward_negative_infinity() {
    assert_eq!(floor_div(7, 2), 3);
    assert_eq!(floor_div(-7, 2), -4);
    assert_eq!(floor_div(-8, 2), -4);
    assert_eq!(floor_div(0, 5), 0);
    assert_eq!(floor_div(-1, 5), -1);
    assert_eq!(floor_div(4, 5), 0);
}

#[test]
fn slab_test_is_decided_exactly() {
    // the ray is in the x slab for the parameters 1.1 to 1.3 only, in the y slab for 1.6 to
    // 1.8 only: it never enters the box, though both ranges round outward to 1..2
    let b = AABB::new(Vec3::new(0, 0, 0), Vec3::new(2, 2, 2));
    let ray = Ray::new(Vec3::new(-11, -16, 1), Vec3::new(10, 10, 0));
    let mut iv = Interval::new(0, POS_INF);
    assert!(!b.hit(&ray, &mut iv));
    // a ray that is inside for 1.1 to 1.3 on both axes is found between whole parameters
    let through = Ray::new(Vec3::new(-11, -11, 1), Vec3::new(10, 10, 0));
    let mut iv = Interval::new(0, POS_INF);
    assert!(b.hit(&through, &mut iv));
    assert_eq!(iv, Interval::new(1, 2));
    // the interval is compared exactly too: the ray leaves at 1.3, before 2
    let mut iv = Interval::new(2, POS_INF);
    assert!(!b.hit(&through, &mut iv));
    let mut iv = Interval::new(1, POS_INF);
    assert!(b.hit(&through, &mut iv));
}

#[test]
fn slab_test_misses_a_ray_that_touches_an_edge() {
    let b = cube(10, 20);
    // enters the x slab at 10 where it leaves the y slab
    let ray = Ray::new(Vec3::new(0, 20, 15), Vec3::new(1, -1, 0));
    let mut iv = Interval::new(0, POS_INF);
    assert!(!b.hit(&ray, &mut iv));
    // through the edge and on into the box
    let into = Ray::new(Vec3::new(0, 0, 15), Vec3::new(1, 1, 0));
    let mut iv = Interval::new(0, POS_INF);
    assert!(b.hit(&into, &mut iv));
    assert_eq!(iv, Interval::new(10, 20));
    // along a face it stays for a while
    let along = Ray::new(Vec3::new(0, 20, 15), Vec3::new(1, 0, 0));
    let mut iv = Interval::new(0, POS_INF);
    assert!(b.hit(&along, &mut iv));
    assert_eq!(iv, Interval::new(10, 20));
}
