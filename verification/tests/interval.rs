use pbrt_rs::util::{distance, random_int, shift, Interval, NEG_INF, POS_INF, UNIT};

#[test]
fn interval_contains_is_closed() {
    let iv = Interval::new(2, 5);
    assert!(iv.contains(2));
    assert!(iv.contains(5));
    assert!(!iv.contains(6));
    assert!(!iv.contains(1));
}

#[test]
fn interval_surrounds_is_open() {
    let iv = Interval::new(2, 5);
    assert!(!iv.surrounds(2));
    assert!(iv.surrounds(3));
    assert!(!iv.surrounds(5));
}

#[test]
fn interval_size_of_empty_is_negative() {
    assert_eq!(Interval::empty().size(), NEG_INF);
    assert_eq!(Interval::universe().size(), POS_INF);
    assert_eq!(Interval::new(5, 3).size(), -2);
    assert_eq!(Interval::new(-4, 6).size(), 10);
}

#[test]
fn interval_default_is_empty() {
    assert_eq!(Interval::default(), Interval::empty());
    assert_eq!(Interval::empty(), Interval::new(POS_INF, NEG_INF));
    assert_eq!(Interval::universe(), Interval::new(NEG_INF, POS_INF));
    assert!(!Interval::empty().contains(0));
    assert!(Interval::universe().contains(0));
}

#[test]
fn interval_clamp() {
    let iv = Interval::new(2, 5);
    assert_eq!(iv.clamp(1), 2);
    assert_eq!(iv.clamp(9), 5);
    assert_eq!(iv.clamp(4), 4);
    assert_eq!(Interval::new(5, 2).clamp(3), 5);
}

#[test]
fn interval_merge() {
    let m = Interval::merge(&Interval::new(2, 5), &Interval::new(-1, 3));
    assert_eq!(m, Interval::new(-1, 5));
    let e = Interval::merge(&Interval::empty(), &Interval::new(2, 5));
    assert_eq!(e, Interval::new(2, 5));
}

#[test]
fn interval_expand_pads_both_ends_by_half() {
    assert_eq!(Interval::new(2, 5).expand(4), Interval::new(0, 7));
    assert_eq!(Interval::new(2, 5).expand(5), Interval::new(0, 7));
    assert_eq!(Interval::new(2, 5).expand(-4), Interval::new(4, 3));
    assert_eq!(Interval::new(2, 5).expand(-5), Interval::new(4, 3));
    assert_eq!(Interval::empty().expand(10), Interval::empty());
    assert_eq!(Interval::universe().expand(10), Interval::universe());
}

#[test]
fn interval_add_scalar() {
    assert_eq!(Interval::new(2, 5).add_scalar(10), Interval::new(12, 15));
    assert_eq!(Interval::new(2, 5).add_scalar(-10), Interval::new(-8, -5));
    assert_eq!(Interval::universe().add_scalar(7), Interval::universe());
}

#[test]
fn ordinates_saturate_and_infinities_stay() {
    assert_eq!(shift(POS_INF - 3, 10), POS_INF);
    assert_eq!(shift(NEG_INF + 3, -10), NEG_INF);
    assert_eq!(shift(POS_INF, -10), POS_INF);
    assert_eq!(shift(NEG_INF, 10), NEG_INF);
    assert_eq!(shift(5, -7), -2);
    assert_eq!(distance(3, 10), 7);
    assert_eq!(distance(10, 3), -7);
    assert_eq!(distance(NEG_INF, 3), POS_INF);
    assert_eq!(distance(POS_INF, 3), NEG_INF);
    assert_eq!(distance(3, POS_INF), POS_INF);
    assert_eq!(distance(3, NEG_INF), NEG_INF);
    assert_eq!(distance(NEG_INF + 1, POS_INF - 1), POS_INF);
}

#[test]
fn unit_is_two_to_the_sixteenth() {
    assert_eq!(UNIT, 1 << 16);
}

#[test]
fn random_int_stays_in_range_and_varies() {
    let mut seen_other = false;
    for _ in 0..200 {
        let r = random_int(-500, 500);
        assert!((-500..500).contains(&r));
        if r != -500 {
            seen_other = true;
        }
    }
    assert!(seen_other);
    for _ in 0..50 {
        assert_eq!(random_int(7, 8), 7);
    }
}
