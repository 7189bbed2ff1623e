//! Axis-aligned boxes on the grid: construction, merging, the longest axis and
//! the slab test against a ray, which is decided in exact fractions.
use vstd::prelude::*;
use vstd::arithmetic::div_mod::lemma_fundamental_div_mod_converse_div;
use crate::ray::{Ray, Vec3};
use crate::util::{clip, is_inf, Interval, NEG_INF, POS_INF};

verus! {

/// The least thickness of a constructed box along each axis.
pub const MIN_THICKNESS: i64 = 2;

/// `i` itself where it is at least `MIN_THICKNESS` long, else `i` grown by
/// `MIN_THICKNESS`, half at each end.
pub open spec fn padded(i: Interval) -> Interval {
    if i.spec_size() < MIN_THICKNESS {
        i.spec_expand(MIN_THICKNESS as int)
    } else {
        i
    }
}

/// The interval between two vector components, in either order.
pub open spec fn between(a: int, b: int) -> Interval {
    Interval { min: (if a <= b { a } else { b }) as i64, max: (if a >= b { a } else { b }) as i64 }
}

/// The quotient `n / d` rounded toward negative infinity, for `d > 0`.
pub open spec fn floor_quot(n: int, d: int) -> int {
    n / d
}

/// The ray parameter at which a ray from `o` with direction component
/// `d != 0` reaches the ordinate `e`, rounded down, or up if `up`. An
/// infinite `e` gives the infinity on the side of the ray that `d` points to.
pub open spec fn reach(e: int, o: int, d: int, up: bool) -> int {
    if d > 0 {
        if is_inf(e) {
            e
        } else if up {
            clip(-floor_quot(o - e, d))
        } else {
            clip(floor_quot(e - o, d))
        }
    } else {
        if e == POS_INF {
            NEG_INF as int
        } else if e == NEG_INF {
            POS_INF as int
        } else if up {
            clip(-floor_quot(e - o, -d))
        } else {
            clip(floor_quot(o - e, -d))
        }
    }
}

/// The range of ray parameters, rounded outward, at which a ray from `o` with
/// direction component `d` lies between the ends of `b`. A ray that runs
/// along the axis is inside for every parameter or for none.
pub open spec fn slab(b: Interval, o: int, d: int) -> Interval {
    if d == 0 {
        if o < b.min {
            Interval { min: POS_INF, max: POS_INF }
        } else if o > b.max {
            Interval { min: NEG_INF, max: NEG_INF }
        } else {
            Interval { min: NEG_INF, max: POS_INF }
        }
    } else if d > 0 {
        Interval { min: reach(b.min as int, o, d, false) as i64, max: reach(b.max as int, o, d, true) as i64 }
    } else {
        Interval { min: reach(b.max as int, o, d, false) as i64, max: reach(b.min as int, o, d, true) as i64 }
    }
}

/// What is common to `iv` and `s`.
pub open spec fn narrowed(iv: Interval, s: Interval) -> Interval {
    Interval {
        min: if s.min > iv.min { s.min } else { iv.min },
        max: if s.max < iv.max { s.max } else { iv.max },
    }
}

/// A ray parameter as a fraction with a positive denominator.
#[derive(Clone, Copy, Debug, PartialEq, Eq, Structural)]
pub struct Frac {
    pub num: i128,
    pub den: i128,
}

/// Whether the fraction `a` is less than the fraction `b`.
pub open spec fn before(a: Frac, b: Frac) -> bool {
    a.num * b.den < b.num * a.den
}

/// The whole parameter `t` as a fraction.
pub open spec fn whole(t: int) -> Frac {
    Frac { num: t as i128, den: 1 }
}

/// The fraction `num / den`, for `den > 0`; what lies beyond an end of the
/// ordinate range becomes that end.
pub open spec fn fitted(num: int, den: int) -> Frac {
    if num >= POS_INF * den {
        whole(POS_INF as int)
    } else if num <= NEG_INF * den {
        whole(NEG_INF as int)
    } else {
        Frac { num: num as i128, den: den as i128 }
    }
}

/// The exact ray parameter at which a ray from `o` with direction component
/// `d != 0` reaches the ordinate `e`. An infinite `e` gives the infinity on
/// the side of the ray that `d` points to.
pub open spec fn met(e: int, o: int, d: int) -> Frac {
    if d > 0 {
        if is_inf(e) {
            whole(e)
        } else {
            fitted(e - o, d)
        }
    } else {
        if e == POS_INF {
            whole(NEG_INF as int)
        } else if e == NEG_INF {
            whole(POS_INF as int)
        } else {
            fitted(o - e, -d)
        }
    }
}

/// The exact range of ray parameters at which a ray from `o` with direction
/// component `d` lies between the ends of `b`: where it enters and where it
/// leaves. A ray that runs along the axis is inside for every parameter or
/// for none.
pub open spec fn passage(b: Interval, o: int, d: int) -> (Frac, Frac) {
    if d == 0 {
        if o < b.min {
            (whole(POS_INF as int), whole(POS_INF as int))
        } else if o > b.max {
            (whole(NEG_INF as int), whole(NEG_INF as int))
        } else {
            (whole(NEG_INF as int), whole(POS_INF as int))
        }
    } else if d > 0 {
        (met(b.min as int, o, d), met(b.max as int, o, d))
    } else {
        (met(b.max as int, o, d), met(b.min as int, o, d))
    }
}

/// What is common to the exact window `w` and the passage `s`.
pub open spec fn tightened(w: (Frac, Frac), s: (Frac, Frac)) -> (Frac, Frac) {
    (if before(w.0, s.0) {
        s.0
    } else {
        w.0
    }, if before(s.1, w.1) {
        s.1
    } else {
        w.1
    })
}

/// Whether an exact window has no length left.
pub open spec fn spent(w: (Frac, Frac)) -> bool {
    !before(w.0, w.1)
}

/// Whether a fraction is of the size that the slab test works with.
pub open spec fn sized(a: Frac) -> bool {
    &&& 0 < a.den <= 0x8000_0000
    &&& -0x2_0000_0000_0000_0000 <= a.num <= 0x2_0000_0000_0000_0000
}

/// Computes `fitted`.
fn fit(num: i128, den: i128) -> (r: Frac)
    requires
        0 < den <= 0x8000_0000,
        -0x2_0000_0000_0000_0000 <= num <= 0x2_0000_0000_0000_0000,
    ensures
        r == fitted(num as int, den as int),
        sized(r),
{
    assert(0 < 0x7fff_ffff_ffff_ffff * den <= 0x7fff_ffff_ffff_ffff * 0x8000_0000
        && -0x8000_0000_0000_0000 * 0x8000_0000 <= (-0x8000_0000_0000_0000) * den < 0)
        by (nonlinear_arith)
        requires
            0 < den <= 0x8000_0000,
    ;
    let top: i128 = (POS_INF as i128) * den;
    let bottom: i128 = (NEG_INF as i128) * den;
    if num >= top {
        Frac { num: POS_INF as i128, den: 1 }
    } else if num <= bottom {
        Frac { num: NEG_INF as i128, den: 1 }
    } else {
        Frac { num, den }
    }
}

/// Computes `met`.
fn met_exec(e: i64, o: i32, d: i32) -> (r: Frac)
    requires
        d != 0,
    ensures
        r == met(e as int, o as int, d as int),
        sized(r),
{
    if d > 0 {
        if e == POS_INF || e == NEG_INF {
            Frac { num: e as i128, den: 1 }
        } else {
            fit(e as i128 - o as i128, d as i128)
        }
    } else {
        if e == POS_INF {
            Frac { num: NEG_INF as i128, den: 1 }
        } else if e == NEG_INF {
            Frac { num: POS_INF as i128, den: 1 }
        } else {
            fit(o as i128 - e as i128, -(d as i128))
        }
    }
}

/// Computes `passage`.
fn passage_exec(b: &Interval, o: i32, d: i32) -> (r: (Frac, Frac))
    ensures
        r == passage(*b, o as int, d as int),
        sized(r.0),
        sized(r.1),
{
    if d == 0 {
        if (o as i64) < b.min {
            (Frac { num: POS_INF as i128, den: 1 }, Frac { num: POS_INF as i128, den: 1 })
        } else if (o as i64) > b.max {
            (Frac { num: NEG_INF as i128, den: 1 }, Frac { num: NEG_INF as i128, den: 1 })
        } else {
            (Frac { num: NEG_INF as i128, den: 1 }, Frac { num: POS_INF as i128, den: 1 })
        }
    } else if d > 0 {
        (met_exec(b.min, o, d), met_exec(b.max, o, d))
    } else {
        (met_exec(b.max, o, d), met_exec(b.min, o, d))
    }
}

/// Compares two fractions exactly, by the products across.
fn before_exec(a: Frac, b: Frac) -> (r: bool)
    requires
        sized(a),
        sized(b),
    ensures
        r == before(a, b),
{
    assert(-0x2_0000_0000_0000_0000 * 0x8000_0000 <= a.num * b.den <= 0x2_0000_0000_0000_0000
        * 0x8000_0000) by (nonlinear_arith)
        requires
            -0x2_0000_0000_0000_0000 <= a.num <= 0x2_0000_0000_0000_0000,
            0 < b.den <= 0x8000_0000,
    ;
    assert(-0x2_0000_0000_0000_0000 * 0x8000_0000 <= b.num * a.den <= 0x2_0000_0000_0000_0000
        * 0x8000_0000) by (nonlinear_arith)
        requires
            -0x2_0000_0000_0000_0000 <= b.num <= 0x2_0000_0000_0000_0000,
            0 < a.den <= 0x8000_0000,
    ;
    a.num * b.den < b.num * a.den
}

/// Rounds the quotient of `n` by `d` toward negative infinity.
pub fn floor_div(n: i128, d: i128) -> (q: i128)
    requires
        d > 0,
        -0x100_0000_0000_0000_0000_0000_0000_0000 < n < 0x100_0000_0000_0000_0000_0000_0000_0000,
    ensures
        q == floor_quot(n as int, d as int),
        -0x100_0000_0000_0000_0000_0000_0000_0000 < q < 0x100_0000_0000_0000_0000_0000_0000_0000,
{
    if n >= 0 {
        let q: i128 = n / d;
        proof {
            vstd::arithmetic::div_mod::lemma_div_pos_is_pos(n as int, d as int);
            vstd::arithmetic::div_mod::lemma_div_nonincreasing(n as int, d as int);
        }
        q
    } else {
        let m: i128 = -n - 1;
        let k: i128 = m / d;
        let r: i128 = m % d;
        proof {
            vstd::arithmetic::div_mod::lemma_fundamental_div_mod(m as int, d as int);
            vstd::arithmetic::div_mod::lemma_div_pos_is_pos(m as int, d as int);
            vstd::arithmetic::div_mod::lemma_div_nonincreasing(m as int, d as int);
            vstd::arithmetic::div_mod::lemma_mod_pos_bound(m as int, d as int);
            assert(n == (-k - 1) * d + (d - r - 1)) by (nonlinear_arith)
                requires
                    m == d * k + r,
                    m == -n - 1,
            ;
            lemma_fundamental_div_mod_converse_div(n as int, d as int, (-k - 1) as int, (d - r - 1) as int);
        }
        -k - 1
    }
}

/// Narrows a wide quotient to an ordinate, saturating.
fn to_ordinate(a: i128) -> (r: i64)
    ensures
        r == clip(a as int),
{
    if a >= POS_INF as i128 {
        POS_INF
    } else if a <= NEG_INF as i128 {
        NEG_INF
    } else {
        a as i64
    }
}

/// Computes `reach`.
fn reach_exec(e: i64, o: i32, d: i32, up: bool) -> (r: i64)
    requires
        d != 0,
    ensures
        r == reach(e as int, o as int, d as int, up),
{
    if d > 0 {
        if e == POS_INF || e == NEG_INF {
            e
        } else if up {
            to_ordinate(-floor_div(o as i128 - e as i128, d as i128))
        } else {
            to_ordinate(floor_div(e as i128 - o as i128, d as i128))
        }
    } else {
        if e == POS_INF {
            NEG_INF
        } else if e == NEG_INF {
            POS_INF
        } else if up {
            to_ordinate(-floor_div(e as i128 - o as i128, -(d as i128)))
        } else {
            to_ordinate(floor_div(o as i128 - e as i128, -(d as i128)))
        }
    }
}

/// Computes `slab`.
fn slab_exec(b: &Interval, o: i32, d: i32) -> (r: Interval)
    ensures
        r == slab(*b, o as int, d as int),
{
    if d == 0 {
        if (o as i64) < b.min {
            Interval { min: POS_INF, max: POS_INF }
        } else if (o as i64) > b.max {
            Interval { min: NEG_INF, max: NEG_INF }
        } else {
            Interval { min: NEG_INF, max: POS_INF }
        }
    } else if d > 0 {
        Interval { min: reach_exec(b.min, o, d, false), max: reach_exec(b.max, o, d, true) }
    } else {
        Interval { min: reach_exec(b.max, o, d, false), max: reach_exec(b.min, o, d, true) }
    }
}

/// An axis-aligned box: one interval for each axis.
#[derive(Clone, Copy, Debug, PartialEq, Eq, Structural)]
pub struct AABB {
    pub x: Interval,
    pub y: Interval,
    pub z: Interval,
}

impl AABB {
    /// The box that holds nothing and is neutral for `merge`.
    pub open spec fn spec_empty() -> Self {
        AABB { x: Interval::spec_empty(), y: Interval::spec_empty(), z: Interval::spec_empty() }
    }

    /// The box that holds every point.
    pub open spec fn spec_universe() -> Self {
        AABB {
            x: Interval::spec_universe(),
            y: Interval::spec_universe(),
            z: Interval::spec_universe(),
        }
    }

    /// Every axis is at least `MIN_THICKNESS` long: what construction from two
    /// corners guarantees.
    pub open spec fn wf(self) -> bool {
        &&& self.x.spec_size() >= MIN_THICKNESS
        &&& self.y.spec_size() >= MIN_THICKNESS
        &&& self.z.spec_size() >= MIN_THICKNESS
    }

    /// Whether the point `(px, py, pz)` lies in the box.
    pub open spec fn holds(self, px: int, py: int, pz: int) -> bool {
        &&& self.x.spec_contains(px)
        &&& self.y.spec_contains(py)
        &&& self.z.spec_contains(pz)
    }

    /// The box with each axis padded up to the least thickness.
    pub open spec fn spec_padded(self) -> Self {
        AABB { x: padded(self.x), y: padded(self.y), z: padded(self.z) }
    }

    /// The padded box spanned by two corners, given in any order.
    pub open spec fn spec_new(a: Vec3, b: Vec3) -> Self {
        AABB {
            x: between(a.x as int, b.x as int),
            y: between(a.y as int, b.y as int),
            z: between(a.z as int, b.z as int),
        }.spec_padded()
    }

    /// The interval of axis 0, 1 or (for any other number) 2.
    pub open spec fn spec_axis(self, axis: int) -> Interval {
        if axis == 0 {
            self.x
        } else if axis == 1 {
            self.y
        } else {
            self.z
        }
    }

    /// The padded componentwise merge.
    pub open spec fn spec_merge(lhs: Self, rhs: Self) -> Self {
        AABB {
            x: Interval::spec_merge(lhs.x, rhs.x),
            y: Interval::spec_merge(lhs.y, rhs.y),
            z: Interval::spec_merge(lhs.z, rhs.z),
        }.spec_padded()
    }

    /// The axis of greatest length; among equals the higher-numbered axis.
    pub open spec fn spec_longest_axis(self) -> int {
        if self.x.spec_size() > self.y.spec_size() {
            if self.x.spec_size() > self.z.spec_size() {
                0
            } else {
                2
            }
        } else {
            if self.y.spec_size() > self.z.spec_size() {
                1
            } else {
                2
            }
        }
    }

    /// The box moved by `scalar` along every axis.
    pub open spec fn spec_add_scalar(self, scalar: int) -> Self {
        AABB {
            x: self.x.spec_add_scalar(scalar),
            y: self.y.spec_add_scalar(scalar),
            z: self.z.spec_add_scalar(scalar),
        }
    }

    /// The box moved by `vec`.
    pub open spec fn spec_add_vec(self, vec: Vec3) -> Self {
        AABB {
            x: self.x.spec_add_scalar(vec.x as int),
            y: self.y.spec_add_scalar(vec.y as int),
            z: self.z.spec_add_scalar(vec.z as int),
        }
    }

    /// The exact window and the working interval after the first `k` axes:
    /// the window starts as `iv` and is cut down to the ray's exact passage
    /// through each slab; the interval is narrowed to the same, rounded
    /// outward to whole parameters.
    pub open spec fn window(self, ray: Ray, iv: Interval, k: int) -> ((Frac, Frac), Interval)
        decreases k,
    {
        if k <= 0 {
            ((whole(iv.min as int), whole(iv.max as int)), iv)
        } else {
            let before = self.window(ray, iv, k - 1);
            let b = self.spec_axis(k - 1);
            let o = ray.origin.spec_index(k - 1);
            let d = ray.direction.spec_index(k - 1);
            (tightened(before.0, passage(b, o, d)), narrowed(before.1, slab(b, o, d)))
        }
    }

    /// The slab test. Whether the ray strikes the box within `iv` is decided
    /// exactly: it does if, axis by axis, the parameters at which it lies
    /// between the box's ends and within `iv` keep a range of positive
    /// length. The test stops at the first axis that leaves none. The
    /// working interval is handed on as it then stands, narrowed to those
    /// parameters and rounded outward to whole ones.
    pub open spec fn spec_hit(self, ray: Ray, iv: Interval) -> (bool, Interval) {
        if spent(self.window(ray, iv, 1).0) {
            (false, self.window(ray, iv, 1).1)
        } else if spent(self.window(ray, iv, 2).0) {
            (false, self.window(ray, iv, 2).1)
        } else {
            (!spent(self.window(ray, iv, 3).0), self.window(ray, iv, 3).1)
        }
    }

    pub fn empty() -> (r: Self)
        ensures
            r == Self::spec_empty(),
    {
        Self { x: Interval::empty(), y: Interval::empty(), z: Interval::empty() }
    }

    pub fn universe() -> (r: Self)
        ensures
            r == Self::spec_universe(),
    {
        Self { x: Interval::universe(), y: Interval::universe(), z: Interval::universe() }
    }

    pub fn new(a: Vec3, b: Vec3) -> (r: Self)
        ensures
            r == Self::spec_new(a, b),
            r.wf(),
    {
        let x = Interval::new(if a.x <= b.x { a.x as i64 } else { b.x as i64 }, if a.x >= b.x { a.x as i64 } else { b.x as i64 });
        let y = Interval::new(if a.y <= b.y { a.y as i64 } else { b.y as i64 }, if a.y >= b.y { a.y as i64 } else { b.y as i64 });
        let z = Interval::new(if a.z <= b.z { a.z as i64 } else { b.z as i64 }, if a.z >= b.z { a.z as i64 } else { b.z as i64 });
        let mut tmp = Self { x, y, z };
        tmp.pad_to_minimums();
        tmp
    }

    pub fn axis(&self, axis: usize) -> (r: &Interval)
        ensures
            *r == self.spec_axis(axis as int),
    {
        match axis {
            0 => &self.x,
            1 => &self.y,
            _ => &self.z,
        }
    }

    pub fn merge(lhs: &Self, rhs: &Self) -> (r: Self)
        ensures
            r == Self::spec_merge(*lhs, *rhs),
    {
        let x = Interval::merge(&lhs.x, &rhs.x);
        let y = Interval::merge(&lhs.y, &rhs.y);
        let z = Interval::merge(&lhs.z, &rhs.z);
        let mut tmp = Self { x, y, z };
        tmp.pad_to_minimums();
        tmp
    }

    pub fn hit(&self, ray: &Ray, interval: &mut Interval) -> (r: bool)
        ensures
            r == self.spec_hit(*ray, *old(interval)).0,
            *final(interval) == self.spec_hit(*ray, *old(interval)).1,
    {
        let mut lo = Frac { num: interval.min as i128, den: 1 };
        let mut hi = Frac { num: interval.max as i128, den: 1 };
        let mut axis: usize = 0;
        while axis < 3
            invariant
                axis <= 3,
                sized(lo),
                sized(hi),
                (lo, hi) == self.window(*ray, *old(interval), axis as int).0,
                *interval == self.window(*ray, *old(interval), axis as int).1,
                forall|k: int| 1 <= k <= axis ==> !spent(#[trigger] self.window(*ray, *old(interval), k).0),
            decreases 3 - axis,
        {
            let b = self.axis(axis);
            let o = ray.origin.index(axis);
            let d = ray.direction.index(axis);
            let (entry, exit) = passage_exec(b, o, d);
            if before_exec(lo, entry) {
                lo = entry;
            }
            if before_exec(exit, hi) {
                hi = exit;
            }
            let s = slab_exec(b, o, d);
            if s.min > interval.min {
                interval.min = s.min;
            }
            if s.max < interval.max {
                interval.max = s.max;
            }
            if !before_exec(lo, hi) {
                return false;
            }
            axis += 1;
        }
        true
    }

    pub fn longest_axis(&self) -> (r: i32)
        ensures
            r == self.spec_longest_axis(),
            0 <= r <= 2,
            forall|a: int| 0 <= a <= 2 ==> self.spec_axis(a).spec_size() <= self.spec_axis(r as int).spec_size(),
            forall|a: int| r < a <= 2 ==> self.spec_axis(a).spec_size() < self.spec_axis(r as int).spec_size(),
    {
        if self.x.size() > self.y.size() {
            if self.x.size() > self.z.size() {
                0
            } else {
                2
            }
        } else {
            if self.y.size() > self.z.size() {
                1
            } else {
                2
            }
        }
    }

    fn pad_to_minimums(&mut self)
        ensures
            *final(self) == old(self).spec_padded(),
    {
        let delta: i64 = MIN_THICKNESS;
        if self.x.size() < delta {
            self.x = self.x.expand(delta);
        }
        if self.y.size() < delta {
            self.y = self.y.expand(delta);
        }
        if self.z.size() < delta {
            self.z = self.z.expand(delta);
        }
    }

    pub fn add_scalar(&self, scalar: i64) -> (r: Self)
        ensures
            r == self.spec_add_scalar(scalar as int),
    {
        let x = self.x.add_scalar(scalar);
        let y = self.y.add_scalar(scalar);
        let z = self.z.add_scalar(scalar);
        Self { x, y, z }
    }

    pub fn add_vec(&self, vec: Vec3) -> (r: Self)
        ensures
            r == self.spec_add_vec(vec),
    {
        let x = self.x.add_scalar(vec.x as i64);
        let y = self.y.add_scalar(vec.y as i64);
        let z = self.z.add_scalar(vec.z as i64);
        Self { x, y, z }
    }
}

/// A merge holds every point of both boxes.
pub proof fn merge_contains_both(a: AABB, b: AABB, px: int, py: int, pz: int)
    ensures
        a.holds(px, py, pz) ==> AABB::spec_merge(a, b).holds(px, py, pz),
        b.holds(px, py, pz) ==> AABB::spec_merge(a, b).holds(px, py, pz),
{
}

/// The order of the two boxes does not matter to a merge.
pub proof fn merge_is_commutative(a: AABB, b: AABB)
    ensures
        AABB::spec_merge(a, b) == AABB::spec_merge(b, a),
{
}

/// Merging constructed boxes needs no padding: it is the componentwise merge,
/// and again a constructed box.
pub proof fn merge_of_constructed(a: AABB, b: AABB)
    requires
        a.wf(),
        b.wf(),
    ensures
        AABB::spec_merge(a, b).wf(),
        AABB::spec_merge(a, b).x == Interval::spec_merge(a.x, b.x),
        AABB::spec_merge(a, b).y == Interval::spec_merge(a.y, b.y),
        AABB::spec_merge(a, b).z == Interval::spec_merge(a.z, b.z),
{
}

/// Among constructed boxes the grouping of merges does not matter.
pub proof fn merge_is_associative(a: AABB, b: AABB, c: AABB)
    requires
        a.wf(),
        b.wf(),
        c.wf(),
    ensures
        AABB::spec_merge(AABB::spec_merge(a, b), c) == AABB::spec_merge(a, AABB::spec_merge(b, c)),
{
    merge_of_constructed(a, b);
    merge_of_constructed(b, c);
    merge_of_constructed(AABB::spec_merge(a, b), c);
    merge_of_constructed(a, AABB::spec_merge(b, c));
}

/// The empty box is neutral: merged with a constructed box it gives that box,
/// and merged with itself it stays empty.
pub proof fn merge_with_empty(b: AABB)
    requires
        b.wf(),
    ensures
        AABB::spec_merge(AABB::spec_empty(), b) == b,
        AABB::spec_merge(b, AABB::spec_empty()) == b,
        AABB::spec_merge(AABB::spec_empty(), AABB::spec_empty()) == AABB::spec_empty(),
{
}

/// Whether `p` is an ordinate of the grid proper: not beyond its ends.
pub open spec fn on_grid(p: int) -> bool {
    NEG_INF < p < POS_INF
}

/// The quotient `n / d`, for `d > 0`, is the greatest `q` with `q * d <= n`.
proof fn floor_quot_bounds(n: int, d: int)
    requires
        d > 0,
    ensures
        floor_quot(n, d) * d <= n < (floor_quot(n, d) + 1) * d,
{
    vstd::arithmetic::div_mod::lemma_fundamental_div_mod(n, d);
    vstd::arithmetic::div_mod::lemma_mod_bound(n, d);
    let q = n / d;
    assert(q * d == d * q) by (nonlinear_arith);
    assert((q + 1) * d == q * d + d) by (nonlinear_arith);
}

/// How a fraction of the slab test stands to a whole parameter on the grid
/// proper.
proof fn fitted_against(num: int, den: int, t: int)
    requires
        0 < den <= 0x8000_0000,
        -0x2_0000_0000_0000_0000 <= num <= 0x2_0000_0000_0000_0000,
        on_grid(t),
    ensures
        fitted(num, den).den > 0,
        num <= t * den ==> !before(whole(t), fitted(num, den)),
        num < t * den ==> before(fitted(num, den), whole(t)),
        num >= t * den ==> !before(fitted(num, den), whole(t)),
        num > t * den ==> before(whole(t), fitted(num, den)),
{
    let f = whole(t);
    assert(NEG_INF * 1 == NEG_INF && POS_INF * 1 == POS_INF && num * 1 == num) by (nonlinear_arith);
    assert(proper(f));
    fitted_to(num, den, f);
    assert(num * f.den == num && f.num * den == t * den);
}

/// Whole parameters stand as fractions as they stand as numbers.
proof fn whole_order(a: int, b: int)
    requires
        NEG_INF <= a <= POS_INF,
        NEG_INF <= b <= POS_INF,
    ensures
        before(whole(a), whole(b)) <==> a < b,
        whole(a).den > 0,
{
    assert(a * 1 == a && b * 1 == b) by (nonlinear_arith);
}

/// Whether the ray is on the face through which it enters the slab of `b`
/// at the parameter `t`.
pub open spec fn on_entry(b: Interval, o: int, d: int, t: int) -> bool {
    (d > 0 && o + t * d == b.min) || (d < 0 && o + t * d == b.max)
}

/// Whether the ray is on the face through which it leaves the slab of `b`
/// at the parameter `t`.
pub open spec fn on_exit(b: Interval, o: int, d: int, t: int) -> bool {
    (d > 0 && o + t * d == b.max) || (d < 0 && o + t * d == b.min)
}

/// Along one axis: a ray that at the parameter `t` lies between the ends of
/// `b` has `t` within its exact passage, strictly after the entry unless it
/// is on the entry face, strictly before the exit unless it is on the exit
/// face; and `t` lies within the rounded slab.
proof fn axis_keeps(b: Interval, o: int, d: int, t: int)
    requires
        on_grid(t),
        on_grid(o + t * d),
        -0x8000_0000 <= o < 0x8000_0000,
        -0x8000_0000 <= d < 0x8000_0000,
        b.min <= o + t * d <= b.max,
    ensures
        passage(b, o, d).0.den > 0,
        passage(b, o, d).1.den > 0,
        !before(whole(t), passage(b, o, d).0),
        !before(passage(b, o, d).1, whole(t)),
        !on_entry(b, o, d, t) ==> before(passage(b, o, d).0, whole(t)),
        !on_exit(b, o, d, t) ==> before(whole(t), passage(b, o, d).1),
        slab(b, o, d).min <= t <= slab(b, o, d).max,
{
    whole_order(t, NEG_INF as int);
    whole_order(NEG_INF as int, t);
    whole_order(t, POS_INF as int);
    whole_order(POS_INF as int, t);
    if d > 0 {
        if !is_inf(b.min as int) {
            fitted_against(b.min - o, d, t);
            let q = floor_quot(b.min - o, d);
            floor_quot_bounds(b.min - o, d);
            assert(q <= t) by (nonlinear_arith)
                requires
                    d > 0,
                    q * d <= b.min - o,
                    b.min - o <= t * d,
            ;
        }
        if !is_inf(b.max as int) {
            fitted_against(b.max - o, d, t);
            let q = floor_quot(o - b.max, d);
            floor_quot_bounds(o - b.max, d);
            assert(q <= -t) by (nonlinear_arith)
                requires
                    d > 0,
                    q * d <= o - b.max,
                    o - b.max <= -(t * d),
            ;
        }
    } else if d < 0 {
        let e = -d;
        assert(t * d == -(t * e)) by (nonlinear_arith)
            requires
                e == -d,
        ;
        if !is_inf(b.max as int) {
            fitted_against(o - b.max, e, t);
            let q = floor_quot(o - b.max, e);
            floor_quot_bounds(o - b.max, e);
            assert(q <= t) by (nonlinear_arith)
                requires
                    e > 0,
                    q * e <= o - b.max,
                    o - b.max <= t * e,
            ;
        }
        if !is_inf(b.min as int) {
            fitted_against(o - b.min, e, t);
            let q = floor_quot(b.min - o, e);
            floor_quot_bounds(b.min - o, e);
            assert(q <= -t) by (nonlinear_arith)
                requires
                    e > 0,
                    q * e <= b.min - o,
                    b.min - o <= -(t * e),
            ;
        }
    } else {
        assert(t * d == 0) by (nonlinear_arith)
            requires
                d == 0,
        ;
    }
}

/// A fraction at or before a whole parameter is before every fraction at or
/// after it, if one of the two is not at it.
proof fn through_whole(a: Frac, t: int, b: Frac)
    requires
        a.den > 0,
        b.den > 0,
        on_grid(t),
        !before(whole(t), a),
        !before(b, whole(t)),
        before(a, whole(t)) || before(whole(t), b),
    ensures
        before(a, b),
{
    let an = a.num as int;
    let ad = a.den as int;
    let bn = b.num as int;
    let bd = b.den as int;
    assert(an * bd < bn * ad) by (nonlinear_arith)
        requires
            ad > 0,
            bd > 0,
            an <= t * ad,
            t * bd <= bn,
            an < t * ad || t * bd < bn,
    {
        assert(an * bd <= (t * ad) * bd);
        assert((t * bd) * ad <= bn * ad);
        assert((t * ad) * bd == (t * bd) * ad);
        if an < t * ad {
            assert(an * bd < (t * ad) * bd);
        } else {
            assert((t * bd) * ad < bn * ad);
        }
    }
}

/// Along one axis: a ray whose parameter `t` is strictly inside the slab lies
/// between the ends of `b` there.
proof fn slab_is_tight(b: Interval, o: int, d: int, t: int)
    requires
        on_grid(t),
        on_grid(o + t * d),
        slab(b, o, d).min < t < slab(b, o, d).max,
    ensures
        b.min <= o + t * d <= b.max,
{
    if d > 0 {
        if !is_inf(b.min as int) {
            let q = floor_quot(b.min - o, d);
            floor_quot_bounds(b.min - o, d);
            assert(b.min - o < t * d) by (nonlinear_arith)
                requires
                    d > 0,
                    b.min - o < (q + 1) * d,
                    q + 1 <= t,
            ;
        }
        if !is_inf(b.max as int) {
            let q = floor_quot(o - b.max, d);
            floor_quot_bounds(o - b.max, d);
            assert(o - b.max < -(t * d)) by (nonlinear_arith)
                requires
                    d > 0,
                    o - b.max < (q + 1) * d,
                    q + 1 <= -t,
            ;
        }
    } else if d < 0 {
        let e = -d;
        assert(t * d == -(t * e)) by (nonlinear_arith)
            requires
                e == -d,
        ;
        if !is_inf(b.max as int) {
            let q = floor_quot(o - b.max, e);
            floor_quot_bounds(o - b.max, e);
            assert(o - b.max < t * e) by (nonlinear_arith)
                requires
                    e > 0,
                    o - b.max < (q + 1) * e,
                    q + 1 <= t,
            ;
        }
        if !is_inf(b.min as int) {
            let q = floor_quot(b.min - o, e);
            floor_quot_bounds(b.min - o, e);
            assert(b.min - o < -(t * e)) by (nonlinear_arith)
                requires
                    e > 0,
                    b.min - o < (q + 1) * e,
                    q + 1 <= -t,
            ;
        }
    } else {
        assert(t * d == 0) by (nonlinear_arith)
            requires
                d == 0,
        ;
    }
}

/// Whether the ray lies in the box at the parameter `t`, not on its faces,
/// and that point is a point of the grid proper.
pub open spec fn passes_inside(b: AABB, ray: Ray, t: int) -> bool {
    let px = ray.origin.x + t * ray.direction.x;
    let py = ray.origin.y + t * ray.direction.y;
    let pz = ray.origin.z + t * ray.direction.z;
    &&& on_grid(px) && on_grid(py) && on_grid(pz)
    &&& b.x.min < px < b.x.max
    &&& b.y.min < py < b.y.max
    &&& b.z.min < pz < b.z.max
}

/// Whether the ray lies in the closed box at the parameter `t`, at a point of
/// the grid proper, and in it just before or just after: on no face through
/// which it enters, or on no face through which it leaves. A ray that only
/// touches an edge or a corner of the box from outside does not stay.
pub open spec fn stays(b: AABB, ray: Ray, t: int) -> bool {
    let ox = ray.origin.x as int;
    let oy = ray.origin.y as int;
    let oz = ray.origin.z as int;
    let dx = ray.direction.x as int;
    let dy = ray.direction.y as int;
    let dz = ray.direction.z as int;
    &&& on_grid(ox + t * dx) && on_grid(oy + t * dy) && on_grid(oz + t * dz)
    &&& b.holds(ox + t * dx, oy + t * dy, oz + t * dz)
    &&& {
        ||| !on_entry(b.x, ox, dx, t) && !on_entry(b.y, oy, dy, t) && !on_entry(b.z, oz, dz, t)
        ||| !on_exit(b.x, ox, dx, t) && !on_exit(b.y, oy, dy, t) && !on_exit(b.z, oz, dz, t)
    }
}

/// The slab test misses no box that the ray stays in: if at a whole
/// parameter strictly inside the working interval the ray lies in the
/// closed box, and in it just before or just after, the test reports a
/// hit, and the interval handed on still holds that parameter. A ray along
/// an axis, or on a face of the box, is no exception.
pub proof fn slab_test_keeps(b: AABB, ray: Ray, iv: Interval, t: int)
    requires
        iv.min < t < iv.max,
        stays(b, ray, t),
    ensures
        b.spec_hit(ray, iv).0,
        b.spec_hit(ray, iv).1.min <= t <= b.spec_hit(ray, iv).1.max,
{
    reveal_with_fuel(AABB::window, 4);
    let ox = ray.origin.x as int;
    let oy = ray.origin.y as int;
    let oz = ray.origin.z as int;
    let dx = ray.direction.x as int;
    let dy = ray.direction.y as int;
    let dz = ray.direction.z as int;
    axis_keeps(b.x, ox, dx, t);
    axis_keeps(b.y, oy, dy, t);
    axis_keeps(b.z, oz, dz, t);
    whole_order(iv.min as int, t);
    whole_order(t, iv.min as int);
    whole_order(t, iv.max as int);
    whole_order(iv.max as int, t);
    let w1 = b.window(ray, iv, 1).0;
    let w2 = b.window(ray, iv, 2).0;
    let w3 = b.window(ray, iv, 3).0;
    through_whole(w1.0, t, w1.1);
    through_whole(w2.0, t, w2.1);
    through_whole(w3.0, t, w3.1);
}

/// The slab test misses no box that the ray passes through: if at a whole
/// parameter strictly inside the working interval the ray lies in the box,
/// not on its faces, the test reports a hit, and the interval handed on
/// still holds that parameter.
pub proof fn slab_test_finds(b: AABB, ray: Ray, iv: Interval, t: int)
    requires
        iv.min < t < iv.max,
        passes_inside(b, ray, t),
    ensures
        b.spec_hit(ray, iv).0,
        b.spec_hit(ray, iv).1.min <= t <= b.spec_hit(ray, iv).1.max,
{
    slab_test_keeps(b, ray, iv, t);
}

/// The interval that the slab test hands on after a hit is tight: at every
/// whole parameter strictly inside it at which the ray is on the grid
/// proper, the ray lies in the box.
pub proof fn slab_test_is_tight(b: AABB, ray: Ray, iv: Interval, t: int)
    requires
        b.spec_hit(ray, iv).0,
        b.spec_hit(ray, iv).1.min < t < b.spec_hit(ray, iv).1.max,
        on_grid(ray.origin.x + t * ray.direction.x),
        on_grid(ray.origin.y + t * ray.direction.y),
        on_grid(ray.origin.z + t * ray.direction.z),
    ensures
        iv.min < t < iv.max,
        b.holds(
            ray.origin.x + t * ray.direction.x,
            ray.origin.y + t * ray.direction.y,
            ray.origin.z + t * ray.direction.z,
        ),
{
    reveal_with_fuel(AABB::window, 4);
    slab_is_tight(b.x, ray.origin.x as int, ray.direction.x as int, t);
    slab_is_tight(b.y, ray.origin.y as int, ray.direction.y as int, t);
    slab_is_tight(b.z, ray.origin.z as int, ray.direction.z as int, t);
}

/// The exact window and the working interval axis by axis, spelled out: each
/// stage is the one before, cut down to the passage through the next slab.
pub proof fn window_by_axes(b: AABB, ray: Ray, iv: Interval)
    ensures
        b.window(ray, iv, 0) == ((whole(iv.min as int), whole(iv.max as int)), iv),
        b.window(ray, iv, 1).0 == tightened(
            b.window(ray, iv, 0).0,
            passage(b.x, ray.origin.x as int, ray.direction.x as int),
        ),
        b.window(ray, iv, 2).0 == tightened(
            b.window(ray, iv, 1).0,
            passage(b.y, ray.origin.y as int, ray.direction.y as int),
        ),
        b.window(ray, iv, 3).0 == tightened(
            b.window(ray, iv, 2).0,
            passage(b.z, ray.origin.z as int, ray.direction.z as int),
        ),
        b.window(ray, iv, 1).1 == narrowed(iv, slab(b.x, ray.origin.x as int, ray.direction.x as int)),
        b.window(ray, iv, 2).1 == narrowed(
            b.window(ray, iv, 1).1,
            slab(b.y, ray.origin.y as int, ray.direction.y as int),
        ),
        b.window(ray, iv, 3).1 == narrowed(
            b.window(ray, iv, 2).1,
            slab(b.z, ray.origin.z as int, ray.direction.z as int),
        ),
{
    reveal_with_fuel(AABB::window, 4);
}

/// Whether a fraction is a parameter of the grid proper: not beyond the ends
/// of the ordinate range.
pub open spec fn proper(f: Frac) -> bool {
    f.den > 0 && NEG_INF * f.den < f.num < POS_INF * f.den
}

/// Whether the parameter `f` lies within `iv`, the ends included.
pub open spec fn within_at(iv: Interval, f: Frac) -> bool {
    !before(f, whole(iv.min as int)) && !before(whole(iv.max as int), f)
}

/// Whether a ray from `o` with direction component `d` lies between the ends
/// of `b` at the parameter `f`, in exact arithmetic. An infinite end bounds
/// nothing on its own side and everything on the other.
pub open spec fn between_at(b: Interval, o: int, d: int, f: Frac) -> bool {
    &&& b.min == NEG_INF || (b.min != POS_INF && b.min * f.den <= o * f.den + f.num * d)
    &&& b.max == POS_INF || (b.max != NEG_INF && o * f.den + f.num * d <= b.max * f.den)
}

/// Whether `ray` lies in the closed box at the parameter `f`, in exact
/// arithmetic.
pub open spec fn box_at(b: AABB, ray: Ray, f: Frac) -> bool {
    &&& between_at(b.x, ray.origin.x as int, ray.direction.x as int, f)
    &&& between_at(b.y, ray.origin.y as int, ray.direction.y as int, f)
    &&& between_at(b.z, ray.origin.z as int, ray.direction.z as int, f)
}

/// The order of fractions with positive denominators passes on.
proof fn frac_chain(a: Frac, b: Frac, c: Frac)
    requires
        a.den > 0,
        b.den > 0,
        c.den > 0,
    ensures
        before(a, b) && !before(c, b) ==> before(a, c),
        !before(b, a) && before(b, c) ==> before(a, c),
        !before(b, a) && !before(c, b) ==> !before(c, a),
{
    let an = a.num as int;
    let ad = a.den as int;
    let bn = b.num as int;
    let bd = b.den as int;
    let cn = c.num as int;
    let cd = c.den as int;
    assert((an * bd < bn * ad && bn * cd <= cn * bd ==> an * cd < cn * ad) && (an * bd <= bn * ad && bn
        * cd < cn * bd ==> an * cd < cn * ad) && (an * bd <= bn * ad && bn * cd <= cn * bd ==> an * cd
        <= cn * ad)) by (nonlinear_arith)
        requires
            ad > 0,
            bd > 0,
            cd > 0,
    {
        assert((an * bd) * cd == (an * cd) * bd);
        assert((bn * ad) * cd == (bn * cd) * ad);
        assert((cn * bd) * ad == (cn * ad) * bd);
        if an * bd < bn * ad {
            assert((an * bd) * cd < (bn * ad) * cd);
        }
        if an * bd <= bn * ad {
            assert((an * bd) * cd <= (bn * ad) * cd);
        }
        if bn * cd < cn * bd {
            assert((bn * cd) * ad < (cn * bd) * ad);
        }
        if bn * cd <= cn * bd {
            assert((bn * cd) * ad <= (cn * bd) * ad);
        }
        if (an * cd) * bd < (cn * ad) * bd {
            assert(an * cd < cn * ad);
        }
        if (an * cd) * bd <= (cn * ad) * bd {
            assert(an * cd <= cn * ad);
        }
    }
}

/// How a fraction of the slab test stands to a parameter of the grid proper.
proof fn fitted_to(num: int, den: int, f: Frac)
    requires
        0 < den <= 0x8000_0000,
        -0x2_0000_0000_0000_0000 <= num <= 0x2_0000_0000_0000_0000,
        proper(f),
    ensures
        fitted(num, den).den > 0,
        num * f.den <= f.num * den <==> !before(f, fitted(num, den)),
        num * f.den >= f.num * den <==> !before(fitted(num, den), f),
{
    let fnum = f.num as int;
    let fden = f.den as int;
    assert(fnum * 1 == fnum && POS_INF * fden == fden * POS_INF && NEG_INF * fden == fden * NEG_INF && 1
        * fden == fden) by (nonlinear_arith);
    if num >= POS_INF * den {
        assert(num * fden > fnum * den) by (nonlinear_arith)
            requires
                num >= POS_INF * den,
                fnum < POS_INF * fden,
                den > 0,
                fden > 0,
        {
            assert(num * fden >= (POS_INF * den) * fden);
            assert((POS_INF * fden) * den > fnum * den);
            assert((POS_INF * den) * fden == (POS_INF * fden) * den);
        }
    } else if num <= NEG_INF * den {
        assert(num * fden < fnum * den) by (nonlinear_arith)
            requires
                num <= NEG_INF * den,
                fnum > NEG_INF * fden,
                den > 0,
                fden > 0,
        {
            assert(num * fden <= (NEG_INF * den) * fden);
            assert((NEG_INF * fden) * den < fnum * den);
            assert((NEG_INF * den) * fden == (NEG_INF * fden) * den);
        }
    } else {
        assert(fnum * den == den * fnum && num * fden == fden * num) by (nonlinear_arith);
    }
}

/// Along one axis: a ray lies between the ends of `b` at a parameter of the
/// grid proper exactly if that parameter lies within its exact passage.
proof fn axis_exact(b: Interval, o: int, d: int, f: Frac)
    requires
        proper(f),
        -0x8000_0000 <= o < 0x8000_0000,
        -0x8000_0000 <= d < 0x8000_0000,
    ensures
        passage(b, o, d).0.den > 0,
        passage(b, o, d).1.den > 0,
        between_at(b, o, d, f) <==> (!before(f, passage(b, o, d).0) && !before(passage(b, o, d).1, f)),
{
    let fnum = f.num as int;
    let fden = f.den as int;
    assert(fnum * 1 == fnum && POS_INF * fden == fden * POS_INF && NEG_INF * fden == fden * NEG_INF && 1
        * fden == fden) by (nonlinear_arith);
    if d > 0 {
        if !is_inf(b.min as int) {
            fitted_to(b.min - o, d, f);
            assert((b.min - o) * fden == b.min * fden - o * fden) by (nonlinear_arith);
        }
        if !is_inf(b.max as int) {
            fitted_to(b.max - o, d, f);
            assert((b.max - o) * fden == b.max * fden - o * fden) by (nonlinear_arith);
        }
    } else if d < 0 {
        let e = -d;
        assert(fnum * d == -(fnum * e)) by (nonlinear_arith)
            requires
                e == -d,
        ;
        if !is_inf(b.max as int) {
            fitted_to(o - b.max, e, f);
            assert((o - b.max) * fden == o * fden - b.max * fden) by (nonlinear_arith);
        }
        if !is_inf(b.min as int) {
            fitted_to(o - b.min, e, f);
            assert((o - b.min) * fden == o * fden - b.min * fden) by (nonlinear_arith);
        }
    } else {
        assert(fnum * d == 0) by (nonlinear_arith)
            requires
                d == 0,
        ;
        assert((b.min * fden <= o * fden <==> b.min <= o) && (o * fden <= b.max * fden <==> o <= b.max))
            by (nonlinear_arith)
            requires
                fden > 0,
        ;
    }
}

/// The slab test reports no miss for a ray that is in the box for a while:
/// if at two different parameters of the grid proper, whole or not, both
/// within the interval, the ray lies in the closed box, the test reports a
/// hit.
pub proof fn slab_test_misses_nothing(b: AABB, ray: Ray, iv: Interval, f: Frac, g: Frac)
    requires
        proper(f),
        proper(g),
        before(f, g),
        within_at(iv, f),
        within_at(iv, g),
        box_at(b, ray, f),
        box_at(b, ray, g),
    ensures
        b.spec_hit(ray, iv).0,
{
    reveal_with_fuel(AABB::window, 4);
    let ox = ray.origin.x as int;
    let oy = ray.origin.y as int;
    let oz = ray.origin.z as int;
    let dx = ray.direction.x as int;
    let dy = ray.direction.y as int;
    let dz = ray.direction.z as int;
    axis_exact(b.x, ox, dx, f);
    axis_exact(b.y, oy, dy, f);
    axis_exact(b.z, oz, dz, f);
    axis_exact(b.x, ox, dx, g);
    axis_exact(b.y, oy, dy, g);
    axis_exact(b.z, oz, dz, g);
    whole_order(iv.min as int, iv.max as int);
    let w1 = b.window(ray, iv, 1).0;
    let w2 = b.window(ray, iv, 2).0;
    let w3 = b.window(ray, iv, 3).0;
    frac_chain(w1.0, f, g);
    frac_chain(w1.0, g, w1.1);
    frac_chain(w2.0, f, g);
    frac_chain(w2.0, g, w2.1);
    frac_chain(w3.0, f, g);
    frac_chain(w3.0, g, w3.1);
}

/// The slab test reports no hit for a ray that never enters the box: after
/// a hit there is a parameter, whole or not, within the interval and short
/// of its end, at which the ray lies in the closed box in exact
/// arithmetic. This is stated for intervals with a finite lower end.
pub proof fn slab_test_is_exact(b: AABB, ray: Ray, iv: Interval)
    requires
        b.spec_hit(ray, iv).0,
        iv.min > NEG_INF,
    ensures
        exists|f: Frac| #[trigger] proper(f) && within_at(iv, f) && before(f, whole(iv.max as int)) && box_at(b, ray, f),
{
    reveal_with_fuel(AABB::window, 4);
    let ox = ray.origin.x as int;
    let oy = ray.origin.y as int;
    let oz = ray.origin.z as int;
    let dx = ray.direction.x as int;
    let dy = ray.direction.y as int;
    let dz = ray.direction.z as int;
    let w0 = b.window(ray, iv, 0).0;
    let w1 = b.window(ray, iv, 1).0;
    let w2 = b.window(ray, iv, 2).0;
    let w3 = b.window(ray, iv, 3).0;
    let px = passage(b.x, ox, dx);
    let py = passage(b.y, oy, dy);
    let pz = passage(b.z, oz, dz);
    let f = w3.0;
    whole_order(iv.min as int, iv.max as int);
    // the passages have positive denominators, whatever the parameter
    let unit = whole(0);
    assert(proper(unit));
    axis_exact(b.x, ox, dx, unit);
    axis_exact(b.y, oy, dy, unit);
    axis_exact(b.z, oz, dz, unit);
    // the left end of the window has only grown, the right end only shrunk
    frac_chain(w0.0, w1.0, w2.0);
    frac_chain(w0.0, w2.0, w3.0);
    frac_chain(w3.1, w2.1, w1.1);
    frac_chain(w3.1, w1.1, w0.1);
    frac_chain(f, w3.1, w0.1);
    assert(!before(f, w0.0));
    assert(before(f, w0.1));
    let fnum = f.num as int;
    let fden = f.den as int;
    assert(proper(f)) by {
        assert(fnum * 1 == fnum && (iv.min as int) * fden <= fnum && fnum < (iv.max as int) * fden) by {
            assert(fnum * 1 == fnum) by (nonlinear_arith);
        }
        assert(NEG_INF * fden < (iv.min as int) * fden && (iv.max as int) * fden <= POS_INF * fden)
            by (nonlinear_arith)
            requires
                fden > 0,
                NEG_INF < iv.min,
                iv.max <= POS_INF,
        ;
    }
    axis_exact(b.x, ox, dx, f);
    axis_exact(b.y, oy, dy, f);
    axis_exact(b.z, oz, dz, f);
    // each entry is at or before the left end, each exit at or after the right end
    frac_chain(px.0, w1.0, w2.0);
    frac_chain(px.0, w2.0, w3.0);
    frac_chain(py.0, w2.0, w3.0);
    frac_chain(f, w3.1, pz.1);
    frac_chain(f, w3.1, w2.1);
    frac_chain(f, w2.1, py.1);
    frac_chain(f, w2.1, w1.1);
    frac_chain(f, w1.1, px.1);
    assert(box_at(b, ray, f));
}

impl Default for AABB {
    fn default() -> (r: Self)
        ensures
            r == Self::spec_empty(),
    {
        Self::empty()
    }
}

} // verus!
