//! Grid ordinates with saturating arithmetic, closed intervals over them, and
//! the uniform integer source.
use rand::distributions::Uniform;
use rand::{thread_rng, Rng};
use vstd::prelude::*;

verus! {

/// The largest ordinate; it stands for positive infinity.
pub const POS_INF: i64 = i64::MAX;

/// The smallest ordinate; it stands for negative infinity.
pub const NEG_INF: i64 = i64::MIN;

/// The fixed-point one: fractions such as surface coordinates and the sine and
/// cosine of an angle are counted in parts of `UNIT`.
pub const UNIT: i32 = 65536;

/// Whether `a` is one of the two infinite ordinates.
pub open spec fn is_inf(a: int) -> bool {
    a == POS_INF || a == NEG_INF
}

/// `a` brought back into the ordinate range: what lies beyond an end becomes
/// that end.
pub open spec fn clip(a: int) -> int {
    if a >= POS_INF {
        POS_INF as int
    } else if a <= NEG_INF {
        NEG_INF as int
    } else {
        a
    }
}

/// The ordinate `a` moved by `d`. An infinite ordinate stays where it is; a
/// finite one that leaves the range becomes infinite.
pub open spec fn shifted(a: int, d: int) -> int {
    if is_inf(a) {
        a
    } else {
        clip(a + d)
    }
}

/// The signed distance from ordinate `lo` up to ordinate `hi`. An infinite
/// `hi` decides the result; otherwise an infinite `lo` gives the opposite
/// infinity.
pub open spec fn span(lo: int, hi: int) -> int {
    if is_inf(hi) {
        hi
    } else if lo == POS_INF {
        NEG_INF as int
    } else if lo == NEG_INF {
        POS_INF as int
    } else {
        clip(hi - lo)
    }
}

/// Half of `d`, rounded toward zero.
pub open spec fn half(d: int) -> int {
    if d >= 0 {
        d / 2
    } else {
        -((-d) / 2)
    }
}

/// Moves the ordinate `a` by `d`, saturating at the infinities.
pub fn shift(a: i64, d: i64) -> (r: i64)
    ensures
        r == shifted(a as int, d as int),
{
    if a == POS_INF || a == NEG_INF {
        a
    } else {
        let s: i128 = a as i128 + d as i128;
        if s >= POS_INF as i128 {
            POS_INF
        } else if s <= NEG_INF as i128 {
            NEG_INF
        } else {
            s as i64
        }
    }
}

/// The signed distance from `lo` up to `hi`, saturating at the infinities.
pub fn distance(lo: i64, hi: i64) -> (r: i64)
    ensures
        r == span(lo as int, hi as int),
{
    if hi == POS_INF || hi == NEG_INF {
        hi
    } else if lo == POS_INF {
        NEG_INF
    } else if lo == NEG_INF {
        POS_INF
    } else {
        let s: i128 = hi as i128 - lo as i128;
        if s >= POS_INF as i128 {
            POS_INF
        } else if s <= NEG_INF as i128 {
            NEG_INF
        } else {
            s as i64
        }
    }
}

/// A closed range of ordinates. It is empty when `min > max`.
#[derive(Clone, Copy, Debug, PartialEq, Eq, Structural)]
pub struct Interval {
    pub min: i64,
    pub max: i64,
}

impl Interval {
    /// The interval that holds nothing and is neutral for `merge`.
    pub open spec fn spec_empty() -> Self {
        Interval { min: POS_INF, max: NEG_INF }
    }

    /// The interval that holds every ordinate.
    pub open spec fn spec_universe() -> Self {
        Interval { min: NEG_INF, max: POS_INF }
    }

    pub fn empty() -> (r: Self)
        ensures
            r == Self::spec_empty(),
    {
        Self { min: POS_INF, max: NEG_INF }
    }

    pub fn universe() -> (r: Self)
        ensures
            r == Self::spec_universe(),
    {
        Self { min: NEG_INF, max: POS_INF }
    }

    pub fn new(min: i64, max: i64) -> (r: Self)
        ensures
            r.min == min,
            r.max == max,
    {
        Self { min, max }
    }

    /// Closed containment.
    pub open spec fn spec_contains(self, value: int) -> bool {
        self.min <= value <= self.max
    }

    /// Open containment.
    pub open spec fn spec_surrounds(self, x: int) -> bool {
        self.min < x < self.max
    }

    /// The signed length; negative for an empty interval.
    pub open spec fn spec_size(self) -> int {
        span(self.min as int, self.max as int)
    }

    /// The nearest ordinate to `value` between `min` and `max`, the lower end
    /// being tested first.
    pub open spec fn spec_clamp(self, value: int) -> int {
        if value < self.min {
            self.min as int
        } else if value > self.max {
            self.max as int
        } else {
            value
        }
    }

    /// The smallest interval that holds both.
    pub open spec fn spec_merge(lhs: Self, rhs: Self) -> Self {
        Interval {
            min: if lhs.min <= rhs.min { lhs.min } else { rhs.min },
            max: if lhs.max >= rhs.max { lhs.max } else { rhs.max },
        }
    }

    /// The interval grown by `delta` in all, half of it at each end.
    pub open spec fn spec_expand(self, delta: int) -> Self {
        Interval {
            min: shifted(self.min as int, -half(delta)) as i64,
            max: shifted(self.max as int, half(delta)) as i64,
        }
    }

    /// The interval moved by `scalar`.
    pub open spec fn spec_add_scalar(self, scalar: int) -> Self {
        Interval {
            min: shifted(self.min as int, scalar) as i64,
            max: shifted(self.max as int, scalar) as i64,
        }
    }

    pub fn contains(&self, value: i64) -> (r: bool)
        ensures
            r == self.spec_contains(value as int),
    {
        self.min <= value && value <= self.max
    }

    pub fn surrounds(&self, x: i64) -> (r: bool)
        ensures
            r == self.spec_surrounds(x as int),
    {
        self.min < x && x < self.max
    }

    pub fn size(&self) -> (r: i64)
        ensures
            r == self.spec_size(),
    {
        distance(self.min, self.max)
    }

    pub fn clamp(&self, value: i64) -> (r: i64)
        ensures
            r == self.spec_clamp(value as int),
    {
        if value < self.min {
            self.min
        } else if value > self.max {
            self.max
        } else {
            value
        }
    }

    pub fn merge(lhs: &Self, rhs: &Self) -> (r: Self)
        ensures
            r == Self::spec_merge(*lhs, *rhs),
    {
        let min: i64 = if lhs.min <= rhs.min { lhs.min } else { rhs.min };
        let max: i64 = if lhs.max >= rhs.max { lhs.max } else { rhs.max };
        Self::new(min, max)
    }

    pub fn expand(&self, delta: i64) -> (r: Interval)
        ensures
            r == self.spec_expand(delta as int),
    {
        let padding: i64 = delta / 2;
        Interval::new(shift(self.min, -padding), shift(self.max, padding))
    }

    pub fn add_scalar(&self, scalar: i64) -> (r: Self)
        ensures
            r == self.spec_add_scalar(scalar as int),
    {
        Self::new(shift(self.min, scalar), shift(self.max, scalar))
    }
}

impl Default for Interval {
    fn default() -> (r: Self)
        ensures
            r == Self::spec_empty(),
    {
        Self::new(POS_INF, NEG_INF)
    }
}

/// A uniformly drawn integer from `min` up to, not including, `max`.
///
/// This is `Rng::sample` of the `rand` crate, on its thread-local generator
/// and with `Uniform::new(min, max)`. Believed of it: the number lies in the
/// half-open range. The crate panics on an empty range, which `requires`
/// leaves out. Nothing is said of which number comes: two calls may differ.
#[verifier::external_body]
pub fn random_int(min: i32, max: i32) -> (r: i32)
    requires
        min < max,
    ensures
        min <= r < max,
{
    let mut rng = thread_rng();
    rng.sample(Uniform::new(min, max))
}

} // verus!
