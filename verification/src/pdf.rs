//! Densities over directions and their mixture.
use vstd::prelude::*;
use crate::hit::Hittable;
use crate::ray::Vec3;
use crate::util::{half, random_int, UNIT};

verus! {

/// What the caller's arithmetic is asked about: the cosine lobe around an
/// axis, the uniform sphere, or the surface with a given number as seen
/// from an origin.
#[derive(Clone, Copy, Debug, PartialEq, Eq, Structural)]
pub enum Lobe {
    Cosine(Vec3),
    Sphere,
    Surface(usize, Vec3),
}

/// The density probe answers every question: what the density of a lobe is
/// in a direction.
pub open spec fn weighing<D: Fn(Lobe, Vec3) -> i64>(density: &D) -> bool {
    forall|lobe: Lobe, direction: Vec3| call_requires(density, (lobe, direction))
}

/// The sample probe answers every question: a direction drawn from a lobe.
pub open spec fn drawing<S: Fn(Lobe) -> Vec3>(sample: &S) -> bool {
    forall|lobe: Lobe| call_requires(sample, (lobe,))
}

/// The sum of the first `n` of `vals`.
pub open spec fn total(vals: Seq<i64>, n: int) -> int
    decreases n,
{
    if n <= 0 {
        0
    } else {
        total(vals, n - 1) + vals[n - 1]
    }
}

/// The mean of `vals`, rounded down; zero for none.
pub open spec fn mean(vals: Seq<i64>) -> int {
    if vals.len() == 0 {
        0
    } else {
        total(vals, vals.len() as int) / (vals.len() as int)
    }
}

/// Names a run of densities, for a proof to point at; it holds of every run.
pub open spec fn weights(vals: Seq<i64>) -> bool {
    true
}

/// Names two densities, for a proof to point at; it holds of every pair.
pub open spec fn two(a: i64, b: i64) -> bool {
    true
}

/// Names a choice, for a proof to point at; it holds of every one.
pub open spec fn chosen(k: int) -> bool {
    true
}

/// What the first `n` of `vals` add up to does not depend on what follows.
pub proof fn total_of_prefix(a: Seq<i64>, b: Seq<i64>, n: int)
    requires
        n <= a.len(),
        n <= b.len(),
        forall|i: int| 0 <= i < n ==> a[i] == b[i],
    ensures
        total(a, n) == total(b, n),
    decreases n,
{
    if n > 0 {
        total_of_prefix(a, b, n - 1);
    }
}

/// The sum of `n` ordinates lies within `n` times their range.
pub proof fn total_is_bounded(vals: Seq<i64>, n: int)
    requires
        0 <= n <= vals.len(),
    ensures
        n * (-0x8000_0000_0000_0000) <= total(vals, n) <= n * 0x7fff_ffff_ffff_ffff,
    decreases n,
{
    if n > 0 {
        total_is_bounded(vals, n - 1);
    }
}

/// The density of the uniform distribution over all directions, one over
/// four pi, in parts of `UNIT`.
pub const UNIFORM_DENSITY: i64 = 5215;

/// The density that is zero everywhere.
#[derive(Clone, Copy, Debug, PartialEq, Eq, Structural)]
pub struct NonePDF;

impl NonePDF {
    pub fn value(&self, _direction: Vec3) -> (r: i64)
        ensures
            r == 0,
    {
        0
    }

    /// The direction along x, of length `UNIT`.
    pub fn generate(&self) -> (r: Vec3)
        ensures
            r == (Vec3 { x: UNIT, y: 0, z: 0 }),
    {
        Vec3::new(UNIT, 0, 0)
    }
}

/// The uniform density over all directions.
#[derive(Clone, Copy, Debug, PartialEq, Eq, Structural)]
pub struct SpherePdf;

impl SpherePdf {
    pub fn value(&self, _direction: Vec3) -> (r: i64)
        ensures
            r == UNIFORM_DENSITY,
    {
        UNIFORM_DENSITY
    }

    /// A direction drawn from the sample probe.
    pub fn generate<S: Fn(Lobe) -> Vec3>(&self, sample: &S) -> (r: Vec3)
        requires
            drawing(sample),
        ensures
            call_ensures(sample, (Lobe::Sphere,), r),
    {
        sample(Lobe::Sphere)
    }
}

/// The density proportional to the cosine of the angle to the axis `w`.
#[derive(Clone, Copy, Debug, PartialEq, Eq, Structural)]
pub struct CosinePdf {
    pub w: Vec3,
}

impl CosinePdf {
    pub fn new(w: Vec3) -> (r: Self)
        ensures
            r.w == w,
    {
        Self { w }
    }

    /// What the density probe answers for the cosine lobe around `w`, but
    /// never less than zero.
    pub fn value<D: Fn(Lobe, Vec3) -> i64>(&self, direction: Vec3, density: &D) -> (r: i64)
        requires
            weighing(density),
        ensures
            exists|raw: i64| #[trigger]
                call_ensures(density, (Lobe::Cosine(self.w), direction), raw) && r == (if raw
                    < 0 {
                    0
                } else {
                    raw
                }),
    {
        let raw = density(Lobe::Cosine(self.w), direction);
        if raw < 0 {
            0
        } else {
            raw
        }
    }

    /// A direction drawn from the sample probe.
    pub fn generate<S: Fn(Lobe) -> Vec3>(&self, sample: &S) -> (r: Vec3)
        requires
            drawing(sample),
        ensures
            call_ensures(sample, (Lobe::Cosine(self.w),), r),
    {
        sample(Lobe::Cosine(self.w))
    }
}

/// The density of directions toward a surface, seen from `origin`.
#[derive(Debug)]
pub struct HittablePdf<'a> {
    pub objects: &'a Hittable,
    pub origin: Vec3,
}

impl<'a> HittablePdf<'a> {
    pub fn new(objects: &'a Hittable, origin: Vec3) -> (r: Self)
        ensures
            r.objects == objects,
            r.origin == origin,
    {
        Self { objects, origin }
    }

    pub fn value<D: Fn(Lobe, Vec3) -> i64>(&self, direction: &Vec3, density: &D) -> (r: i64)
        requires
            weighing(density),
            self.objects@.weighable(),
        ensures
            self.objects@.weighs(density, self.origin, *direction, r),
    {
        self.objects.pdf_value(&self.origin, direction, density)
    }

    pub fn generate<S: Fn(Lobe) -> Vec3>(&self, sample: &S) -> (r: Vec3)
        requires
            drawing(sample),
            self.objects@.drawable(),
        ensures
            self.objects@.draws(sample, self.origin, r),
    {
        self.objects.random(&self.origin, sample)
    }
}

/// Two densities mixed in equal parts.
#[derive(Debug)]
pub struct MixturePdf<'a> {
    pub p: (PDF<'a>, PDF<'a>),
}

/// The closed family of densities.
#[derive(Debug)]
pub enum PDF<'a> {
    Cosine(CosinePdf),
    Sphere(SpherePdf),
    Zero(NonePDF),
    Hittable(Box<HittablePdf<'a>>),
    Mixture(Box<MixturePdf<'a>>),
}

/// The mean of two densities, rounded toward zero.
pub open spec fn average(a: i64, b: i64) -> int {
    half(a + b)
}

impl<'a> PDF<'a> {
    /// Whether every surface that this density looks at can be weighed and
    /// drawn from.
    pub open spec fn usable(self) -> bool
        decreases self,
    {
        match self {
            PDF::Hittable(h) => h.objects@.weighable() && h.objects@.drawable(),
            PDF::Mixture(m) => m.p.0.usable() && m.p.1.usable(),
            _ => true,
        }
    }

    /// Whether `out` is a possible density of `direction`, given what the
    /// density probe answers. A mixture has the average of its two parts.
    pub open spec fn weighs<D: Fn(Lobe, Vec3) -> i64>(self, density: &D, direction: Vec3, out: i64) -> bool
        decreases self,
    {
        match self {
            PDF::Cosine(c) => exists|raw: i64| #[trigger]
                call_ensures(density, (Lobe::Cosine(c.w), direction), raw) && out == (if raw < 0 {
                    0
                } else {
                    raw
                }),
            PDF::Sphere(_) => out == UNIFORM_DENSITY,
            PDF::Zero(_) => out == 0,
            PDF::Hittable(h) => h.objects@.weighs(density, h.origin, direction, out),
            PDF::Mixture(m) => exists|a: i64, b: i64|
                {
                    &&& #[trigger] two(a, b)
                    &&& m.p.0.weighs(density, direction, a)
                    &&& m.p.1.weighs(density, direction, b)
                    &&& out == average(a, b)
                },
        }
    }

    /// Whether `out` is a possible draw, given what the sample probe answers.
    /// A mixture draws from one of its two parts.
    pub open spec fn draws<S: Fn(Lobe) -> Vec3>(self, sample: &S, out: Vec3) -> bool
        decreases self,
    {
        match self {
            PDF::Cosine(c) => call_ensures(sample, (Lobe::Cosine(c.w),), out),
            PDF::Sphere(_) => call_ensures(sample, (Lobe::Sphere,), out),
            PDF::Zero(_) => out == (Vec3 { x: UNIT, y: 0, z: 0 }),
            PDF::Hittable(h) => h.objects@.draws(sample, h.origin, out),
            PDF::Mixture(m) => m.p.0.draws(sample, out) || m.p.1.draws(sample, out),
        }
    }

    pub fn value<D: Fn(Lobe, Vec3) -> i64>(&self, direction: &Vec3, density: &D) -> (r: i64)
        requires
            weighing(density),
            self.usable(),
        ensures
            self.weighs(density, *direction, r),
        decreases self,
    {
        match self {
            PDF::Cosine(pdf) => pdf.value(*direction, density),
            PDF::Sphere(pdf) => pdf.value(*direction),
            PDF::Zero(pdf) => pdf.value(*direction),
            PDF::Hittable(pdf) => pdf.value(direction, density),
            PDF::Mixture(pdf) => pdf.value(direction, density),
        }
    }

    pub fn generate<S: Fn(Lobe) -> Vec3>(&self, sample: &S) -> (r: Vec3)
        requires
            drawing(sample),
            self.usable(),
        ensures
            self.draws(sample, r),
        decreases self,
    {
        match self {
            PDF::Cosine(pdf) => pdf.generate(sample),
            PDF::Sphere(pdf) => pdf.generate(sample),
            PDF::Zero(pdf) => pdf.generate(),
            PDF::Hittable(pdf) => pdf.generate(sample),
            PDF::Mixture(pdf) => pdf.generate(sample),
        }
    }
}

impl<'a> MixturePdf<'a> {
    pub fn new(p0: PDF<'a>, p1: PDF<'a>) -> (r: Self)
        ensures
            r.p == (p0, p1),
    {
        Self { p: (p0, p1) }
    }

    /// Whether `out` is a possible density of `direction`: the average of
    /// possible densities of the two parts.
    pub open spec fn weighs<D: Fn(Lobe, Vec3) -> i64>(self, density: &D, direction: Vec3, out: i64) -> bool {
        exists|a: i64, b: i64|
            {
                &&& #[trigger] two(a, b)
                &&& self.p.0.weighs(density, direction, a)
                &&& self.p.1.weighs(density, direction, b)
                &&& out == average(a, b)
            }
    }

    /// Whether `out` is a possible draw: one of either part.
    pub open spec fn draws<S: Fn(Lobe) -> Vec3>(self, sample: &S, out: Vec3) -> bool {
        self.p.0.draws(sample, out) || self.p.1.draws(sample, out)
    }

    /// The average of the densities of the two parts.
    pub fn value<D: Fn(Lobe, Vec3) -> i64>(&self, direction: &Vec3, density: &D) -> (r: i64)
        requires
            weighing(density),
            self.p.0.usable(),
            self.p.1.usable(),
        ensures
            self.weighs(density, *direction, r),
        decreases self,
    {
        let lhs = self.p.0.value(direction, density);
        let rhs = self.p.1.value(direction, density);
        assert(two(lhs, rhs));
        ((lhs as i128 + rhs as i128) / 2) as i64
    }

    /// The part that a coin picks: the first for 0, else the second.
    pub fn pick(&self, coin: i32) -> (r: &PDF<'a>)
        ensures
            *r == (if coin == 0 {
                self.p.0
            } else {
                self.p.1
            }),
    {
        if coin == 0 {
            &self.p.0
        } else {
            &self.p.1
        }
    }

    /// A draw from one part or the other, as a fair coin decides.
    pub fn generate<S: Fn(Lobe) -> Vec3>(&self, sample: &S) -> (r: Vec3)
        requires
            drawing(sample),
            self.p.0.usable(),
            self.p.1.usable(),
        ensures
            self.draws(sample, r),
        decreases self,
    {
        let coin = random_int(0, 2);
        self.pick(coin).generate(sample)
    }
}

} // verus!
