//! Parallelograms: construction, the interior test, what they report, and the
//! six sides of a box.
use vstd::prelude::*;
use crate::aabb::AABB;
use crate::bvh::{hull, models};
use crate::hit::{record, HitRecord, Hittable, Meet, Touch};
use crate::pdf::Lobe;
use crate::ray::{mul32, Ray, Vec2, Vec3};
use crate::scene::Scene;
use crate::util::{Interval, UNIT};

verus! {

/// A parallelogram with corner `q` and edges `u` and `v`. The caller knows
/// its surface under `id`.
#[derive(Clone, Copy, Debug, PartialEq, Eq, Structural)]
pub struct Quad {
    pub id: usize,
    pub q: Vec3,
    pub u: Vec3,
    pub v: Vec3,
    pub material: usize,
    pub aabb: AABB,
}

/// Whether the exact vector product of `u` and `v` is zero: the two edges lie
/// on one line, and span no area.
pub open spec fn collinear(u: Vec3, v: Vec3) -> bool {
    &&& u.y * v.z - u.z * v.y == 0
    &&& u.z * v.x - u.x * v.z == 0
    &&& u.x * v.y - u.y * v.x == 0
}

impl Quad {
    /// The box between the corner `q` and the opposite corner `q + u + v`.
    pub open spec fn spec_bounds(q: Vec3, u: Vec3, v: Vec3) -> AABB {
        AABB::spec_new(q, q.spec_plus(u).spec_plus(v))
    }

    /// Builds the parallelogram, or refuses edges that lie on one line.
    pub fn new(id: usize, q: Vec3, u: Vec3, v: Vec3, material: usize) -> (r: Option<Self>)
        ensures
            collinear(u, v) <==> r is None,
            r matches Some(quad) ==> quad == (Quad {
                id,
                q,
                u,
                v,
                material,
                aabb: Self::spec_bounds(q, u, v),
            }) && quad.aabb.wf(),
    {
        let nx: i128 = mul32(u.y, v.z) as i128 - mul32(u.z, v.y) as i128;
        let ny: i128 = mul32(u.z, v.x) as i128 - mul32(u.x, v.z) as i128;
        let nz: i128 = mul32(u.x, v.y) as i128 - mul32(u.y, v.x) as i128;
        if nx == 0 && ny == 0 && nz == 0 {
            return None;
        }
        let aabb = AABB::new(q, q.plus(&u).plus(&v));
        Some(Self { id, q, u, v, material, aabb })
    }

    /// The surface coordinates of a point of the plane, if it lies on the
    /// parallelogram: both between zero and `UNIT`, the ends included.
    pub open spec fn spec_is_interior(u: i32, v: i32) -> Option<Vec2> {
        if 0 <= u <= UNIT && 0 <= v <= UNIT {
            Some(Vec2 { x: u, y: v })
        } else {
            None
        }
    }

    pub fn is_interior(&self, u: i32, v: i32) -> (r: Option<Vec2>)
        ensures
            r == Self::spec_is_interior(u, v),
    {
        if !(0 <= u && u <= UNIT) || !(0 <= v && v <= UNIT) {
            return None;
        }
        Some(Vec2::new(u, v))
    }
}

impl Quad {
    /// Where a ray meets the parallelogram, from what the caller's arithmetic
    /// found for its plane: nothing for a ray that grazes the plane, for a
    /// parameter outside the closed interval, or for a point of the plane
    /// off the parallelogram; else the parameter and the surface coordinates.
    pub open spec fn spec_accept(grazing: bool, t: i64, alpha: i32, beta: i32, interval: Interval) -> Option<
        (i64, Vec2),
    > {
        if grazing || !interval.spec_contains(t as int) {
            None
        } else {
            match Self::spec_is_interior(alpha, beta) {
                Some(uv) => Some((t, uv)),
                None => None,
            }
        }
    }

    pub fn accept(&self, grazing: bool, t: i64, alpha: i32, beta: i32, interval: &Interval) -> (r: Option<
        (i64, Vec2),
    >)
        ensures
            r == Self::spec_accept(grazing, t, alpha, beta, *interval),
    {
        if grazing {
            return None;
        }
        if !interval.contains(t) {
            return None;
        }
        match self.is_interior(alpha, beta) {
            Some(uv) => Some((t, uv)),
            None => None,
        }
    }
}

impl Quad {
    /// Whether `out` is what the parallelogram reports for the crossing `q`
    /// of its plane, given what the touch probe answers: nothing unless the
    /// crossing is accepted; else its record, with the plane coordinates as
    /// surface coordinates, the parallelogram's material and the normal set
    /// by the face rule.
    pub open spec fn reports<H: Fn(usize, Vec3, Ray, i64) -> Touch>(
        self,
        touch: &H,
        ray: Ray,
        iv: Interval,
        q: Meet,
        out: Option<HitRecord>,
    ) -> bool {
        match Self::spec_accept(q.miss, q.near, q.alpha, q.beta, iv) {
            None => out is None,
            Some((t, uv)) => exists|s: Touch| #[trigger]
                call_ensures(touch, (self.id, self.q, ray, t), s) && out == Some(
                    record(t, s.p, s.outward, uv, self.material, ray),
                ),
        }
    }

    /// Whether `out` is a possible result of intersecting `ray` with the
    /// parallelogram within `iv`, given what the probes answer. The surface
    /// probe is asked for the crossing of the plane; it counts unless the ray
    /// runs along the plane, the parameter lies outside the closed interval,
    /// or the point lies off the parallelogram.
    pub open spec fn meets<P: Fn(usize, Vec3, Ray) -> Meet, H: Fn(usize, Vec3, Ray, i64) -> Touch>(
        self,
        probe: &P,
        touch: &H,
        ray: Ray,
        iv: Interval,
        out: Option<HitRecord>,
    ) -> bool {
        exists|q: Meet| #[trigger]
            call_ensures(probe, (self.id, self.q, ray), q) && self.reports(touch, ray, iv, q, out)
    }

    /// Where the ray meets the parallelogram within the interval.
    pub fn hit<P: Fn(usize, Vec3, Ray) -> Meet, H: Fn(usize, Vec3, Ray, i64) -> Touch>(
        &self,
        probe: &P,
        touch: &H,
        ray: &Ray,
        interval: &Interval,
    ) -> (r: Option<HitRecord>)
        requires
            forall|id: usize, anchor: Vec3, y: Ray| call_requires(probe, (id, anchor, y)),
            forall|id: usize, anchor: Vec3, y: Ray, t: i64| call_requires(touch, (id, anchor, y, t)),
        ensures
            self.meets(probe, touch, *ray, *interval, r),
    {
        let q = probe(self.id, self.q, *ray);
        match self.accept(q.miss, q.near, q.alpha, q.beta, interval) {
            None => None,
            Some((t, uv)) => {
                let s = touch(self.id, self.q, *ray, t);
                let mut rec = HitRecord {
                    t,
                    p: s.p,
                    normal: s.outward,
                    front_face: false,
                    uv,
                    material: self.material,
                };
                rec.set_face_normal(ray, &s.outward);
                Some(rec)
            },
        }
    }

    /// Whether `out` is a possible density of `direction` among the
    /// directions from `origin` toward the parallelogram: what the density
    /// probe answers for its number, but never less than zero.
    pub open spec fn weighs<D: Fn(Lobe, Vec3) -> i64>(self, density: &D, origin: Vec3, direction: Vec3, out: i64) -> bool {
        exists|raw: i64| #[trigger]
            call_ensures(density, (Lobe::Surface(self.id, origin), direction), raw) && out == (if raw
                < 0 {
                0
            } else {
                raw
            })
    }

    /// The density of `direction` among the directions from `origin` toward
    /// the parallelogram.
    pub fn pdf_value<D: Fn(Lobe, Vec3) -> i64>(&self, origin: &Vec3, direction: &Vec3, density: &D) -> (r:
        i64)
        requires
            call_requires(density, (Lobe::Surface(self.id, *origin), *direction)),
        ensures
            self.weighs(density, *origin, *direction, r),
            r >= 0,
    {
        let raw = density(Lobe::Surface(self.id, *origin), *direction);
        if raw < 0 {
            0
        } else {
            raw
        }
    }

    /// A direction drawn from `origin` toward the parallelogram: what the
    /// sample probe answers for its number.
    pub fn random<S: Fn(Lobe) -> Vec3>(&self, origin: &Vec3, sample: &S) -> (r: Vec3)
        requires
            call_requires(sample, (Lobe::Surface(self.id, *origin),)),
        ensures
            call_ensures(sample, (Lobe::Surface(self.id, *origin),), r),
    {
        sample(Lobe::Surface(self.id, *origin))
    }
}

/// The corner and the two edges of side `k` of the box between `min` and
/// `max`: front, right, back, left, top, bottom.
pub open spec fn side(min: Vec3, max: Vec3, k: int) -> (Vec3, Vec3, Vec3) {
    let dx = Vec3 { x: max.spec_minus(min).x, y: 0, z: 0 };
    let dy = Vec3 { x: 0, y: max.spec_minus(min).y, z: 0 };
    let dz = Vec3 { x: 0, y: 0, z: max.spec_minus(min).z };
    if k == 0 {
        (Vec3 { x: min.x, y: min.y, z: max.z }, dx, dy)
    } else if k == 1 {
        (Vec3 { x: max.x, y: min.y, z: max.z }, dz.spec_negated(), dy)
    } else if k == 2 {
        (Vec3 { x: max.x, y: min.y, z: min.z }, dx.spec_negated(), dy)
    } else if k == 3 {
        (Vec3 { x: min.x, y: min.y, z: min.z }, dz, dy)
    } else if k == 4 {
        (Vec3 { x: min.x, y: max.y, z: max.z }, dx, dz.spec_negated())
    } else {
        (Vec3 { x: min.x, y: min.y, z: min.z }, dx, dz)
    }
}

/// The componentwise smaller of two corners.
pub open spec fn least(a: Vec3, b: Vec3) -> Vec3 {
    Vec3 {
        x: if a.x <= b.x { a.x } else { b.x },
        y: if a.y <= b.y { a.y } else { b.y },
        z: if a.z <= b.z { a.z } else { b.z },
    }
}

/// The componentwise greater of two corners.
pub open spec fn most(a: Vec3, b: Vec3) -> Vec3 {
    Vec3 {
        x: if a.x >= b.x { a.x } else { b.x },
        y: if a.y >= b.y { a.y } else { b.y },
        z: if a.z >= b.z { a.z } else { b.z },
    }
}

/// Side `k` of the box as a surface, numbered `first_id + k`.
pub open spec fn side_quad(min: Vec3, max: Vec3, k: int, mat: usize, first_id: usize) -> Hittable {
    let s = side(min, max, k);
    Hittable::Quad(
        Quad {
            id: (first_id + k) as usize,
            q: s.0,
            u: s.1,
            v: s.2,
            material: mat,
            aabb: Quad::spec_bounds(s.0, s.1, s.2),
        },
    )
}

/// The six sides of the box between two opposite corners, all of one
/// material and numbered from `first_id` on; nothing for a box that is flat
/// along some axis, whose sides would have edges on one line.
pub fn box_scene(a: Vec3, b: Vec3, mat: usize, first_id: usize) -> (r: Option<Scene>)
    requires
        first_id + 6 <= usize::MAX,
    ensures
        r is Some <==> (a.x != b.x && a.y != b.y && a.z != b.z),
        r matches Some(sides) ==> {
            &&& sides.objects@.len() == 6
            &&& sides.bbox == hull(models(sides.objects@), 6)
            &&& forall|k: int|
                0 <= k < 6 ==> #[trigger] sides.objects@[k] == side_quad(
                    least(a, b),
                    most(a, b),
                    k,
                    mat,
                    first_id,
                )
        },
{
    let min = Vec3::new(
        if a.x <= b.x { a.x } else { b.x },
        if a.y <= b.y { a.y } else { b.y },
        if a.z <= b.z { a.z } else { b.z },
    );
    let max = Vec3::new(
        if a.x >= b.x { a.x } else { b.x },
        if a.y >= b.y { a.y } else { b.y },
        if a.z >= b.z { a.z } else { b.z },
    );
    if min.x == max.x || min.y == max.y || min.z == max.z {
        return None;
    }
    let d = max.minus(&min);
    let dx = Vec3::new(d.x, 0, 0);
    let dy = Vec3::new(0, d.y, 0);
    let dz = Vec3::new(0, 0, d.z);
    let mut sides = Scene::default();
    let mut k: usize = 0;
    while k < 6
        invariant
            k <= 6,
            first_id + 6 <= usize::MAX,
            min == least(a, b),
            max == most(a, b),
            min.x < max.x,
            min.y < max.y,
            min.z < max.z,
            d == max.spec_minus(min),
            dx == (Vec3 { x: d.x, y: 0, z: 0 }),
            dy == (Vec3 { x: 0, y: d.y, z: 0 }),
            dz == (Vec3 { x: 0, y: 0, z: d.z }),
            sides.objects@.len() == k,
            sides.bbox == hull(models(sides.objects@), k as int),
            forall|n: int| 0 <= n < k ==> #[trigger] sides.objects@[n] == side_quad(min, max, n, mat, first_id),
        decreases 6 - k,
    {
        let (q, u, v) = if k == 0 {
            (Vec3::new(min.x, min.y, max.z), dx, dy)
        } else if k == 1 {
            (Vec3::new(max.x, min.y, max.z), dz.negated(), dy)
        } else if k == 2 {
            (Vec3::new(max.x, min.y, min.z), dx.negated(), dy)
        } else if k == 3 {
            (Vec3::new(min.x, min.y, min.z), dz, dy)
        } else if k == 4 {
            (Vec3::new(min.x, max.y, max.z), dx, dz.negated())
        } else {
            (Vec3::new(min.x, min.y, min.z), dx, dz)
        };
        proof {
            assert(d.x > 0 && d.y > 0 && d.z > 0);
            assert(!collinear(u, v)) by (nonlinear_arith)
                requires
                    (u.x != 0 && u.y == 0 && u.z == 0 && v.x == 0 && v.y != 0 && v.z == 0) || (u.x == 0
                        && u.y == 0 && u.z != 0 && v.x == 0 && v.y != 0 && v.z == 0) || (u.x != 0
                        && u.y == 0 && u.z == 0 && v.x == 0 && v.y == 0 && v.z != 0),
            ;
        }
        match Quad::new(first_id + k, q, u, v, mat) {
            Some(quad) => {
                let ghost before = sides.objects@;
                sides.add(Hittable::Quad(quad));
                proof {
                    crate::bvh::grown_of_prefix(
                        crate::aabb::AABB::spec_empty(),
                        models(before),
                        models(sides.objects@),
                        k as int,
                    );
                    assert(models(sides.objects@)[k as int] == sides.objects@[k as int]@);
                }
            },
            None => {
                assert(false);
            },
        }
        k += 1;
    }
    Some(sides)
}

} // verus!
