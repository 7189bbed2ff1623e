//! Spheres: their bounding boxes, the choice between the two roots, and what
//! they report.
use vstd::prelude::*;
use crate::aabb::{floor_div, AABB};
use crate::hit::{record, HitRecord, Meet, Touch};
use crate::pdf::Lobe;
use crate::ray::{clip32, mul64, narrow32, Ray, Vec3};
use crate::util::{Interval, UNIT};

verus! {

/// A sphere. The caller knows its surface under `id`; the library keeps what
/// the scene structure needs.
#[derive(Clone, Copy, Debug, PartialEq, Eq, Structural)]
pub struct Sphere {
    pub id: usize,
    pub center: Vec3,
    pub radius: i32,
    pub material: usize,
    pub motion: Option<Vec3>,
    pub bbox: AABB,
}

/// The vector with all three components equal to `r`.
pub open spec fn cube(r: i32) -> Vec3 {
    Vec3 { x: r, y: r, z: r }
}

impl Sphere {
    /// The box around a sphere at `center`.
    pub open spec fn spec_bounds(center: Vec3, radius: i32) -> AABB {
        AABB::spec_new(center.spec_minus(cube(radius)), center.spec_plus(cube(radius)))
    }

    pub fn new(id: usize, center: Vec3, radius: i32, material: usize) -> (r: Self)
        ensures
            r == (Sphere {
                id,
                center,
                radius,
                material,
                motion: None,
                bbox: Self::spec_bounds(center, radius),
            }),
            r.bbox.wf(),
    {
        let rvec = Vec3::new(radius, radius, radius);
        Self {
            id,
            center,
            radius,
            material,
            motion: None,
            bbox: AABB::new(center.minus(&rvec), center.plus(&rvec)),
        }
    }

    /// A sphere that travels from `center` to `motion_center`: its box holds
    /// the sphere at both ends.
    pub fn new_with_motion(
        id: usize,
        center: Vec3,
        motion_center: Vec3,
        radius: i32,
        material: usize,
    ) -> (r: Self)
        ensures
            r == (Sphere {
                id,
                center,
                radius,
                material,
                motion: Some(motion_center.spec_minus(center)),
                bbox: AABB::spec_merge(
                    Self::spec_bounds(center, radius),
                    Self::spec_bounds(motion_center, radius),
                ),
            }),
            r.bbox.wf(),
    {
        let rvec = Vec3::new(radius, radius, radius);
        let box1 = AABB::new(center.minus(&rvec), center.plus(&rvec));
        let box2 = AABB::new(motion_center.minus(&rvec), motion_center.plus(&rvec));
        let bbox = AABB::merge(&box1, &box2);
        proof {
            crate::aabb::merge_of_constructed(box1, box2);
        }
        Self { id, center, radius, material, motion: Some(motion_center.minus(&center)), bbox }
    }

    /// Where the centre is at `time`, which is counted in parts of `UNIT`:
    /// `center + motion * time / UNIT`, rounded down and saturating; `center`
    /// for a sphere at rest. At time zero a moving sphere is at `center`, at
    /// time `UNIT` it has moved by `motion`.
    pub open spec fn spec_sphere_center(self, time: int) -> Vec3 {
        match self.motion {
            Some(m) => Vec3 {
                x: clip32(self.center.x + (time * m.x) / (UNIT as int)) as i32,
                y: clip32(self.center.y + (time * m.y) / (UNIT as int)) as i32,
                z: clip32(self.center.z + (time * m.z) / (UNIT as int)) as i32,
            },
            None => self.center,
        }
    }

    pub fn sphere_center(&self, time: i64) -> (r: Vec3)
        ensures
            r == self.spec_sphere_center(time as int),
    {
        match self.motion {
            Some(m) => Vec3 {
                x: narrow32(self.center.x as i128 + floor_div(mul64(time, m.x), UNIT as i128)),
                y: narrow32(self.center.y as i128 + floor_div(mul64(time, m.y), UNIT as i128)),
                z: narrow32(self.center.z as i128 + floor_div(mul64(time, m.z), UNIT as i128)),
            },
            None => self.center,
        }
    }

    /// Which root of the intersection equation counts: none where the
    /// discriminant is negative; else the nearer root if the open interval
    /// surrounds it; else the farther root if the interval surrounds that;
    /// else none.
    pub open spec fn spec_select_root(
        discriminant_negative: bool,
        near: i64,
        far: i64,
        interval: Interval,
    ) -> Option<i64> {
        if discriminant_negative {
            None
        } else if interval.spec_surrounds(near as int) {
            Some(near)
        } else if interval.spec_surrounds(far as int) {
            Some(far)
        } else {
            None
        }
    }

    pub fn select_root(discriminant_negative: bool, near: i64, far: i64, interval: &Interval) -> (r:
        Option<i64>)
        ensures
            r == Self::spec_select_root(discriminant_negative, near, far, *interval),
    {
        if discriminant_negative {
            return None;
        }
        let mut root = near;
        if !interval.surrounds(root) {
            root = far;
            if !interval.surrounds(root) {
                return None;
            }
        }
        Some(root)
    }
}

impl Sphere {
    /// Whether the point `origin` lies inside the sphere at rest: nearer to
    /// the centre than the radius.
    pub open spec fn spec_holds(self, origin: Vec3) -> bool {
        (self.center.x - origin.x) * (self.center.x - origin.x) + (self.center.y - origin.y) * (
        self.center.y - origin.y) + (self.center.z - origin.z) * (self.center.z - origin.z)
            < self.radius * self.radius
    }

    pub fn holds(&self, origin: &Vec3) -> (r: bool)
        ensures
            r == self.spec_holds(*origin),
    {
        let dx: i64 = self.center.x as i64 - origin.x as i64;
        let dy: i64 = self.center.y as i64 - origin.y as i64;
        let dz: i64 = self.center.z as i64 - origin.z as i64;
        let r: i64 = self.radius as i64;
        assert(dx * dx <= 0x1_0000_0000 * 0x1_0000_0000 && dy * dy <= 0x1_0000_0000 * 0x1_0000_0000
            && dz * dz <= 0x1_0000_0000 * 0x1_0000_0000 && r * r <= 0x1_0000_0000 * 0x1_0000_0000
            && dx * dx >= 0 && dy * dy >= 0 && dz * dz >= 0 && r * r >= 0) by (nonlinear_arith)
            requires
                -0x1_0000_0000 <= dx <= 0x1_0000_0000,
                -0x1_0000_0000 <= dy <= 0x1_0000_0000,
                -0x1_0000_0000 <= dz <= 0x1_0000_0000,
                -0x1_0000_0000 <= r <= 0x1_0000_0000,
        ;
        let xx: i128 = (dx as i128) * (dx as i128);
        let yy: i128 = (dy as i128) * (dy as i128);
        let zz: i128 = (dz as i128) * (dz as i128);
        let rr: i128 = (r as i128) * (r as i128);
        xx + yy + zz < rr
    }

    /// Whether `out` is what the sphere reports for the roots `q`, given what
    /// the touch probe answers: nothing unless a root counts; else the
    /// record of the crossing at that root, with the sphere's material and
    /// the normal set by the face rule.
    pub open spec fn reports<H: Fn(usize, Vec3, Ray, i64) -> Touch>(
        self,
        touch: &H,
        ray: Ray,
        iv: Interval,
        q: Meet,
        out: Option<HitRecord>,
    ) -> bool {
        match Self::spec_select_root(q.miss, q.near, q.far, iv) {
            None => out is None,
            Some(t) => exists|s: Touch| #[trigger]
                call_ensures(touch, (self.id, self.spec_sphere_center(ray.time as int), ray, t), s)
                    && out == Some(record(t, s.p, s.outward, s.uv, self.material, ray)),
        }
    }

    /// Whether `out` is a possible result of intersecting `ray` with the
    /// sphere within `iv`, given what the probes answer. A sphere without
    /// radius is never met. Else the surface probe is asked for the roots,
    /// with the centre where it is at the ray's time; the nearer root counts
    /// if the open interval surrounds it, else the farther one if the
    /// interval surrounds that.
    pub open spec fn meets<P: Fn(usize, Vec3, Ray) -> Meet, H: Fn(usize, Vec3, Ray, i64) -> Touch>(
        self,
        probe: &P,
        touch: &H,
        ray: Ray,
        iv: Interval,
        out: Option<HitRecord>,
    ) -> bool {
        if self.radius == 0 {
            out is None
        } else {
            exists|q: Meet| #[trigger]
                call_ensures(probe, (self.id, self.spec_sphere_center(ray.time as int), ray), q)
                    && self.reports(touch, ray, iv, q, out)
        }
    }

    /// Where the ray meets the sphere within the interval.
    pub fn hit<P: Fn(usize, Vec3, Ray) -> Meet, H: Fn(usize, Vec3, Ray, i64) -> Touch>(
        &self,
        probe: &P,
        touch: &H,
        ray: &Ray,
        interval: &Interval,
    ) -> (r: Option<HitRecord>)
        requires
            forall|id: usize, anchor: Vec3, y: Ray| call_requires(probe, (id, anchor, y)),
            forall|id: usize, anchor: Vec3, y: Ray, t: i64| call_requires(touch, (id, anchor, y, t)),
        ensures
            self.meets(probe, touch, *ray, *interval, r),
    {
        if self.radius == 0 {
            return None;
        }
        let center = self.sphere_center(ray.time);
        let q = probe(self.id, center, *ray);
        match Self::select_root(q.miss, q.near, q.far, interval) {
            None => None,
            Some(t) => {
                let s = touch(self.id, center, *ray, t);
                let mut rec = HitRecord {
                    t,
                    p: s.p,
                    normal: s.outward,
                    front_face: false,
                    uv: s.uv,
                    material: self.material,
                };
                rec.set_face_normal(ray, &s.outward);
                Some(rec)
            },
        }
    }

    /// Whether `out` is a possible density of `direction` among the
    /// directions from `origin` toward the sphere: zero from inside the
    /// sphere; else what the density probe answers for its number, but never
    /// less than zero.
    pub open spec fn weighs<D: Fn(Lobe, Vec3) -> i64>(self, density: &D, origin: Vec3, direction: Vec3, out: i64) -> bool {
        if self.spec_holds(origin) {
            out == 0
        } else {
            exists|raw: i64| #[trigger]
                call_ensures(density, (Lobe::Surface(self.id, origin), direction), raw) && out == (
                if raw < 0 {
                    0
                } else {
                    raw
                })
        }
    }

    /// The density of `direction` among the directions from `origin` toward
    /// the sphere.
    pub fn pdf_value<D: Fn(Lobe, Vec3) -> i64>(&self, origin: &Vec3, direction: &Vec3, density: &D) -> (r:
        i64)
        requires
            call_requires(density, (Lobe::Surface(self.id, *origin), *direction)),
        ensures
            self.weighs(density, *origin, *direction, r),
            r >= 0,
    {
        if self.holds(origin) {
            return 0;
        }
        let raw = density(Lobe::Surface(self.id, *origin), *direction);
        if raw < 0 {
            0
        } else {
            raw
        }
    }

    /// A direction drawn from `origin` toward the sphere: what the sample
    /// probe answers for its number.
    pub fn random<S: Fn(Lobe) -> Vec3>(&self, origin: &Vec3, sample: &S) -> (r: Vec3)
        requires
            call_requires(sample, (Lobe::Surface(self.id, *origin),)),
        ensures
            call_ensures(sample, (Lobe::Surface(self.id, *origin),), r),
    {
        sample(Lobe::Surface(self.id, *origin))
    }
}

} // verus!
