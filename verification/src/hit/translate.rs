//! Surfaces moved by an offset or turned about the vertical axis.
use vstd::prelude::*;
use crate::aabb::{floor_div, AABB};
use crate::hit::{answering, single, HitRecord, Hittable, Meet, Shape, Touch};
use crate::ray::{clip32, narrow32, Ray, Vec3};
use crate::util::{Interval, UNIT};

verus! {

/// A surface moved by `offset`.
#[derive(Debug)]
pub struct Translate {
    pub offset: Vec3,
    pub object: Box<Hittable>,
    pub bbox: AABB,
}

impl Translate {
    /// The model of this surface.
    pub open spec fn view(&self) -> Shape {
        Shape::Moved { offset: self.offset, object: Box::new(self.object@), bbox: self.bbox }
    }

    /// The ray as the wrapped surface sees it: its origin moved back by the
    /// offset.
    pub open spec fn spec_into(ray: Ray, offset: Vec3) -> Ray {
        Ray { origin: ray.origin.spec_minus(offset), direction: ray.direction, time: ray.time }
    }

    /// The finding of the wrapped surface as the world sees it: the same
    /// parameter, normal and surface coordinates, the point moved by the offset.
    pub open spec fn spec_back(inner: Option<HitRecord>, offset: Vec3) -> Option<HitRecord> {
        match inner {
            Some(h) => Some(HitRecord { p: h.p.spec_plus(offset), ..h }),
            None => None,
        }
    }

    pub fn new(object: Hittable, offset: Vec3) -> (r: Self)
        ensures
            r.offset == offset,
            *r.object == object,
            r.bbox == object@.bbox().spec_add_vec(offset),
    {
        let bbox = object.bbox().add_vec(offset);
        Self { offset, object: Box::new(object), bbox }
    }

    /// Intersects `ray` with the moved surface: the wrapped surface is asked
    /// with the ray moved back, and its finding is moved forth.
    pub fn hit<P: Fn(usize, Vec3, Ray) -> Meet, H: Fn(usize, Vec3, Ray, i64) -> Touch, F: Fn(usize, Ray) -> i64>(
        &self,
        probe: &P, touch: &H,
        flight: &F,
        ray: &Ray,
        interval: &Interval,
    ) -> (r: Option<HitRecord>)
        requires
            answering(probe, touch, flight),
        ensures
            self@.hits(probe, touch, flight, *ray, *interval, r),
        decreases self,
    {
        let offset_r = Ray::new_with_time(ray.origin.minus(&self.offset), ray.direction, ray.time);
        let inner = self.object.hit(probe, touch, flight, &offset_r, interval);
        assert(single(inner));
        match inner {
            Some(rec) => {
                let mut rec = rec;
                rec.p = rec.p.plus(&self.offset);
                Some(rec)
            },
            None => None,
        }
    }

    pub fn bbox(&self) -> (r: &AABB)
        ensures
            *r == self.bbox,
    {
        &self.bbox
    }
}

/// Moving a surface and moving the ray come to the same: what a moved
/// surface finds for a ray is what the wrapped surface finds for the ray
/// moved back by the offset, with the same parameter, normal, face, surface
/// coordinates and material, and the point moved forth by the offset.
pub proof fn moved_finds_as_wrapped<P: Fn(usize, Vec3, Ray) -> Meet, H: Fn(usize, Vec3, Ray, i64) -> Touch, F: Fn(usize, Ray) -> i64>(
    offset: Vec3,
    object: Shape,
    bbox: AABB,
    probe: &P, touch: &H,
    flight: &F,
    ray: Ray,
    iv: Interval,
    out: Option<HitRecord>,
)
    requires
        (Shape::Moved { offset, object: Box::new(object), bbox }).hits(probe, touch, flight, ray, iv, out),
    ensures
        exists|inner: Option<HitRecord>|
            {
                &&& #[trigger] single(inner)
                &&& object.hits(
                    probe,
                    touch,
                    flight,
                    Ray { origin: ray.origin.spec_minus(offset), direction: ray.direction, time: ray.time },
                    iv,
                    inner,
                )
                &&& inner is None <==> out is None
                &&& inner matches Some(h) ==> {
                    &&& out->0.t == h.t
                    &&& out->0.normal == h.normal
                    &&& out->0.front_face == h.front_face
                    &&& out->0.uv == h.uv
                    &&& out->0.material == h.material
                    &&& out->0.p == h.p.spec_plus(offset)
                }
            },
{
    let inner = choose|inner: Option<HitRecord>|
        {
            &&& #[trigger] single(inner)
            &&& object.hits(probe, touch, flight, Translate::spec_into(ray, offset), iv, inner)
            &&& out == Translate::spec_back(inner, offset)
        };
    assert(single(inner));
}

/// Turning a surface and turning the ray come to the same: what a turned
/// surface finds for a ray is what the wrapped surface finds for the ray
/// turned into its space, with the same parameter, face, surface
/// coordinates and material, and point and normal turned back.
pub proof fn turned_finds_as_wrapped<P: Fn(usize, Vec3, Ray) -> Meet, H: Fn(usize, Vec3, Ray, i64) -> Touch, F: Fn(usize, Ray) -> i64>(
    sin_theta: i32,
    cos_theta: i32,
    object: Shape,
    bbox: AABB,
    probe: &P, touch: &H,
    flight: &F,
    ray: Ray,
    iv: Interval,
    out: Option<HitRecord>,
)
    requires
        (Shape::Turned { sin_theta, cos_theta, bbox, object: Box::new(object) }).hits(
            probe,
            touch,
            flight,
            ray,
            iv,
            out,
        ),
    ensures
        exists|inner: Option<HitRecord>|
            {
                &&& #[trigger] single(inner)
                &&& object.hits(probe, touch, flight, RotateY::spec_into(ray, sin_theta, cos_theta), iv, inner)
                &&& inner is None <==> out is None
                &&& inner matches Some(h) ==> {
                    &&& out->0.t == h.t
                    &&& out->0.front_face == h.front_face
                    &&& out->0.uv == h.uv
                    &&& out->0.material == h.material
                    &&& out->0.p == RotateY::spec_outward(h.p, sin_theta, cos_theta)
                    &&& out->0.normal == RotateY::spec_outward(h.normal, sin_theta, cos_theta)
                }
            },
{
    let inner = choose|inner: Option<HitRecord>|
        {
            &&& #[trigger] single(inner)
            &&& object.hits(probe, touch, flight, RotateY::spec_into(ray, sin_theta, cos_theta), iv, inner)
            &&& out == RotateY::spec_back(inner, sin_theta, cos_theta)
        };
    assert(single(inner));
}

/// `(a * x + b * z) / UNIT`, rounded down and saturating: one component of a
/// vector turned by an angle whose sine and cosine are among `a` and `b`.
pub open spec fn mix(a: int, x: int, b: int, z: int) -> int {
    clip32((a * x + b * z) / (UNIT as int))
}

/// Computes `mix`.
pub fn mix_exec(a: i64, x: i64, b: i64, z: i64) -> (r: i32)
    requires
        -0x8000_0000 <= a <= 0x8000_0000,
        -0x8000_0000 <= b <= 0x8000_0000,
    ensures
        r == mix(a as int, x as int, b as int, z as int),
{
    assert(-0x4000_0000_0000_0000_0000_0000 <= a * x <= 0x4000_0000_0000_0000_0000_0000)
        by (nonlinear_arith)
        requires
            -0x8000_0000 <= a <= 0x8000_0000,
            -0x8000_0000_0000_0000 <= x <= 0x8000_0000_0000_0000,
    ;
    assert(-0x4000_0000_0000_0000_0000_0000 <= b * z <= 0x4000_0000_0000_0000_0000_0000)
        by (nonlinear_arith)
        requires
            -0x8000_0000 <= b <= 0x8000_0000,
            -0x8000_0000_0000_0000 <= z <= 0x8000_0000_0000_0000,
    ;
    let n: i128 = (a as i128) * (x as i128) + (b as i128) * (z as i128);
    narrow32(floor_div(n, UNIT as i128))
}

/// One end of an interval: the upper end for bit 1, else the lower end.
pub open spec fn pick(iv: Interval, bit: int) -> int {
    if bit == 1 {
        iv.max as int
    } else {
        iv.min as int
    }
}

/// The componentwise minimum of two vectors.
pub open spec fn lower(a: Vec3, b: Vec3) -> Vec3 {
    Vec3 {
        x: if b.x < a.x { b.x } else { a.x },
        y: if b.y < a.y { b.y } else { a.y },
        z: if b.z < a.z { b.z } else { a.z },
    }
}

/// The componentwise maximum of two vectors.
pub open spec fn upper(a: Vec3, b: Vec3) -> Vec3 {
    Vec3 {
        x: if b.x > a.x { b.x } else { a.x },
        y: if b.y > a.y { b.y } else { a.y },
        z: if b.z > a.z { b.z } else { a.z },
    }
}

/// A surface turned about the y axis by the angle whose sine and cosine, in
/// parts of `UNIT`, are `sin_theta` and `cos_theta`.
#[derive(Debug)]
pub struct RotateY {
    pub sin_theta: i32,
    pub cos_theta: i32,
    pub bbox: AABB,
    pub object: Box<Hittable>,
}

impl RotateY {
    /// The model of this surface.
    pub open spec fn view(&self) -> Shape {
        Shape::Turned {
            sin_theta: self.sin_theta,
            cos_theta: self.cos_theta,
            bbox: self.bbox,
            object: Box::new(self.object@),
        }
    }

    /// A vector taken from the world into the wrapped surface's space: turned
    /// by the inverse rotation.
    pub open spec fn spec_inward(v: Vec3, s: i32, c: i32) -> Vec3 {
        Vec3 {
            x: mix(c as int, v.x as int, -s, v.z as int) as i32,
            y: v.y,
            z: mix(s as int, v.x as int, c as int, v.z as int) as i32,
        }
    }

    /// A vector taken from the wrapped surface's space into the world.
    pub open spec fn spec_outward(v: Vec3, s: i32, c: i32) -> Vec3 {
        Vec3 {
            x: mix(c as int, v.x as int, s as int, v.z as int) as i32,
            y: v.y,
            z: mix(-s, v.x as int, c as int, v.z as int) as i32,
        }
    }

    /// The ray as the wrapped surface sees it: origin and direction turned
    /// by the inverse rotation.
    pub open spec fn spec_into(ray: Ray, s: i32, c: i32) -> Ray {
        Ray {
            origin: Self::spec_inward(ray.origin, s, c),
            direction: Self::spec_inward(ray.direction, s, c),
            time: ray.time,
        }
    }

    /// The finding of the wrapped surface as the world sees it: the same
    /// parameter and surface coordinates, point and normal turned back.
    pub open spec fn spec_back(inner: Option<HitRecord>, s: i32, c: i32) -> Option<HitRecord> {
        match inner {
            Some(h) => Some(
                HitRecord {
                    p: Self::spec_outward(h.p, s, c),
                    normal: Self::spec_outward(h.normal, s, c),
                    ..h
                },
            ),
            None => None,
        }
    }

    /// Corner `n` (0 to 7) of the box `b`, turned into the world. Bit 2 of `n`
    /// picks the end on x, bit 1 on y, bit 0 on z.
    pub open spec fn spec_corner(b: AABB, s: i32, c: i32, n: int) -> Vec3 {
        let x = pick(b.x, n / 4);
        let y = pick(b.y, (n / 2) % 2);
        let z = pick(b.z, n % 2);
        Vec3 {
            x: mix(c as int, x, s as int, z) as i32,
            y: clip32(y) as i32,
            z: mix(-s, x, c as int, z) as i32,
        }
    }

    /// The componentwise minimum of the first `n` turned corners.
    pub open spec fn spec_lowest(b: AABB, s: i32, c: i32, n: nat) -> Vec3
        decreases n,
    {
        if n == 0 {
            Vec3 { x: i32::MAX, y: i32::MAX, z: i32::MAX }
        } else {
            lower(Self::spec_lowest(b, s, c, (n - 1) as nat), Self::spec_corner(b, s, c, n - 1))
        }
    }

    /// The componentwise maximum of the first `n` turned corners.
    pub open spec fn spec_highest(b: AABB, s: i32, c: i32, n: nat) -> Vec3
        decreases n,
    {
        if n == 0 {
            Vec3 { x: i32::MIN, y: i32::MIN, z: i32::MIN }
        } else {
            upper(Self::spec_highest(b, s, c, (n - 1) as nat), Self::spec_corner(b, s, c, n - 1))
        }
    }

    /// The box around the eight turned corners of `b`.
    pub open spec fn spec_bounds(b: AABB, s: i32, c: i32) -> AABB {
        AABB::spec_new(Self::spec_lowest(b, s, c, 8), Self::spec_highest(b, s, c, 8))
    }

    fn inward(v: &Vec3, s: i32, c: i32) -> (r: Vec3)
        ensures
            r == Self::spec_inward(*v, s, c),
    {
        Vec3 {
            x: mix_exec(c as i64, v.x as i64, -(s as i64), v.z as i64),
            y: v.y,
            z: mix_exec(s as i64, v.x as i64, c as i64, v.z as i64),
        }
    }

    fn outward(v: &Vec3, s: i32, c: i32) -> (r: Vec3)
        ensures
            r == Self::spec_outward(*v, s, c),
    {
        Vec3 {
            x: mix_exec(c as i64, v.x as i64, s as i64, v.z as i64),
            y: v.y,
            z: mix_exec(-(s as i64), v.x as i64, c as i64, v.z as i64),
        }
    }

    /// Wraps `object`, turned by the angle with the given sine and cosine.
    /// Turning does not keep a box aligned with the axes, so the new box is
    /// the one around all eight turned corners of the old.
    pub fn new(object: Hittable, sin_theta: i32, cos_theta: i32) -> (r: Self)
        ensures
            r.sin_theta == sin_theta,
            r.cos_theta == cos_theta,
            *r.object == object,
            r.bbox == Self::spec_bounds(object@.bbox(), sin_theta, cos_theta),
            r.bbox.wf(),
    {
        let bbox = *object.bbox();
        let mut min = Vec3::new(i32::MAX, i32::MAX, i32::MAX);
        let mut max = Vec3::new(i32::MIN, i32::MIN, i32::MIN);
        let mut n: usize = 0;
        while n < 8
            invariant
                n <= 8,
                min == Self::spec_lowest(bbox, sin_theta, cos_theta, n as nat),
                max == Self::spec_highest(bbox, sin_theta, cos_theta, n as nat),
            decreases 8 - n,
        {
            let x: i64 = if n / 4 == 1 { bbox.x.max } else { bbox.x.min };
            let y: i64 = if (n / 2) % 2 == 1 { bbox.y.max } else { bbox.y.min };
            let z: i64 = if n % 2 == 1 { bbox.z.max } else { bbox.z.min };
            let tester = Vec3 {
                x: mix_exec(cos_theta as i64, x, sin_theta as i64, z),
                y: narrow32(y as i128),
                z: mix_exec(-(sin_theta as i64), x, cos_theta as i64, z),
            };
            min = Vec3 {
                x: if tester.x < min.x { tester.x } else { min.x },
                y: if tester.y < min.y { tester.y } else { min.y },
                z: if tester.z < min.z { tester.z } else { min.z },
            };
            max = Vec3 {
                x: if tester.x > max.x { tester.x } else { max.x },
                y: if tester.y > max.y { tester.y } else { max.y },
                z: if tester.z > max.z { tester.z } else { max.z },
            };
            n += 1;
        }
        let bbox = AABB::new(min, max);
        Self { sin_theta, cos_theta, bbox, object: Box::new(object) }
    }

    /// Intersects `ray` with the turned surface: the wrapped surface is asked
    /// with the ray turned into its space, and the point and the normal of
    /// its finding are turned back.
    pub fn hit<P: Fn(usize, Vec3, Ray) -> Meet, H: Fn(usize, Vec3, Ray, i64) -> Touch, F: Fn(usize, Ray) -> i64>(
        &self,
        probe: &P, touch: &H,
        flight: &F,
        ray: &Ray,
        interval: &Interval,
    ) -> (r: Option<HitRecord>)
        requires
            answering(probe, touch, flight),
        ensures
            self@.hits(probe, touch, flight, *ray, *interval, r),
        decreases self,
    {
        let origin = Self::inward(&ray.origin, self.sin_theta, self.cos_theta);
        let direction = Self::inward(&ray.direction, self.sin_theta, self.cos_theta);
        let rotated_r = Ray::new_with_time(origin, direction, ray.time);
        let inner = self.object.hit(probe, touch, flight, &rotated_r, interval);
        assert(single(inner));
        match inner {
            Some(rec) => {
                let mut rec = rec;
                let p = Self::outward(&rec.p, self.sin_theta, self.cos_theta);
                let normal = Self::outward(&rec.normal, self.sin_theta, self.cos_theta);
                rec.p = p;
                rec.normal = normal;
                Some(rec)
            },
            None => None,
        }
    }

    pub fn bbox(&self) -> (r: &AABB)
        ensures
            *r == self.bbox,
    {
        &self.bbox
    }
}

} // verus!
