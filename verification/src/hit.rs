//! Hit records, the closed family of surfaces, and its mathematical model.
pub mod medium;
pub mod quad;
pub mod sphere;
pub mod translate;

use vstd::prelude::*;
use crate::aabb::AABB;
use crate::bvh::BVHNode;
use crate::hit::medium::ConstMedium;
use crate::hit::quad::Quad;
use crate::hit::sphere::Sphere;
use crate::hit::translate::{RotateY, Translate};
use crate::pdf::{chosen, mean, weights, weighing, drawing, Lobe};
use crate::ray::{Ray, Vec2, Vec3};
use crate::scene::Scene;
use crate::util::{Interval, UNIT};

verus! {

/// What an intersection reports: the ray parameter, the point, the normal
/// turned against the ray, whether the outward normal already was, the surface
/// coordinates in parts of `UNIT`, and the material's number.
#[derive(Clone, Copy, Debug, PartialEq, Eq, Structural)]
pub struct HitRecord {
    pub t: i64,
    pub p: Vec3,
    pub normal: Vec3,
    pub front_face: bool,
    pub uv: Vec2,
    pub material: usize,
}

impl HitRecord {
    /// The record with its normal set by the one rule: the ray meets the front
    /// face when it runs against the outward normal, and the stored normal
    /// always points against the ray.
    pub open spec fn spec_set_face_normal(self, ray: Ray, outward_normal: Vec3) -> HitRecord {
        let front = ray.direction.spec_dot(outward_normal) < 0;
        HitRecord {
            front_face: front,
            normal: if front { outward_normal } else { outward_normal.spec_negated() },
            ..self
        }
    }

    pub fn set_face_normal(&mut self, ray: &Ray, outward_normal: &Vec3)
        ensures
            *final(self) == old(self).spec_set_face_normal(*ray, *outward_normal),
    {
        self.front_face = ray.direction.dot(outward_normal) < 0;
        self.normal = if self.front_face {
            *outward_normal
        } else {
            outward_normal.negated()
        };
    }
}

/// What the caller's arithmetic finds where a ray meets the whole surface
/// that a primitive is part of: the sphere's two roots, or the one crossing
/// of the parallelogram's plane.
///
/// `miss` says that there is no crossing at all: a negative discriminant, or
/// a ray that runs along the plane. `near` and `far` are the ray parameters
/// of the crossings, the nearer first; a plane has one, given as `near`.
/// `alpha` and `beta` are the plane coordinates of the crossing along the
/// two edges of a parallelogram, in parts of `UNIT`.
#[derive(Clone, Copy, Debug, PartialEq, Eq, Structural)]
pub struct Meet {
    pub miss: bool,
    pub near: i64,
    pub far: i64,
    pub alpha: i32,
    pub beta: i32,
}

/// What the caller's arithmetic finds of the surface at a crossing: the
/// point, the outward normal in parts of `UNIT`, and the surface
/// coordinates.
#[derive(Clone, Copy, Debug, PartialEq, Eq, Structural)]
pub struct Touch {
    pub p: Vec3,
    pub outward: Vec3,
    pub uv: Vec2,
}

/// The surface probe: what the caller's arithmetic answers for the
/// primitive with a given number, anchored at a given point (the centre of a
/// sphere at the ray's time, the corner of a parallelogram), and a ray.
/// The touch probe: what it answers for the same at a ray parameter.
/// The flight probe: the free flight that the caller draws for a ray inside
/// the medium with a given number, in units of the ray parameter.
/// All must answer every question.
pub open spec fn answering<
    P: Fn(usize, Vec3, Ray) -> Meet,
    H: Fn(usize, Vec3, Ray, i64) -> Touch,
    F: Fn(usize, Ray) -> i64,
>(probe: &P, touch: &H, flight: &F) -> bool {
    &&& forall|id: usize, anchor: Vec3, ray: Ray| call_requires(probe, (id, anchor, ray))
    &&& forall|id: usize, anchor: Vec3, ray: Ray, t: i64| call_requires(touch, (id, anchor, ray, t))
    &&& forall|id: usize, ray: Ray| call_requires(flight, (id, ray))
}

/// The record of a crossing at the parameter `t`: point and surface
/// coordinates as given, the normal set by the face rule.
pub open spec fn record(t: i64, p: Vec3, outward: Vec3, uv: Vec2, material: usize, ray: Ray) -> HitRecord {
    (HitRecord { t, p, normal: outward, front_face: false, uv, material }).spec_set_face_normal(
        ray,
        outward,
    )
}

/// The upper end of the working interval once `best` has been found: the
/// parameter of `best`, or `hi` while nothing has been found.
pub open spec fn limit(best: Option<HitRecord>, hi: i64) -> i64 {
    match best {
        Some(h) => h.t,
        None => hi,
    }
}

/// `iv` with its upper end lowered to the parameter of `best`, if there is one.
pub open spec fn capped(iv: Interval, best: Option<HitRecord>) -> Interval {
    Interval { min: iv.min, max: limit(best, iv.max) }
}

/// The later of two findings: `second` if it found something, else `first`.
pub open spec fn later(first: Option<HitRecord>, second: Option<HitRecord>) -> Option<HitRecord> {
    if second is Some {
        second
    } else {
        first
    }
}

/// The last finding among the first `n` of `outs`.
pub open spec fn last_hit(outs: Seq<Option<HitRecord>>, n: int) -> Option<HitRecord>
    decreases n,
{
    if n <= 0 {
        None
    } else if outs[n - 1] is Some {
        outs[n - 1]
    } else {
        last_hit(outs, n - 1)
    }
}

/// Names two findings, for a proof to point at; it holds of every pair.
pub open spec fn pair(l: Option<HitRecord>, r: Option<HitRecord>) -> bool {
    true
}

/// Names one finding, for a proof to point at; it holds of every one.
pub open spec fn single(inner: Option<HitRecord>) -> bool {
    true
}

/// Names a run of findings, for a proof to point at; it holds of every run.
pub open spec fn run(outs: Seq<Option<HitRecord>>) -> bool {
    true
}

/// Names the two crossings of a boundary and a free flight, for a proof to
/// point at; it holds of all.
pub open spec fn crossing(entry: Option<HitRecord>, exit: Option<HitRecord>, dt: i64) -> bool {
    true
}

/// What the first `n` findings of `outs` do not depend on: anything from
/// place `n` on.
pub proof fn last_hit_of_prefix(a: Seq<Option<HitRecord>>, b: Seq<Option<HitRecord>>, n: int)
    requires
        n <= a.len(),
        n <= b.len(),
        forall|i: int| 0 <= i < n ==> a[i] == b[i],
    ensures
        last_hit(a, n) == last_hit(b, n),
    decreases n,
{
    if n > 0 {
        last_hit_of_prefix(a, b, n - 1);
    }
}

/// The closed family of surfaces.
#[derive(Debug)]
pub enum Hittable {
    Sphere(Sphere),
    BVH(BVHNode),
    Quad(Quad),
    Translate(Translate),
    Rotate(RotateY),
    PrefabScene(Scene),
    ConstantMedium(ConstMedium),
}

/// The mathematical model of a surface: the same tree, with sequences in
/// place of vectors. Two surfaces with one model are the same scene.
pub ghost enum Shape {
    Sphere(Sphere),
    Quad(Quad),
    Node { bbox: AABB, left: Box<Shape>, right: Box<Shape> },
    Moved { offset: Vec3, object: Box<Shape>, bbox: AABB },
    Turned { sin_theta: i32, cos_theta: i32, bbox: AABB, object: Box<Shape> },
    Group { objects: Seq<Shape>, bbox: AABB },
    Medium { boundary: Box<Shape>, id: usize, phase_function: usize },
}

impl Shape {
    /// Whether `out` is a possible result of intersecting `ray` with this
    /// surface within `iv`, given what the probes answer.
    ///
    /// A primitive decides on what the probes answer. A node tests its box
    /// first, and finds nothing where the ray does not strike it; else it
    /// asks the left child within the interval, then the right child within
    /// what the left finding leaves of it; the later finding counts. A group asks its members in order, each within what the last
    /// finding before it leaves. A moved or turned surface asks the wrapped
    /// one with the ray taken into its space, and takes the finding back. A
    /// medium asks its boundary twice and scatters after a free flight.
    pub open spec fn hits<P: Fn(usize, Vec3, Ray) -> Meet, H: Fn(usize, Vec3, Ray, i64) -> Touch, F: Fn(usize, Ray) -> i64>(
        self,
        probe: &P, touch: &H,
        flight: &F,
        ray: Ray,
        iv: Interval,
        out: Option<HitRecord>,
    ) -> bool
        decreases self,
    {
        match self {
            Shape::Sphere(s) => s.meets(probe, touch, ray, iv, out),
            Shape::Quad(q) => q.meets(probe, touch, ray, iv, out),
            Shape::Node { bbox, left, right } => {
                if !bbox.spec_hit(ray, iv).0 {
                    out is None
                } else {
                    exists|l: Option<HitRecord>, r: Option<HitRecord>|
                        {
                            &&& #[trigger] pair(l, r)
                            &&& left.hits(probe, touch, flight, ray, iv, l)
                            &&& right.hits(probe, touch, flight, ray, capped(iv, l), r)
                            &&& out == later(l, r)
                        }
                }
            },
            Shape::Moved { offset, object, bbox } => {
                exists|inner: Option<HitRecord>|
                    {
                        &&& #[trigger] single(inner)
                        &&& object.hits(probe, touch, flight, Translate::spec_into(ray, offset), iv, inner)
                        &&& out == Translate::spec_back(inner, offset)
                    }
            },
            Shape::Turned { sin_theta, cos_theta, bbox, object } => {
                exists|inner: Option<HitRecord>|
                    {
                        &&& #[trigger] single(inner)
                        &&& object.hits(
                            probe,
                            touch,
                            flight,
                            RotateY::spec_into(ray, sin_theta, cos_theta),
                            iv,
                            inner,
                        )
                        &&& out == RotateY::spec_back(inner, sin_theta, cos_theta)
                    }
            },
            Shape::Group { objects, bbox } => {
                exists|outs: Seq<Option<HitRecord>>|
                    {
                        &&& #[trigger] run(outs)
                        &&& outs.len() == objects.len()
                        &&& forall|i: int|
                            0 <= i < objects.len() ==> (#[trigger] objects[i]).hits(
                                probe,
                                touch,
                                flight,
                                ray,
                                capped(iv, last_hit(outs, i)),
                                outs[i],
                            )
                        &&& out == last_hit(outs, objects.len() as int)
                    }
            },
            Shape::Medium { boundary, id, phase_function } => {
                exists|entry: Option<HitRecord>, exit: Option<HitRecord>, dt: i64|
                    {
                        &&& #[trigger] crossing(entry, exit, dt)
                        &&& boundary.hits(probe, touch, flight, ray, Interval::spec_universe(), entry)
                        &&& entry is Some ==> boundary.hits(
                            probe,
                            touch,
                            flight,
                            ray,
                            ConstMedium::spec_beyond(entry),
                            exit,
                        )
                        &&& ConstMedium::spec_segment(entry, exit, iv) is Some ==> call_ensures(
                            flight,
                            (id, ray),
                            dt,
                        )
                        &&& out == ConstMedium::spec_scatter(entry, exit, iv, dt, ray, phase_function)
                    }
            },
        }
    }

    /// Whether the surface can be weighed as a light: no group among its
    /// parts has more members than a draw can number.
    pub open spec fn weighable(self) -> bool
        decreases self,
    {
        match self {
            Shape::Sphere(_) => true,
            Shape::Quad(_) => true,
            Shape::Node { .. } => true,
            Shape::Moved { object, .. } => object.weighable(),
            Shape::Turned { object, .. } => object.weighable(),
            Shape::Group { objects, .. } => {
                &&& objects.len() <= i32::MAX
                &&& forall|i: int| 0 <= i < objects.len() ==> (#[trigger] objects[i]).weighable()
            },
            Shape::Medium { .. } => true,
        }
    }

    /// Whether a direction can be drawn toward the surface: it can be
    /// weighed, and no group among its parts is empty.
    pub open spec fn drawable(self) -> bool
        decreases self,
    {
        match self {
            Shape::Sphere(_) => true,
            Shape::Quad(_) => true,
            Shape::Node { .. } => true,
            Shape::Moved { object, .. } => object.drawable(),
            Shape::Turned { object, .. } => object.drawable(),
            Shape::Group { objects, .. } => {
                &&& 0 < objects.len() <= i32::MAX
                &&& forall|i: int| 0 <= i < objects.len() ==> (#[trigger] objects[i]).drawable()
            },
            Shape::Medium { .. } => true,
        }
    }

    /// Whether `out` is a possible density of `direction` toward this surface
    /// from `origin`, given what the density probe answers.
    ///
    /// A primitive decides on what the probe answers. A hierarchy node and a
    /// medium weigh nothing. A group has the mean of its members. A moved or
    /// turned surface has the density of what it wraps.
    pub open spec fn weighs<D: Fn(Lobe, Vec3) -> i64>(
        self,
        density: &D,
        origin: Vec3,
        direction: Vec3,
        out: i64,
    ) -> bool
        decreases self,
    {
        match self {
            Shape::Sphere(s) => s.weighs(density, origin, direction, out),
            Shape::Quad(q) => q.weighs(density, origin, direction, out),
            Shape::Node { .. } => out == 0,
            Shape::Moved { object, .. } => object.weighs(density, origin, direction, out),
            Shape::Turned { object, .. } => object.weighs(density, origin, direction, out),
            Shape::Group { objects, .. } => {
                exists|vals: Seq<i64>|
                    {
                        &&& #[trigger] weights(vals)
                        &&& vals.len() == objects.len()
                        &&& forall|i: int|
                            0 <= i < objects.len() ==> (#[trigger] objects[i]).weighs(
                                density,
                                origin,
                                direction,
                                vals[i],
                            )
                        &&& out == mean(vals)
                    }
            },
            Shape::Medium { .. } => out == 0,
        }
    }

    /// Whether `out` is a possible draw of a direction toward this surface
    /// from `origin`, given what the sample probe answers.
    ///
    /// A primitive answers through the probe. A hierarchy node and a medium
    /// give the direction along x. A group draws from one of its members. A
    /// moved or turned surface draws from what it wraps.
    pub open spec fn draws<S: Fn(Lobe) -> Vec3>(self, sample: &S, origin: Vec3, out: Vec3) -> bool
        decreases self,
    {
        match self {
            Shape::Sphere(s) => call_ensures(sample, (Lobe::Surface(s.id, origin),), out),
            Shape::Quad(q) => call_ensures(sample, (Lobe::Surface(q.id, origin),), out),
            Shape::Node { .. } => out == (Vec3 { x: UNIT, y: 0, z: 0 }),
            Shape::Moved { object, .. } => object.draws(sample, origin, out),
            Shape::Turned { object, .. } => object.draws(sample, origin, out),
            Shape::Group { objects, .. } => {
                exists|k: int|
                    {
                        &&& #[trigger] chosen(k)
                        &&& 0 <= k < objects.len()
                        &&& objects[k].draws(sample, origin, out)
                    }
            },
            Shape::Medium { .. } => out == (Vec3 { x: UNIT, y: 0, z: 0 }),
        }
    }

    /// The box around the surface. A medium has its boundary's box.
    pub open spec fn bbox(self) -> AABB
        decreases self,
    {
        match self {
            Shape::Sphere(s) => s.bbox,
            Shape::Quad(q) => q.aabb,
            Shape::Node { bbox, .. } => bbox,
            Shape::Moved { bbox, .. } => bbox,
            Shape::Turned { bbox, .. } => bbox,
            Shape::Group { bbox, .. } => bbox,
            Shape::Medium { boundary, .. } => boundary.bbox(),
        }
    }
}

impl Hittable {
    /// The model of this surface.
    pub open spec fn view(&self) -> Shape
        decreases self,
    {
        match self {
            Hittable::Sphere(s) => Shape::Sphere(*s),
            Hittable::Quad(q) => Shape::Quad(*q),
            Hittable::BVH(n) => Shape::Node {
                bbox: n.bbox,
                left: Box::new(n.left.view()),
                right: Box::new(n.right.view()),
            },
            Hittable::Translate(t) => Shape::Moved {
                offset: t.offset,
                object: Box::new(t.object.view()),
                bbox: t.bbox,
            },
            Hittable::Rotate(r) => Shape::Turned {
                sin_theta: r.sin_theta,
                cos_theta: r.cos_theta,
                bbox: r.bbox,
                object: Box::new(r.object.view()),
            },
            Hittable::PrefabScene(s) => Shape::Group {
                objects: Seq::new(
                    s.objects@.len(),
                    |i: int|
                        if 0 <= i < s.objects@.len() {
                            s.objects@[i].view()
                        } else {
                            arbitrary()
                        },
                ),
                bbox: s.bbox,
            },
            Hittable::ConstantMedium(m) => Shape::Medium {
                boundary: Box::new(m.boundary.view()),
                id: m.id,
                phase_function: m.phase_function,
            },
        }
    }

    pub fn bbox(&self) -> (r: &AABB)
        ensures
            *r == self@.bbox(),
        decreases self,
    {
        match self {
            Hittable::Sphere(sphere) => &sphere.bbox,
            Hittable::BVH(node) => &node.bbox,
            Hittable::Quad(quad) => &quad.aabb,
            Hittable::Translate(t) => &t.bbox,
            Hittable::Rotate(r) => &r.bbox,
            Hittable::PrefabScene(scene) => &scene.bbox,
            Hittable::ConstantMedium(medium) => medium.boundary.bbox(),
        }
    }

    /// Intersects `ray` with the surface within `interval`.
    pub fn hit<P: Fn(usize, Vec3, Ray) -> Meet, H: Fn(usize, Vec3, Ray, i64) -> Touch, F: Fn(usize, Ray) -> i64>(
        &self,
        probe: &P, touch: &H,
        flight: &F,
        ray: &Ray,
        interval: &Interval,
    ) -> (r: Option<HitRecord>)
        requires
            answering(probe, touch, flight),
        ensures
            self@.hits(probe, touch, flight, *ray, *interval, r),
        decreases self,
    {
        match self {
            Hittable::Sphere(sphere) => sphere.hit(probe, touch, ray, interval),
            Hittable::BVH(node) => node.hit(probe, touch, flight, ray, interval),
            Hittable::Quad(quad) => quad.hit(probe, touch, ray, interval),
            Hittable::Translate(t) => t.hit(probe, touch, flight, ray, interval),
            Hittable::Rotate(r) => r.hit(probe, touch, flight, ray, interval),
            Hittable::PrefabScene(scene) => {
                assert(self@->Group_objects =~= scene@->Group_objects);
                scene.hit(probe, touch, flight, ray, interval)
            },
            Hittable::ConstantMedium(medium) => medium.hit(probe, touch, flight, ray, interval),
        }
    }

    /// The density of `direction` among the directions from `origin` toward
    /// this surface.
    pub fn pdf_value<D: Fn(Lobe, Vec3) -> i64>(&self, origin: &Vec3, direction: &Vec3, density: &D) -> (r:
        i64)
        requires
            weighing(density),
            self@.weighable(),
        ensures
            self@.weighs(density, *origin, *direction, r),
            r >= 0,
        decreases self,
    {
        match self {
            Hittable::Quad(obj) => obj.pdf_value(origin, direction, density),
            Hittable::Sphere(obj) => obj.pdf_value(origin, direction, density),
            Hittable::BVH(_) => 0,
            Hittable::PrefabScene(obj) => {
                assert(self@->Group_objects =~= obj@->Group_objects);
                obj.pdf_value(origin, direction, density)
            },
            Hittable::Rotate(obj) => obj.object.pdf_value(origin, direction, density),
            Hittable::Translate(obj) => obj.object.pdf_value(origin, direction, density),
            Hittable::ConstantMedium(_) => 0,
        }
    }

    /// A direction drawn from `origin` toward this surface.
    pub fn random<S: Fn(Lobe) -> Vec3>(&self, origin: &Vec3, sample: &S) -> (r: Vec3)
        requires
            drawing(sample),
            self@.drawable(),
        ensures
            self@.draws(sample, *origin, r),
        decreases self,
    {
        match self {
            Hittable::Quad(obj) => obj.random(origin, sample),
            Hittable::Sphere(obj) => obj.random(origin, sample),
            Hittable::BVH(_) => Vec3::new(UNIT, 0, 0),
            Hittable::PrefabScene(obj) => {
                assert(self@->Group_objects =~= obj@->Group_objects);
                obj.random(origin, sample)
            },
            Hittable::Rotate(obj) => obj.object.random(origin, sample),
            Hittable::Translate(obj) => obj.object.random(origin, sample),
            Hittable::ConstantMedium(_) => Vec3::new(UNIT, 0, 0),
        }
    }

    /// A deep copy: a second surface with the same model.
    pub fn duplicate(&self) -> (r: Self)
        ensures
            r@ == self@,
        decreases self,
    {
        match self {
            Hittable::Sphere(s) => Hittable::Sphere(*s),
            Hittable::Quad(q) => Hittable::Quad(*q),
            Hittable::BVH(n) => Hittable::BVH(
                BVHNode {
                    bbox: n.bbox,
                    left: Box::new(n.left.duplicate()),
                    right: Box::new(n.right.duplicate()),
                },
            ),
            Hittable::Translate(t) => Hittable::Translate(
                Translate { offset: t.offset, object: Box::new(t.object.duplicate()), bbox: t.bbox },
            ),
            Hittable::Rotate(r) => Hittable::Rotate(
                RotateY {
                    sin_theta: r.sin_theta,
                    cos_theta: r.cos_theta,
                    bbox: r.bbox,
                    object: Box::new(r.object.duplicate()),
                },
            ),
            Hittable::PrefabScene(s) => {
                let mut objects: Vec<Hittable> = Vec::new();
                let mut i: usize = 0;
                while i < s.objects.len()
                    invariant
                        decreases_to!(self => s.objects),
                        i <= s.objects.len(),
                        objects.len() == i,
                        forall|j: int| 0 <= j < i ==> objects@[j]@ == s.objects@[j]@,
                    decreases s.objects.len() - i,
                {
                    let copy = s.objects[i].duplicate();
                    objects.push(copy);
                    i += 1;
                }
                let r = Hittable::PrefabScene(Scene { objects, bbox: s.bbox });
                assert(r@->Group_objects =~= self@->Group_objects);
                r
            },
            Hittable::ConstantMedium(m) => Hittable::ConstantMedium(
                ConstMedium {
                    boundary: Box::new(m.boundary.duplicate()),
                    id: m.id,
                    phase_function: m.phase_function,
                },
            ),
        }
    }
}

/// Whether the flight probe keeps to what it is asked: no free flight is
/// negative.
pub open spec fn keeping<F: Fn(usize, Ray) -> i64>(flight: &F) -> bool {
    forall|id: usize, ray: Ray, dt: i64| #[trigger] call_ensures(flight, (id, ray), dt) ==> dt >= 0
}

/// The last finding of a scan lies within the interval if every finding
/// lies within what it was asked.
proof fn last_hit_lies_within(outs: Seq<Option<HitRecord>>, iv: Interval, n: int)
    requires
        0 <= n <= outs.len(),
        forall|i: int|
            0 <= i < n && (#[trigger] outs[i]) is Some ==> capped(iv, last_hit(outs, i)).min <= outs[i]->0.t
                <= capped(iv, last_hit(outs, i)).max,
    ensures
        last_hit(outs, n) is Some ==> iv.min <= last_hit(outs, n)->0.t <= iv.max,
    decreases n,
{
    if n > 0 {
        last_hit_lies_within(outs, iv, n - 1);
        assert(outs[n - 1] is Some ==> capped(iv, last_hit(outs, n - 1)).min <= outs[n - 1]->0.t);
    }
}

/// Every finding lies within the interval asked, where no free flight is
/// negative: whatever the surface is made of and whatever the probes
/// answer, the parameter of what it reports is neither below the interval
/// nor above it.
pub proof fn finding_lies_within<P: Fn(usize, Vec3, Ray) -> Meet, H: Fn(usize, Vec3, Ray, i64) -> Touch, F: Fn(usize, Ray) -> i64>(
    shape: Shape,
    probe: &P, touch: &H,
    flight: &F,
    ray: Ray,
    iv: Interval,
    out: Option<HitRecord>,
)
    requires
        keeping(flight),
        shape.hits(probe, touch, flight, ray, iv, out),
    ensures
        out is Some ==> iv.min <= out->0.t <= iv.max,
    decreases shape,
{
    match shape {
        Shape::Sphere(_) => {},
        Shape::Quad(_) => {},
        Shape::Node { bbox, left, right } => {
            if bbox.spec_hit(ray, iv).0 {
                let (l, r) = choose|l: Option<HitRecord>, r: Option<HitRecord>|
                    {
                        &&& #[trigger] pair(l, r)
                        &&& left.hits(probe, touch, flight, ray, iv, l)
                        &&& right.hits(probe, touch, flight, ray, capped(iv, l), r)
                        &&& out == later(l, r)
                    };
                finding_lies_within(*left, probe, touch, flight, ray, iv, l);
                finding_lies_within(*right, probe, touch, flight, ray, capped(iv, l), r);
            }
        },
        Shape::Moved { offset, object, bbox } => {
            let inner = choose|inner: Option<HitRecord>|
                {
                    &&& #[trigger] single(inner)
                    &&& object.hits(probe, touch, flight, Translate::spec_into(ray, offset), iv, inner)
                    &&& out == Translate::spec_back(inner, offset)
                };
            finding_lies_within(*object, probe, touch, flight, Translate::spec_into(ray, offset), iv, inner);
        },
        Shape::Turned { sin_theta, cos_theta, bbox, object } => {
            let inner = choose|inner: Option<HitRecord>|
                {
                    &&& #[trigger] single(inner)
                    &&& object.hits(probe, touch, flight, RotateY::spec_into(ray, sin_theta, cos_theta), iv, inner)
                    &&& out == RotateY::spec_back(inner, sin_theta, cos_theta)
                };
            finding_lies_within(
                *object,
                probe,
                touch,
                flight,
                RotateY::spec_into(ray, sin_theta, cos_theta),
                iv,
                inner,
            );
        },
        Shape::Group { objects, bbox } => {
            let outs = choose|outs: Seq<Option<HitRecord>>|
                {
                    &&& #[trigger] run(outs)
                    &&& outs.len() == objects.len()
                    &&& forall|i: int|
                        0 <= i < objects.len() ==> (#[trigger] objects[i]).hits(
                            probe,
                            touch,
                            flight,
                            ray,
                            capped(iv, last_hit(outs, i)),
                            outs[i],
                        )
                    &&& out == last_hit(outs, objects.len() as int)
                };
            assert forall|i: int| 0 <= i < objects.len() && (#[trigger] outs[i]) is Some implies capped(
                iv,
                last_hit(outs, i),
            ).min <= outs[i]->0.t <= capped(iv, last_hit(outs, i)).max by {
                assert(objects[i].hits(probe, touch, flight, ray, capped(iv, last_hit(outs, i)), outs[i]));
                finding_lies_within(objects[i], probe, touch, flight, ray, capped(iv, last_hit(outs, i)), outs[i]);
            }
            last_hit_lies_within(outs, iv, objects.len() as int);
        },
        Shape::Medium { boundary, id, phase_function } => {
            let (entry, exit, dt) = choose|entry: Option<HitRecord>, exit: Option<HitRecord>, dt: i64|
                {
                    &&& #[trigger] crossing(entry, exit, dt)
                    &&& boundary.hits(probe, touch, flight, ray, Interval::spec_universe(), entry)
                    &&& entry is Some ==> boundary.hits(
                        probe,
                        touch,
                        flight,
                        ray,
                        ConstMedium::spec_beyond(entry),
                        exit,
                    )
                    &&& ConstMedium::spec_segment(entry, exit, iv) is Some ==> call_ensures(
                        flight,
                        (id, ray),
                        dt,
                    )
                    &&& out == ConstMedium::spec_scatter(entry, exit, iv, dt, ray, phase_function)
                };
        },
    }
}

} // verus!
