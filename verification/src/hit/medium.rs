//! A homogeneous medium inside a boundary surface.
use vstd::prelude::*;
use crate::hit::{answering, crossing, HitRecord, Hittable, Meet, Shape, Touch};
use crate::material::{Isotropic, Material};
use crate::texture::{SolidColor, Texture};
use crate::ray::{Ray, Vec3};
use crate::util::{distance, shift, shifted, span, Interval, POS_INF, UNIT};

verus! {

/// How far past the first crossing the search for the second one starts.
pub const BOUNDARY_STEP: i64 = 1;

/// A medium of constant density bounded by `boundary`. The caller knows its
/// density under `id`; `phase_function` is the number of the material that
/// scatters inside it.
#[derive(Debug)]
pub struct ConstMedium {
    pub boundary: Box<Hittable>,
    pub id: usize,
    pub phase_function: usize,
}

impl ConstMedium {
    /// The model of this medium.
    pub open spec fn view(&self) -> Shape {
        Shape::Medium {
            boundary: Box::new(self.boundary@),
            id: self.id,
            phase_function: self.phase_function,
        }
    }

    /// Where the second crossing is looked for: from just past the first one
    /// on, without end.
    pub open spec fn spec_beyond(entry: Option<HitRecord>) -> Interval {
        match entry {
            Some(h) => Interval { min: shifted(h.t as int, BOUNDARY_STEP as int) as i64, max: POS_INF },
            None => Interval::spec_universe(),
        }
    }

    /// The part of the ray inside the medium and inside `iv`, as the
    /// parameters of its two ends: the crossings clamped to `iv`; nothing if
    /// that leaves no length; the start no earlier than the ray's origin.
    pub open spec fn spec_span(t_in: i64, t_out: i64, iv: Interval) -> Option<(i64, i64)> {
        let a = if t_in < iv.min { iv.min } else { t_in };
        let b = if t_out > iv.max { iv.max } else { t_out };
        if a >= b {
            None
        } else {
            Some((if a < 0 { 0i64 } else { a }, b))
        }
    }

    /// `spec_span` of the two crossings, where both were found.
    pub open spec fn spec_segment(
        entry: Option<HitRecord>,
        exit: Option<HitRecord>,
        iv: Interval,
    ) -> Option<(i64, i64)> {
        if entry is Some && exit is Some {
            Self::spec_span(entry->0.t, exit->0.t, iv)
        } else {
            None
        }
    }

    /// The scattering event after a free flight of `dt` along the part of the
    /// ray from `t1` to `t2`: nothing if the flight is longer than the part;
    /// else a finding at `t1 + dt`, with the surface coordinates of the
    /// entry, a normal along x, the front face, and the medium's material.
    pub open spec fn spec_event(
        entry: HitRecord,
        t1: i64,
        t2: i64,
        dt: i64,
        ray: Ray,
        phase_function: usize,
    ) -> Option<HitRecord> {
        if dt > span(t1 as int, t2 as int) {
            None
        } else {
            let t = shifted(t1 as int, dt as int) as i64;
            Some(
                HitRecord {
                    t,
                    p: ray.spec_at(t as int),
                    normal: Vec3 { x: UNIT, y: 0, z: 0 },
                    front_face: true,
                    uv: entry.uv,
                    material: phase_function,
                },
            )
        }
    }

    /// What a medium reports: nothing unless both crossings were found and
    /// leave a part of the ray inside `iv`; else the event after the flight.
    pub open spec fn spec_scatter(
        entry: Option<HitRecord>,
        exit: Option<HitRecord>,
        iv: Interval,
        dt: i64,
        ray: Ray,
        phase_function: usize,
    ) -> Option<HitRecord> {
        match Self::spec_segment(entry, exit, iv) {
            Some((t1, t2)) => Self::spec_event(entry->0, t1, t2, dt, ray, phase_function),
            None => None,
        }
    }

    pub fn new(boundary: Hittable, id: usize, phase_function: usize) -> (r: Self)
        ensures
            *r.boundary == boundary,
            r.id == id,
            r.phase_function == phase_function,
    {
        Self { boundary: Box::new(boundary), id, phase_function }
    }

    /// A medium that scatters with the given colour: the phase function is
    /// added to the materials, and the medium names it.
    pub fn new_with_color(boundary: Hittable, id: usize, color: Vec3, materials: &mut Vec<Material>) -> (r:
        Self)
        ensures
            *r.boundary == boundary,
            r.id == id,
            r.phase_function == old(materials)@.len(),
            final(materials)@.len() == old(materials)@.len() + 1,
            forall|i: int| 0 <= i < old(materials)@.len() ==> final(materials)@[i] == old(materials)@[i],
            final(materials)@[old(materials)@.len() as int] matches Material::Isotropic(phase)
                && *phase.tex == Texture::Color(SolidColor { albedo: color }),
    {
        let phase_function = materials.len();
        materials.push(Material::Isotropic(Isotropic::new_with_color(color)));
        Self { boundary: Box::new(boundary), id, phase_function }
    }

    /// Computes `spec_span`.
    pub fn span_inside(t_in: i64, t_out: i64, interval: &Interval) -> (r: Option<(i64, i64)>)
        ensures
            r == Self::spec_span(t_in, t_out, *interval),
    {
        let mut a = t_in;
        let mut b = t_out;
        if a < interval.min {
            a = interval.min;
        }
        if b > interval.max {
            b = interval.max;
        }
        if a >= b {
            return None;
        }
        if a < 0 {
            a = 0;
        }
        Some((a, b))
    }

    /// Computes `spec_event`.
    pub fn event(entry: &HitRecord, t1: i64, t2: i64, dt: i64, ray: &Ray, phase_function: usize) -> (r:
        Option<HitRecord>)
        ensures
            r == Self::spec_event(*entry, t1, t2, dt, *ray, phase_function),
    {
        if dt > distance(t1, t2) {
            return None;
        }
        let t = shift(t1, dt);
        Some(
            HitRecord {
                t,
                p: ray.at(t),
                normal: Vec3::new(UNIT, 0, 0),
                front_face: true,
                uv: entry.uv,
                material: phase_function,
            },
        )
    }

    /// Intersects `ray` with the medium: the boundary is asked for the first
    /// crossing anywhere on the ray's line and for the second one past it;
    /// where the part between them reaches into `interval`, a free flight is
    /// drawn and decides whether and where the ray scatters.
    pub fn hit<P: Fn(usize, Vec3, Ray) -> Meet, H: Fn(usize, Vec3, Ray, i64) -> Touch, F: Fn(usize, Ray) -> i64>(
        &self,
        probe: &P, touch: &H,
        flight: &F,
        ray: &Ray,
        interval: &Interval,
    ) -> (r: Option<HitRecord>)
        requires
            answering(probe, touch, flight),
        ensures
            self@.hits(probe, touch, flight, *ray, *interval, r),
        decreases self,
    {
        let entry = self.boundary.hit(probe, touch, flight, ray, &Interval::universe());
        let rec1 = match entry {
            Some(rec) => rec,
            None => {
                assert(crossing(entry, None, 0));
                return None;
            },
        };
        let exit = self.boundary.hit(
            probe,
            touch,
            flight,
            ray,
            &Interval::new(shift(rec1.t, BOUNDARY_STEP), POS_INF),
        );
        let rec2 = match exit {
            Some(rec) => rec,
            None => {
                assert(crossing(entry, exit, 0));
                return None;
            },
        };
        match Self::span_inside(rec1.t, rec2.t, interval) {
            None => {
                assert(crossing(entry, exit, 0));
                None
            },
            Some((t1, t2)) => {
                let dt = flight(self.id, *ray);
                assert(crossing(entry, exit, dt));
                Self::event(&rec1, t1, t2, dt, ray, self.phase_function)
            },
        }
    }
}

} // verus!
