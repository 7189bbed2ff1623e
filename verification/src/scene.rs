//! A plain list of surfaces.
use vstd::prelude::*;
use crate::aabb::AABB;
use crate::bvh::{grown, hull, models};
use crate::hit::{
    answering, capped, last_hit, last_hit_of_prefix, run, HitRecord, Hittable, Meet, Shape, Touch,
};
use crate::aabb::floor_div;
use crate::pdf::{chosen, drawing, mean, total, total_is_bounded, total_of_prefix, weighing, weights, Lobe};
use crate::ray::{Ray, Vec3};
use crate::util::{random_int, Interval};

verus! {

/// A list of surfaces with the box around all of them.
#[derive(Debug)]
pub struct Scene {
    pub objects: Vec<Hittable>,
    pub bbox: AABB,
}

impl Scene {
    /// The model of this list.
    pub open spec fn view(&self) -> Shape {
        Shape::Group {
            objects: Seq::new(
                self.objects@.len(),
                |i: int|
                    if 0 <= i < self.objects@.len() {
                        self.objects@[i]@
                    } else {
                        arbitrary()
                    },
            ),
            bbox: self.bbox,
        }
    }

    /// Appends a surface and widens the box to hold it.
    pub fn add(&mut self, obj: Hittable)
        ensures
            final(self).objects@ == old(self).objects@.push(obj),
            final(self).bbox == AABB::spec_merge(old(self).bbox, obj@.bbox()),
    {
        self.bbox = AABB::merge(&self.bbox, obj.bbox());
        self.objects.push(obj);
    }

    /// The scene of the given surfaces, in their order, with the box around
    /// all of them.
    pub fn new(objects: Vec<Hittable>) -> (r: Self)
        ensures
            r.objects == objects,
            r.bbox == hull(models(objects@), objects@.len() as int),
    {
        let mut bbox = AABB::empty();
        let mut i: usize = 0;
        while i < objects.len()
            invariant
                i <= objects.len(),
                bbox == hull(models(objects@), i as int),
            decreases objects.len() - i,
        {
            assert(models(objects@)[i as int] == objects@[i as int]@);
            bbox = AABB::merge(&bbox, objects[i].bbox());
            i += 1;
        }
        Self { objects, bbox }
    }

    /// The scene whose one member is `bvh_node`.
    pub fn new_with_bvh(bvh_node: Hittable) -> (r: Self)
        ensures
            r.objects@ == seq![bvh_node],
            r.bbox == AABB::spec_merge(AABB::spec_empty(), bvh_node@.bbox()),
    {
        let mut scene = Scene { objects: Vec::new(), bbox: AABB::empty() };
        scene.add(bvh_node);
        scene
    }

    /// Appends the members of `rhs`, in their order, widening the box by
    /// each in turn.
    pub fn merge(&mut self, rhs: Self)
        ensures
            final(self).objects@ == old(self).objects@ + rhs.objects@,
            final(self).bbox == grown(old(self).bbox, models(rhs.objects@), rhs.objects@.len() as int),
    {
        let mut rhs = rhs;
        let mut i: usize = 0;
        while i < rhs.objects.len()
            invariant
                i <= rhs.objects.len(),
                self.objects == old(self).objects,
                self.bbox == grown(old(self).bbox, models(rhs.objects@), i as int),
            decreases rhs.objects.len() - i,
        {
            assert(models(rhs.objects@)[i as int] == rhs.objects@[i as int]@);
            self.bbox = AABB::merge(&self.bbox, rhs.objects[i].bbox());
            i += 1;
        }
        self.objects.append(&mut rhs.objects);
    }

    /// Intersects `ray` with every member in order, each within what the last
    /// finding before it leaves of `interval`; the last finding counts.
    pub fn hit<P: Fn(usize, Vec3, Ray) -> Meet, H: Fn(usize, Vec3, Ray, i64) -> Touch, F: Fn(usize, Ray) -> i64>(
        &self,
        probe: &P, touch: &H,
        flight: &F,
        ray: &Ray,
        interval: &Interval,
    ) -> (r: Option<HitRecord>)
        requires
            answering(probe, touch, flight),
        ensures
            self@.hits(probe, touch, flight, *ray, *interval, r),
        decreases self,
    {
        let mut hit_record: Option<HitRecord> = None;
        let mut closest_so_far = interval.max;
        let ghost mut outs: Seq<Option<HitRecord>> = Seq::empty();
        let mut i: usize = 0;
        while i < self.objects.len()
            invariant
                decreases_to!(self => self.objects),
                answering(probe, touch, flight),
                i <= self.objects.len(),
                outs.len() == i,
                hit_record == last_hit(outs, i as int),
                closest_so_far == capped(*interval, hit_record).max,
                forall|j: int|
                    0 <= j < i ==> (#[trigger] self.objects@[j])@.hits(
                        probe,
                        touch,
                        flight,
                        *ray,
                        capped(*interval, last_hit(outs, j)),
                        outs[j],
                    ),
            decreases self.objects.len() - i,
        {
            let found = self.objects[i].hit(probe, touch, flight, ray, &Interval::new(interval.min, closest_so_far));
            let ghost before = outs;
            proof {
                outs = outs.push(found);
                assert forall|j: int| 0 <= j <= i implies last_hit(outs, j) == last_hit(before, j) by {
                    last_hit_of_prefix(outs, before, j);
                }
            }
            if let Some(record) = found {
                closest_so_far = record.t;
                hit_record = Some(record);
            }
            i += 1;
        }
        proof {
            assert(run(outs));
            let objects = self@->Group_objects;
            assert forall|k: int| 0 <= k < objects.len() implies (#[trigger] objects[k]).hits(
                probe,
                touch,
                flight,
                *ray,
                capped(*interval, last_hit(outs, k)),
                outs[k],
            ) by {
                assert(objects[k] == self.objects@[k]@);
            }
        }
        hit_record
    }
}

impl Scene {
    /// The density of `direction` toward the scene from `origin`: the mean of
    /// the densities of its members, and zero for a scene without members.
    pub fn pdf_value<D: Fn(Lobe, Vec3) -> i64>(&self, origin: &Vec3, direction: &Vec3, density: &D) -> (r:
        i64)
        requires
            weighing(density),
            self@.weighable(),
        ensures
            self@.weighs(density, *origin, *direction, r),
            r >= 0,
        decreases self,
    {
        let n = self.objects.len();
        if n == 0 {
            assert(weights(Seq::<i64>::empty()));
            return 0;
        }
        let mut sum: i128 = 0;
        let ghost mut vals: Seq<i64> = Seq::empty();
        let mut i: usize = 0;
        while i < n
            invariant
                decreases_to!(self => self.objects),
                weighing(density),
                self@.weighable(),
                n == self.objects.len(),
                i <= n,
                vals.len() == i,
                sum == total(vals, i as int),
                sum >= 0,
                forall|j: int|
                    0 <= j < i ==> (#[trigger] self.objects@[j])@.weighs(
                        density,
                        *origin,
                        *direction,
                        vals[j],
                    ),
            decreases n - i,
        {
            proof {
                total_is_bounded(vals, i as int);
                assert(self@->Group_objects[i as int] == self.objects@[i as int]@);
                assert(i * 0x8000_0000_0000_0000 <= 0x8000_0000 * 0x8000_0000_0000_0000 && i
                    * 0x7fff_ffff_ffff_ffff <= 0x8000_0000 * 0x8000_0000_0000_0000) by (nonlinear_arith)
                    requires
                        0 <= i <= 0x8000_0000,
                ;
            }
            let value = self.objects[i].pdf_value(origin, direction, density);
            let ghost before = vals;
            proof {
                vals = vals.push(value);
                total_of_prefix(vals, before, i as int);
            }
            sum = sum + value as i128;
            i += 1;
        }
        proof {
            total_is_bounded(vals, n as int);
            assert(n * 0x8000_0000_0000_0000 <= 0x8000_0000 * 0x8000_0000_0000_0000 && n
                * 0x7fff_ffff_ffff_ffff <= 0x8000_0000 * 0x8000_0000_0000_0000) by (nonlinear_arith)
                requires
                    0 <= n <= 0x8000_0000,
            ;
            assert(weights(vals));
            let objects = self@->Group_objects;
            assert forall|k: int| 0 <= k < objects.len() implies (#[trigger] objects[k]).weighs(
                density,
                *origin,
                *direction,
                vals[k],
            ) by {
                assert(objects[k] == self.objects@[k]@);
            }
        }
        let q = floor_div(sum, n as i128);
        proof {
            vstd::arithmetic::div_mod::lemma_div_pos_is_pos(sum as int, n as int);
            assert(-0x8000_0000_0000_0000 <= q <= 0x7fff_ffff_ffff_ffff) by {
                mean_is_an_ordinate(vals);
            }
        }
        q as i64
    }

    /// A direction drawn from `origin` toward one member, which a uniform
    /// draw picks.
    pub fn random<S: Fn(Lobe) -> Vec3>(&self, origin: &Vec3, sample: &S) -> (r: Vec3)
        requires
            drawing(sample),
            self@.drawable(),
        ensures
            self@.draws(sample, *origin, r),
        decreases self,
    {
        let int_size = self.objects.len() as i32;
        let k = random_int(0, int_size) as usize;
        proof {
            assert(chosen(k as int));
            assert(self@->Group_objects[k as int] == self.objects@[k as int]@);
        }
        self.objects[k].random(origin, sample)
    }
}

/// The mean of ordinates is an ordinate.
pub proof fn mean_is_an_ordinate(vals: Seq<i64>)
    ensures
        -0x8000_0000_0000_0000 <= mean(vals) <= 0x7fff_ffff_ffff_ffff,
{
    let n = vals.len() as int;
    if n > 0 {
        total_is_bounded(vals, n);
        let t = total(vals, n);
        vstd::arithmetic::div_mod::lemma_fundamental_div_mod(t, n);
        vstd::arithmetic::div_mod::lemma_mod_bound(t, n);
        let q = t / n;
        assert(q <= 0x7fff_ffff_ffff_ffff) by (nonlinear_arith)
            requires
                n > 0,
                n * q <= n * 0x7fff_ffff_ffff_ffff,
        ;
        assert(q >= -0x8000_0000_0000_0000) by (nonlinear_arith)
            requires
                n > 0,
                n * q > n * (-0x8000_0000_0000_0001),
        ;
    }
}

impl Default for Scene {
    /// The scene without members; its box is empty.
    fn default() -> (r: Self)
        ensures
            r.objects@ == Seq::<Hittable>::empty(),
            r.bbox == AABB::spec_empty(),
    {
        Scene { objects: Vec::new(), bbox: AABB::empty() }
    }
}

} // verus!
