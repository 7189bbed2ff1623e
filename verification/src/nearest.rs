//! Why the hierarchy finds what a scan of all surfaces finds.
//!
//! The statements here are about primitives that report steadily: what a
//! primitive reports is a function of the question; what it finds lies
//! within the interval asked; and lowering the upper end of the interval
//! loses only findings at or beyond the new end, and brings no new ones. A
//! sphere whose roots come in order and a parallelogram report so. Under
//! that, a scan finds the least parameter at which any of the surfaces
//! answers. The hierarchy finds the same where, besides, each finding lies
//! strictly inside the interval and in the closed box of its primitive, the
//! ray staying in that box just before or just after.
use vstd::prelude::*;
use vstd::seq_lib::to_multiset_contains;
use crate::aabb::{on_entry, on_exit, slab_test_keeps, stays, AABB};
use crate::bvh::{arrangement, built, grown, hull, ordered, stable, taken_from};
use crate::hit::quad::Quad;
use crate::hit::sphere::Sphere;
use crate::hit::{capped, last_hit, later, pair, record, run, HitRecord, Meet, Shape, Touch};
use crate::ray::{Ray, Vec3};
use crate::util::Interval;

verus! {

/// A model of what primitives report: the finding as a function of the
/// primitive, the ray and the interval.
pub type Answer = spec_fn(Shape, Ray, Interval) -> Option<HitRecord>;

/// Whether the surface is a primitive.
pub open spec fn plain(x: Shape) -> bool {
    x is Sphere || x is Quad
}

/// Whether, with these probes, every primitive reports as `answer` says.
pub open spec fn modelled<
    P: Fn(usize, Vec3, Ray) -> Meet,
    H: Fn(usize, Vec3, Ray, i64) -> Touch,
    F: Fn(usize, Ray) -> i64,
>(probe: &P, touch: &H, flight: &F, answer: Answer) -> bool {
    forall|x: Shape, ray: Ray, iv: Interval, out: Option<HitRecord>|
        plain(x) && #[trigger] x.hits(probe, touch, flight, ray, iv, out) ==> out == answer(x, ray, iv)
}

/// The parameter of a finding.
pub open spec fn param(out: Option<HitRecord>) -> Option<i64> {
    match out {
        Some(h) => Some(h.t),
        None => None,
    }
}

/// The parameter at which the primitive `x` answers within `iv`.
pub open spec fn told(answer: Answer, x: Shape, ray: Ray, iv: Interval) -> Option<i64> {
    param(answer(x, ray, iv))
}

/// `iv` with its upper end lowered to `cap`.
pub open spec fn lowered(iv: Interval, cap: i64) -> Interval {
    Interval { min: iv.min, max: cap }
}

/// Whether the primitive `x` reports steadily along `ray`: what it finds
/// lies within the interval asked; a finding below a lowered upper end is
/// found under it too; and what is found under a lowered upper end is found
/// without it, or something before it.
pub open spec fn steady(answer: Answer, x: Shape, ray: Ray) -> bool {
    &&& forall|iv: Interval| #[trigger]
        told(answer, x, ray, iv) is Some ==> iv.min <= told(answer, x, ray, iv)->0 <= iv.max
    &&& forall|iv: Interval, cap: i64|
        #![trigger told(answer, x, ray, lowered(iv, cap))]
        cap <= iv.max && told(answer, x, ray, iv) is Some && told(answer, x, ray, iv)->0 < cap ==> told(
            answer,
            x,
            ray,
            lowered(iv, cap),
        ) == told(answer, x, ray, iv)
    &&& forall|iv: Interval, cap: i64|
        #![trigger told(answer, x, ray, lowered(iv, cap))]
        cap <= iv.max && told(answer, x, ray, lowered(iv, cap)) is Some ==> told(answer, x, ray, iv) is Some
            && told(answer, x, ray, iv)->0 <= told(answer, x, ray, lowered(iv, cap))->0
}

/// Whether every finding of the primitive `x` along `ray` lies strictly
/// inside the interval asked and in the closed box of `x`, the ray staying
/// in the box just before or just after.
pub open spec fn enclosed(answer: Answer, x: Shape, ray: Ray) -> bool {
    forall|iv: Interval| #[trigger]
        told(answer, x, ray, iv) is Some ==> {
            &&& iv.min < told(answer, x, ray, iv)->0 < iv.max
            &&& stays(x.bbox(), ray, told(answer, x, ray, iv)->0 as int)
        }
}

/// Whether all of `objs` are primitives that report steadily along `ray`.
pub open spec fn all_steady(answer: Answer, objs: Seq<Shape>, ray: Ray) -> bool {
    forall|i: int| 0 <= i < objs.len() ==> plain(#[trigger] objs[i]) && steady(answer, objs[i], ray)
}

/// Whether every finding of each of `objs` along `ray` lies strictly inside
/// the interval and in its closed box.
pub open spec fn all_enclosed(answer: Answer, objs: Seq<Shape>, ray: Ray) -> bool {
    forall|i: int| 0 <= i < objs.len() ==> enclosed(answer, #[trigger] objs[i], ray)
}

/// Whether `t` is the least parameter at which any of the first `n` of `objs`
/// answers within `iv`; for no `t`, whether none of them answers.
pub open spec fn is_nearest(answer: Answer, objs: Seq<Shape>, n: int, ray: Ray, iv: Interval, t: Option<i64>) -> bool {
    match t {
        Some(least) => {
            &&& exists|i: int| 0 <= i < n && #[trigger] told(answer, objs[i], ray, iv) == Some(least)
            &&& forall|j: int|
                0 <= j < n && (#[trigger] told(answer, objs[j], ray, iv)) is Some ==> least <= told(
                    answer,
                    objs[j],
                    ray,
                    iv,
                )->0
        },
        None => forall|j: int| 0 <= j < n ==> (#[trigger] told(answer, objs[j], ray, iv)) is None,
    }
}

/// There is at most one nearest parameter.
pub proof fn nearest_is_unique(
    answer: Answer,
    objs: Seq<Shape>,
    n: int,
    ray: Ray,
    iv: Interval,
    a: Option<i64>,
    b: Option<i64>,
)
    requires
        is_nearest(answer, objs, n, ray, iv, a),
        is_nearest(answer, objs, n, ray, iv, b),
    ensures
        a == b,
{
    if a is Some {
        let i = choose|i: int| 0 <= i < n && #[trigger] told(answer, objs[i], ray, iv) == Some(a->0);
        assert(told(answer, objs[i], ray, iv) is Some);
    }
    if b is Some {
        let i = choose|i: int| 0 <= i < n && #[trigger] told(answer, objs[i], ray, iv) == Some(b->0);
        assert(told(answer, objs[i], ray, iv) is Some);
    }
}

/// Under a lowered upper end a primitive answers as without it, or not at
/// all; it does answer where its answer lies below the new end, and does not
/// where it lies beyond.
pub proof fn answer_under_cap(answer: Answer, x: Shape, ray: Ray, iv: Interval, cap: i64)
    requires
        steady(answer, x, ray),
        cap <= iv.max,
    ensures
        told(answer, x, ray, lowered(iv, cap)) is Some ==> told(answer, x, ray, lowered(iv, cap)) == told(
            answer,
            x,
            ray,
            iv,
        ) && told(answer, x, ray, iv)->0 <= cap,
        told(answer, x, ray, iv) is Some && told(answer, x, ray, iv)->0 < cap ==> told(
            answer,
            x,
            ray,
            lowered(iv, cap),
        ) == told(answer, x, ray, iv),
{
    let wide = told(answer, x, ray, iv);
    let narrow = told(answer, x, ray, lowered(iv, cap));
    if narrow is Some {
        assert(wide is Some && wide->0 <= narrow->0);
        assert(narrow->0 <= lowered(iv, cap).max);
        if wide->0 < cap {
            assert(narrow == wide);
        }
    }
}

/// Whether the touch probe has an answer for the primitive numbered `id`,
/// anchored at `anchor`, at the parameter `t` of `ray`.
pub open spec fn touched<H: Fn(usize, Vec3, Ray, i64) -> Touch>(
    touch: &H,
    id: usize,
    anchor: Vec3,
    ray: Ray,
    t: i64,
) -> bool {
    exists|h: Touch| call_ensures(touch, (id, anchor, ray, t), h)
}

/// What a sphere tells within an interval is the root that counts there,
/// where its reports are a function of the question and the touch probe has
/// an answer at each root.
pub proof fn sphere_tells<
    P: Fn(usize, Vec3, Ray) -> Meet,
    H: Fn(usize, Vec3, Ray, i64) -> Touch,
    F: Fn(usize, Ray) -> i64,
>(s: Sphere, probe: &P, touch: &H, flight: &F, answer: Answer, ray: Ray, q: Meet, iv: Interval)
    requires
        modelled(probe, touch, flight, answer),
        s.radius != 0,
        call_ensures(probe, (s.id, s.spec_sphere_center(ray.time as int), ray), q),
        forall|t: i64| #[trigger] touched(touch, s.id, s.spec_sphere_center(ray.time as int), ray, t),
    ensures
        told(answer, Shape::Sphere(s), ray, iv) == Sphere::spec_select_root(q.miss, q.near, q.far, iv),
{
    let x = Shape::Sphere(s);
    let centre = s.spec_sphere_center(ray.time as int);
    match Sphere::spec_select_root(q.miss, q.near, q.far, iv) {
        None => {
            let out: Option<HitRecord> = None;
            assert(s.reports(touch, ray, iv, q, out));
            assert(x.hits(probe, touch, flight, ray, iv, out));
        },
        Some(t) => {
            assert(touched(touch, s.id, centre, ray, t));
            let h = choose|h: Touch| call_ensures(touch, (s.id, centre, ray, t), h);
            let out = Some(record(t, h.p, h.outward, h.uv, s.material, ray));
            assert(s.reports(touch, ray, iv, q, out));
            assert(x.hits(probe, touch, flight, ray, iv, out));
        },
    }
}

/// A sphere whose roots come in order reports steadily, and strictly inside
/// the interval asked.
pub proof fn sphere_reports_steadily<
    P: Fn(usize, Vec3, Ray) -> Meet,
    H: Fn(usize, Vec3, Ray, i64) -> Touch,
    F: Fn(usize, Ray) -> i64,
>(s: Sphere, probe: &P, touch: &H, flight: &F, answer: Answer, ray: Ray, q: Meet)
    requires
        modelled(probe, touch, flight, answer),
        s.radius != 0,
        call_ensures(probe, (s.id, s.spec_sphere_center(ray.time as int), ray), q),
        forall|t: i64| #[trigger] touched(touch, s.id, s.spec_sphere_center(ray.time as int), ray, t),
        q.near <= q.far,
    ensures
        steady(answer, Shape::Sphere(s), ray),
        forall|iv: Interval| #[trigger]
            told(answer, Shape::Sphere(s), ray, iv) is Some ==> iv.min < told(
                answer,
                Shape::Sphere(s),
                ray,
                iv,
            )->0 < iv.max,
{
    let x = Shape::Sphere(s);
    assert forall|iv: Interval| #[trigger]
        told(answer, x, ray, iv) == Sphere::spec_select_root(q.miss, q.near, q.far, iv) by {
        sphere_tells(s, probe, touch, flight, answer, ray, q, iv);
    }
    assert forall|iv: Interval, cap: i64|
        #![trigger told(answer, x, ray, lowered(iv, cap))]
        told(answer, x, ray, lowered(iv, cap)) == Sphere::spec_select_root(
            q.miss,
            q.near,
            q.far,
            lowered(iv, cap),
        ) by {
        sphere_tells(s, probe, touch, flight, answer, ray, q, lowered(iv, cap));
    }
}

/// What a parallelogram tells within an interval is the crossing of its
/// plane if that is accepted there, where its reports are a function of the
/// question and the touch probe has an answer at the crossing.
pub proof fn quad_tells<
    P: Fn(usize, Vec3, Ray) -> Meet,
    H: Fn(usize, Vec3, Ray, i64) -> Touch,
    F: Fn(usize, Ray) -> i64,
>(s: Quad, probe: &P, touch: &H, flight: &F, answer: Answer, ray: Ray, q: Meet, iv: Interval)
    requires
        modelled(probe, touch, flight, answer),
        call_ensures(probe, (s.id, s.q, ray), q),
        forall|t: i64| #[trigger] touched(touch, s.id, s.q, ray, t),
    ensures
        told(answer, Shape::Quad(s), ray, iv) == (match Quad::spec_accept(
            q.miss,
            q.near,
            q.alpha,
            q.beta,
            iv,
        ) {
            Some((t, uv)) => Some(t),
            None => None,
        }),
{
    let x = Shape::Quad(s);
    match Quad::spec_accept(q.miss, q.near, q.alpha, q.beta, iv) {
        None => {
            let out: Option<HitRecord> = None;
            assert(s.reports(touch, ray, iv, q, out));
            assert(x.hits(probe, touch, flight, ray, iv, out));
        },
        Some((t, uv)) => {
            assert(touched(touch, s.id, s.q, ray, t));
            let h = choose|h: Touch| call_ensures(touch, (s.id, s.q, ray, t), h);
            let out = Some(record(t, h.p, h.outward, uv, s.material, ray));
            assert(s.reports(touch, ray, iv, q, out));
            assert(x.hits(probe, touch, flight, ray, iv, out));
        },
    }
}

/// A parallelogram reports steadily.
pub proof fn quad_reports_steadily<
    P: Fn(usize, Vec3, Ray) -> Meet,
    H: Fn(usize, Vec3, Ray, i64) -> Touch,
    F: Fn(usize, Ray) -> i64,
>(s: Quad, probe: &P, touch: &H, flight: &F, answer: Answer, ray: Ray, q: Meet)
    requires
        modelled(probe, touch, flight, answer),
        call_ensures(probe, (s.id, s.q, ray), q),
        forall|t: i64| #[trigger] touched(touch, s.id, s.q, ray, t),
    ensures
        steady(answer, Shape::Quad(s), ray),
{
    let x = Shape::Quad(s);
    assert forall|iv: Interval| #[trigger]
        told(answer, x, ray, iv) == (match Quad::spec_accept(q.miss, q.near, q.alpha, q.beta, iv) {
            Some((t, uv)) => Some(t),
            None => None,
        }) by {
        quad_tells(s, probe, touch, flight, answer, ray, q, iv);
    }
    assert forall|iv: Interval, cap: i64|
        #![trigger told(answer, x, ray, lowered(iv, cap))]
        told(answer, x, ray, lowered(iv, cap)) == (match Quad::spec_accept(
            q.miss,
            q.near,
            q.alpha,
            q.beta,
            lowered(iv, cap),
        ) {
            Some((t, uv)) => Some(t),
            None => None,
        }) by {
        quad_tells(s, probe, touch, flight, answer, ray, q, lowered(iv, cap));
    }
}

/// The merge of a run of boxes reaches at least as far as each of them.
pub proof fn grown_encloses(seed: AABB, objs: Seq<Shape>, n: int, i: int)
    requires
        0 <= i < n <= objs.len(),
    ensures
        grown(seed, objs, n).x.min <= objs[i].bbox().x.min,
        grown(seed, objs, n).x.max >= objs[i].bbox().x.max,
        grown(seed, objs, n).y.min <= objs[i].bbox().y.min,
        grown(seed, objs, n).y.max >= objs[i].bbox().y.max,
        grown(seed, objs, n).z.min <= objs[i].bbox().z.min,
        grown(seed, objs, n).z.max >= objs[i].bbox().z.max,
    decreases n,
{
    if i < n - 1 {
        grown_encloses(seed, objs, n - 1, i);
    }
}

/// A ray that stays in a box stays in every box around it.
pub proof fn stays_in_wider(a: AABB, b: AABB, ray: Ray, t: int)
    requires
        stays(a, ray, t),
        b.x.min <= a.x.min && a.x.max <= b.x.max,
        b.y.min <= a.y.min && a.y.max <= b.y.max,
        b.z.min <= a.z.min && a.z.max <= b.z.max,
    ensures
        stays(b, ray, t),
{
    let ox = ray.origin.x as int;
    let oy = ray.origin.y as int;
    let oz = ray.origin.z as int;
    let dx = ray.direction.x as int;
    let dy = ray.direction.y as int;
    let dz = ray.direction.z as int;
    if !on_entry(a.x, ox, dx, t) && !on_entry(a.y, oy, dy, t) && !on_entry(a.z, oz, dz, t) {
        assert(!on_entry(b.x, ox, dx, t) && !on_entry(b.y, oy, dy, t) && !on_entry(b.z, oz, dz, t));
    } else {
        assert(!on_exit(b.x, ox, dx, t) && !on_exit(b.y, oy, dy, t) && !on_exit(b.z, oz, dz, t));
    }
}

/// The box test of a hierarchy over `objs` prunes nothing that answers:
/// where one of the surfaces answers within `iv`, the ray strikes the box.
pub proof fn box_is_struck(answer: Answer, objs: Seq<Shape>, ray: Ray, iv: Interval, i: int)
    requires
        0 <= i < objs.len(),
        enclosed(answer, objs[i], ray),
        told(answer, objs[i], ray, iv) is Some,
    ensures
        hull(objs, objs.len() as int).spec_hit(ray, iv).0,
{
    let b = hull(objs, objs.len() as int);
    let t = told(answer, objs[i], ray, iv)->0 as int;
    grown_encloses(AABB::spec_empty(), objs, objs.len() as int, i);
    stays_in_wider(objs[i].bbox(), b, ray, t);
    slab_test_keeps(b, ray, iv, t);
}

/// A scan of primitives that report steadily finds the nearest: the
/// parameter of its finding is the least at which any of them answers within
/// the interval, and it finds nothing only if none answers.
pub proof fn scan_finds_nearest<
    P: Fn(usize, Vec3, Ray) -> Meet,
    H: Fn(usize, Vec3, Ray, i64) -> Touch,
    F: Fn(usize, Ray) -> i64,
>(
    objs: Seq<Shape>,
    bbox: AABB,
    probe: &P,
    touch: &H,
    flight: &F,
    answer: Answer,
    ray: Ray,
    iv: Interval,
    out: Option<HitRecord>,
)
    requires
        modelled(probe, touch, flight, answer),
        all_steady(answer, objs, ray),
        (Shape::Group { objects: objs, bbox }).hits(probe, touch, flight, ray, iv, out),
    ensures
        is_nearest(answer, objs, objs.len() as int, ray, iv, param(out)),
{
    let outs = choose|outs: Seq<Option<HitRecord>>|
        {
            &&& #[trigger] run(outs)
            &&& outs.len() == objs.len()
            &&& forall|i: int|
                0 <= i < objs.len() ==> (#[trigger] objs[i]).hits(
                    probe,
                    touch,
                    flight,
                    ray,
                    capped(iv, last_hit(outs, i)),
                    outs[i],
                )
            &&& out == last_hit(outs, objs.len() as int)
        };
    scan_prefix(objs, probe, touch, flight, answer, ray, iv, outs, objs.len() as int);
}

/// The findings of a scan, as far as it has come.
proof fn scan_prefix<
    P: Fn(usize, Vec3, Ray) -> Meet,
    H: Fn(usize, Vec3, Ray, i64) -> Touch,
    F: Fn(usize, Ray) -> i64,
>(
    objs: Seq<Shape>,
    probe: &P,
    touch: &H,
    flight: &F,
    answer: Answer,
    ray: Ray,
    iv: Interval,
    outs: Seq<Option<HitRecord>>,
    k: int,
)
    requires
        modelled(probe, touch, flight, answer),
        all_steady(answer, objs, ray),
        outs.len() == objs.len(),
        0 <= k <= objs.len(),
        forall|i: int|
            0 <= i < objs.len() ==> (#[trigger] objs[i]).hits(
                probe,
                touch,
                flight,
                ray,
                capped(iv, last_hit(outs, i)),
                outs[i],
            ),
    ensures
        is_nearest(answer, objs, k, ray, iv, param(last_hit(outs, k))),
        last_hit(outs, k) is Some ==> last_hit(outs, k)->0.t <= iv.max,
    decreases k,
{
    if k > 0 {
        scan_prefix(objs, probe, touch, flight, answer, ray, iv, outs, k - 1);
        let before = last_hit(outs, k - 1);
        let x = objs[k - 1];
        let asked = capped(iv, before);
        assert(plain(x) && steady(answer, x, ray));
        assert(x.hits(probe, touch, flight, ray, asked, outs[k - 1]));
        assert(outs[k - 1] == answer(x, ray, asked));
        assert(asked == lowered(iv, asked.max));
        answer_under_cap(answer, x, ray, iv, asked.max);
        let now = param(last_hit(outs, k));
        if outs[k - 1] is Some {
            assert(told(answer, objs[k - 1], ray, iv) == now);
            assert forall|j: int| 0 <= j < k && (#[trigger] told(answer, objs[j], ray, iv)) is Some implies now->0
                <= told(answer, objs[j], ray, iv)->0 by {
                if j < k - 1 {
                    if before is Some {
                        assert(param(before)->0 <= told(answer, objs[j], ray, iv)->0);
                    }
                }
            }
        } else {
            if before is Some {
                let i = choose|i: int| 0 <= i < k - 1 && #[trigger] told(answer, objs[i], ray, iv) == param(before);
                assert(told(answer, objs[i], ray, iv) == now);
            } else {
                assert(asked == iv);
            }
        }
    }
}

/// A member of one arrangement is a member of every rearrangement.
proof fn member_of_rearranged(a: Seq<Shape>, b: Seq<Shape>, i: int) -> (j: int)
    requires
        a.to_multiset() == b.to_multiset(),
        0 <= i < a.len(),
    ensures
        0 <= j < b.len(),
        b[j] == a[i],
{
    to_multiset_contains(a, a[i]);
    to_multiset_contains(b, a[i]);
    assert(a.contains(a[i]));
    choose|j: int| 0 <= j < b.len() && b[j] == a[i]
}

/// What is nearest among the two halves of an arrangement of `objs`, the
/// second half asked below what the first found, is nearest among `objs`.
proof fn halves_give_nearest(
    answer: Answer,
    objs: Seq<Shape>,
    sorted: Seq<Shape>,
    half: int,
    ray: Ray,
    iv: Interval,
    l: Option<HitRecord>,
    r: Option<HitRecord>,
)
    requires
        all_steady(answer, objs, ray),
        sorted.to_multiset() == objs.to_multiset(),
        sorted.len() == objs.len(),
        0 <= half <= sorted.len(),
        is_nearest(answer, sorted.subrange(0, half), half, ray, iv, param(l)),
        is_nearest(
            answer,
            sorted.subrange(half, sorted.len() as int),
            sorted.len() - half,
            ray,
            capped(iv, l),
            param(r),
        ),
        l is Some ==> l->0.t <= iv.max,
    ensures
        is_nearest(answer, objs, objs.len() as int, ray, iv, param(later(l, r))),
{
    let n = objs.len() as int;
    let lower = sorted.subrange(0, half);
    let upper = sorted.subrange(half, n);
    let cap = capped(iv, l);
    let found = param(later(l, r));
    assert(cap == lowered(iv, cap.max));
    if l is None {
        assert(cap == iv);
    }
    // every surface of the arrangement reports steadily
    assert forall|i: int| 0 <= i < n implies plain(#[trigger] sorted[i]) && steady(answer, sorted[i], ray) by {
        let j = member_of_rearranged(sorted, objs, i);
        assert(plain(objs[j]) && steady(answer, objs[j], ray));
    }
    // where the second half found something, a surface of it answers there within the whole
    if r is Some {
        let u = choose|u: int| 0 <= u < n - half && #[trigger] told(answer, upper[u], ray, cap) == param(r);
        assert(upper[u] == sorted[half + u]);
        answer_under_cap(answer, sorted[half + u], ray, iv, cap.max);
        assert(told(answer, sorted[half + u], ray, iv) == found);
        let j = member_of_rearranged(sorted, objs, half + u);
        assert(told(answer, objs[j], ray, iv) == found);
    } else if l is Some {
        let u = choose|u: int| 0 <= u < half && #[trigger] told(answer, lower[u], ray, iv) == param(l);
        assert(lower[u] == sorted[u]);
        let j = member_of_rearranged(sorted, objs, u);
        assert(told(answer, objs[j], ray, iv) == found);
    }
    // no surface of the arrangement answers before what was found
    assert forall|i: int| 0 <= i < n && (#[trigger] told(answer, sorted[i], ray, iv)) is Some implies found is Some
        && found->0 <= told(answer, sorted[i], ray, iv)->0 by {
        let t = told(answer, sorted[i], ray, iv)->0;
        if i < half {
            assert(lower[i] == sorted[i]);
            assert(told(answer, lower[i], ray, iv) is Some);
            assert(l is Some && l->0.t <= t);
            if r is Some {
                let u = choose|u: int| 0 <= u < n - half && #[trigger] told(answer, upper[u], ray, cap) == param(r);
                assert(upper[u] == sorted[half + u]);
                answer_under_cap(answer, sorted[half + u], ray, iv, cap.max);
            }
        } else {
            assert(upper[i - half] == sorted[i]);
            answer_under_cap(answer, sorted[i], ray, iv, cap.max);
            if t < cap.max {
                assert(told(answer, upper[i - half], ray, cap) is Some);
                assert(r is Some && r->0.t <= t);
            } else if l is None {
                assert(told(answer, upper[i - half], ray, cap) is Some);
            } else if r is Some {
                let u = choose|u: int| 0 <= u < n - half && #[trigger] told(answer, upper[u], ray, cap) == param(r);
                assert(upper[u] == sorted[half + u]);
                answer_under_cap(answer, sorted[half + u], ray, iv, cap.max);
            }
        }
    }
    assert forall|j: int| 0 <= j < n && (#[trigger] told(answer, objs[j], ray, iv)) is Some implies found is Some
        && found->0 <= told(answer, objs[j], ray, iv)->0 by {
        let i = member_of_rearranged(objs, sorted, j);
        assert(told(answer, sorted[i], ray, iv) is Some);
    }
}

/// A hierarchy over primitives that report steadily, each finding strictly
/// inside the interval and in the closed box of its primitive, finds the
/// nearest: the parameter of its finding is the least at which any of them
/// answers within the interval, and it finds nothing only if none answers.
pub proof fn tree_finds_nearest<
    P: Fn(usize, Vec3, Ray) -> Meet,
    H: Fn(usize, Vec3, Ray, i64) -> Touch,
    F: Fn(usize, Ray) -> i64,
>(
    node: Shape,
    objs: Seq<Shape>,
    probe: &P,
    touch: &H,
    flight: &F,
    answer: Answer,
    ray: Ray,
    iv: Interval,
    out: Option<HitRecord>,
)
    requires
        built(node, objs),
        modelled(probe, touch, flight, answer),
        all_steady(answer, objs, ray),
        all_enclosed(answer, objs, ray),
        node.hits(probe, touch, flight, ray, iv, out),
    ensures
        is_nearest(answer, objs, objs.len() as int, ray, iv, param(out)),
        out is Some ==> iv.min <= out->0.t <= iv.max,
    decreases objs.len(),
{
    let n = objs.len() as int;
    let bbox = node->Node_bbox;
    let left = *node->left;
    let right = *node->right;
    if !bbox.spec_hit(ray, iv).0 {
        // the box is not struck: none of the surfaces answers
        assert forall|i: int| 0 <= i < n implies (#[trigger] told(answer, objs[i], ray, iv)) is None by {
            if told(answer, objs[i], ray, iv) is Some {
                assert(enclosed(answer, objs[i], ray));
                box_is_struck(answer, objs, ray, iv, i);
            }
        }
    } else {
        let (l, r) = choose|l: Option<HitRecord>, r: Option<HitRecord>|
            {
                &&& #[trigger] pair(l, r)
                &&& left.hits(probe, touch, flight, ray, iv, l)
                &&& right.hits(probe, touch, flight, ray, capped(iv, l), r)
                &&& out == later(l, r)
            };
        let cap = capped(iv, l);
        if n == 1 {
            let x = objs[0];
            assert(plain(x) && steady(answer, x, ray));
            assert(l == answer(x, ray, iv));
            assert(r == answer(x, ray, cap));
            assert(cap == lowered(iv, cap.max));
            answer_under_cap(answer, x, ray, iv, cap.max);
            if l is None {
                assert(cap == iv);
            }
            assert(told(answer, objs[0], ray, iv) == param(out));
        } else if n == 2 {
            let x = if left == objs[0] { objs[0] } else { objs[1] };
            let y = if left == objs[0] { objs[1] } else { objs[0] };
            assert(plain(objs[0]) && steady(answer, objs[0], ray));
            assert(plain(objs[1]) && steady(answer, objs[1], ray));
            assert(left == x && right == y);
            assert(l == answer(x, ray, iv));
            assert(r == answer(y, ray, cap));
            assert(cap == lowered(iv, cap.max));
            answer_under_cap(answer, y, ray, iv, cap.max);
            if l is None {
                assert(cap == iv);
            }
            assert(told(answer, x, ray, iv) == param(l));
            if r is Some {
                assert(told(answer, y, ray, iv) == param(out));
            } else {
                assert(param(out) == param(l));
            }
        } else {
            let axis = bbox.spec_longest_axis();
            let (sorted, from) = choose|sorted: Seq<Shape>, from: Seq<int>|
                {
                    &&& #[trigger] arrangement(sorted, from)
                    &&& sorted.len() == n
                    &&& sorted.to_multiset() == objs.to_multiset()
                    &&& taken_from(objs, sorted, from)
                    &&& ordered(sorted, axis)
                    &&& stable(sorted, from, axis)
                    &&& built(left, sorted.subrange(0, n / 2))
                    &&& built(right, sorted.subrange(n / 2, n))
                };
            let lower = sorted.subrange(0, n / 2);
            let upper = sorted.subrange(n / 2, n);
            assert forall|i: int| 0 <= i < lower.len() implies plain(#[trigger] lower[i]) && steady(
                answer,
                lower[i],
                ray,
            ) && enclosed(answer, lower[i], ray) by {
                assert(lower[i] == sorted[i]);
                let j = member_of_rearranged(sorted, objs, i);
                assert(plain(objs[j]) && steady(answer, objs[j], ray));
                assert(enclosed(answer, objs[j], ray));
            }
            assert forall|i: int| 0 <= i < upper.len() implies plain(#[trigger] upper[i]) && steady(
                answer,
                upper[i],
                ray,
            ) && enclosed(answer, upper[i], ray) by {
                assert(upper[i] == sorted[n / 2 + i]);
                let j = member_of_rearranged(sorted, objs, n / 2 + i);
                assert(plain(objs[j]) && steady(answer, objs[j], ray));
                assert(enclosed(answer, objs[j], ray));
            }
            tree_finds_nearest(left, lower, probe, touch, flight, answer, ray, iv, l);
            tree_finds_nearest(right, upper, probe, touch, flight, answer, ray, cap, r);
            halves_give_nearest(answer, objs, sorted, n / 2, ray, iv, l, r);
        }
        if param(out) is Some {
            let i = choose|i: int| 0 <= i < n && #[trigger] told(answer, objs[i], ray, iv) == param(out);
            assert(plain(objs[i]) && steady(answer, objs[i], ray));
        }
    }
}

/// The hierarchy and the scan agree: over the same primitives that report
/// steadily, each finding strictly inside the interval and in the closed
/// box of its primitive, both find something or neither does, and at the
/// same parameter.
pub proof fn tree_agrees_with_scan<
    P: Fn(usize, Vec3, Ray) -> Meet,
    H: Fn(usize, Vec3, Ray, i64) -> Touch,
    F: Fn(usize, Ray) -> i64,
>(
    node: Shape,
    objs: Seq<Shape>,
    bbox: AABB,
    probe: &P,
    touch: &H,
    flight: &F,
    answer: Answer,
    ray: Ray,
    iv: Interval,
    by_tree: Option<HitRecord>,
    by_scan: Option<HitRecord>,
)
    requires
        built(node, objs),
        modelled(probe, touch, flight, answer),
        all_steady(answer, objs, ray),
        all_enclosed(answer, objs, ray),
        node.hits(probe, touch, flight, ray, iv, by_tree),
        (Shape::Group { objects: objs, bbox }).hits(probe, touch, flight, ray, iv, by_scan),
    ensures
        param(by_tree) == param(by_scan),
{
    tree_finds_nearest(node, objs, probe, touch, flight, answer, ray, iv, by_tree);
    scan_finds_nearest(objs, bbox, probe, touch, flight, answer, ray, iv, by_scan);
    nearest_is_unique(answer, objs, objs.len() as int, ray, iv, param(by_tree), param(by_scan));
}

} // verus!
