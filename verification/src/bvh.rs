//! The bounding-volume hierarchy: a binary tree over surfaces.
use vstd::prelude::*;
use vstd::set_lib::{lemma_int_range, lemma_subset_equality, set_int_range};
use vstd::seq_lib::{lemma_multiset_commutative, to_multiset_build, to_multiset_insert, to_multiset_remove, to_multiset_contains, to_multiset_len};
use crate::aabb::{merge_contains_both, AABB};
use crate::scene::Scene;
use crate::hit::{answering, pair, HitRecord, Hittable, Meet, Shape, Touch};
use crate::ray::{Ray, Vec3};
use crate::util::Interval;

verus! {

/// A node of the hierarchy: the box around both children, and the children.
#[derive(Debug)]
pub struct BVHNode {
    pub bbox: AABB,
    pub left: Box<Hittable>,
    pub right: Box<Hittable>,
}

/// The models of a run of surfaces.
pub open spec fn models(s: Seq<Hittable>) -> Seq<Shape> {
    s.map_values(|h: Hittable| h@)
}

/// The surfaces from place `start` up to, not including, place `end`.
pub open spec fn range(s: Seq<Hittable>, start: usize, end: usize) -> Seq<Hittable> {
    s.subrange(start as int, end as int)
}

/// The box `seed` merged with the boxes of the first `n` of `objs`, one
/// after the other.
pub open spec fn grown(seed: AABB, objs: Seq<Shape>, n: int) -> AABB
    decreases n,
{
    if n <= 0 {
        seed
    } else {
        AABB::spec_merge(grown(seed, objs, n - 1), objs[n - 1].bbox())
    }
}

/// What a box has grown to by the first `n` of a run does not depend on
/// what follows in the run.
pub proof fn grown_of_prefix(seed: AABB, a: Seq<Shape>, b: Seq<Shape>, n: int)
    requires
        n <= a.len(),
        n <= b.len(),
        forall|i: int| 0 <= i < n ==> a[i] == b[i],
    ensures
        grown(seed, a, n) == grown(seed, b, n),
    decreases n,
{
    if n > 0 {
        grown_of_prefix(seed, a, b, n - 1);
    }
}

/// The merge of the boxes of the first `n` of `objs`, taken in order from
/// the empty box.
pub open spec fn hull(objs: Seq<Shape>, n: int) -> AABB {
    grown(AABB::spec_empty(), objs, n)
}

/// What surfaces are sorted by: the lower end of the box on `axis`.
pub open spec fn key(s: Shape, axis: int) -> i64 {
    s.bbox().spec_axis(axis).min
}

/// Whether `objs` stand in non-decreasing order of their keys on `axis`.
pub open spec fn ordered(objs: Seq<Shape>, axis: int) -> bool {
    forall|i: int, j: int| 0 <= i <= j < objs.len() ==> key(objs[i], axis) <= key(objs[j], axis)
}

/// Names an arrangement of surfaces and the places that they came from, for a
/// proof to point at; it holds of every one.
pub open spec fn arrangement(sorted: Seq<Shape>, from: Seq<int>) -> bool {
    true
}

/// Whether `sorted` is `objs` rearranged: the surface at place `k` of
/// `sorted` is the one that stood at place `from[k]` of `objs`, and no two
/// came from the same place.
pub open spec fn taken_from<A>(objs: Seq<A>, sorted: Seq<A>, from: Seq<int>) -> bool {
    &&& sorted.len() == objs.len()
    &&& from.len() == objs.len()
    &&& forall|k: int| 0 <= k < from.len() ==> 0 <= #[trigger] from[k] < objs.len() && sorted[k] == objs[from[k]]
    &&& forall|i: int, j: int| 0 <= i < j < from.len() ==> from[i] != from[j]
}

/// Whether surfaces with equal keys on `axis` stand in `sorted` in the order
/// of the places that they came from.
pub open spec fn stable(sorted: Seq<Shape>, from: Seq<int>, axis: int) -> bool {
    forall|i: int, j: int|
        0 <= i < j < sorted.len() && key(sorted[i], axis) == key(sorted[j], axis) ==> from[i] < from[j]
}

/// Whether `node` is a hierarchy over exactly the surfaces `objs`.
///
/// Its box is the merge of all their boxes, and `axis` the longest axis of
/// that box. Over one surface both children are that surface. Over two the
/// one with the smaller key on `axis` is the left child (the first, where
/// neither is smaller, is the right child). Over more, the children are
/// hierarchies over the lower half and the rest of `objs` sorted by the keys
/// on `axis`, surfaces with equal keys staying in their order; the lower
/// half is the smaller where the count is odd.
pub open spec fn built(node: Shape, objs: Seq<Shape>) -> bool
    decreases objs.len(),
{
    &&& node is Node
    &&& node->Node_bbox == hull(objs, objs.len() as int)
    &&& {
        let axis = node->Node_bbox.spec_longest_axis();
        let left = *node->left;
        let right = *node->right;
        let n = objs.len() as int;
        if n == 1 {
            left == objs[0] && right == objs[0]
        } else if n == 2 {
            if key(objs[0], axis) < key(objs[1], axis) {
                left == objs[0] && right == objs[1]
            } else {
                left == objs[1] && right == objs[0]
            }
        } else if n >= 3 {
            exists|sorted: Seq<Shape>, from: Seq<int>|
                {
                    &&& #[trigger] arrangement(sorted, from)
                    &&& sorted.len() == n
                    &&& sorted.to_multiset() == objs.to_multiset()
                    &&& taken_from(objs, sorted, from)
                    &&& ordered(sorted, axis)
                    &&& stable(sorted, from, axis)
                    &&& built(left, sorted.subrange(0, n / 2))
                    &&& built(right, sorted.subrange(n / 2, n))
                }
        } else {
            false
        }
    }
}

/// A node over three or more surfaces is a hierarchy where its children are
/// hierarchies over the two halves of an ordered arrangement.
proof fn built_from_halves(node: Shape, objs: Seq<Shape>, sorted: Seq<Shape>, from: Seq<int>)
    requires
        node is Node,
        node->Node_bbox == hull(objs, objs.len() as int),
        objs.len() >= 3,
        sorted.len() == objs.len(),
        sorted.to_multiset() == objs.to_multiset(),
        taken_from(objs, sorted, from),
        ordered(sorted, node->Node_bbox.spec_longest_axis()),
        stable(sorted, from, node->Node_bbox.spec_longest_axis()),
        built(*node->left, sorted.subrange(0, objs.len() as int / 2)),
        built(*node->right, sorted.subrange(objs.len() as int / 2, objs.len() as int)),
    ensures
        built(node, objs),
{
    assert(arrangement(sorted, from));
}

/// The places that the first `k` entries of `from` name.
pub open spec fn named(from: Seq<int>, k: int) -> Set<int> {
    Set::new(|p: int| exists|i: int| 0 <= i < k && from[i] == p)
}

/// Entries that name different places of a run name as many places as there
/// are entries.
proof fn named_count(from: Seq<int>, k: int)
    requires
        0 <= k <= from.len(),
        forall|i: int| 0 <= i < from.len() ==> 0 <= #[trigger] from[i] < from.len(),
        forall|i: int, j: int| 0 <= i < j < from.len() ==> from[i] != from[j],
    ensures
        named(from, k).finite(),
        named(from, k).len() == k,
        named(from, k).subset_of(set_int_range(0, from.len() as int)),
    decreases k,
{
    if k == 0 {
        assert(named(from, 0) =~= Set::<int>::empty());
    } else {
        named_count(from, k - 1);
        assert(named(from, k) =~= named(from, k - 1).insert(from[k - 1]));
        assert(!named(from, k - 1).contains(from[k - 1]));
    }
}

/// In a rearrangement every place of the run is taken from.
proof fn every_place_is_taken(from: Seq<int>, j: int) -> (k: int)
    requires
        forall|i: int| 0 <= i < from.len() ==> 0 <= #[trigger] from[i] < from.len(),
        forall|i: int, j: int| 0 <= i < j < from.len() ==> from[i] != from[j],
        0 <= j < from.len(),
    ensures
        0 <= k < from.len(),
        from[k] == j,
{
    let n = from.len() as int;
    named_count(from, n);
    lemma_int_range(0, n);
    lemma_subset_equality(named(from, n), set_int_range(0, n));
    assert(set_int_range(0, n).contains(j));
    assert(named(from, n).contains(j));
    choose|k: int| 0 <= k < n && from[k] == j
}

/// Two sorted arrangements of the same surfaces, both keeping the order of
/// surfaces with equal keys, agree in their first `k` places.
proof fn sorted_agree(
    objs: Seq<Shape>,
    axis: int,
    s1: Seq<Shape>,
    f1: Seq<int>,
    s2: Seq<Shape>,
    f2: Seq<int>,
    k: int,
)
    requires
        taken_from(objs, s1, f1),
        ordered(s1, axis),
        stable(s1, f1, axis),
        taken_from(objs, s2, f2),
        ordered(s2, axis),
        stable(s2, f2, axis),
        0 <= k <= objs.len(),
    ensures
        forall|i: int| 0 <= i < k ==> f1[i] == f2[i],
    decreases k,
{
    if k > 0 {
        sorted_agree(objs, axis, s1, f1, s2, f2, k - 1);
        let a = f1[k - 1];
        let b = f2[k - 1];
        if a != b {
            let m2 = every_place_is_taken(f2, a);
            let m1 = every_place_is_taken(f1, b);
            // neither stands before place k - 1, where the two arrangements agree
            if m2 < k - 1 {
                assert(f1[m2] == f2[m2]);
            }
            if m1 < k - 1 {
                assert(f2[m1] == f1[m1]);
            }
            assert(k - 1 < m2 && k - 1 < m1);
            // so each arrangement has the other's surface later: the keys are equal, and
            // each of the two places comes before the other
            assert(s2[k - 1] == objs[b] && s2[m2] == objs[a]);
            assert(s1[k - 1] == objs[a] && s1[m1] == objs[b]);
            assert(key(s2[k - 1], axis) <= key(s2[m2], axis));
            assert(key(s1[k - 1], axis) <= key(s1[m1], axis));
        }
    }
}

/// There is one way to sort surfaces by their keys while keeping the order
/// of those with equal keys.
pub proof fn sorted_is_unique(
    objs: Seq<Shape>,
    axis: int,
    s1: Seq<Shape>,
    f1: Seq<int>,
    s2: Seq<Shape>,
    f2: Seq<int>,
)
    requires
        taken_from(objs, s1, f1),
        ordered(s1, axis),
        stable(s1, f1, axis),
        taken_from(objs, s2, f2),
        ordered(s2, axis),
        stable(s2, f2, axis),
    ensures
        f1 == f2,
        s1 == s2,
{
    sorted_agree(objs, axis, s1, f1, s2, f2, objs.len() as int);
    assert(f1 =~= f2);
    assert forall|k: int| 0 <= k < s1.len() implies s1[k] == s2[k] by {
        assert(s1[k] == objs[f1[k]]);
        assert(s2[k] == objs[f2[k]]);
    }
    assert(s1 =~= s2);
}

/// The surfaces determine their hierarchy: two hierarchies over the same
/// surfaces are the same.
pub proof fn built_is_unique(a: Shape, b: Shape, objs: Seq<Shape>)
    requires
        built(a, objs),
        built(b, objs),
    ensures
        a == b,
    decreases objs.len(),
{
    let n = objs.len() as int;
    if n >= 3 {
        let axis = a->Node_bbox.spec_longest_axis();
        let (s1, f1) = choose|sorted: Seq<Shape>, from: Seq<int>|
            {
                &&& #[trigger] arrangement(sorted, from)
                &&& sorted.len() == n
                &&& sorted.to_multiset() == objs.to_multiset()
                &&& taken_from(objs, sorted, from)
                &&& ordered(sorted, axis)
                &&& stable(sorted, from, axis)
                &&& built(*a->left, sorted.subrange(0, n / 2))
                &&& built(*a->right, sorted.subrange(n / 2, n))
            };
        let (s2, f2) = choose|sorted: Seq<Shape>, from: Seq<int>|
            {
                &&& #[trigger] arrangement(sorted, from)
                &&& sorted.len() == n
                &&& sorted.to_multiset() == objs.to_multiset()
                &&& taken_from(objs, sorted, from)
                &&& ordered(sorted, axis)
                &&& stable(sorted, from, axis)
                &&& built(*b->left, sorted.subrange(0, n / 2))
                &&& built(*b->right, sorted.subrange(n / 2, n))
            };
        sorted_is_unique(objs, axis, s1, f1, s2, f2);
        built_is_unique(*a->left, *b->left, s1.subrange(0, n / 2));
        built_is_unique(*a->right, *b->right, s1.subrange(n / 2, n));
    }
    assert(*a->left == *b->left);
    assert(*a->right == *b->right);
}

/// The merge of a run of boxes holds every point of each of them.
pub proof fn hull_holds_members(objs: Seq<Shape>, n: int, i: int, px: int, py: int, pz: int)
    requires
        0 <= i < n <= objs.len(),
        objs[i].bbox().holds(px, py, pz),
    ensures
        hull(objs, n).holds(px, py, pz),
    decreases n,
{
    if i < n - 1 {
        hull_holds_members(objs, n - 1, i, px, py, pz);
    }
    merge_contains_both(hull(objs, n - 1), objs[n - 1].bbox(), px, py, pz);
}

/// Rearranged surfaces have rearranged models.
pub proof fn models_of_rearranged(a: Seq<Hittable>, b: Seq<Hittable>)
    requires
        a.to_multiset() == b.to_multiset(),
    ensures
        models(a).to_multiset() == models(b).to_multiset(),
        a.len() == b.len(),
    decreases a.len(),
{
    to_multiset_len(a);
    to_multiset_len(b);
    if a.len() == 0 {
        assert(models(a) =~= models(b));
    } else {
        let x = a.last();
        let a2 = a.drop_last();
        assert(a =~= a2.push(x));
        to_multiset_build(a2, x);
        to_multiset_contains(b, x);
        assert(a.to_multiset().count(x) > 0);
        let i = choose|i: int| 0 <= i < b.len() && b[i] == x;
        let b2 = b.remove(i);
        to_multiset_remove(b, i);
        assert(a2.to_multiset() =~= b2.to_multiset());
        models_of_rearranged(a2, b2);
        assert(models(a) =~= models(a2).push(x@));
        to_multiset_build(models(a2), x@);
        assert(models(b) =~= models(b2).insert(i, x@));
        to_multiset_insert(models(b2), i, x@);
    }
}

/// Sorts the surfaces from place `start` up to `end` by their keys on `axis`.
///
/// This is `slice::sort_by_key` of the standard library on that part of the
/// vector. Believed of it: the vector keeps its length, nothing outside the
/// part changes, the part holds the same surfaces as before, each taken
/// from one place of the part as it was, they stand in non-decreasing order
/// of their keys, and surfaces with equal keys keep their order (the sort
/// is stable).
#[verifier::external_body]
fn sort_range(objects: &mut Vec<Hittable>, start: usize, end: usize, axis: usize)
    requires
        start <= end <= old(objects).len(),
    ensures
        final(objects)@.len() == old(objects)@.len(),
        forall|i: int|
            0 <= i < start || end <= i < old(objects)@.len() ==> final(objects)@[i] == old(objects)@[i],
        range(final(objects)@, start, end).to_multiset() == range(old(objects)@, start, end).to_multiset(),
        ordered(models(range(final(objects)@, start, end)), axis as int),
        exists|from: Seq<int>| #[trigger]
            taken_from(range(old(objects)@, start, end), range(final(objects)@, start, end), from)
                && stable(models(range(final(objects)@, start, end)), from, axis as int),
{
    objects[start..end].sort_by_key(|h| BVHNode::sort_key(h, axis));
}

impl BVHNode {
    /// The key of a surface on `axis`: the lower end of its box there.
    pub fn sort_key(a: &Hittable, axis_index: usize) -> (r: i64)
        ensures
            r == key(a@, axis_index as int),
    {
        a.bbox().axis(axis_index).min
    }

    /// Builds the hierarchy over all surfaces of a scene, which are
    /// rearranged on the way.
    pub fn new(scene: &mut Scene) -> (r: Self)
        requires
            old(scene).objects.len() >= 1,
        ensures
            built(r@, models(old(scene).objects@)),
            final(scene).bbox == old(scene).bbox,
            final(scene).objects@.to_multiset() == old(scene).objects@.to_multiset(),
    {
        let len = scene.objects.len();
        let ghost before = scene.objects@;
        let r = Self::new_with_scene(&mut scene.objects, 0, len);
        proof {
            assert(range(before, 0, len) =~= before);
            assert(range(scene.objects@, 0, len) =~= scene.objects@);
        }
        r
    }

    /// Builds the hierarchy over the surfaces from place `start` up to `end`.
    /// Those surfaces are rearranged on the way; the others stay.
    pub fn new_with_scene(objects: &mut Vec<Hittable>, start: usize, end: usize) -> (r: Self)
        requires
            start < end <= old(objects).len(),
        ensures
            built(r@, models(range(old(objects)@, start, end))),
            final(objects)@.len() == old(objects)@.len(),
            forall|i: int|
                0 <= i < start || end <= i < old(objects)@.len() ==> final(objects)@[i] == old(
                    objects,
                )@[i],
            range(final(objects)@, start, end).to_multiset() == range(old(objects)@, start, end).to_multiset(),
        decreases end - start,
    {
        let ghost given = range(objects@, start, end);
        let mut bbox = AABB::empty();
        let mut i: usize = start;
        while i < end
            invariant
                start <= i <= end <= objects.len(),
                given == range(objects@, start, end),
                bbox == hull(models(given), i - start),
            decreases end - i,
        {
            assert(models(given)[i - start] == objects@[i as int]@);
            bbox = AABB::merge(&bbox, objects[i].bbox());
            i += 1;
        }
        let axis = bbox.longest_axis();
        let axis_index: usize = if axis == 0 { 0 } else if axis == 1 { 1 } else { 2 };
        let object_span = end - start;

        if object_span == 1 {
            assert(models(given)[0] == objects@[start as int]@);
            Self {
                left: Box::new(objects[start].duplicate()),
                right: Box::new(objects[start].duplicate()),
                bbox,
            }
        } else if object_span == 2 {
            assert(models(given)[0] == objects@[start as int]@);
            assert(models(given)[1] == objects@[start + 1]@);
            if Self::sort_key(&objects[start], axis_index) < Self::sort_key(&objects[start + 1], axis_index) {
                Self {
                    left: Box::new(objects[start].duplicate()),
                    right: Box::new(objects[start + 1].duplicate()),
                    bbox,
                }
            } else {
                Self {
                    left: Box::new(objects[start + 1].duplicate()),
                    right: Box::new(objects[start].duplicate()),
                    bbox,
                }
            }
        } else {
            sort_range(objects, start, end, axis_index);
            let ghost sorted = objects@;
            let mid = start + object_span / 2;
            let left_node = Self::new_with_scene(objects, start, mid);
            let ghost halfway = objects@;
            let right_node = Self::new_with_scene(objects, mid, end);
            let left = Box::new(Hittable::BVH(left_node));
            let right = Box::new(Hittable::BVH(right_node));
            let r = Self { left, right, bbox };
            proof {
                let n = object_span as int;
                let part = range(sorted, start, end);
                let from = choose|from: Seq<int>| #[trigger]
                    taken_from(given, part, from) && stable(models(part), from, axis_index as int);
                models_of_rearranged(part, given);
                assert(taken_from(models(given), models(part), from)) by {
                    assert forall|k: int| 0 <= k < from.len() implies 0 <= #[trigger] from[k] < models(
                        given,
                    ).len() && models(part)[k] == models(given)[from[k]] by {
                        assert(part[k] == given[from[k]]);
                    }
                }
                assert(range(halfway, mid, end) =~= range(sorted, mid, end));
                assert(range(objects@, start, mid) =~= range(halfway, start, mid));
                assert(built(r@, models(given))) by {
                    assert(models(range(sorted, start, mid)) =~= models(part).subrange(0, n / 2));
                    assert(models(range(sorted, mid, end)) =~= models(part).subrange(n / 2, n));
                    assert(*r@->left == left_node@);
                    assert(*r@->right == right_node@);
                    built_from_halves(r@, models(given), models(part), from);
                }
                assert(range(objects@, start, end).to_multiset() == given.to_multiset()) by {
                    assert(range(objects@, start, end) =~= range(objects@, start, mid) + range(
                        objects@,
                        mid,
                        end,
                    ));
                    lemma_multiset_commutative(range(objects@, start, mid), range(objects@, mid, end));
                    assert(part =~= range(sorted, start, mid) + range(sorted, mid, end));
                    lemma_multiset_commutative(range(sorted, start, mid), range(sorted, mid, end));
                }
            }
            r
        }
    }

    /// The model of this node.
    pub open spec fn view(&self) -> Shape {
        Shape::Node { bbox: self.bbox, left: Box::new(self.left@), right: Box::new(self.right@) }
    }

    /// Intersects `ray` with the subtree: nothing if the ray misses the
    /// node's box within `interval`; else the left child is asked within
    /// `interval`, the right child within what the left finding leaves of
    /// it, and the later finding counts. The box test prunes; it takes
    /// nothing from the interval that the children are asked.
    pub fn hit<P: Fn(usize, Vec3, Ray) -> Meet, H: Fn(usize, Vec3, Ray, i64) -> Touch, F: Fn(usize, Ray) -> i64>(
        &self,
        probe: &P, touch: &H,
        flight: &F,
        ray: &Ray,
        interval: &Interval,
    ) -> (r: Option<HitRecord>)
        requires
            answering(probe, touch, flight),
        ensures
            self@.hits(probe, touch, flight, *ray, *interval, r),
        decreases self,
    {
        let mut window = *interval;
        if !self.bbox.hit(ray, &mut window) {
            return None;
        }
        let mut reach = *interval;
        let mut hit_record: Option<HitRecord> = None;
        let l = self.left.hit(probe, touch, flight, ray, &reach);
        if let Some(record) = l {
            reach.max = record.t;
            hit_record = Some(record);
        }
        let r = self.right.hit(probe, touch, flight, ray, &reach);
        if let Some(record) = r {
            hit_record = Some(record);
        }
        assert(pair(l, r));
        hit_record
    }
}

} // verus!
