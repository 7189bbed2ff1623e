use pbrt_rs::aabb::AABB;
use pbrt_rs::bvh::BVHNode;
use pbrt_rs::hit::sphere::Sphere;
use pbrt_rs::hit::{Hittable, Meet, Touch};
use pbrt_rs::ray::{Ray, Vec2, Vec3};
use pbrt_rs::scene::Scene;
use pbrt_rs::util::{Interval, POS_INF};

fn ball(id: usize, x: i32, y: i32, z: i32, r: i32) -> Hittable {
    Hittable::Sphere(Sphere::new(id, Vec3::new(x, y, z), r, id))
}

fn id_of(h: &Hittable) -> usize {
    match h {
        Hittable::Sphere(s) => s.id,
        _ => panic!("a leaf that is no sphere"),
    }
}

fn node_of(h: &Hittable) -> &BVHNode {
    match h {
        Hittable::BVH(n) => n,
        _ => panic!("a child that is no node"),
    }
}

fn leaves(n: &BVHNode, out: &mut Vec<usize>) {
    for child in [&n.left, &n.right] {
        match &**child {
            Hittable::BVH(inner) => leaves(inner, out),
            other => out.push(id_of(other)),
        }
    }
}

#[test]
fn one_surface_is_both_children() {
    let mut objects = vec![ball(3, 0, 0, 0, 5)];
    let n = BVHNode::new_with_scene(&mut objects, 0, 1);
    assert_eq!(id_of(&n.left), 3);
    assert_eq!(id_of(&n.right), 3);
    assert_eq!(n.bbox, AABB::new(Vec3::new(-5, -5, -5), Vec3::new(5, 5, 5)));
    assert_eq!(objects.len(), 1);
}

#[test]
fn two_surfaces_are_ordered_along_the_longest_axis() {
    // the box is longest along y
    let mut objects = vec![ball(0, 0, 100, 0, 5), ball(1, 50, -100, 0, 5)];
    let n = BVHNode::new_with_scene(&mut objects, 0, 2);
    assert_eq!(n.bbox.longest_axis(), 1);
    assert_eq!(id_of(&n.left), 1);
    assert_eq!(id_of(&n.right), 0);
    assert_eq!(n.bbox, AABB::new(Vec3::new(-5, -105, -5), Vec3::new(55, 105, 5)));
    // the vector itself keeps its order
    assert_eq!(id_of(&objects[0]), 0);
}

#[test]
fn two_surfaces_with_equal_keys_put_the_first_on_the_right() {
    let mut objects = vec![ball(0, 0, 0, 0, 5), ball(1, 0, 0, 0, 5)];
    let n = BVHNode::new_with_scene(&mut objects, 0, 2);
    assert_eq!(id_of(&n.left), 1);
    assert_eq!(id_of(&n.right), 0);
}

#[test]
fn more_surfaces_are_sorted_and_split_in_the_middle() {
    let mut objects = vec![
        ball(0, 400, 0, 0, 5),
        ball(1, 100, 0, 0, 5),
        ball(2, 500, 0, 0, 5),
        ball(3, 200, 0, 0, 5),
        ball(4, 300, 0, 0, 5),
    ];
    let n = BVHNode::new_with_scene(&mut objects, 0, 5);
    assert_eq!(n.bbox, AABB::new(Vec3::new(95, -5, -5), Vec3::new(505, 5, 5)));
    // the vector is left sorted along x
    let order: Vec<usize> = objects.iter().map(id_of).collect();
    assert_eq!(order, vec![1, 3, 4, 0, 2]);
    // the lower two go left, the upper three right
    let left = node_of(&n.left);
    let right = node_of(&n.right);
    assert_eq!((id_of(&left.left), id_of(&left.right)), (1, 3));
    assert_eq!(left.bbox, AABB::new(Vec3::new(95, -5, -5), Vec3::new(205, 5, 5)));
    assert_eq!(right.bbox, AABB::new(Vec3::new(295, -5, -5), Vec3::new(505, 5, 5)));
    let right_left = node_of(&right.left);
    assert_eq!((id_of(&right_left.left), id_of(&right_left.right)), (4, 4));
    let right_right = node_of(&right.right);
    assert_eq!((id_of(&right_right.left), id_of(&right_right.right)), (0, 2));
}

#[test]
fn only_the_range_is_touched() {
    let mut objects = vec![
        ball(0, 900, 0, 0, 5),
        ball(1, 300, 0, 0, 5),
        ball(2, 200, 0, 0, 5),
        ball(3, 100, 0, 0, 5),
        ball(4, -900, 0, 0, 5),
    ];
    let n = BVHNode::new_with_scene(&mut objects, 1, 4);
    let order: Vec<usize> = objects.iter().map(id_of).collect();
    assert_eq!(order, vec![0, 3, 2, 1, 4]);
    let mut found = Vec::new();
    leaves(&n, &mut found);
    found.sort();
    found.dedup();
    assert_eq!(found, vec![1, 2, 3]);
    assert_eq!(n.bbox, AABB::new(Vec3::new(95, -5, -5), Vec3::new(305, 5, 5)));
}

#[test]
fn new_builds_over_the_whole_scene() {
    let mut scene = Scene::new(vec![
        ball(0, 0, 0, 400, 5),
        ball(1, 0, 0, 100, 5),
        ball(2, 0, 0, 300, 5),
    ]);
    let before = scene.bbox;
    let n = BVHNode::new(&mut scene);
    assert_eq!(n.bbox, before);
    assert_eq!(scene.bbox, before);
    assert_eq!(scene.objects.len(), 3);
    let mut found = Vec::new();
    leaves(&n, &mut found);
    found.sort();
    found.dedup();
    assert_eq!(found, vec![0, 1, 2]);
}

fn heights(id: usize, _anchor: Vec3, ray: Ray) -> Meet {
    let t = [400, 100, 300][id] - ray.origin.z as i64;
    Meet { miss: false, near: t, far: t, alpha: 0, beta: 0 }
}

fn face(_id: usize, _anchor: Vec3, ray: Ray, t: i64) -> Touch {
    Touch { p: ray.at(t), outward: Vec3::new(0, 0, -1), uv: Vec2::new(0, 0) }
}

#[test]
fn traversal_prunes_by_the_box() {
    let mut objects = vec![ball(0, 0, 0, 400, 5), ball(1, 0, 0, 100, 5), ball(2, 0, 0, 300, 5)];
    let n = BVHNode::new_with_scene(&mut objects, 0, 3);
    let asked = std::cell::RefCell::new(Vec::new());
    let spy = |id: usize, anchor: Vec3, r: Ray| {
        asked.borrow_mut().push(id);
        heights(id, anchor, r)
    };
    let beside = Ray::new(Vec3::new(50, 0, 0), Vec3::new(0, 0, 1));
    assert!(n.hit(&spy, &face, &|_, _| 0, &beside, &Interval::new(1, POS_INF)).is_none());
    assert!(asked.borrow().is_empty());
}

#[test]
fn traversal_asks_left_then_right_within_what_is_left() {
    let mut objects = vec![ball(0, 0, 0, 400, 5), ball(1, 0, 0, 100, 5), ball(2, 0, 0, 300, 5)];
    let n = BVHNode::new_with_scene(&mut objects, 0, 3);
    let asked = std::cell::RefCell::new(Vec::new());
    let spy = |id: usize, anchor: Vec3, r: Ray| {
        asked.borrow_mut().push(id);
        heights(id, anchor, r)
    };
    let up = Ray::new(Vec3::new(0, 0, 0), Vec3::new(0, 0, 1));
    let got = n.hit(&spy, &face, &|_, _| 0, &up, &Interval::new(1, POS_INF)).unwrap();
    assert_eq!(got.t, 100);
    assert_eq!(got.material, 1);
    // the left node holds surface 1 twice; after its finding at 100 the right subtree,
    // whose box starts at 295, is out of reach and is not entered
    assert_eq!(*asked.borrow(), vec![1, 1]);
    // without that finding the right subtree is entered
    asked.borrow_mut().clear();
    let got = n.hit(&spy, &face, &|_, _| 0, &up, &Interval::new(100, POS_INF)).unwrap();
    assert_eq!(got.t, 300);
    assert_eq!(*asked.borrow(), vec![1, 1, 2, 0]);
}

/// The roots of a sphere for a ray along x.
fn along_x(radius: i32) -> impl Fn(usize, Vec3, Ray) -> Meet {
    move |_id, anchor, ray| Meet {
        miss: (ray.origin.y - anchor.y).abs() > radius || (ray.origin.z - anchor.z).abs() > radius,
        near: (anchor.x - radius - ray.origin.x) as i64,
        far: (anchor.x + radius - ray.origin.x) as i64,
        alpha: 0,
        beta: 0,
    }
}

#[test]
fn a_finding_where_the_ray_enters_the_box_is_not_lost() {
    // the sphere touches its box where the ray enters it
    let mut objects = vec![ball(0, 0, 0, 0, 1)];
    let scan = Scene::new(vec![ball(0, 0, 0, 0, 1)]);
    let tree = BVHNode::new_with_scene(&mut objects, 0, 1);
    let ray = Ray::new(Vec3::new(-5, 0, 0), Vec3::new(1, 0, 0));
    let iv = Interval::new(1, POS_INF);
    let by_scan = scan.hit(&along_x(1), &face, &|_, _| 0, &ray, &iv).unwrap();
    let by_tree = tree.hit(&along_x(1), &face, &|_, _| 0, &ray, &iv).unwrap();
    assert_eq!(by_scan.t, 4);
    assert_eq!(by_tree, by_scan);
    assert_eq!(by_tree.p, Vec3::new(-1, 0, 0));
}

#[test]
fn the_near_side_of_the_first_sphere_is_found_before_its_far_side() {
    let mut objects = vec![ball(0, 0, 0, 0, 1), ball(1, 4, 0, 0, 1)];
    let tree = BVHNode::new_with_scene(&mut objects, 0, 2);
    let scan = Scene::new(vec![ball(0, 0, 0, 0, 1), ball(1, 4, 0, 0, 1)]);
    let ray = Ray::new(Vec3::new(-5, 0, 0), Vec3::new(1, 0, 0));
    let iv = Interval::new(1, POS_INF);
    let by_tree = tree.hit(&along_x(1), &face, &|_, _| 0, &ray, &iv).unwrap();
    assert_eq!((by_tree.t, by_tree.material), (4, 0));
    assert_eq!(scan.hit(&along_x(1), &face, &|_, _| 0, &ray, &iv).unwrap(), by_tree);
    // the caller's interval is left as it was
    assert_eq!(iv, Interval::new(1, POS_INF));
}

struct Lcg(u64);

impl Lcg {
    fn next(&mut self, below: i64) -> i64 {
        self.0 = self.0.wrapping_mul(6364136223846793005).wrapping_add(1442695040888963407);
        ((self.0 >> 33) % below as u64) as i64
    }
}

/// The roots of the spheres of the comparison, in floating point, rounded to whole
/// parameters.
fn sphere_roots(spheres: Vec<(Vec3, i32)>) -> impl Fn(usize, Vec3, Ray) -> Meet {
    move |id, anchor, ray| {
        let radius = spheres[id].1 as f64;
        let oc = [
            (anchor.x - ray.origin.x) as f64,
            (anchor.y - ray.origin.y) as f64,
            (anchor.z - ray.origin.z) as f64,
        ];
        let d = [ray.direction.x as f64, ray.direction.y as f64, ray.direction.z as f64];
        let a = d[0] * d[0] + d[1] * d[1] + d[2] * d[2];
        let h = d[0] * oc[0] + d[1] * oc[1] + d[2] * oc[2];
        let cc = oc[0] * oc[0] + oc[1] * oc[1] + oc[2] * oc[2] - radius * radius;
        let disc = h * h - a * cc;
        if disc < 0.0 {
            return Meet { miss: true, near: 0, far: 0, alpha: 0, beta: 0 };
        }
        Meet {
            miss: false,
            near: ((h - disc.sqrt()) / a).ceil() as i64,
            far: ((h + disc.sqrt()) / a).floor() as i64,
            alpha: 0,
            beta: 0,
        }
    }
}

#[test]
fn traversal_agrees_with_the_linear_scan() {
    let mut rng = Lcg(2024);
    let mut spheres = Vec::new();
    let mut objects = Vec::new();
    for id in 0..60 {
        let c = Vec3::new(
            (rng.next(100_000) - 50_000) as i32,
            (rng.next(100_000) - 50_000) as i32,
            (rng.next(100_000) - 50_000) as i32,
        );
        let r = (500 + rng.next(6000)) as i32;
        spheres.push((c, r));
        objects.push(Hittable::Sphere(Sphere::new(id, c, r, id)));
    }
    let scan = Scene::new(objects.iter().map(|o| o.duplicate()).collect());
    let tree = BVHNode::new_with_scene(&mut objects, 0, 60);
    let probe = sphere_roots(spheres);
    let mut hits = 0;
    for _ in 0..400 {
        let origin = Vec3::new(
            (rng.next(120_000) - 60_000) as i32,
            (rng.next(120_000) - 60_000) as i32,
            (rng.next(120_000) - 60_000) as i32,
        );
        let mut direction = Vec3::new(0, 0, 0);
        while direction == Vec3::new(0, 0, 0) {
            direction = Vec3::new(
                (rng.next(61) - 30) as i32,
                (rng.next(61) - 30) as i32,
                (rng.next(61) - 30) as i32,
            );
        }
        let ray = Ray::new(origin, direction);
        let iv = Interval::new(1, POS_INF);
        let by_tree = tree.hit(&probe, &face, &|_, _| 0, &ray, &iv);
        let by_scan = scan.hit(&probe, &face, &|_, _| 0, &ray, &iv);
        assert_eq!(by_tree.map(|h| h.t), by_scan.map(|h| h.t));
        if by_scan.is_some() {
            hits += 1;
        }
    }
    assert!(hits > 20);
}

#[test]
fn traversal_agrees_with_the_scan_for_rays_along_the_axes() {
    let mut rng = Lcg(7);
    let mut spheres = Vec::new();
    let mut objects = Vec::new();
    for id in 0..40 {
        let c = Vec3::new(
            (rng.next(20_000) - 10_000) as i32,
            (rng.next(20_000) - 10_000) as i32,
            (rng.next(20_000) - 10_000) as i32,
        );
        let r = (1000 + rng.next(3000)) as i32;
        spheres.push((c, r));
        objects.push(Hittable::Sphere(Sphere::new(id, c, r, id)));
    }
    let scan = Scene::new(objects.iter().map(|o| o.duplicate()).collect());
    let tree = BVHNode::new_with_scene(&mut objects, 0, 40);
    let probe = sphere_roots(spheres);
    let mut hits = 0;
    for k in 0..300 {
        let origin = Vec3::new(
            (rng.next(20_000) - 10_000) as i32,
            (rng.next(20_000) - 10_000) as i32,
            (rng.next(20_000) - 10_000) as i32,
        );
        let step = if k % 2 == 0 { 8 } else { -8 };
        let direction = match k % 3 {
            0 => Vec3::new(step, 0, 0),
            1 => Vec3::new(0, step, 0),
            _ => Vec3::new(0, 0, step),
        };
        let ray = Ray::new(origin, direction);
        let iv = Interval::new(1, POS_INF);
        let by_tree = tree.hit(&probe, &face, &|_, _| 0, &ray, &iv);
        let by_scan = scan.hit(&probe, &face, &|_, _| 0, &ray, &iv);
        assert_eq!(by_tree.map(|h| h.t), by_scan.map(|h| h.t));
        if by_scan.is_some() {
            hits += 1;
        }
    }
    assert!(hits > 20);
}

#[test]
fn surfaces_with_equal_keys_keep_their_order() {
    let mut objects = vec![
        ball(0, 0, 0, 0, 5),
        ball(1, 0, 0, 0, 5),
        ball(4, -100, 0, 0, 5),
        ball(2, 0, 0, 0, 5),
        ball(3, 0, 0, 0, 5),
    ];
    let n = BVHNode::new_with_scene(&mut objects, 0, 5);
    assert_eq!(n.bbox.longest_axis(), 0);
    let order: Vec<usize> = objects.iter().map(id_of).collect();
    assert_eq!(order, vec![4, 0, 1, 2, 3]);
    let left = node_of(&n.left);
    assert_eq!((id_of(&left.left), id_of(&left.right)), (4, 0));
    let right = node_of(&n.right);
    let right_left = node_of(&right.left);
    assert_eq!((id_of(&right_left.left), id_of(&right_left.right)), (1, 1));
    // of two with equal keys the first is the right child
    let right_right = node_of(&right.right);
    assert_eq!((id_of(&right_right.left), id_of(&right_right.right)), (3, 2));
}

#[test]
fn each_half_is_sorted_along_its_own_longest_axis() {
    let mut objects = vec![
        ball(0, 0, 3, 0, 5),
        ball(1, 0, 1, 0, 5),
        ball(4, -100, 0, 0, 5),
        ball(2, 0, 2, 0, 5),
        ball(3, 0, 0, 0, 5),
    ];
    let n = BVHNode::new_with_scene(&mut objects, 0, 5);
    assert_eq!(n.bbox.longest_axis(), 0);
    // along x the four at zero keep their order behind the one at -100; the upper three are
    // then sorted along y
    let order: Vec<usize> = objects.iter().map(id_of).collect();
    assert_eq!(order, vec![4, 0, 3, 1, 2]);
    let left = node_of(&n.left);
    assert_eq!((id_of(&left.left), id_of(&left.right)), (4, 0));
    assert_eq!(node_of(&n.right).bbox.longest_axis(), 1);
}
