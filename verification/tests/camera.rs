use pbrt_rs::camera::{color_to_rgb, isqrt, linear_to_gamma, tint, weigh, Camera, SHADOW_EPSILON};
use pbrt_rs::hit::sphere::Sphere;
use pbrt_rs::hit::{HitRecord, Hittable, Meet, Touch};
use pbrt_rs::material::{Dielectric, DiffuseLight, Lambertian, Look, Material, Metal};
use pbrt_rs::pdf::Lobe;
use pbrt_rs::ray::{Ray, Vec2, Vec3};
use pbrt_rs::scene::Scene;
use pbrt_rs::texture::Texel;
use pbrt_rs::util::{Interval, POS_INF, UNIT};

#[test]
fn isqrt_rounds_down() {
    assert_eq!(isqrt(0), 0);
    assert_eq!(isqrt(1), 1);
    assert_eq!(isqrt(3), 1);
    assert_eq!(isqrt(4), 2);
    assert_eq!(isqrt(10), 3);
    assert_eq!(isqrt(99), 9);
    assert_eq!(isqrt(100), 10);
    assert_eq!(isqrt(u64::MAX), 4294967295);
    assert_eq!(isqrt(4294967295 * 4294967295), 4294967295);
    assert_eq!(isqrt(4294967295 * 4294967295 - 1), 4294967294);
}

#[test]
fn gamma_is_the_square_root() {
    assert_eq!(linear_to_gamma(UNIT), UNIT as i64);
    assert_eq!(linear_to_gamma(UNIT / 4), (UNIT / 2) as i64);
    assert_eq!(linear_to_gamma(4 * UNIT), 2 * UNIT as i64);
    assert_eq!(linear_to_gamma(0), 0);
    assert_eq!(linear_to_gamma(-5), 0);
    assert_eq!(linear_to_gamma(1), 256);
}

#[test]
fn color_to_rgb_scales_corrects_and_clamps() {
    // a mean of one quarter has the square root one half: level 128
    assert_eq!(color_to_rgb(Vec3::new(UNIT / 4, 0, UNIT), 1), (128, 0, 255));
    // ten samples that add up to ten quarters
    assert_eq!(color_to_rgb(Vec3::new(10 * UNIT / 4, 0, 10 * UNIT), 10), (128, 0, 255));
    // far too bright, and negative
    assert_eq!(color_to_rgb(Vec3::new(i32::MAX, -1, i32::MIN), 1), (255, 0, 0));
    assert_eq!(color_to_rgb(Vec3::new(UNIT / 16, UNIT / 64, 1), 1), (64, 32, 1));
}

#[test]
fn tint_multiplies_channels() {
    let half = Vec3::new(UNIT / 2, UNIT, 0);
    assert_eq!(tint(&half, &Vec3::new(UNIT, UNIT / 4, UNIT)), Vec3::new(UNIT / 2, UNIT / 4, 0));
    assert_eq!(tint(&Vec3::new(3, -3, 1), &Vec3::new(UNIT / 2, UNIT / 2, 1)), Vec3::new(1, -2, 0));
    assert_eq!(
        tint(&Vec3::new(i32::MAX, i32::MIN, 0), &Vec3::new(i32::MAX, i32::MAX, 0)),
        Vec3::new(i32::MAX, i32::MIN, 0)
    );
}

#[test]
fn weigh_divides_by_the_sampling_density() {
    let c = Vec3::new(100, -100, 7);
    assert_eq!(weigh(&c, 3, 2), Vec3::new(150, -150, 10));
    assert_eq!(weigh(&c, 1, 3), Vec3::new(33, -34, 2));
    assert_eq!(weigh(&c, 0, 5), Vec3::new(0, 0, 0));
}

#[test]
fn weigh_gives_nothing_for_a_density_that_is_not_positive() {
    let c = Vec3::new(100, -100, 7);
    assert_eq!(weigh(&c, 3, 0), Vec3::new(0, 0, 0));
    assert_eq!(weigh(&c, 3, -2), Vec3::new(0, 0, 0));
}

#[test]
fn default_camera() {
    let c = Camera::default();
    assert_eq!(c.aspect_ratio, UNIT);
    assert_eq!(c.image_width, 100);
    assert_eq!(c.samples_per_pixel, 10);
    assert_eq!(c.max_depth, 10);
    assert_eq!(c.background, Vec3::new(0, 0, 0));
    assert_eq!(c.sqrt_spp, 3);
}

#[test]
fn initialize_derives_height_and_sample_side() {
    let mut c = Camera::default();
    c.image_width = 400;
    c.aspect_ratio = UNIT;
    c.samples_per_pixel = 50;
    c.initialize();
    assert_eq!(c.image_height, 400);
    assert_eq!(c.sqrt_spp, 7);
    c.aspect_ratio = 16 * UNIT / 9;
    c.initialize();
    assert_eq!(c.image_height, 225);
    c.aspect_ratio = 1000 * UNIT;
    c.initialize();
    assert_eq!(c.image_height, 1);
    c.image_width = 0;
    c.initialize();
    assert_eq!(c.image_height, 1);
}

#[test]
fn render_yields_width_times_height_pixels() {
    let mut c = Camera::default();
    c.image_width = 400;
    c.aspect_ratio = UNIT;
    c.samples_per_pixel = 1;
    let calls = std::cell::Cell::new(0usize);
    let shade = |i: usize, j: usize, _si: usize, _sj: usize| {
        calls.set(calls.get() + 1);
        Vec3::new((i as i32) * UNIT / 400, (j as i32) * UNIT / 400, UNIT / 4)
    };
    let image = c.render(&shade);
    assert_eq!(c.image_width, 400);
    assert_eq!(c.image_height, 400);
    assert_eq!(image.len(), 400 * 400);
    assert_eq!(calls.get(), 400 * 400);
    // row by row
    assert_eq!(image[0], (0, 0, 128));
    assert_eq!(image[399], (255, 0, 128));
    assert_eq!(image[100], (128, 0, 128));
    assert_eq!(image[100 * 400], (0, 128, 128));
    assert_eq!(image[399 * 400 + 399], (255, 255, 128));
}

#[test]
fn pixel_sums_the_square_of_samples() {
    let mut c = Camera::default();
    c.samples_per_pixel = 4;
    c.initialize();
    assert_eq!(c.sqrt_spp, 2);
    let asked = std::cell::RefCell::new(Vec::new());
    let shade = |i: usize, j: usize, si: usize, sj: usize| {
        asked.borrow_mut().push((i, j, si, sj));
        Vec3::new(UNIT / 4, UNIT, 0)
    };
    assert_eq!(c.pixel(3, 5, &shade), (128, 255, 0));
    assert_eq!(*asked.borrow(), vec![(3, 5, 0, 0), (3, 5, 1, 0), (3, 5, 0, 1), (3, 5, 1, 1)]);
}

#[test]
fn pixel_divides_by_the_number_of_samples_not_by_the_square() {
    let mut c = Camera::default();
    c.samples_per_pixel = 10;
    c.initialize();
    assert_eq!(c.sqrt_spp, 3);
    let count = std::cell::Cell::new(0);
    let shade = |_: usize, _: usize, _: usize, _: usize| {
        count.set(count.get() + 1);
        Vec3::new(10 * UNIT / 36, 0, 0)
    };
    // nine samples of 10/36 add up to 2.5; over ten samples that is a quarter
    let (r, _, _) = c.pixel(0, 0, &shade);
    assert_eq!(count.get(), 9);
    assert!((127..=128).contains(&r));
}

fn sphere_world() -> Hittable {
    Hittable::PrefabScene(Scene::new(vec![
        Hittable::Sphere(Sphere::new(0, Vec3::new(0, 0, 100), 10, 0)),
        Hittable::Sphere(Sphere::new(1, Vec3::new(0, 0, 200), 10, 1)),
    ]))
}

fn lights() -> Hittable {
    Hittable::PrefabScene(Scene::new(vec![Hittable::Sphere(Sphere::new(
        1,
        Vec3::new(0, 0, 200),
        10,
        1,
    ))]))
}

fn miss() -> Meet {
    Meet { miss: true, near: 0, far: 0, alpha: 0, beta: 0 }
}

/// Surface `id` is crossed once, at the parameter `100 * (id + 1)`, whatever the ray.
fn probe(id: usize, _anchor: Vec3, _ray: Ray) -> Meet {
    let t = 100 * (id as i64 + 1);
    Meet { miss: false, near: t, far: t, alpha: 0, beta: 0 }
}

/// The surface at a crossing faces down, against a ray that climbs.
fn touch(_id: usize, _anchor: Vec3, _ray: Ray, t: i64) -> Touch {
    Touch { p: Vec3::new(0, 0, t as i32), outward: Vec3::new(0, 0, -UNIT), uv: Vec2::new(0, 0) }
}

fn no_flight(_: usize, _: Ray) -> i64 {
    0
}

fn no_texel(_: Texel) -> Vec3 {
    panic!("no texture data is due")
}

fn no_optics(_: Ray, _: HitRecord) -> Look {
    panic!("no optics are due")
}

fn no_sample(_: Lobe) -> Vec3 {
    panic!("no sample is due")
}

fn no_density(_: Lobe, _: Vec3) -> i64 {
    panic!("no density is due")
}

fn camera(background: Vec3) -> Camera {
    let mut c = Camera::default();
    c.background = background;
    c
}

#[test]
fn depth_zero_is_black() {
    let c = camera(Vec3::new(5, 6, 7));
    let materials = vec![
        Material::DiffuseLight(DiffuseLight::new_with_color(Vec3::new(UNIT, UNIT, UNIT))),
        Material::Diffuse(Lambertian::new_with_color(Vec3::new(UNIT, UNIT, UNIT))),
    ];
    let nothing = |_: usize, _: Vec3, _: Ray| -> Meet { panic!("no surface is due") };
    let ray = Ray::new(Vec3::new(0, 0, 0), Vec3::new(0, 0, 1));
    let got = c.ray_color(
        &ray, 0, &sphere_world(), &lights(), &materials, &nothing, &touch, &no_flight, &no_texel, &no_optics,
        &no_sample, &no_density,
    );
    assert_eq!(got, Vec3::new(0, 0, 0));
}

#[test]
fn a_miss_sees_the_background() {
    let c = camera(Vec3::new(5, 6, 7));
    let materials: Vec<Material> = vec![];
    let nothing = |_: usize, _: Vec3, _: Ray| miss();
    let ray = Ray::new(Vec3::new(0, 0, 0), Vec3::new(0, 0, 1));
    let got = c.ray_color(
        &ray, 3, &sphere_world(), &lights(), &materials, &nothing, &touch, &no_flight, &no_texel, &no_optics,
        &no_sample, &no_density,
    );
    assert_eq!(got, Vec3::new(5, 6, 7));
}

#[test]
fn a_surface_at_the_shadow_epsilon_is_not_seen() {
    let c = camera(Vec3::new(5, 6, 7));
    let materials = vec![
        Material::DiffuseLight(DiffuseLight::new_with_color(Vec3::new(UNIT, UNIT, 3))),
        Material::DiffuseLight(DiffuseLight::new_with_color(Vec3::new(UNIT, UNIT, 3))),
    ];
    let ray = Ray::new(Vec3::new(0, 0, 0), Vec3::new(0, 0, 1));
    let at = |t: i64| move |_: usize, _: Vec3, _: Ray| Meet { miss: false, near: t, far: t, alpha: 0, beta: 0 };
    let got = c.ray_color(
        &ray, 3, &sphere_world(), &lights(), &materials, &at(SHADOW_EPSILON), &touch, &no_flight,
        &no_texel, &no_optics, &no_sample, &no_density,
    );
    assert_eq!(got, Vec3::new(5, 6, 7));
    let got = c.ray_color(
        &ray, 3, &sphere_world(), &lights(), &materials, &at(SHADOW_EPSILON + 1), &touch,
        &no_flight, &no_texel, &no_optics, &no_sample, &no_density,
    );
    assert_eq!(got, Vec3::new(UNIT, UNIT, 3));
    assert_eq!(Interval::new(SHADOW_EPSILON, POS_INF).min, 1);
}

#[test]
fn a_light_ends_the_path_with_its_emission() {
    let c = camera(Vec3::new(5, 6, 7));
    let materials = vec![
        Material::DiffuseLight(DiffuseLight::new_with_color(Vec3::new(15 * UNIT, UNIT, 3))),
        Material::Diffuse(Lambertian::new_with_color(Vec3::new(UNIT, UNIT, UNIT))),
    ];
    let ray = Ray::new(Vec3::new(0, 0, 0), Vec3::new(0, 0, 1));
    let got = c.ray_color(
        &ray, 3, &sphere_world(), &lights(), &materials, &probe, &touch, &no_flight, &no_texel, &no_optics,
        &no_sample, &no_density,
    );
    assert_eq!(got, Vec3::new(15 * UNIT, UNIT, 3));
}

#[test]
fn a_light_seen_from_behind_is_dark() {
    let c = camera(Vec3::new(5, 6, 7));
    let materials = vec![Material::DiffuseLight(DiffuseLight::new_with_color(Vec3::new(UNIT, UNIT, 3)))];
    let behind = |_: usize, _: Vec3, _: Ray, t: i64| Touch {
        p: Vec3::new(0, 0, t as i32),
        outward: Vec3::new(0, 0, UNIT),
        uv: Vec2::new(0, 0),
    };
    let ray = Ray::new(Vec3::new(0, 0, 0), Vec3::new(0, 0, 1));
    let got = c.ray_color(
        &ray, 3, &sphere_world(), &lights(), &materials, &probe, &behind, &no_flight, &no_texel,
        &no_optics, &no_sample, &no_density,
    );
    assert_eq!(got, Vec3::new(0, 0, 0));
}

#[test]
fn a_mirror_follows_one_ray_and_filters_what_comes_back() {
    let c = camera(Vec3::new(UNIT, UNIT / 2, 0));
    let materials = vec![Material::Metal(Metal::new(Vec3::new(UNIT / 2, UNIT / 2, UNIT / 2), 0))];
    // the first ray meets the mirror; the mirrored ray leaves the scene
    let first = |id: usize, anchor: Vec3, ray: Ray| {
        if ray.direction.z > 0 && id == 0 {
            probe(id, anchor, ray)
        } else {
            miss()
        }
    };
    let optics = |_: Ray, _: HitRecord| Look {
        reflected: Vec3::new(0, 0, -1),
        refracted: Vec3::new(0, 0, 1),
        cannot_refract: false,
        reflectance: 0,
        draw: 0,
    };
    let ray = Ray::new(Vec3::new(0, 0, 0), Vec3::new(0, 0, 1));
    let got = c.ray_color(
        &ray, 2, &sphere_world(), &lights(), &materials, &first, &touch, &no_flight, &no_texel, &optics,
        &no_sample, &no_density,
    );
    assert_eq!(got, Vec3::new(UNIT / 2, UNIT / 4, 0));
    // with one bounce left the mirrored ray is not followed
    let got = c.ray_color(
        &ray, 1, &sphere_world(), &lights(), &materials, &first, &touch, &no_flight, &no_texel, &optics,
        &no_sample, &no_density,
    );
    assert_eq!(got, Vec3::new(0, 0, 0));
}

#[test]
fn glass_follows_the_refracted_ray_unless_it_reflects() {
    let c = camera(Vec3::new(UNIT, UNIT / 2, 0));
    let materials = vec![Material::Dielectric(Dielectric::new(3 * UNIT / 2))];
    let followed = std::cell::RefCell::new(Vec::new());
    let first = |id: usize, anchor: Vec3, ray: Ray| {
        followed.borrow_mut().push(ray);
        if ray.origin == Vec3::new(0, 0, 0) && id == 0 {
            probe(id, anchor, ray)
        } else {
            miss()
        }
    };
    let look = |reflectance: i32, draw: i32, cannot: bool| {
        move |_: Ray, _: HitRecord| Look {
            reflected: Vec3::new(0, 0, -1),
            refracted: Vec3::new(0, 1, 1),
            cannot_refract: cannot,
            reflectance,
            draw,
        }
    };
    let ray = Ray::new_with_time(Vec3::new(0, 0, 0), Vec3::new(0, 0, 1), 77);
    for (reflectance, draw, cannot, expected) in [
        (10, 20, false, Vec3::new(0, 1, 1)),
        (20, 20, false, Vec3::new(0, 1, 1)),
        (21, 20, false, Vec3::new(0, 0, -1)),
        (0, 20, true, Vec3::new(0, 0, -1)),
    ] {
        followed.borrow_mut().clear();
        let got = c.ray_color(
            &ray, 2, &sphere_world(), &lights(), &materials, &first, &touch, &no_flight, &no_texel,
            &look(reflectance, draw, cannot), &no_sample, &no_density,
        );
        // nothing is lost in glass
        assert_eq!(got, Vec3::new(UNIT, UNIT / 2, 0));
        let last = *followed.borrow().last().unwrap();
        assert_eq!(last, Ray::new_with_time(Vec3::new(0, 0, 100), expected, 77));
    }
}

#[test]
fn a_diffuse_surface_weighs_by_scattering_over_sampling_density() {
    let c = camera(Vec3::new(UNIT, UNIT, UNIT));
    let materials = vec![
        Material::Diffuse(Lambertian::new_with_color(Vec3::new(UNIT / 2, UNIT, 0))),
        Material::DiffuseLight(DiffuseLight::new_with_color(Vec3::new(8 * UNIT, 8 * UNIT, 8 * UNIT))),
    ];
    // the first ray meets the diffuse surface 0, the scattered ray the light 1
    let scene = |id: usize, anchor: Vec3, ray: Ray| {
        if ray.origin == Vec3::new(0, 0, 0) {
            if id == 0 { probe(id, anchor, ray) } else { miss() }
        } else if id == 1 {
            probe(id, anchor, ray)
        } else {
            miss()
        }
    };
    let sample = |_: Lobe| Vec3::new(0, 0, 9);
    // the cosine lobe weighs 300, the light 100: the mixture weighs 200
    let density = |lobe: Lobe, d: Vec3| {
        assert_eq!(d, Vec3::new(0, 0, 9));
        match lobe {
            Lobe::Cosine(w) => {
                assert_eq!(w, Vec3::new(0, 0, -UNIT));
                300
            }
            Lobe::Surface(1, origin) => {
                assert_eq!(origin, Vec3::new(0, 0, 100));
                100
            }
            _ => panic!("an unexpected lobe"),
        }
    };
    let ray = Ray::new(Vec3::new(0, 0, 0), Vec3::new(0, 0, 1));
    let got = c.ray_color(
        &ray, 2, &sphere_world(), &lights(), &materials, &scene, &touch, &no_flight, &no_texel, &no_optics,
        &sample, &density,
    );
    // incoming 8; filtered by (1/2, 1, 0) gives (4, 8, 0); times 300 over 200
    assert_eq!(got, Vec3::new(6 * UNIT, 12 * UNIT, 0));
}

#[test]
fn a_sampling_density_of_zero_contributes_nothing() {
    let c = camera(Vec3::new(UNIT, UNIT, UNIT));
    let materials = vec![
        Material::Diffuse(Lambertian::new_with_color(Vec3::new(UNIT / 2, UNIT, 0))),
        Material::DiffuseLight(DiffuseLight::new_with_color(Vec3::new(8 * UNIT, 8 * UNIT, 8 * UNIT))),
    ];
    let scene = |id: usize, anchor: Vec3, ray: Ray| {
        if ray.origin == Vec3::new(0, 0, 0) && id == 0 { probe(id, anchor, ray) } else { miss() }
    };
    let sample = |_: Lobe| Vec3::new(0, 0, 9);
    let density = |_: Lobe, _: Vec3| 0i64;
    let ray = Ray::new(Vec3::new(0, 0, 0), Vec3::new(0, 0, 1));
    let got = c.ray_color(
        &ray, 5, &sphere_world(), &lights(), &materials, &scene, &touch, &no_flight, &no_texel, &no_optics,
        &sample, &density,
    );
    assert_eq!(got, Vec3::new(0, 0, 0));
}

#[test]
fn the_path_ends_after_max_depth_bounces() {
    let c = camera(Vec3::new(UNIT, UNIT, UNIT));
    let materials = vec![Material::Metal(Metal::new(Vec3::new(UNIT, UNIT, UNIT), 0))];
    let count = std::cell::Cell::new(0);
    let always = |id: usize, anchor: Vec3, ray: Ray| {
        if id == 0 {
            count.set(count.get() + 1);
            probe(id, anchor, ray)
        } else {
            miss()
        }
    };
    // each ray is thrown straight back
    let optics = |ray: Ray, _: HitRecord| Look {
        reflected: ray.direction.negated(),
        refracted: ray.direction,
        cannot_refract: false,
        reflectance: 0,
        draw: 0,
    };
    let ray = Ray::new(Vec3::new(0, 0, 0), Vec3::new(0, 0, 1));
    let got = c.ray_color(
        &ray, 6, &sphere_world(), &lights(), &materials, &always, &touch, &no_flight, &no_texel, &optics,
        &no_sample, &no_density,
    );
    assert_eq!(got, Vec3::new(0, 0, 0));
    assert_eq!(count.get(), 6);
}
