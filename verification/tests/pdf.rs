use pbrt_rs::hit::sphere::Sphere;
use pbrt_rs::hit::Hittable;
use pbrt_rs::pdf::{
    CosinePdf, HittablePdf, Lobe, MixturePdf, NonePDF, SpherePdf, PDF, UNIFORM_DENSITY,
};
use pbrt_rs::ray::Vec3;
use pbrt_rs::scene::Scene;
use pbrt_rs::util::UNIT;

fn no_density(_: Lobe, _: Vec3) -> i64 {
    panic!("no density is due")
}

fn no_sample(_: Lobe) -> Vec3 {
    panic!("no sample is due")
}

#[test]
fn none_pdf_is_zero() {
    assert_eq!(NonePDF.value(Vec3::new(1, 2, 3)), 0);
    assert_eq!(NonePDF.generate(), Vec3::new(UNIT, 0, 0));
    assert_eq!(PDF::Zero(NonePDF).value(&Vec3::new(1, 2, 3), &no_density), 0);
    assert_eq!(PDF::Zero(NonePDF).generate(&no_sample), Vec3::new(UNIT, 0, 0));
}

#[test]
fn sphere_pdf_is_one_over_four_pi() {
    assert_eq!(SpherePdf.value(Vec3::new(1, 2, 3)), UNIFORM_DENSITY);
    let exact = UNIT as f64 / (4.0 * std::f64::consts::PI);
    assert!((UNIFORM_DENSITY as f64 - exact).abs() < 1.0);
    let sample = |lobe: Lobe| {
        assert_eq!(lobe, Lobe::Sphere);
        Vec3::new(1, 2, 3)
    };
    assert_eq!(SpherePdf.generate(&sample), Vec3::new(1, 2, 3));
    assert_eq!(PDF::Sphere(SpherePdf).value(&Vec3::new(0, 0, 1), &no_density), UNIFORM_DENSITY);
}

#[test]
fn cosine_pdf_is_never_negative() {
    let c = CosinePdf::new(Vec3::new(0, UNIT, 0));
    let density = |lobe: Lobe, d: Vec3| {
        assert_eq!(lobe, Lobe::Cosine(Vec3::new(0, UNIT, 0)));
        d.y as i64
    };
    assert_eq!(c.value(Vec3::new(0, 77, 0), &density), 77);
    assert_eq!(c.value(Vec3::new(0, -77, 0), &density), 0);
    assert_eq!(c.value(Vec3::new(0, 0, 0), &density), 0);
    let sample = |lobe: Lobe| match lobe {
        Lobe::Cosine(w) => w,
        _ => panic!("an unexpected lobe"),
    };
    assert_eq!(c.generate(&sample), Vec3::new(0, UNIT, 0));
}

fn lamp() -> Hittable {
    Hittable::PrefabScene(Scene::new(vec![
        Hittable::Sphere(Sphere::new(4, Vec3::new(0, 100, 0), 5, 0)),
        Hittable::Sphere(Sphere::new(5, Vec3::new(0, 200, 0), 5, 0)),
    ]))
}

#[test]
fn hittable_pdf_asks_the_surfaces_from_its_origin() {
    let lights = lamp();
    let h = HittablePdf::new(&lights, Vec3::new(1, 1, 1));
    let density = |lobe: Lobe, _: Vec3| match lobe {
        Lobe::Surface(id, origin) => {
            assert_eq!(origin, Vec3::new(1, 1, 1));
            id as i64 * 10
        }
        _ => panic!("an unexpected lobe"),
    };
    assert_eq!(h.value(&Vec3::new(0, 1, 0), &density), 45);
    let sample = |lobe: Lobe| match lobe {
        Lobe::Surface(id, origin) => {
            assert_eq!(origin, Vec3::new(1, 1, 1));
            Vec3::new(id as i32, 0, 0)
        }
        _ => panic!("an unexpected lobe"),
    };
    let v = h.generate(&sample);
    assert!(v == Vec3::new(4, 0, 0) || v == Vec3::new(5, 0, 0));
}

#[test]
fn mixture_value_is_the_average() {
    let lights = lamp();
    let density = |lobe: Lobe, _: Vec3| match lobe {
        Lobe::Surface(id, _) => id as i64 * 10,
        Lobe::Cosine(_) => 101,
        Lobe::Sphere => panic!("an unexpected lobe"),
    };
    let m = MixturePdf::new(
        PDF::Hittable(Box::new(HittablePdf::new(&lights, Vec3::new(0, 0, 0)))),
        PDF::Cosine(CosinePdf::new(Vec3::new(0, UNIT, 0))),
    );
    // (45 + 101) / 2
    assert_eq!(m.value(&Vec3::new(0, 1, 0), &density), 73);
    let with_zero = MixturePdf::new(PDF::Zero(NonePDF), PDF::Sphere(SpherePdf));
    assert_eq!(with_zero.value(&Vec3::new(0, 1, 0), &density), UNIFORM_DENSITY / 2);
    let nested = PDF::Mixture(Box::new(MixturePdf::new(
        PDF::Mixture(Box::new(with_zero)),
        PDF::Cosine(CosinePdf::new(Vec3::new(0, UNIT, 0))),
    )));
    assert_eq!(nested.value(&Vec3::new(0, 1, 0), &density), (UNIFORM_DENSITY / 2 + 101) / 2);
}

#[test]
fn mixture_average_rounds_toward_zero() {
    let odd = |lobe: Lobe, _: Vec3| match lobe {
        Lobe::Cosine(w) => w.x as i64,
        _ => panic!("an unexpected lobe"),
    };
    let m = MixturePdf::new(
        PDF::Cosine(CosinePdf::new(Vec3::new(3, 0, 0))),
        PDF::Cosine(CosinePdf::new(Vec3::new(4, 0, 0))),
    );
    assert_eq!(m.value(&Vec3::new(0, 1, 0), &odd), 3);
}

#[test]
fn mixture_picks_by_the_coin() {
    let m = MixturePdf::new(PDF::Zero(NonePDF), PDF::Sphere(SpherePdf));
    assert!(matches!(m.pick(0), PDF::Zero(_)));
    assert!(matches!(m.pick(1), PDF::Sphere(_)));
}

#[test]
fn mixture_generates_from_both_parts() {
    let m = MixturePdf::new(
        PDF::Cosine(CosinePdf::new(Vec3::new(1, 0, 0))),
        PDF::Cosine(CosinePdf::new(Vec3::new(2, 0, 0))),
    );
    let sample = |lobe: Lobe| match lobe {
        Lobe::Cosine(w) => w,
        _ => panic!("an unexpected lobe"),
    };
    let mut first = 0;
    let mut second = 0;
    for _ in 0..400 {
        match m.generate(&sample).x {
            1 => first += 1,
            2 => second += 1,
            _ => panic!("a draw from neither part"),
        }
    }
    assert!(first > 100);
    assert!(second > 100);
}
