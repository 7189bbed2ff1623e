use pbrt_rs::noise::{Perlin, POINT_COUNT};
use pbrt_rs::ray::{Vec2, Vec3};
use pbrt_rs::texture::{CheckerTexture, ImageTexture, NoiseTexture, SolidColor, Texel, Texture};
use pbrt_rs::util::UNIT;

fn no_texel(_: Texel) -> Vec3 {
    panic!("no texture data is due")
}

#[test]
fn solid_colour_is_the_same_everywhere() {
    let c = SolidColor::new(Vec3::new(1, 2, 3));
    assert_eq!(c.value(&Vec2::new(5, 5), &Vec3::new(9, 9, 9)), Vec3::new(1, 2, 3));
    let t = Texture::Color(c);
    assert_eq!(t.value(&Vec2::new(0, 0), &Vec3::new(0, 0, 0), &no_texel), Vec3::new(1, 2, 3));
}

#[test]
fn checker_alternates_by_cell() {
    let odd = Vec3::new(1, 1, 1);
    let even = Vec3::new(2, 2, 2);
    // eight grid steps to a cell
    let t = CheckerTexture::new_with_color(&odd, &even, UNIT / 8);
    let uv = Vec2::new(0, 0);
    assert_eq!(t.value(&uv, &Vec3::new(0, 0, 0), &no_texel), even);
    assert_eq!(t.value(&uv, &Vec3::new(7, 7, 7), &no_texel), even);
    assert_eq!(t.value(&uv, &Vec3::new(8, 0, 0), &no_texel), odd);
    assert_eq!(t.value(&uv, &Vec3::new(8, 8, 0), &no_texel), even);
    assert_eq!(t.value(&uv, &Vec3::new(8, 8, 8), &no_texel), odd);
    // below zero the cells go on: -1 is in cell -1
    assert_eq!(t.value(&uv, &Vec3::new(-1, 0, 0), &no_texel), odd);
    assert_eq!(t.value(&uv, &Vec3::new(-1, -1, 0), &no_texel), even);
    assert_eq!(t.value(&uv, &Vec3::new(-9, 0, 0), &no_texel), even);
}

#[test]
fn checker_of_textures() {
    let inner = Texture::CheckerTexture(CheckerTexture::new_with_color(
        &Vec3::new(1, 1, 1),
        &Vec3::new(2, 2, 2),
        UNIT,
    ));
    let t = CheckerTexture::new(
        Box::new(Texture::Color(SolidColor::new(Vec3::new(7, 7, 7)))),
        Box::new(inner),
        UNIT / 2,
    );
    let uv = Vec2::new(0, 0);
    // cell 0 of the outer pattern is even: the inner pattern shows
    assert_eq!(t.value(&uv, &Vec3::new(0, 0, 0), &no_texel), Vec3::new(2, 2, 2));
    assert_eq!(t.value(&uv, &Vec3::new(1, 0, 0), &no_texel), Vec3::new(1, 1, 1));
    assert_eq!(t.value(&uv, &Vec3::new(2, 0, 0), &no_texel), Vec3::new(7, 7, 7));
}

#[test]
fn image_pixel_under_surface_coordinates() {
    let img = ImageTexture::new(3, 200, 100);
    assert_eq!(img.pixel(&Vec2::new(0, UNIT)), (0, 0));
    assert_eq!(img.pixel(&Vec2::new(UNIT, 0)), (199, 99));
    assert_eq!(img.pixel(&Vec2::new(UNIT / 2, UNIT / 2)), (100, 50));
    assert_eq!(img.pixel(&Vec2::new(-5, 2 * UNIT)), (0, 0));
    assert_eq!(img.pixel(&Vec2::new(2 * UNIT, -5)), (199, 99));
    assert_eq!(img.pixel(&Vec2::new(UNIT / 4, 3 * UNIT / 4)), (50, 25));
}

#[test]
fn image_colour_is_the_share_of_255() {
    let t = Texture::ImageTexture(ImageTexture::new(3, 200, 100));
    let texel = |q: Texel| {
        assert_eq!(q, Texel::Pixel(3, 100, 50));
        Vec3::new(255, 0, 51)
    };
    let c = t.value(&Vec2::new(UNIT / 2, UNIT / 2), &Vec3::new(0, 0, 0), &texel);
    assert_eq!(c, Vec3::new(UNIT, 0, UNIT / 5));
}

#[test]
fn image_without_rows_has_a_fixed_colour() {
    let t = Texture::ImageTexture(ImageTexture::new(3, 0, 0));
    assert_eq!(
        t.value(&Vec2::new(0, 0), &Vec3::new(0, 0, 0), &no_texel),
        Vec3::new(0, UNIT, UNIT)
    );
}

#[test]
fn noise_colour_comes_from_the_probe() {
    let t = Texture::Noise(NoiseTexture::new(2, 4 * UNIT));
    let texel = |q: Texel| {
        assert_eq!(q, Texel::Noise(2, Vec3::new(1, 2, 3)));
        Vec3::new(9, 9, 9)
    };
    assert_eq!(t.value(&Vec2::new(0, 0), &Vec3::new(1, 2, 3), &texel), Vec3::new(9, 9, 9));
}

fn is_shuffle(p: &[usize]) -> bool {
    let mut seen = vec![false; p.len()];
    for &v in p {
        if v >= p.len() || seen[v] {
            return false;
        }
        seen[v] = true;
    }
    true
}

#[test]
fn perlin_tables_are_shuffles() {
    let p = Perlin::new();
    for table in [&p.perm_x, &p.perm_y, &p.perm_z] {
        assert_eq!(table.len(), POINT_COUNT);
        assert!(is_shuffle(table));
    }
    // three independent shuffles of 256 points do not come out alike
    assert!(p.perm_x != p.perm_y || p.perm_y != p.perm_z);
    let identity: Vec<usize> = (0..POINT_COUNT).collect();
    assert!(p.perm_x != identity);
}

#[test]
fn permute_moves_every_entry_from_the_last_down() {
    for _ in 0..20 {
        let mut p: Vec<usize> = (0..6).collect();
        Perlin::permute(&mut p);
        assert!(is_shuffle(&p));
        // each place from the last to the second changes with an earlier one: none keeps its entry
        for (i, &v) in p.iter().enumerate() {
            assert_ne!(i, v);
        }
    }
    let mut one = vec![0];
    Perlin::permute(&mut one);
    assert_eq!(one, vec![0]);
    let mut two = vec![0, 1];
    Perlin::permute(&mut two);
    assert_eq!(two, vec![1, 0]);
    let mut none: Vec<usize> = vec![];
    Perlin::permute(&mut none);
    assert!(none.is_empty());
}

#[test]
fn perlin_corner_combines_the_three_tables() {
    let identity: Vec<usize> = (0..POINT_COUNT).collect();
    let reversed: Vec<usize> = (0..POINT_COUNT).rev().collect();
    let p = Perlin { perm_x: identity.clone(), perm_y: reversed, perm_z: identity };
    assert_eq!(p.corner(0, 0, 0, 0, 0, 0), 0 ^ 255 ^ 0);
    assert_eq!(p.corner(5, 6, 7, 1, 0, 1), 6 ^ (255 - 6) ^ 8);
    assert_eq!(p.corner(255, 0, 0, 1, 0, 0), 0 ^ 255 ^ 0);
    assert_eq!(p.corner(-1, 0, 0, 0, 0, 0), 255 ^ 255 ^ 0);
    assert_eq!(p.corner(-1, 0, 0, 1, 0, 0), 0 ^ 255 ^ 0);
    assert_eq!(p.corner(-257, 256, 511, 0, 0, 0), 255 ^ 255 ^ 255);
    assert_eq!(p.corner(i32::MAX, i32::MIN, 0, 1, 0, 0), 0 ^ 255 ^ 0);
}

#[test]
fn exchange_swaps_two_places() {
    let mut p = vec![10, 11, 12, 13];
    Perlin::exchange(&mut p, 1, 3);
    assert_eq!(p, vec![10, 13, 12, 11]);
    Perlin::exchange(&mut p, 2, 2);
    assert_eq!(p, vec![10, 13, 12, 11]);
}

#[test]
fn image_and_noise_textures_answer_by_themselves() {
    let img = ImageTexture::new(3, 200, 100);
    let texel = |q: Texel| match q {
        Texel::Pixel(3, 100, 50) => Vec3::new(255, 128, 0),
        Texel::Noise(2, p) => p,
        _ => panic!("an unexpected question"),
    };
    let c = img.value(&Vec2::new(UNIT / 2, UNIT / 2), &Vec3::new(0, 0, 0), &texel);
    assert_eq!(c, Vec3::new(UNIT, 128 * UNIT / 255, 0));
    let empty = ImageTexture::new(3, 0, 0);
    assert_eq!(empty.value(&Vec2::new(0, 0), &Vec3::new(0, 0, 0), &no_texel), Vec3::new(0, UNIT, UNIT));
    let noise = NoiseTexture::new(2, UNIT);
    assert_eq!(noise.value(&Vec2::new(0, 0), &Vec3::new(4, 5, 6), &texel), Vec3::new(4, 5, 6));
}
