//! Textures: colours as functions of surface coordinates and position.
use vstd::prelude::*;
use crate::aabb::floor_div;
use crate::ray::{clip32, mul32, narrow32, Vec2, Vec3};
use crate::util::UNIT;

verus! {

/// What the caller's texture data is asked for: the pixel of an image at a
/// column and a row, as three bytes, or the noise of a generator at a point.
#[derive(Clone, Copy, Debug, PartialEq, Eq, Structural)]
pub enum Texel {
    Pixel(usize, u32, u32),
    Noise(usize, Vec3),
}

/// The texel probe answers every question.
pub open spec fn colouring<T: Fn(Texel) -> Vec3>(texel: &T) -> bool {
    forall|q: Texel| call_requires(texel, (q,))
}

/// One colour everywhere.
#[derive(Clone, Copy, Debug, PartialEq, Eq, Structural)]
pub struct SolidColor {
    pub albedo: Vec3,
}

impl SolidColor {
    pub fn new(albedo: Vec3) -> (r: Self)
        ensures
            r.albedo == albedo,
    {
        Self { albedo }
    }

    pub fn value(&self, _uv: &Vec2, _p: &Vec3) -> (r: Vec3)
        ensures
            r == self.albedo,
    {
        self.albedo
    }
}

/// Two textures in alternating cells of space. `inv_scale` is the number of
/// cells to a grid step, in parts of `UNIT`.
#[derive(Debug)]
pub struct CheckerTexture {
    pub odd: Box<Texture>,
    pub even: Box<Texture>,
    pub inv_scale: i32,
}

/// The cell that the ordinate `x` falls into: `inv_scale * x / UNIT`, rounded
/// down and saturating.
pub open spec fn cell(inv_scale: i32, x: i32) -> int {
    clip32((inv_scale * x) / (UNIT as int))
}

/// Whether the cells along the three axes add up to an even number.
pub open spec fn even_cell(inv_scale: i32, p: Vec3) -> bool {
    (cell(inv_scale, p.x) + cell(inv_scale, p.y) + cell(inv_scale, p.z)) % 2 == 0
}

/// Computes `cell`.
fn cell_exec(inv_scale: i32, x: i32) -> (r: i32)
    ensures
        r == cell(inv_scale, x),
{
    narrow32(floor_div(mul32(inv_scale, x) as i128, UNIT as i128))
}

/// An image known to the caller under `id`, `width` pixels wide and `height`
/// high.
#[derive(Clone, Copy, Debug, PartialEq, Eq, Structural)]
pub struct ImageTexture {
    pub id: usize,
    pub width: u32,
    pub height: u32,
}

/// A surface coordinate held between zero and `UNIT`.
pub open spec fn unit_clamped(u: i32) -> int {
    if u < 0 {
        0
    } else if u > UNIT {
        UNIT as int
    } else {
        u as int
    }
}

/// The pixel that the fraction `f` of `UNIT` falls on among `n > 0` pixels:
/// `f * n / UNIT`, but never beyond the last pixel.
pub open spec fn pixel_at(f: int, n: u32) -> int {
    let i = (f * n) / (UNIT as int);
    if i > n - 1 {
        n - 1
    } else {
        i
    }
}

/// One colour channel from a byte of an image: the byte's share of 255, in
/// parts of `UNIT`.
pub open spec fn channel(byte: i32) -> int {
    clip32((byte * UNIT) / 255)
}

/// The colour that stands for an image without rows.
pub open spec fn missing_image() -> Vec3 {
    Vec3 { x: 0, y: UNIT, z: UNIT }
}

impl ImageTexture {
    pub fn new(id: usize, width: u32, height: u32) -> (r: Self)
        ensures
            r == (ImageTexture { id, width, height }),
    {
        Self { id, width, height }
    }

    /// The column and row of the pixel under the surface coordinates `uv`. The
    /// rows count downward while `v` counts upward.
    pub open spec fn spec_pixel(self, uv: Vec2) -> (int, int) {
        (
            pixel_at(unit_clamped(uv.x), self.width),
            pixel_at(UNIT - unit_clamped(uv.y), self.height),
        )
    }

    pub fn pixel(&self, uv: &Vec2) -> (r: (u32, u32))
        requires
            self.width > 0,
            self.height > 0,
        ensures
            r.0 == self.spec_pixel(*uv).0,
            r.1 == self.spec_pixel(*uv).1,
            r.0 < self.width,
            r.1 < self.height,
    {
        let u: i64 = if uv.x < 0 { 0 } else if uv.x > UNIT { UNIT as i64 } else { uv.x as i64 };
        let v: i64 = UNIT as i64 - (if uv.y < 0 { 0 } else if uv.y > UNIT { UNIT as i64 } else { uv.y as i64 });
        let i = Self::scale(u, self.width);
        let j = Self::scale(v, self.height);
        (i, j)
    }

    /// Whether `out` is a possible colour under `uv`: a fixed colour for an
    /// image without rows; else each channel is the share of 255 of the byte
    /// that the texel probe answers for the pixel.
    pub open spec fn colours<T: Fn(Texel) -> Vec3>(self, texel: &T, uv: Vec2, out: Vec3) -> bool {
        if self.height == 0 {
            out == missing_image()
        } else {
            exists|bytes: Vec3| #[trigger]
                call_ensures(
                    texel,
                    (Texel::Pixel(self.id, self.spec_pixel(uv).0 as u32, self.spec_pixel(uv).1 as u32),),
                    bytes,
                ) && out == (Vec3 {
                    x: channel(bytes.x) as i32,
                    y: channel(bytes.y) as i32,
                    z: channel(bytes.z) as i32,
                })
        }
    }

    pub fn value<T: Fn(Texel) -> Vec3>(&self, uv: &Vec2, _p: &Vec3, texel: &T) -> (r: Vec3)
        requires
            colouring(texel),
            self.height > 0 ==> self.width > 0,
        ensures
            self.colours(texel, *uv, r),
    {
        if self.height == 0 {
            return Vec3::new(0, UNIT, UNIT);
        }
        let (i, j) = self.pixel(uv);
        let bytes = texel(Texel::Pixel(self.id, i, j));
        Vec3 {
            x: narrow32(floor_div(mul32(bytes.x, UNIT) as i128, 255)),
            y: narrow32(floor_div(mul32(bytes.y, UNIT) as i128, 255)),
            z: narrow32(floor_div(mul32(bytes.z, UNIT) as i128, 255)),
        }
    }

    fn scale(f: i64, n: u32) -> (r: u32)
        requires
            0 <= f <= UNIT,
            n > 0,
        ensures
            r == pixel_at(f as int, n),
            r < n,
    {
        assert(0 <= f * n <= 65536 * 0xffff_ffff) by (nonlinear_arith)
            requires
                0 <= f <= 65536,
                0 <= n <= 0xffff_ffff,
        ;
        let i: i64 = (f * (n as i64)) / (UNIT as i64);
        if i > n as i64 - 1 {
            n - 1
        } else {
            i as u32
        }
    }
}

/// Noise from a generator known to the caller under `id`.
#[derive(Clone, Copy, Debug, PartialEq, Eq, Structural)]
pub struct NoiseTexture {
    pub id: usize,
    pub scale: i32,
}

impl NoiseTexture {
    pub fn new(id: usize, scale: i32) -> (r: Self)
        ensures
            r == (NoiseTexture { id, scale }),
    {
        Self { id, scale }
    }

    /// The noise at the point `p`: what the texel probe answers for the
    /// generator.
    pub fn value<T: Fn(Texel) -> Vec3>(&self, _uv: &Vec2, p: &Vec3, texel: &T) -> (r: Vec3)
        requires
            colouring(texel),
        ensures
            call_ensures(texel, (Texel::Noise(self.id, *p),), r),
    {
        texel(Texel::Noise(self.id, *p))
    }
}

/// The closed family of textures.
#[derive(Debug)]
pub enum Texture {
    Color(SolidColor),
    CheckerTexture(CheckerTexture),
    ImageTexture(ImageTexture),
    Noise(NoiseTexture),
}

impl Texture {
    /// Whether every image among the parts of this texture has columns if
    /// it has rows.
    pub open spec fn sound(self) -> bool
        decreases self,
    {
        match self {
            Texture::CheckerTexture(c) => c.odd.sound() && c.even.sound(),
            Texture::ImageTexture(i) => i.height > 0 ==> i.width > 0,
            _ => true,
        }
    }

    /// Whether `out` is a possible colour at the surface coordinates `uv` and
    /// the point `p`, given what the texel probe answers.
    ///
    /// A solid colour is itself. A checker has the colour of its even or odd
    /// part, by the cell of `p`. An image without rows has a fixed colour;
    /// else each channel is the share of 255 of the byte that the probe
    /// answers for the pixel under `uv`. Noise is what the probe answers.
    pub open spec fn colours<T: Fn(Texel) -> Vec3>(self, texel: &T, uv: Vec2, p: Vec3, out: Vec3) -> bool
        decreases self,
    {
        match self {
            Texture::Color(c) => out == c.albedo,
            Texture::CheckerTexture(c) => if even_cell(c.inv_scale, p) {
                c.even.colours(texel, uv, p, out)
            } else {
                c.odd.colours(texel, uv, p, out)
            },
            Texture::ImageTexture(i) => i.colours(texel, uv, out),
            Texture::Noise(n) => call_ensures(texel, (Texel::Noise(n.id, p),), out),
        }
    }

    pub fn value<T: Fn(Texel) -> Vec3>(&self, uv: &Vec2, p: &Vec3, texel: &T) -> (r: Vec3)
        requires
            colouring(texel),
            self.sound(),
        ensures
            self.colours(texel, *uv, *p, r),
        decreases self,
    {
        match self {
            Texture::Color(color) => color.value(uv, p),
            Texture::CheckerTexture(tex) => tex.value(uv, p, texel),
            Texture::ImageTexture(tex) => tex.value(uv, p, texel),
            Texture::Noise(tex) => tex.value(uv, p, texel),
        }
    }
}

impl CheckerTexture {
    pub fn new(odd: Box<Texture>, even: Box<Texture>, inv_scale: i32) -> (r: Self)
        ensures
            r.odd == odd,
            r.even == even,
            r.inv_scale == inv_scale,
    {
        Self { odd, even, inv_scale }
    }

    pub fn new_with_color(odd: &Vec3, even: &Vec3, inv_scale: i32) -> (r: Self)
        ensures
            *r.odd == Texture::Color(SolidColor { albedo: *odd }),
            *r.even == Texture::Color(SolidColor { albedo: *even }),
            r.inv_scale == inv_scale,
    {
        Self {
            odd: Box::new(Texture::Color(SolidColor::new(*odd))),
            even: Box::new(Texture::Color(SolidColor::new(*even))),
            inv_scale,
        }
    }

    /// The colour of the even part in even cells, of the odd part in odd ones.
    pub fn value<T: Fn(Texel) -> Vec3>(&self, uv: &Vec2, p: &Vec3, texel: &T) -> (r: Vec3)
        requires
            colouring(texel),
            self.odd.sound(),
            self.even.sound(),
        ensures
            if even_cell(self.inv_scale, *p) {
                self.even.colours(texel, *uv, *p, r)
            } else {
                self.odd.colours(texel, *uv, *p, r)
            },
        decreases self,
    {
        let x = cell_exec(self.inv_scale, p.x);
        let y = cell_exec(self.inv_scale, p.y);
        let z = cell_exec(self.inv_scale, p.z);
        let is_even = (x as i64 + y as i64 + z as i64) % 2 == 0;
        if is_even {
            self.even.value(uv, p, texel)
        } else {
            self.odd.value(uv, p, texel)
        }
    }
}

} // verus!
