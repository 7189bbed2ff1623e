//! The path integrator and the conversion of radiance to pixels.
use vstd::prelude::*;
use crate::aabb::floor_div;
use crate::hit::{answering, single, HitRecord, Hittable, Meet, Shape, Touch};
use crate::material::{looking, Look, Material, ScatterRecord};
use crate::pdf::{drawing, weighing, HittablePdf, Lobe, MixturePdf, PDF};
use crate::ray::{clip32, mul32, mul64, narrow32, Ray, Vec3};
use crate::texture::{colouring, Texel};
use crate::util::{Interval, POS_INF, UNIT};

verus! {

/// The least ray parameter at which a surface counts: a ray must not meet
/// again the surface that it has just left.
pub const SHADOW_EPSILON: i64 = 1;

/// The brightest a channel gets before it is made a byte, in parts of `UNIT`.
pub const BRIGHTEST: i64 = 65470;

/// The interval in which the integrator looks for surfaces.
pub open spec fn sight() -> Interval {
    Interval { min: SHADOW_EPSILON, max: POS_INF }
}

/// The colour `a` filtered by the colour `b`: the product of each pair of
/// channels, in parts of `UNIT`, rounded down and saturating.
pub open spec fn tinted(a: Vec3, b: Vec3) -> Vec3 {
    Vec3 {
        x: clip32((a.x * b.x) / (UNIT as int)) as i32,
        y: clip32((a.y * b.y) / (UNIT as int)) as i32,
        z: clip32((a.z * b.z) / (UNIT as int)) as i32,
    }
}

/// The colour `c` weighted by the density `s` of scattering over the density
/// `p` of sampling; nothing where the sampling density is not positive.
pub open spec fn weighed(c: Vec3, s: i64, p: i64) -> Vec3 {
    if p <= 0 {
        Vec3::spec_zeros()
    } else {
        Vec3 {
            x: clip32((c.x * s) / (p as int)) as i32,
            y: clip32((c.y * s) / (p as int)) as i32,
            z: clip32((c.z * s) / (p as int)) as i32,
        }
    }
}

/// Computes `tinted`.
pub fn tint(a: &Vec3, b: &Vec3) -> (r: Vec3)
    ensures
        r == tinted(*a, *b),
{
    Vec3 {
        x: narrow32(floor_div(mul32(a.x, b.x) as i128, UNIT as i128)),
        y: narrow32(floor_div(mul32(a.y, b.y) as i128, UNIT as i128)),
        z: narrow32(floor_div(mul32(a.z, b.z) as i128, UNIT as i128)),
    }
}

/// Computes `weighed`.
pub fn weigh(c: &Vec3, s: i64, p: i64) -> (r: Vec3)
    ensures
        r == weighed(*c, s, p),
{
    if p <= 0 {
        return Vec3::zeros();
    }
    assert(c.x * s == s * c.x && c.y * s == s * c.y && c.z * s == s * c.z) by (nonlinear_arith);
    Vec3 {
        x: narrow32(floor_div(mul64(s, c.x), p as i128)),
        y: narrow32(floor_div(mul64(s, c.y), p as i128)),
        z: narrow32(floor_div(mul64(s, c.z), p as i128)),
    }
}

/// Whether `r` is the square root of `n`, rounded down.
pub open spec fn is_root(n: int, r: int) -> bool {
    0 <= r && r * r <= n < (r + 1) * (r + 1)
}

/// The square root of `n >= 0`, rounded down.
pub open spec fn root(n: int) -> int {
    choose|r: int| is_root(n, r)
}

/// A number has at most one rounded-down square root.
pub proof fn root_is_unique(n: int, a: int, b: int)
    requires
        is_root(n, a),
        is_root(n, b),
    ensures
        a == b,
{
    if a < b {
        assert((a + 1) * (a + 1) <= b * b) by (nonlinear_arith)
            requires
                0 <= a + 1 <= b,
        ;
    }
    if b < a {
        assert((b + 1) * (b + 1) <= a * a) by (nonlinear_arith)
            requires
                0 <= b + 1 <= a,
        ;
    }
}

/// The square root of `n`, rounded down.
pub fn isqrt(n: u64) -> (r: u64)
    ensures
        is_root(n as int, r as int),
        r == root(n as int),
        r < 0x1_0000_0000,
{
    let mut lo: u64 = 0;
    let mut hi: u64 = 0x1_0000_0000;
    assert(0x1_0000_0000 * 0x1_0000_0000 > n) by (nonlinear_arith)
        requires
            n < 0x1_0000_0000_0000_0000,
    ;
    while hi - lo > 1
        invariant
            lo < hi <= 0x1_0000_0000,
            lo * lo <= n < hi * hi,
        decreases hi - lo,
    {
        let mid: u64 = lo + (hi - lo) / 2;
        assert(mid * mid <= 0x1_0000_0000 * 0x1_0000_0000) by (nonlinear_arith)
            requires
                0 <= mid <= 0x1_0000_0000,
        ;
        let square: u128 = (mid as u128) * (mid as u128);
        if square <= n as u128 {
            lo = mid;
        } else {
            hi = mid;
        }
    }
    proof {
        assert(hi == lo + 1);
        assert(is_root(n as int, lo as int));
        root_is_unique(n as int, lo as int, root(n as int));
    }
    lo
}

/// The camera, as far as the integrator and the pixels need it. The ratio of
/// width to height is in parts of `UNIT`.
#[derive(Clone, Copy, Debug, PartialEq, Eq, Structural)]
pub struct Camera {
    pub aspect_ratio: i32,
    pub image_width: usize,
    pub samples_per_pixel: usize,
    pub max_depth: usize,
    pub background: Vec3,
    pub image_height: usize,
    pub sqrt_spp: usize,
}

impl Default for Camera {
    fn default() -> (r: Self)
        ensures
            r == (Camera {
                aspect_ratio: UNIT,
                image_width: 100,
                samples_per_pixel: 10,
                max_depth: 10,
                background: Vec3::spec_zeros(),
                image_height: 0,
                sqrt_spp: 3,
            }),
    {
        Self {
            aspect_ratio: UNIT,
            image_width: 100,
            samples_per_pixel: 10,
            max_depth: 10,
            background: Vec3::zeros(),
            image_height: 0,
            sqrt_spp: 3,
        }
    }
}

/// The height of an image of the given width and ratio of width to height:
/// the quotient, rounded down, but at least one row and no more than a
/// count can hold.
pub open spec fn height_for(width: int, aspect_ratio: int) -> int {
    let h = (width * UNIT) / aspect_ratio;
    if h < 1 {
        1
    } else if h > usize::MAX {
        usize::MAX as int
    } else {
        h
    }
}

/// The gamma-corrected value of a linear channel: its square root in parts
/// of `UNIT`, and zero for a channel that is not positive.
pub open spec fn gamma(channel: int) -> int {
    if channel > 0 {
        root(channel * UNIT)
    } else {
        0
    }
}

/// The byte of a summed channel: the mean over the samples, gamma-corrected,
/// held below `BRIGHTEST`, and scaled to 256 levels.
pub open spec fn byte_of(sum: int, samples: int) -> int {
    let g = gamma(sum / samples);
    let held = if g > BRIGHTEST {
        BRIGHTEST as int
    } else {
        g
    };
    (256 * held) / (UNIT as int)
}

/// Computes `gamma`.
pub fn linear_to_gamma(color: i32) -> (r: i64)
    ensures
        r == gamma(color as int),
        0 <= r < 0x1_0000_0000,
{
    if color > 0 {
        assert(0 < color * 65536 <= 0x8000_0000 * 65536) by (nonlinear_arith)
            requires
                0 < color <= 0x8000_0000,
        ;
        isqrt(color as u64 * UNIT as u64) as i64
    } else {
        0
    }
}

/// Computes `byte_of`.
fn channel_to_byte(sum: i32, samples: usize) -> (r: u8)
    requires
        samples > 0,
    ensures
        r == byte_of(sum as int, samples as int),
{
    let mean = floor_div(sum as i128, samples as i128);
    proof {
        vstd::arithmetic::div_mod::lemma_fundamental_div_mod(sum as int, samples as int);
        vstd::arithmetic::div_mod::lemma_mod_bound(sum as int, samples as int);
        let q = sum as int / samples as int;
        let m = sum as int % samples as int;
        assert(-0x8000_0000 <= q <= 0x7fff_ffff) by (nonlinear_arith)
            requires
                samples > 0,
                sum == samples * q + m,
                0 <= m < samples,
                -0x8000_0000 <= sum <= 0x7fff_ffff,
        {
            if q > 0x7fff_ffff {
                assert(samples * q >= q);
            }
            if q < -0x8000_0000 {
                assert(samples * q <= q);
            }
        }
    }
    let g = linear_to_gamma(mean as i32);
    let held: i64 = if g > BRIGHTEST { BRIGHTEST } else { g };
    ((256 * held) / (UNIT as i64)) as u8
}

/// The pixel of a summed colour: each channel made a byte.
pub fn color_to_rgb(color: Vec3, sample_per_pixel: usize) -> (r: (u8, u8, u8))
    requires
        sample_per_pixel > 0,
    ensures
        r.0 == byte_of(color.x as int, sample_per_pixel as int),
        r.1 == byte_of(color.y as int, sample_per_pixel as int),
        r.2 == byte_of(color.z as int, sample_per_pixel as int),
{
    (
        channel_to_byte(color.x, sample_per_pixel),
        channel_to_byte(color.y, sample_per_pixel),
        channel_to_byte(color.z, sample_per_pixel),
    )
}

/// Names an emission and a scatter record, for a proof to point at; it holds
/// of every pair.
pub open spec fn shading(emission: Vec3, srec: Option<ScatterRecord<'static>>) -> bool {
    true
}

/// Names incoming radiance, for a proof to point at; it holds of every colour.
pub open spec fn arriving(incoming: Vec3) -> bool {
    true
}

/// Names a sampled direction, its two densities and the incoming radiance, for
/// a proof to point at; it holds of all.
pub open spec fn sampling(direction: Vec3, pdf_value: i64, scattering_pdf: i64, incoming: Vec3) -> bool {
    true
}

/// The mixture that the next direction is sampled from at `origin`: in equal
/// parts the directions toward the lights and the material's own density.
pub open spec fn mixture<'a>(lights: &'a Hittable, origin: Vec3, own: PDF<'static>) -> MixturePdf<'a> {
    MixturePdf { p: (PDF::Hittable(Box::new(HittablePdf { objects: lights, origin })), own) }
}

/// Names a run of sample colours, for a proof to point at; it holds of every
/// run.
pub open spec fn exposure(samples: Seq<Vec3>) -> bool {
    true
}

/// The saturating sum of the first `n` of `samples`.
pub open spec fn summed(samples: Seq<Vec3>, n: int) -> Vec3
    decreases n,
{
    if n <= 0 {
        Vec3::spec_zeros()
    } else {
        summed(samples, n - 1).spec_plus(samples[n - 1])
    }
}

/// What the first `n` samples add up to does not depend on what follows.
pub proof fn summed_of_prefix(a: Seq<Vec3>, b: Seq<Vec3>, n: int)
    requires
        n <= a.len(),
        n <= b.len(),
        forall|i: int| 0 <= i < n ==> a[i] == b[i],
    ensures
        summed(a, n) == summed(b, n),
    decreases n,
{
    if n > 0 {
        summed_of_prefix(a, b, n - 1);
    }
}

impl Camera {
    /// Derives the image height from the width and the ratio, and the side
    /// of the square of samples from their number.
    pub fn initialize(&mut self)
        requires
            old(self).aspect_ratio > 0,
        ensures
            final(self).image_height == height_for(
                old(self).image_width as int,
                old(self).aspect_ratio as int,
            ),
            final(self).image_height >= 1,
            is_root(old(self).samples_per_pixel as int, final(self).sqrt_spp as int),
            final(self).aspect_ratio == old(self).aspect_ratio,
            final(self).image_width == old(self).image_width,
            final(self).samples_per_pixel == old(self).samples_per_pixel,
            final(self).max_depth == old(self).max_depth,
            final(self).background == old(self).background,
    {
        assert(0 <= self.image_width * 65536 <= 0xffff_ffff_ffff_ffff * 65536) by (nonlinear_arith)
            requires
                0 <= self.image_width <= 0xffff_ffff_ffff_ffff,
        ;
        let scaled: u128 = (self.image_width as u128) * (UNIT as u128);
        let h: u128 = scaled / (self.aspect_ratio as u128);
        self.image_height = if h < 1 {
            1
        } else if h > usize::MAX as u128 {
            usize::MAX
        } else {
            h as usize
        };
        self.sqrt_spp = isqrt(self.samples_per_pixel as u64) as usize;
    }

    /// Whether the scene, the materials and the probes fit together: every
    /// probe answers every question, the lights can be weighed and drawn
    /// from, every texture is sound, and every finding in the world names
    /// one of the materials.
    pub open spec fn ready<
        P: Fn(usize, Vec3, Ray) -> Meet, H: Fn(usize, Vec3, Ray, i64) -> Touch,
        F: Fn(usize, Ray) -> i64,
        T: Fn(Texel) -> Vec3,
        O: Fn(Ray, HitRecord) -> Look,
        S: Fn(Lobe) -> Vec3,
        D: Fn(Lobe, Vec3) -> i64,
    >(
        world: Shape,
        lights: Shape,
        materials: Seq<Material>,
        probe: &P, touch: &H,
        flight: &F,
        texel: &T,
        optics: &O,
        sample: &S,
        density: &D,
    ) -> bool {
        &&& answering(probe, touch, flight)
        &&& colouring(texel)
        &&& looking(optics)
        &&& drawing(sample)
        &&& weighing(density)
        &&& lights.weighable()
        &&& lights.drawable()
        &&& forall|i: int| 0 <= i < materials.len() ==> (#[trigger] materials[i]).sound()
        &&& forall|ray: Ray, iv: Interval, h: HitRecord| #[trigger]
            world.hits(probe, touch, flight, ray, iv, Some(h)) ==> h.material < materials.len()
    }

    /// Whether `out` is a possible radiance along `ray` with `depth` bounces
    /// left, given what the probes answer.
    ///
    /// With no bounce left it is black. A ray that meets nothing beyond
    /// `SHADOW_EPSILON` sees the background. Else the material of the
    /// nearest surface says what is emitted and how the ray scatters: not at
    /// all, and the emission is all; along one ray, and the radiance along
    /// that ray is filtered by the attenuation and added; or into a
    /// direction drawn from the mixture of the lights and the material's own
    /// density, and the filtered radiance from there is weighted by the
    /// density of scattering over the density of sampling and added.
    pub open spec fn sees<
        P: Fn(usize, Vec3, Ray) -> Meet, H: Fn(usize, Vec3, Ray, i64) -> Touch,
        F: Fn(usize, Ray) -> i64,
        T: Fn(Texel) -> Vec3,
        O: Fn(Ray, HitRecord) -> Look,
        S: Fn(Lobe) -> Vec3,
        D: Fn(Lobe, Vec3) -> i64,
    >(
        self,
        world: Shape,
        lights: &Hittable,
        materials: Seq<Material>,
        probe: &P, touch: &H,
        flight: &F,
        texel: &T,
        optics: &O,
        sample: &S,
        density: &D,
        ray: Ray,
        depth: nat,
        out: Vec3,
    ) -> bool
        decreases depth,
    {
        if depth == 0 {
            out == Vec3::spec_zeros()
        } else {
            exists|found: Option<HitRecord>|
                {
                    &&& #[trigger] single(found)
                    &&& world.hits(probe, touch, flight, ray, sight(), found)
                    &&& match found {
                        None => out == self.background,
                        Some(rec) => exists|emission: Vec3, srec: Option<ScatterRecord<'static>>|
                            {
                                &&& #[trigger] shading(emission, srec)
                                &&& materials[rec.material as int].emits(
                                    texel,
                                    rec.uv,
                                    rec.p,
                                    rec,
                                    emission,
                                )
                                &&& materials[rec.material as int].scatters(
                                    texel,
                                    optics,
                                    ray,
                                    rec,
                                    srec,
                                )
                                &&& match srec {
                                    None => out == emission,
                                    Some(s) => if s.skip_pdf {
                                        exists|incoming: Vec3|
                                            {
                                                &&& #[trigger] arriving(incoming)
                                                &&& self.sees(
                                                    world,
                                                    lights,
                                                    materials,
                                                    probe,
                                                    touch,
                                                    flight,
                                                    texel,
                                                    optics,
                                                    sample,
                                                    density,
                                                    s.skip_pdf_ray,
                                                    (depth - 1) as nat,
                                                    incoming,
                                                )
                                                &&& out == emission.spec_plus(
                                                    tinted(s.attenuation, incoming),
                                                )
                                            }
                                    } else {
                                        exists|
                                            direction: Vec3,
                                            pdf_value: i64,
                                            scattering_pdf: i64,
                                            incoming: Vec3,
                                        |
                                            {
                                                &&& #[trigger] sampling(
                                                    direction,
                                                    pdf_value,
                                                    scattering_pdf,
                                                    incoming,
                                                )
                                                &&& mixture(lights, rec.p, s.pdf).draws(sample, direction)
                                                &&& mixture(lights, rec.p, s.pdf).weighs(
                                                    density,
                                                    direction,
                                                    pdf_value,
                                                )
                                                &&& materials[rec.material as int].spreads(
                                                    density,
                                                    Ray { origin: rec.p, direction, time: ray.time },
                                                    rec,
                                                    scattering_pdf,
                                                )
                                                &&& self.sees(
                                                    world,
                                                    lights,
                                                    materials,
                                                    probe,
                                                    touch,
                                                    flight,
                                                    texel,
                                                    optics,
                                                    sample,
                                                    density,
                                                    Ray { origin: rec.p, direction, time: ray.time },
                                                    (depth - 1) as nat,
                                                    incoming,
                                                )
                                                &&& out == emission.spec_plus(
                                                    weighed(
                                                        tinted(s.attenuation, incoming),
                                                        scattering_pdf,
                                                        pdf_value,
                                                    ),
                                                )
                                            }
                                    },
                                }
                            },
                    }
                }
        }
    }

    /// The radiance along the ray `r` with `depth` bounces left.
    pub fn ray_color<
        P: Fn(usize, Vec3, Ray) -> Meet, H: Fn(usize, Vec3, Ray, i64) -> Touch,
        F: Fn(usize, Ray) -> i64,
        T: Fn(Texel) -> Vec3,
        O: Fn(Ray, HitRecord) -> Look,
        S: Fn(Lobe) -> Vec3,
        D: Fn(Lobe, Vec3) -> i64,
    >(
        &self,
        r: &Ray,
        depth: usize,
        world: &Hittable,
        lights: &Hittable,
        materials: &Vec<Material>,
        probe: &P, touch: &H,
        flight: &F,
        texel: &T,
        optics: &O,
        sample: &S,
        density: &D,
    ) -> (c: Vec3)
        requires
            Self::ready(world@, lights@, materials@, probe, touch, flight, texel, optics, sample, density),
        ensures
            depth == 0 ==> c == Vec3::spec_zeros(),
            self.sees(
                world@,
                lights,
                materials@,
                probe,
                touch,
                flight,
                texel,
                optics,
                sample,
                density,
                *r,
                depth as nat,
                c,
            ),
        decreases depth,
    {
        if depth == 0 {
            return Vec3::zeros();
        }
        let found = world.hit(probe, touch, flight, r, &Interval::new(SHADOW_EPSILON, POS_INF));
        assert(single(found));
        match found {
            Some(rec) => {
                let mat = &materials[rec.material];
                let color_from_emission = mat.emitted(&rec.uv, &rec.p, &rec, texel);
                let scattered_record = mat.scatter(r, &rec, texel, optics);
                assert(shading(color_from_emission, scattered_record));
                match scattered_record {
                    Some(srec) => {
                        if srec.skip_pdf {
                            let incoming = self.ray_color(
                                &srec.skip_pdf_ray,
                                depth - 1,
                                world,
                                lights,
                                materials,
                                probe,
                                touch,
                                flight,
                                texel,
                                optics,
                                sample,
                                density,
                            );
                            assert(arriving(incoming));
                            return color_from_emission.plus(&tint(&srec.attenuation, &incoming));
                        }
                        let attenuation = srec.attenuation;
                        let ghost own = srec.pdf;
                        let light_pdf = PDF::Hittable(Box::new(HittablePdf::new(lights, rec.p)));
                        let mixed_pdf = MixturePdf::new(light_pdf, srec.pdf);
                        assert(mixed_pdf == mixture(lights, rec.p, own));
                        let scattered = Ray::new_with_time(rec.p, mixed_pdf.generate(sample), r.time);
                        let pdf = mixed_pdf.value(&scattered.direction, density);
                        let scattering_pdf = mat.scattering_pdf(r, &scattered, &rec, density);
                        let sample_color = self.ray_color(
                            &scattered,
                            depth - 1,
                            world,
                            lights,
                            materials,
                            probe,
                            touch,
                            flight,
                            texel,
                            optics,
                            sample,
                            density,
                        );
                        let color_from_scatter = weigh(
                            &tint(&attenuation, &sample_color),
                            scattering_pdf,
                            pdf,
                        );
                        assert(sampling(scattered.direction, pdf, scattering_pdf, sample_color));
                        color_from_emission.plus(&color_from_scatter)
                    },
                    None => color_from_emission,
                }
            },
            None => self.background,
        }
    }

    /// Whether `out` is a possible pixel at column `i` and row `j`, given what
    /// the shading probe answers: the pixel of the saturating sum of one
    /// sample for each cell of the square of samples, row by row.
    pub open spec fn exposes<G: Fn(usize, usize, usize, usize) -> Vec3>(
        self,
        shade: &G,
        i: usize,
        j: usize,
        out: (u8, u8, u8),
    ) -> bool {
        exists|samples: Seq<Vec3>|
            {
                &&& #[trigger] exposure(samples)
                &&& samples.len() == self.sqrt_spp * self.sqrt_spp
                &&& forall|s_j: int, s_i: int|
                    #![trigger samples[s_j * self.sqrt_spp + s_i]]
                    0 <= s_j < self.sqrt_spp && 0 <= s_i < self.sqrt_spp ==> call_ensures(
                        shade,
                        (i, j, s_i as usize, s_j as usize),
                        samples[s_j * self.sqrt_spp + s_i],
                    )
                &&& out.0 == byte_of(
                    summed(samples, samples.len() as int).x as int,
                    self.samples_per_pixel as int,
                )
                &&& out.1 == byte_of(
                    summed(samples, samples.len() as int).y as int,
                    self.samples_per_pixel as int,
                )
                &&& out.2 == byte_of(
                    summed(samples, samples.len() as int).z as int,
                    self.samples_per_pixel as int,
                )
            }
    }

    /// The pixel at column `i` and row `j`: the shading probe is asked once
    /// for each cell of the square of samples, and the sum is made a pixel.
    pub fn pixel<G: Fn(usize, usize, usize, usize) -> Vec3>(&self, i: usize, j: usize, shade: &G) -> (r: (
        u8,
        u8,
        u8,
    ))
        requires
            forall|a: usize, b: usize, c: usize, d: usize| call_requires(shade, (a, b, c, d)),
            self.samples_per_pixel > 0,
            self.sqrt_spp * self.sqrt_spp <= usize::MAX,
        ensures
            self.exposes(shade, i, j, r),
    {
        let mut color = Vec3::zeros();
        let ghost mut samples: Seq<Vec3> = Seq::empty();
        let side = self.sqrt_spp;
        let mut s_j: usize = 0;
        while s_j < side
            invariant
                forall|a: usize, b: usize, c: usize, d: usize| call_requires(shade, (a, b, c, d)),
                side == self.sqrt_spp,
                side * side <= usize::MAX,
                s_j <= side,
                samples.len() == s_j * side,
                color == summed(samples, samples.len() as int),
                forall|y: int, x: int|
                    #![trigger samples[y * side + x]]
                    0 <= y < s_j && 0 <= x < side ==> call_ensures(
                        shade,
                        (i, j, x as usize, y as usize),
                        samples[y * side + x],
                    ),
            decreases side - s_j,
        {
            let mut s_i: usize = 0;
            while s_i < side
                invariant
                    forall|a: usize, b: usize, c: usize, d: usize| call_requires(shade, (a, b, c, d)),
                    side == self.sqrt_spp,
                    side * side <= usize::MAX,
                    s_j < side,
                    s_i <= side,
                    samples.len() == s_j * side + s_i,
                    color == summed(samples, samples.len() as int),
                    forall|y: int, x: int|
                        #![trigger samples[y * side + x]]
                        (0 <= y < s_j && 0 <= x < side) || (y == s_j && 0 <= x < s_i) ==> call_ensures(
                            shade,
                            (i, j, x as usize, y as usize),
                            samples[y * side + x],
                        ),
                decreases side - s_i,
            {
                let got = shade(i, j, s_i, s_j);
                let ghost before = samples;
                proof {
                    samples = samples.push(got);
                    summed_of_prefix(samples, before, before.len() as int);
                    assert forall|y: int, x: int|
                        #![trigger samples[y * side + x]]
                        (0 <= y < s_j && 0 <= x < side) || (y == s_j && 0 <= x < s_i + 1) implies call_ensures(
                        shade,
                        (i, j, x as usize, y as usize),
                        samples[y * side + x],
                    ) by {
                        cell_number(y, x, side as int, s_j as int, s_i as int);
                        if !(y == s_j && x == s_i) {
                            assert(samples[y * side + x] == before[y * side + x]);
                        }
                    }
                }
                color = color.plus(&got);
                s_i += 1;
            }
            proof {
                assert((s_j + 1) * side == s_j * side + side) by (nonlinear_arith);
            }
            s_j += 1;
        }
        assert(exposure(samples));
        color_to_rgb(color, self.samples_per_pixel)
    }

    /// All pixels of the image, row by row.
    pub fn render<G: Fn(usize, usize, usize, usize) -> Vec3>(&mut self, shade: &G) -> (image: Vec<(u8, u8, u8)>)
        requires
            forall|a: usize, b: usize, c: usize, d: usize| call_requires(shade, (a, b, c, d)),
            old(self).aspect_ratio > 0,
            old(self).samples_per_pixel > 0,
            old(self).image_width * height_for(old(self).image_width as int, old(self).aspect_ratio as int)
                <= usize::MAX,
        ensures
            final(self).image_width == old(self).image_width,
            final(self).image_height == height_for(
                old(self).image_width as int,
                old(self).aspect_ratio as int,
            ),
            image@.len() == final(self).image_width * final(self).image_height,
            forall|j: int, i: int|
                #![trigger image@[j * final(self).image_width + i]]
                0 <= j < final(self).image_height && 0 <= i < final(self).image_width
                    ==> final(self).exposes(
                    shade,
                    i as usize,
                    j as usize,
                    image@[j * final(self).image_width + i],
                ),
    {
        self.initialize();
        let width = self.image_width;
        let height = self.image_height;
        proof {
            let side = self.sqrt_spp as int;
            assert(side * side <= usize::MAX) by {
                assert(is_root(self.samples_per_pixel as int, side));
            }
        }
        let mut image: Vec<(u8, u8, u8)> = Vec::new();
        let mut j: usize = 0;
        while j < height
            invariant
                forall|a: usize, b: usize, c: usize, d: usize| call_requires(shade, (a, b, c, d)),
                width == self.image_width,
                height == self.image_height,
                self.samples_per_pixel > 0,
                self.sqrt_spp * self.sqrt_spp <= usize::MAX,
                width * height <= usize::MAX,
                j <= height,
                image@.len() == j * width,
                forall|y: int, x: int|
                    #![trigger image@[y * width + x]]
                    0 <= y < j && 0 <= x < width ==> self.exposes(
                        shade,
                        x as usize,
                        y as usize,
                        image@[y * width + x],
                    ),
            decreases height - j,
        {
            let mut i: usize = 0;
            while i < width
                invariant
                    forall|a: usize, b: usize, c: usize, d: usize| call_requires(shade, (a, b, c, d)),
                    width == self.image_width,
                    height == self.image_height,
                    self.samples_per_pixel > 0,
                    self.sqrt_spp * self.sqrt_spp <= usize::MAX,
                    width * height <= usize::MAX,
                    j < height,
                    i <= width,
                    image@.len() == j * width + i,
                    forall|y: int, x: int|
                        #![trigger image@[y * width + x]]
                        (0 <= y < j && 0 <= x < width) || (y == j && 0 <= x < i) ==> self.exposes(
                            shade,
                            x as usize,
                            y as usize,
                            image@[y * width + x],
                        ),
                decreases width - i,
            {
                let p = self.pixel(i, j, shade);
                let ghost before = image@;
                image.push(p);
                proof {
                    assert forall|y: int, x: int|
                        #![trigger image@[y * width + x]]
                        (0 <= y < j && 0 <= x < width) || (y == j && 0 <= x < i + 1) implies self.exposes(
                        shade,
                        x as usize,
                        y as usize,
                        image@[y * width + x],
                    ) by {
                        cell_number(y, x, width as int, j as int, i as int);
                        if !(y == j && x == i) {
                            assert(image@[y * width + x] == before[y * width + x]);
                        }
                    }
                }
                i += 1;
            }
            proof {
                assert((j + 1) * width == j * width + width) by (nonlinear_arith);
            }
            j += 1;
        }
        proof {
            assert(height * width == width * height) by (nonlinear_arith);
        }
        image
    }
}

/// Cells of a grid with rows of `side` cells are numbered row by row: a cell
/// of an earlier row, or an earlier cell of row `row`, has a smaller number
/// than cell `col` of row `row`, and that cell has the number
/// `row * side + col`.
pub proof fn cell_number(y: int, x: int, side: int, row: int, col: int)
    requires
        0 <= x < side,
        0 <= col <= side,
        0 <= row,
        (0 <= y < row) || (y == row && x <= col),
    ensures
        0 <= y * side + x <= row * side + col,
        (y * side + x == row * side + col) <==> (y == row && x == col),
{
    assert(0 <= y * side) by (nonlinear_arith)
        requires
            0 <= y,
            0 <= side,
    ;
    if y < row {
        assert((y + 1) * side <= row * side) by (nonlinear_arith)
            requires
                y + 1 <= row,
                0 <= side,
        ;
        assert((y + 1) * side == y * side + side) by (nonlinear_arith);
    }
}

} // verus!
