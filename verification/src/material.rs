//! Materials: how a surface scatters and what it emits.
use vstd::prelude::*;
use crate::hit::HitRecord;
use crate::pdf::{weighing, CosinePdf, Lobe, NonePDF, SpherePdf, PDF};
use crate::ray::{Ray, Vec2, Vec3};
use crate::texture::{colouring, SolidColor, Texel, Texture};
use crate::util::UNIT;

verus! {

/// What the caller's optics answer for a ray that meets a specular surface:
/// the mirrored direction (with the material's fuzz applied), the refracted
/// direction, whether refraction is impossible, the reflectance at this
/// angle in parts of `UNIT`, and a uniform draw in parts of `UNIT`.
#[derive(Clone, Copy, Debug, PartialEq, Eq, Structural)]
pub struct Look {
    pub reflected: Vec3,
    pub refracted: Vec3,
    pub cannot_refract: bool,
    pub reflectance: i32,
    pub draw: i32,
}

/// The optics probe answers every question.
pub open spec fn looking<O: Fn(Ray, HitRecord) -> Look>(optics: &O) -> bool {
    forall|ray: Ray, rec: HitRecord| call_requires(optics, (ray, rec))
}

/// What a scatter query reports: the attenuation, the density to sample the
/// next direction from, and, for a specular surface, `skip_pdf` with the one
/// ray to follow.
#[derive(Debug)]
pub struct ScatterRecord<'a> {
    pub attenuation: Vec3,
    pub pdf: PDF<'a>,
    pub skip_pdf: bool,
    pub skip_pdf_ray: Ray,
}

impl<'a> Default for ScatterRecord<'a> {
    fn default() -> (r: Self)
        ensures
            r == (ScatterRecord {
                attenuation: Vec3::spec_zeros(),
                pdf: PDF::Zero(NonePDF),
                skip_pdf: false,
                skip_pdf_ray: Ray::spec_default(),
            }),
    {
        Self {
            attenuation: Vec3::zeros(),
            pdf: PDF::Zero(NonePDF),
            skip_pdf: false,
            skip_pdf_ray: Ray::new(Vec3::zeros(), Vec3::zeros()),
        }
    }
}

/// A diffuse surface.
#[derive(Debug)]
pub struct Lambertian {
    pub albedo: Box<Texture>,
}

/// A mirror, blurred by `fuzz`.
#[derive(Clone, Copy, Debug, PartialEq, Eq, Structural)]
pub struct Metal {
    pub albedo: Vec3,
    pub fuzz: i32,
}

/// A clear solid with the given refraction index, in parts of `UNIT`.
#[derive(Clone, Copy, Debug, PartialEq, Eq, Structural)]
pub struct Dielectric {
    pub refraction_index: i32,
}

/// A light.
#[derive(Debug)]
pub struct DiffuseLight {
    pub emit: Box<Texture>,
}

/// The phase function of a medium: it scatters evenly into all directions.
#[derive(Debug)]
pub struct Isotropic {
    pub tex: Box<Texture>,
}

/// The closed family of materials.
#[derive(Debug)]
pub enum Material {
    Diffuse(Lambertian),
    Metal(Metal),
    Dielectric(Dielectric),
    DiffuseLight(DiffuseLight),
    Isotropic(Isotropic),
}

/// The attenuation of a clear solid: nothing is lost.
pub open spec fn clear() -> Vec3 {
    Vec3 { x: UNIT, y: UNIT, z: UNIT }
}

impl Lambertian {
    pub fn new_with_color(albedo: Vec3) -> (r: Self)
        ensures
            *r.albedo == Texture::Color(SolidColor { albedo }),
    {
        Self { albedo: Box::new(Texture::Color(SolidColor::new(albedo))) }
    }

    pub fn new(tex: Texture) -> (r: Self)
        ensures
            *r.albedo == tex,
    {
        Self { albedo: Box::new(tex) }
    }

    /// The record of a diffuse bounce with the given attenuation: the next
    /// direction is to be sampled around the normal.
    pub open spec fn spec_bounce(rec: HitRecord, attenuation: Vec3) -> ScatterRecord<'static> {
        ScatterRecord {
            attenuation,
            pdf: PDF::Cosine(CosinePdf { w: rec.normal }),
            skip_pdf: false,
            skip_pdf_ray: Ray::spec_default(),
        }
    }

    /// Scatters diffusely: the attenuation is the texture's colour at the hit.
    pub fn scatter<T: Fn(Texel) -> Vec3>(&self, _ray: &Ray, rec: &HitRecord, texel: &T) -> (r: Option<
        ScatterRecord<'static>,
    >)
        requires
            colouring(texel),
            self.albedo.sound(),
        ensures
            r matches Some(s) && self.albedo.colours(texel, rec.uv, rec.p, s.attenuation) && s
                == Self::spec_bounce(*rec, s.attenuation),
    {
        let mut srec: ScatterRecord<'static> = ScatterRecord::default();
        srec.attenuation = self.albedo.value(&rec.uv, &rec.p, texel);
        srec.pdf = PDF::Cosine(CosinePdf::new(rec.normal));
        srec.skip_pdf = false;
        Some(srec)
    }

    /// A diffuse surface emits nothing.
    pub fn emitted(&self, _uv: &Vec2, _p: &Vec3, _rec: &HitRecord) -> (r: Vec3)
        ensures
            r == Vec3::spec_zeros(),
    {
        Vec3::zeros()
    }

    /// The density with which a diffuse surface scatters into the direction
    /// of `scattered`: what the density probe answers for the cosine lobe
    /// around the normal, and zero below the surface.
    pub fn scattering_pdf<D: Fn(Lobe, Vec3) -> i64>(
        &self,
        _ray: &Ray,
        scattered: &Ray,
        rec: &HitRecord,
        density: &D,
    ) -> (r: i64)
        requires
            weighing(density),
        ensures
            Material::spec_lobe(*rec, *scattered, density, r),
    {
        let cos_theta = density(Lobe::Cosine(rec.normal), scattered.direction);
        if cos_theta < 0 {
            0
        } else {
            cos_theta
        }
    }
}

impl Metal {
    pub fn new(albedo: Vec3, fuzz: i32) -> (r: Self)
        ensures
            r == (Metal { albedo, fuzz }),
    {
        Self { albedo, fuzz }
    }

    /// What a mirror reports for the mirrored direction `reflected`: nothing
    /// if that direction does not leave the surface; else the one ray to
    /// follow, from the hit point, at the time of the incoming ray.
    pub open spec fn spec_scatter(self, ray: Ray, rec: HitRecord, reflected: Vec3) -> Option<
        ScatterRecord<'static>,
    > {
        if reflected.spec_dot(rec.normal) > 0 {
            Some(
                ScatterRecord {
                    attenuation: self.albedo,
                    pdf: PDF::Zero(NonePDF),
                    skip_pdf: true,
                    skip_pdf_ray: Ray { origin: rec.p, direction: reflected, time: ray.time },
                },
            )
        } else {
            None
        }
    }

    pub fn scatter(&self, ray: &Ray, rec: &HitRecord, reflected: Vec3) -> (r: Option<ScatterRecord<'static>>)
        ensures
            r == self.spec_scatter(*ray, *rec, reflected),
    {
        if reflected.dot(&rec.normal) <= 0 {
            return None;
        }
        let mut srec: ScatterRecord<'static> = ScatterRecord::default();
        srec.attenuation = self.albedo;
        srec.skip_pdf = true;
        srec.skip_pdf_ray = Ray::new_with_time(rec.p, reflected, ray.time);
        Some(srec)
    }

    /// A mirror emits nothing.
    pub fn emitted(&self, _uv: &Vec2, _p: &Vec3, _rec: &HitRecord) -> (r: Vec3)
        ensures
            r == Vec3::spec_zeros(),
    {
        Vec3::zeros()
    }
}

impl Dielectric {
    pub fn new(refraction_index: i32) -> (r: Self)
        ensures
            r.refraction_index == refraction_index,
    {
        Self { refraction_index }
    }

    /// The ratio of the refraction indices that the ray passes between, in
    /// parts of `UNIT`: the inverse of the index on entering through the
    /// front face, the index itself on leaving.
    pub open spec fn spec_refraction_ratio(self, front_face: bool) -> int {
        if front_face {
            (UNIT * UNIT) / (self.refraction_index as int)
        } else {
            self.refraction_index as int
        }
    }

    pub fn refraction_ratio(&self, front_face: bool) -> (r: i64)
        requires
            self.refraction_index > 0,
        ensures
            r == self.spec_refraction_ratio(front_face),
    {
        if front_face {
            0x1_0000_0000i64 / (self.refraction_index as i64)
        } else {
            self.refraction_index as i64
        }
    }

    /// Whether the ray is mirrored: always where it cannot be refracted,
    /// else where the reflectance exceeds the draw.
    pub open spec fn spec_reflects(look: Look) -> bool {
        look.cannot_refract || look.reflectance > look.draw
    }

    /// What a clear solid reports: nothing is lost, and the one ray to follow
    /// is mirrored or refracted.
    pub open spec fn spec_scatter(ray: Ray, rec: HitRecord, look: Look) -> ScatterRecord<'static> {
        ScatterRecord {
            attenuation: clear(),
            pdf: PDF::Zero(NonePDF),
            skip_pdf: true,
            skip_pdf_ray: Ray {
                origin: rec.p,
                direction: if Self::spec_reflects(look) {
                    look.reflected
                } else {
                    look.refracted
                },
                time: ray.time,
            },
        }
    }

    pub fn scatter(&self, ray: &Ray, rec: &HitRecord, look: &Look) -> (r: Option<ScatterRecord<'static>>)
        ensures
            r == Some(Self::spec_scatter(*ray, *rec, *look)),
    {
        let mut srec: ScatterRecord<'static> = ScatterRecord::default();
        srec.attenuation = Vec3::new(UNIT, UNIT, UNIT);
        srec.skip_pdf = true;
        let direction = if look.cannot_refract || look.reflectance > look.draw {
            look.reflected
        } else {
            look.refracted
        };
        srec.skip_pdf_ray = Ray::new_with_time(rec.p, direction, ray.time);
        Some(srec)
    }

    /// A clear solid emits nothing.
    pub fn emitted(&self, _uv: &Vec2, _p: &Vec3, _rec: &HitRecord) -> (r: Vec3)
        ensures
            r == Vec3::spec_zeros(),
    {
        Vec3::zeros()
    }
}

impl DiffuseLight {
    pub fn new_with_color(emit: Vec3) -> (r: Self)
        ensures
            *r.emit == Texture::Color(SolidColor { albedo: emit }),
    {
        Self { emit: Box::new(Texture::Color(SolidColor::new(emit))) }
    }

    pub fn new(tex: Texture) -> (r: Self)
        ensures
            *r.emit == tex,
    {
        Self { emit: Box::new(tex) }
    }

    /// Whether `out` is what the light emits toward a ray that found `rec`: the
    /// texture's colour from the front face, nothing from the back.
    pub open spec fn emits<T: Fn(Texel) -> Vec3>(self, texel: &T, uv: Vec2, p: Vec3, rec: HitRecord, out: Vec3) -> bool {
        if rec.front_face {
            self.emit.colours(texel, uv, p, out)
        } else {
            out == Vec3::spec_zeros()
        }
    }

    pub fn emitted<T: Fn(Texel) -> Vec3>(&self, uv: &Vec2, p: &Vec3, rec: &HitRecord, texel: &T) -> (r: Vec3)
        requires
            colouring(texel),
            self.emit.sound(),
        ensures
            self.emits(texel, *uv, *p, *rec, r),
    {
        if rec.front_face {
            self.emit.value(uv, p, texel)
        } else {
            Vec3::zeros()
        }
    }

    /// A light ends the path: it does not scatter.
    pub fn scatter(&self, _ray: &Ray, _hit_record: &HitRecord) -> (r: Option<ScatterRecord<'static>>)
        ensures
            r is None,
    {
        None
    }
}

impl Isotropic {
    pub fn new(tex: Texture) -> (r: Self)
        ensures
            *r.tex == tex,
    {
        Self { tex: Box::new(tex) }
    }

    pub fn new_with_color(albedo: Vec3) -> (r: Self)
        ensures
            *r.tex == Texture::Color(SolidColor { albedo }),
    {
        Self { tex: Box::new(Texture::Color(SolidColor::new(albedo))) }
    }

    /// The record of an even bounce with the given attenuation: the next
    /// direction is to be sampled from the whole sphere.
    pub open spec fn spec_bounce(attenuation: Vec3) -> ScatterRecord<'static> {
        ScatterRecord {
            attenuation,
            pdf: PDF::Sphere(SpherePdf),
            skip_pdf: false,
            skip_pdf_ray: Ray::spec_default(),
        }
    }

    /// Scatters evenly: the attenuation is the texture's colour at the hit.
    pub fn scatter<T: Fn(Texel) -> Vec3>(&self, _ray: &Ray, hit_record: &HitRecord, texel: &T) -> (r:
        Option<ScatterRecord<'static>>)
        requires
            colouring(texel),
            self.tex.sound(),
        ensures
            r matches Some(s) && self.tex.colours(texel, hit_record.uv, hit_record.p, s.attenuation)
                && s == Self::spec_bounce(s.attenuation),
    {
        let mut srec: ScatterRecord<'static> = ScatterRecord::default();
        srec.attenuation = self.tex.value(&hit_record.uv, &hit_record.p, texel);
        srec.pdf = PDF::Sphere(SpherePdf);
        srec.skip_pdf = false;
        Some(srec)
    }
}

impl Material {
    /// Whether every texture of the material is sound.
    pub open spec fn sound(self) -> bool {
        match self {
            Material::Diffuse(l) => l.albedo.sound(),
            Material::DiffuseLight(l) => l.emit.sound(),
            Material::Isotropic(i) => i.tex.sound(),
            _ => true,
        }
    }

    /// Whether `out` is a possible density of scattering into the direction of
    /// `scattered` at a diffuse surface: what the density probe answers for
    /// the cosine lobe around the normal, but never less than zero.
    pub open spec fn spec_lobe<D: Fn(Lobe, Vec3) -> i64>(
        rec: HitRecord,
        scattered: Ray,
        density: &D,
        out: i64,
    ) -> bool {
        exists|raw: i64| #[trigger]
            call_ensures(density, (Lobe::Cosine(rec.normal), scattered.direction), raw) && out == (
            if raw < 0 {
                0
            } else {
                raw
            })
    }

    /// Whether `out` is a possible result of the scatter query for a ray that
    /// found `rec`, given what the probes answer.
    ///
    /// A diffuse surface and a medium's phase function always scatter, with
    /// the texture's colour as attenuation. A mirror and a clear solid report
    /// the one ray to follow, from what the optics answer; a mirror reports
    /// nothing for a direction that does not leave the surface. A light does
    /// not scatter.
    pub open spec fn scatters<T: Fn(Texel) -> Vec3, O: Fn(Ray, HitRecord) -> Look>(
        self,
        texel: &T,
        optics: &O,
        ray: Ray,
        rec: HitRecord,
        out: Option<ScatterRecord<'static>>,
    ) -> bool {
        match self {
            Material::Diffuse(l) => out matches Some(s) && l.albedo.colours(
                texel,
                rec.uv,
                rec.p,
                s.attenuation,
            ) && s == Lambertian::spec_bounce(rec, s.attenuation),
            Material::Metal(m) => exists|look: Look| #[trigger]
                call_ensures(optics, (ray, rec), look) && out == m.spec_scatter(
                    ray,
                    rec,
                    look.reflected,
                ),
            Material::Dielectric(d) => exists|look: Look| #[trigger]
                call_ensures(optics, (ray, rec), look) && out == Some(
                    Dielectric::spec_scatter(ray, rec, look),
                ),
            Material::DiffuseLight(_) => out is None,
            Material::Isotropic(i) => out matches Some(s) && i.tex.colours(
                texel,
                rec.uv,
                rec.p,
                s.attenuation,
            ) && s == Isotropic::spec_bounce(s.attenuation),
        }
    }

    /// Whether `out` is a possible emission toward a ray that found `rec`: a
    /// light's, and nothing for every other material.
    pub open spec fn emits<T: Fn(Texel) -> Vec3>(self, texel: &T, uv: Vec2, p: Vec3, rec: HitRecord, out: Vec3) -> bool {
        match self {
            Material::DiffuseLight(l) => l.emits(texel, uv, p, rec, out),
            _ => out == Vec3::spec_zeros(),
        }
    }

    /// Whether `out` is a possible density of scattering into the direction of
    /// `scattered`: that of the cosine lobe for a diffuse surface, and zero
    /// for every other material.
    pub open spec fn spreads<D: Fn(Lobe, Vec3) -> i64>(
        self,
        density: &D,
        scattered: Ray,
        rec: HitRecord,
        out: i64,
    ) -> bool {
        match self {
            Material::Diffuse(_) => Self::spec_lobe(rec, scattered, density, out),
            _ => out == 0,
        }
    }

    pub fn scatter<T: Fn(Texel) -> Vec3, O: Fn(Ray, HitRecord) -> Look>(
        &self,
        ray: &Ray,
        rec: &HitRecord,
        texel: &T,
        optics: &O,
    ) -> (r: Option<ScatterRecord<'static>>)
        requires
            colouring(texel),
            looking(optics),
            self.sound(),
        ensures
            self.scatters(texel, optics, *ray, *rec, r),
    {
        match self {
            Material::Diffuse(lambert) => lambert.scatter(ray, rec, texel),
            Material::Metal(metal) => {
                let look = optics(*ray, *rec);
                metal.scatter(ray, rec, look.reflected)
            },
            Material::Dielectric(dielectric) => {
                let look = optics(*ray, *rec);
                dielectric.scatter(ray, rec, &look)
            },
            Material::DiffuseLight(light) => light.scatter(ray, rec),
            Material::Isotropic(isotropic) => isotropic.scatter(ray, rec, texel),
        }
    }

    pub fn emitted<T: Fn(Texel) -> Vec3>(&self, uv: &Vec2, p: &Vec3, rec: &HitRecord, texel: &T) -> (r: Vec3)
        requires
            colouring(texel),
            self.sound(),
        ensures
            self.emits(texel, *uv, *p, *rec, r),
    {
        match self {
            Material::Diffuse(lambert) => lambert.emitted(uv, p, rec),
            Material::Metal(metal) => metal.emitted(uv, p, rec),
            Material::Dielectric(dielectric) => dielectric.emitted(uv, p, rec),
            Material::DiffuseLight(light) => light.emitted(uv, p, rec, texel),
            Material::Isotropic(_) => Vec3::zeros(),
        }
    }

    pub fn scattering_pdf<D: Fn(Lobe, Vec3) -> i64>(
        &self,
        ray: &Ray,
        scattered: &Ray,
        rec: &HitRecord,
        density: &D,
    ) -> (r: i64)
        requires
            weighing(density),
        ensures
            self.spreads(density, *scattered, *rec, r),
    {
        match self {
            Material::Diffuse(lambert) => lambert.scattering_pdf(ray, scattered, rec, density),
            _ => 0,
        }
    }
}

} // verus!
