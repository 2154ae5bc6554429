//! Material scattering: a closed set of two behaviors. A diffuse surface
//! always scatters; a metal reflects and may absorb the ray when the fuzzed
//! reflection points into the surface.

use vstd::prelude::*;
use crate::color::Color;
use crate::fixed::mul_s;
use crate::hit_record::HitRecord;
use crate::ray::{ray_unit_s, Ray};
use crate::rng::Rng;
use crate::vec3::{
    dot_s, length_s, near_zero_s, random_unit_vector_s, vec_add, vec_scale, vec_sub, Vec3,
};

verus! {

/// `2.0` in fixed point.
pub const FX_TWO: i64 = 131072;

/// `1.0` in fixed point: the upper clamp for a metal's fuzz.
pub const FUZZ_MAX: i64 = 65536;

/// A diffuse surface: reflects the fraction `albedo` of incoming light in a
/// random direction biased around the normal.
#[derive(Clone, Copy, Debug, PartialEq, Eq, Structural)]
pub struct Lambertian {
    pub albedo: Color,
}

/// A mirror-like surface; `fuzz` blurs the reflection (zero is a perfect
/// mirror, one unit the strongest blur).
#[derive(Clone, Copy, Debug, PartialEq, Eq, Structural)]
pub struct Metal {
    pub albedo: Color,
    pub fuzz: i64,
}

/// The closed set of scattering behaviors.
#[derive(Clone, Copy, Debug, PartialEq, Eq, Structural)]
pub enum Material {
    Lambertian(Lambertian),
    Metal(Metal),
}

/// The vector `v` reflected about the surface `normal`:
/// `v - 2 * dot(v, normal) * normal`.
pub open spec fn reflect_s(v: Vec3, normal: Vec3) -> Vec3 {
    vec_sub(v, vec_scale(mul_s(131072, dot_s(v, normal)), normal))
}

/// A diffuse scatter: the normal plus a random unit direction, falling back
/// to the normal itself when the sum rounds to zero. Never absorbs.
pub open spec fn lambertian_scatter_s(rec: HitRecord, s: u64) -> (Option<Ray>, u64) {
    let (ruv, s2) = random_unit_vector_s(s);
    let candidate = vec_add(rec.normal, ruv);
    let direction = if near_zero_s(candidate) {
        rec.normal
    } else {
        candidate
    };
    (Some(Ray { origin: rec.point, direction }), s2)
}

/// A metal scatter: the unit incoming direction reflected about the normal
/// and perturbed by `fuzz` times a random unit direction; absorbed exactly
/// when the perturbed reflection does not point outward.
pub open spec fn metal_scatter_s(m: Metal, rec: HitRecord, ray_in: Ray, s: u64) -> (
    Option<Ray>,
    u64,
) {
    let reflected = reflect_s(ray_unit_s(ray_in), rec.normal);
    let (ruv, s2) = random_unit_vector_s(s);
    let scattered = Ray {
        origin: rec.point,
        direction: vec_add(reflected, vec_scale(m.fuzz as int, ruv)),
    };
    if dot_s(scattered.direction, rec.normal) > 0 {
        (Some(scattered), s2)
    } else {
        (None, s2)
    }
}

/// Scatter of either material.
pub open spec fn scatter_s(m: Material, rec: HitRecord, ray_in: Ray, s: u64) -> (Option<Ray>, u64) {
    match m {
        Material::Lambertian(_) => lambertian_scatter_s(rec, s),
        Material::Metal(metal) => metal_scatter_s(metal, rec, ray_in, s),
    }
}

/// The fraction of light either material reflects.
pub open spec fn attenuation_s(m: Material) -> Color {
    match m {
        Material::Lambertian(l) => l.albedo,
        Material::Metal(metal) => metal.albedo,
    }
}

impl Lambertian {
    pub fn new(albedo: Color) -> (r: Lambertian)
        ensures
            r == (Lambertian { albedo }),
    {
        Lambertian { albedo }
    }

    /// Diffuse scatter; never signals absorption.
    pub fn scatter(&self, rec: &HitRecord, _ray_in: &Ray, rng: &mut Rng) -> (r: Option<Ray>)
        ensures
            (r, final(rng).state) == lambertian_scatter_s(*rec, old(rng).state),
            r is Some,
    {
        let mut direction = rec.normal.add(Vec3::random_unit_vector(rng));

        if direction.near_zero() {
            direction = rec.normal;
        }

        let new_ray = Ray::new(rec.point, direction);
        Some(new_ray)
    }

    pub fn attenuation(&self) -> (r: Color)
        ensures
            r == self.albedo,
    {
        self.albedo.copy()
    }
}

impl Metal {
    /// A metal whose reflection is blurred by `fuzz`; values above one unit
    /// are clamped down to one unit.
    pub fn fuzzy(albedo: Color, fuzz: i64) -> (r: Metal)
        ensures
            r == (Metal { albedo, fuzz: if fuzz < 65536 { fuzz } else { 65536 } }),
    {
        let fuzz: i64 = if fuzz < FUZZ_MAX {
            fuzz
        } else {
            FUZZ_MAX
        };
        Metal { albedo, fuzz }
    }

    /// A perfect mirror: no blur.
    pub fn shiny(albedo: Color) -> (r: Metal)
        ensures
            r == (Metal { albedo, fuzz: 0 }),
    {
        Metal { albedo, fuzz: 0 }
    }

    /// Mirror scatter; absorbs exactly when the perturbed reflection does
    /// not point outward from the surface.
    pub fn scatter(&self, rec: &HitRecord, ray_in: &Ray, rng: &mut Rng) -> (r: Option<Ray>)
        requires
            length_s(ray_in.direction) != 0,
        ensures
            (r, final(rng).state) == metal_scatter_s(*self, *rec, *ray_in, old(rng).state),
            r is Some <==> dot_s(
                vec_add(
                    reflect_s(ray_unit_s(*ray_in), rec.normal),
                    vec_scale(self.fuzz as int, random_unit_vector_s(old(rng).state).0),
                ),
                rec.normal,
            ) > 0,
    {
        let reflected = reflect(ray_in.unit_vector(), rec.normal);
        let scattered = Ray::new(
            rec.point,
            reflected.add(Vec3::random_unit_vector(rng).scale(self.fuzz)),
        );
        if Vec3::dot(scattered.direction(), rec.normal) > 0 {
            Some(scattered)
        } else {
            None
        }
    }

    pub fn attenuation(&self) -> (r: Color)
        ensures
            r == self.albedo,
    {
        self.albedo.copy()
    }
}

impl Material {
    /// Scatter of either material; the caller guarantees a non-degenerate
    /// incoming ray. A diffuse material never absorbs; a metal absorbs
    /// exactly when its perturbed reflection points into the surface.
    pub fn scatter(&self, rec: &HitRecord, ray_in: &Ray, rng: &mut Rng) -> (r: Option<Ray>)
        requires
            length_s(ray_in.direction) != 0,
        ensures
            (r, final(rng).state) == scatter_s(*self, *rec, *ray_in, old(rng).state),
            self is Lambertian ==> r is Some,
    {
        match self {
            Material::Lambertian(l) => l.scatter(rec, ray_in, rng),
            Material::Metal(m) => m.scatter(rec, ray_in, rng),
        }
    }

    /// The color of the material.
    pub fn attenuation(&self) -> (r: Color)
        ensures
            r == attenuation_s(*self),
    {
        match self {
            Material::Lambertian(l) => l.attenuation(),
            Material::Metal(m) => m.attenuation(),
        }
    }
}

/// Reflects vector `v` from the surface given by the `normal` vector.
fn reflect(v: Vec3, normal: Vec3) -> (r: Vec3)
    ensures
        r == reflect_s(v, normal),
{
    let b: i64 = Vec3::dot(v, normal);
    v.sub(normal.scale(crate::fixed::fx_mul(FX_TWO, b)))
}

} // verus!
