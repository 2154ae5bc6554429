//! Scene objects: spheres carrying a material, with the ray-sphere hit test.

use vstd::prelude::*;
use crate::color::Color;
use crate::fixed::{add_s, div_s, mul_s, neg_s, sdiv, sqrt_s, sub_s};
use crate::fixed::{fx_add, fx_div, fx_mul, fx_neg, fx_sqrt, fx_sub};
use crate::hit_record::HitRecord;
use crate::material::{attenuation_s, scatter_s, Material};
use crate::ray::{ray_at_s, Ray};
use crate::rng::Rng;
use crate::vec3::{dot_s, length_s, vec_div, vec_sub, Vec3};

verus! {

/// A sphere with an attached material; its radius is positive.
#[derive(Clone, Copy, Debug, PartialEq, Eq, Structural)]
pub struct Sphere {
    pub center: Vec3,
    pub radius: i64,
    pub material: Material,
}

impl Sphere {
    /// A sphere is well formed when its radius is positive.
    pub open spec fn wf(self) -> bool {
        self.radius > 0
    }

    pub fn new(center: Vec3, radius: i64, material: Material) -> (r: Sphere)
        requires
            radius > 0,
        ensures
            r == (Sphere { center, radius, material }),
            r.wf(),
    {
        Sphere { center, radius, material }
    }
}

/// The record a hit at parameter `t` fills: the point on the ray, and the
/// outward normal, the offset from the center divided by the radius.
pub open spec fn hit_record_at_s(s: Sphere, ray: Ray, t: int) -> HitRecord {
    let point = ray_at_s(ray, t);
    HitRecord {
        point,
        normal: vec_div(vec_sub(point, s.center), s.radius as int),
        t: t as i64,
    }
}

/// The quadratic coefficient `a`: the squared length of the ray direction.
pub open spec fn quad_a_s(s: Sphere, ray: Ray) -> int {
    dot_s(ray.direction, ray.direction)
}

/// The quadratic coefficient `b = 2 * dot(direction, origin - center)`.
pub open spec fn quad_b_s(s: Sphere, ray: Ray) -> int {
    mul_s(131072, dot_s(ray.direction, vec_sub(ray.origin, s.center)))
}

/// The quadratic coefficient `c = |origin - center|^2 - radius^2`.
pub open spec fn quad_c_s(s: Sphere, ray: Ray) -> int {
    let oc = vec_sub(ray.origin, s.center);
    sub_s(dot_s(oc, oc), mul_s(s.radius as int, s.radius as int))
}

/// The discriminant `b^2 - 4 a c`.
pub open spec fn disc_s(s: Sphere, ray: Ray) -> int {
    sub_s(
        mul_s(quad_b_s(s, ray), quad_b_s(s, ray)),
        mul_s(mul_s(262144, quad_a_s(s, ray)), quad_c_s(s, ray)),
    )
}

/// The near-side root `(-b - sqrt(disc)) / (2 a)`.
pub open spec fn root1_s(s: Sphere, ray: Ray) -> int {
    div_s(
        sub_s(neg_s(quad_b_s(s, ray)), sqrt_s(disc_s(s, ray))),
        mul_s(131072, quad_a_s(s, ray)),
    )
}

/// The far-side root `(-b + sqrt(disc)) / (2 a)`.
pub open spec fn root2_s(s: Sphere, ray: Ray) -> int {
    div_s(
        add_s(neg_s(quad_b_s(s, ray)), sqrt_s(disc_s(s, ray))),
        mul_s(131072, quad_a_s(s, ray)),
    )
}

/// The hit test: solve the quadratic `|ray(t) - center|^2 = radius^2` and
/// accept the smaller root when it lies strictly inside `(t_min, t_max)`,
/// else the larger root, else nothing. A degenerate ray direction (one whose
/// squared length rounds to zero) hits nothing.
pub open spec fn hit_s(s: Sphere, ray: Ray, t_min: int, t_max: int) -> Option<HitRecord> {
    if disc_s(s, ray) < 0 || quad_a_s(s, ray) == 0 {
        None
    } else {
        let root1 = root1_s(s, ray);
        if t_min < root1 && root1 < t_max {
            Some(hit_record_at_s(s, ray, root1))
        } else {
            let root2 = root2_s(s, ray);
            if t_min < root2 && root2 < t_max {
                Some(hit_record_at_s(s, ray, root2))
            } else {
                None
            }
        }
    }
}

/// The near-side root never lies beyond the far-side root.
pub proof fn lemma_roots_ordered(s: Sphere, ray: Ray)
    requires
        quad_a_s(s, ray) > 0,
    ensures
        root1_s(s, ray) <= root2_s(s, ray),
{
    let bq: int = quad_b_s(s, ray);
    let sq: int = sqrt_s(disc_s(s, ray));
    crate::fixed::lemma_sqrt_s_nonneg(disc_s(s, ray));
    let lo: int = sub_s(neg_s(bq), sq);
    let hi: int = add_s(neg_s(bq), sq);
    assert(lo <= hi);
    let two_a: int = mul_s(131072, quad_a_s(s, ray));
    lemma_double_positive(quad_a_s(s, ray));
    crate::fixed::lemma_sdiv_monotone(lo * 65536, hi * 65536, two_a);
}

/// Narrowing the upper end of the interval to (or below) an accepted hit's
/// parameter rejects the sphere: no root lies strictly below the cut.
pub proof fn lemma_hit_narrow_above(s: Sphere, ray: Ray, t_min: int, t_max: int, t_cut: int)
    requires
        hit_s(s, ray, t_min, t_max) is Some,
        t_cut <= hit_s(s, ray, t_min, t_max)->Some_0.t,
        t_cut <= t_max,
    ensures
        hit_s(s, ray, t_min, t_cut) is None,
{
    crate::vec3::lemma_dot_self_nonneg(ray.direction);
    lemma_roots_ordered(s, ray);
}

/// Narrowing the upper end of the interval while keeping it strictly above
/// an accepted hit's parameter keeps the very same hit.
pub proof fn lemma_hit_narrow_keep(s: Sphere, ray: Ray, t_min: int, t_max: int, t_cut: int)
    requires
        hit_s(s, ray, t_min, t_max) is Some,
        hit_s(s, ray, t_min, t_max)->Some_0.t < t_cut,
        t_cut <= t_max,
    ensures
        hit_s(s, ray, t_min, t_cut) == hit_s(s, ray, t_min, t_max),
{
    crate::vec3::lemma_dot_self_nonneg(ray.direction);
    lemma_roots_ordered(s, ray);
}

/// An accepted hit's normal points outward: its inner product with the
/// offset from the center to the hit point is never negative. (Strict
/// positivity can be lost to rounding: a hit point whose offset components
/// all round to zero under division by the radius yields a zero normal.)
pub proof fn lemma_hit_normal_outward(s: Sphere, ray: Ray, t_min: int, t_max: int)
    requires
        s.wf(),
        hit_s(s, ray, t_min, t_max) is Some,
    ensures
        ({
            let rec = hit_s(s, ray, t_min, t_max)->Some_0;
            dot_s(rec.normal, vec_sub(rec.point, s.center)) >= 0
        }),
{
    let rec = hit_s(s, ray, t_min, t_max)->Some_0;
    let o = vec_sub(rec.point, s.center);
    lemma_hit_properties(s, ray, t_min, t_max);
    assert(rec.normal == vec_div(o, s.radius as int));
    lemma_outward_component(o.x as int, s.radius as int);
    lemma_outward_component(o.y as int, s.radius as int);
    lemma_outward_component(o.z as int, s.radius as int);
}

/// One component of an outward normal: dividing an offset component by the
/// positive radius keeps its sign, so their fixed-point product is never
/// negative.
proof fn lemma_outward_component(o: int, radius: int)
    requires
        radius > 0,
        i64::MIN <= o <= i64::MAX,
    ensures
        mul_s(div_s(o, radius), o) >= 0,
{
    crate::fixed::lemma_sdiv_sign(o * 65536, radius);
    if o >= 0 {
        crate::fixed::lemma_mul_s_nonneg(div_s(o, radius), o);
    } else {
        crate::fixed::lemma_mul_s_nonneg(div_s(o, radius), o);
    }
}

/// Doubling a positive fixed-point scalar stays positive.
pub proof fn lemma_double_positive(a: int)
    requires
        1 <= a <= i64::MAX,
    ensures
        mul_s(131072, a) >= 2,
{
    assert(131072 * a == (2 * a) * 65536) by (nonlinear_arith);
    vstd::arithmetic::div_mod::lemma_div_by_multiple(2 * a, 65536);
    assert(sdiv(131072 * a, 65536) == 2 * a);
}

/// What a successful hit promises: the parameter lies strictly inside the
/// interval, the ray direction is non-degenerate, and the record holds the
/// hit point with the outward normal scaled by the inverse radius.
pub proof fn lemma_hit_properties(s: Sphere, ray: Ray, t_min: int, t_max: int)
    requires
        hit_s(s, ray, t_min, t_max) is Some,
    ensures
        ({
            let rec = hit_s(s, ray, t_min, t_max)->Some_0;
            &&& t_min < rec.t < t_max
            &&& dot_s(ray.direction, ray.direction) > 0
            &&& rec.point == ray_at_s(ray, rec.t as int)
            &&& rec.normal == vec_div(vec_sub(rec.point, s.center), s.radius as int)
            &&& length_s(ray.direction) > 0
        }),
{
    let a: int = dot_s(ray.direction, ray.direction);
    crate::vec3::lemma_dot_self_nonneg(ray.direction);
    assert(a > 0);
    crate::vec3::lemma_positive_dot_length(ray.direction);
}

impl Sphere {
    /// The intersection is a solution of a quadratic equation describing the
    /// spatial geometry of ray and sphere. If it has two roots the ray
    /// crosses the sphere; the root closer to the ray origin is preferred,
    /// and a root counts only strictly inside `(t_min, t_max)`. On success
    /// the record is filled and `true` returned; otherwise the record is
    /// left untouched.
    pub fn hit(&self, ray: &Ray, t_min: i64, t_max: i64, rec: &mut HitRecord) -> (r: bool)
        requires
            self.wf(),
        ensures
            r == (hit_s(*self, *ray, t_min as int, t_max as int) is Some),
            match hit_s(*self, *ray, t_min as int, t_max as int) {
                Some(h) => *final(rec) == h,
                None => *final(rec) == *old(rec),
            },
    {
        // oc = line segment between origin and center
        let oc = ray.origin().sub(self.center);
        let a: i64 = Vec3::dot(ray.direction(), ray.direction());
        let b: i64 = fx_mul(131072, Vec3::dot(ray.direction(), oc));
        let c: i64 = fx_sub(Vec3::dot(oc, oc), fx_mul(self.radius, self.radius));

        let discriminant: i64 = fx_sub(fx_mul(b, b), fx_mul(fx_mul(262144, a), c));
        if discriminant < 0 {
            return false;
        }
        proof {
            crate::vec3::lemma_dot_self_nonneg(ray.direction);
        }
        if a == 0 {
            return false;
        }
        proof {
            lemma_double_positive(a as int);
        }

        let sq: i64 = fx_sqrt(discriminant);
        let two_a: i64 = fx_mul(131072, a);
        let mut root: i64 = fx_div(fx_sub(fx_neg(b), sq), two_a);
        if root <= t_min || t_max <= root {
            root = fx_div(fx_add(fx_neg(b), sq), two_a);
            if root <= t_min || t_max <= root {
                return false;
            }
        }

        let point = ray.at(root);
        *rec = HitRecord {
            t: root,
            point,
            normal: point.sub(self.center).div(self.radius),
        };

        true
    }

    /// Scatter of the sphere's material at a hit on this sphere.
    pub fn scatter(&self, rec: &HitRecord, ray_in: &Ray, rng: &mut Rng) -> (r: Option<Ray>)
        requires
            length_s(ray_in.direction) != 0,
        ensures
            (r, final(rng).state) == scatter_s(self.material, *rec, *ray_in, old(rng).state),
            self.material is Lambertian ==> r is Some,
    {
        self.material.scatter(rec, ray_in, rng)
    }

    /// The color of the sphere's material.
    pub fn attenuation(&self) -> (r: Color)
        ensures
            r == attenuation_s(self.material),
    {
        self.material.attenuation()
    }
}

} // verus!
