//! Three-dimensional vectors over fixed-point scalars, used for points,
//! directions and offsets.

use vstd::prelude::*;
use crate::fixed::{add_s, div_s, mul_s, neg_s, sqrt_s, sub_s};
use crate::fixed::{fx_add, fx_div, fx_mul, fx_neg, fx_sqrt, fx_sub};
use crate::rng::{rand_sym_of, next_s, Rng};

verus! {

/// A point or direction; each component is a fixed-point scalar.
#[derive(Clone, Copy, Debug, PartialEq, Eq, Structural)]
pub struct Vec3 {
    pub x: i64,
    pub y: i64,
    pub z: i64,
}

pub open spec fn vec_add(a: Vec3, b: Vec3) -> Vec3 {
    Vec3 {
        x: add_s(a.x as int, b.x as int) as i64,
        y: add_s(a.y as int, b.y as int) as i64,
        z: add_s(a.z as int, b.z as int) as i64,
    }
}

pub open spec fn vec_sub(a: Vec3, b: Vec3) -> Vec3 {
    Vec3 {
        x: sub_s(a.x as int, b.x as int) as i64,
        y: sub_s(a.y as int, b.y as int) as i64,
        z: sub_s(a.z as int, b.z as int) as i64,
    }
}

pub open spec fn vec_neg(a: Vec3) -> Vec3 {
    Vec3 { x: neg_s(a.x as int) as i64, y: neg_s(a.y as int) as i64, z: neg_s(a.z as int) as i64 }
}

/// The vector scaled by the fixed-point factor `t`.
pub open spec fn vec_scale(t: int, a: Vec3) -> Vec3 {
    Vec3 {
        x: mul_s(t, a.x as int) as i64,
        y: mul_s(t, a.y as int) as i64,
        z: mul_s(t, a.z as int) as i64,
    }
}

/// The vector divided by the fixed-point scalar `t != 0`.
pub open spec fn vec_div(a: Vec3, t: int) -> Vec3 {
    Vec3 {
        x: div_s(a.x as int, t) as i64,
        y: div_s(a.y as int, t) as i64,
        z: div_s(a.z as int, t) as i64,
    }
}

pub open spec fn dot_s(a: Vec3, b: Vec3) -> int {
    add_s(
        add_s(mul_s(a.x as int, b.x as int), mul_s(a.y as int, b.y as int)),
        mul_s(a.z as int, b.z as int),
    )
}

pub open spec fn length_s(a: Vec3) -> int {
    sqrt_s(dot_s(a, a))
}

/// In fixed point any nonzero component is at least one step, far above the
/// tolerance a near-zero test is meant for, so near-zero means exactly zero.
pub open spec fn near_zero_s(a: Vec3) -> bool {
    a.x == 0 && a.y == 0 && a.z == 0
}

/// The direction drawn from state `s` by one triple of symmetric draws:
/// each component uniform in `[-1, 1)`.
pub open spec fn random_triple_s(s: u64) -> (Vec3, u64) {
    let x = rand_sym_of(s);
    let s1 = next_s(s);
    let y = rand_sym_of(s1);
    let s2 = next_s(s1);
    let z = rand_sym_of(s2);
    let s3 = next_s(s2);
    (Vec3 { x: x as i64, y: y as i64, z: z as i64 }, s3)
}

/// Rejection sampling for a point inside the unit sphere, with at most
/// `tries` draws left; when the budget runs out, a fixed unit axis stands in.
pub open spec fn random_in_unit_sphere_s(s: u64, tries: nat) -> (Vec3, u64)
    decreases tries,
{
    if tries == 0 {
        (Vec3 { x: 65536, y: 0, z: 0 }, s)
    } else {
        let (p, s2) = random_triple_s(s);
        if 0 < dot_s(p, p) < 65536 {
            (p, s2)
        } else {
            random_in_unit_sphere_s(s2, (tries - 1) as nat)
        }
    }
}

/// How many rejection-sampling draws are made before the fallback.
pub const SPHERE_SAMPLE_TRIES: u32 = 64;

/// The unit vector drawn from state `s`.
pub open spec fn random_unit_vector_s(s: u64) -> (Vec3, u64) {
    let (p, s2) = random_in_unit_sphere_s(s, SPHERE_SAMPLE_TRIES as nat);
    (vec_div(p, length_s(p)), s2)
}

impl Vec3 {
    pub fn new(x: i64, y: i64, z: i64) -> (r: Vec3)
        ensures
            r == (Vec3 { x, y, z }),
    {
        Vec3 { x, y, z }
    }

    pub fn zero() -> (r: Vec3)
        ensures
            r == (Vec3 { x: 0, y: 0, z: 0 }),
    {
        Vec3 { x: 0, y: 0, z: 0 }
    }

    pub fn x(&self) -> (r: i64)
        ensures
            r == self.x,
    {
        self.x
    }

    pub fn y(&self) -> (r: i64)
        ensures
            r == self.y,
    {
        self.y
    }

    pub fn z(&self) -> (r: i64)
        ensures
            r == self.z,
    {
        self.z
    }

    pub fn add(self, rhs: Vec3) -> (r: Vec3)
        ensures
            r == vec_add(self, rhs),
    {
        Vec3 { x: fx_add(self.x, rhs.x), y: fx_add(self.y, rhs.y), z: fx_add(self.z, rhs.z) }
    }

    pub fn sub(self, rhs: Vec3) -> (r: Vec3)
        ensures
            r == vec_sub(self, rhs),
    {
        Vec3 { x: fx_sub(self.x, rhs.x), y: fx_sub(self.y, rhs.y), z: fx_sub(self.z, rhs.z) }
    }

    pub fn neg(self) -> (r: Vec3)
        ensures
            r == vec_neg(self),
    {
        Vec3 { x: fx_neg(self.x), y: fx_neg(self.y), z: fx_neg(self.z) }
    }

    /// The vector scaled by the fixed-point factor `t`.
    pub fn scale(self, t: i64) -> (r: Vec3)
        ensures
            r == vec_scale(t as int, self),
    {
        Vec3 { x: fx_mul(t, self.x), y: fx_mul(t, self.y), z: fx_mul(t, self.z) }
    }

    /// The vector divided by the fixed-point scalar `rhs != 0`.
    pub fn div(self, rhs: i64) -> (r: Vec3)
        requires
            rhs != 0,
        ensures
            r == vec_div(self, rhs as int),
    {
        Vec3 { x: fx_div(self.x, rhs), y: fx_div(self.y, rhs), z: fx_div(self.z, rhs) }
    }

    pub fn dot(v1: Vec3, v2: Vec3) -> (r: i64)
        ensures
            r as int == dot_s(v1, v2),
    {
        fx_add(fx_add(fx_mul(v1.x, v2.x), fx_mul(v1.y, v2.y)), fx_mul(v1.z, v2.z))
    }

    pub fn length_squared(&self) -> (r: i64)
        ensures
            r as int == dot_s(*self, *self),
    {
        Vec3::dot(*self, *self)
    }

    pub fn length(&self) -> (r: i64)
        ensures
            r as int == length_s(*self),
    {
        fx_sqrt(self.length_squared())
    }

    /// True when every component is near zero; in fixed point, exactly zero.
    pub fn near_zero(&self) -> (r: bool)
        ensures
            r == near_zero_s(*self),
    {
        self.x == 0 && self.y == 0 && self.z == 0
    }

    /// Draws a direction of unit length: rejection sampling inside the unit
    /// sphere, normalized.
    pub fn random_unit_vector(rng: &mut Rng) -> (r: Vec3)
        ensures
            (r, final(rng).state) == random_unit_vector_s(old(rng).state),
    {
        let p = random_in_unit_sphere(rng);
        proof {
            lemma_in_sphere_length_positive(p);
        }
        unit_vector(p)
    }
}

/// A vector's squared length is never negative.
pub proof fn lemma_dot_self_nonneg(v: Vec3)
    ensures
        dot_s(v, v) >= 0,
{
    lemma_mul_self_component(v.x as int);
    lemma_mul_self_component(v.y as int);
    lemma_mul_self_component(v.z as int);
}

/// The fixed-point square of a scalar is never negative.
proof fn lemma_mul_self_component(x: int)
    ensures
        mul_s(x, x) >= 0,
{
    assert(x * x >= 0) by (nonlinear_arith);
    if x * x > 0 {
        assert((x * x) / 65536 >= 0) by (nonlinear_arith)
            requires
                x * x > 0,
        ;
    }
}

/// A vector whose squared length is positive has a positive length: its
/// squared length is at least one step, whose root is at least one step.
pub proof fn lemma_positive_dot_length(v: Vec3)
    requires
        dot_s(v, v) > 0,
    ensures
        length_s(v) > 0,
{
    let d: int = dot_s(v, v);
    crate::fixed::lemma_isqrt_some(d * 65536);
    let r: int = crate::fixed::isqrt(d * 65536);
    assert(r > 0) by (nonlinear_arith)
        requires
            r >= 0,
            r * r <= d * 65536,
            d * 65536 < (r + 1) * (r + 1),
            d >= 1,
    ;
}

/// A point drawn inside the unit sphere never has a zero-length rounding:
/// its squared length is at least one step, so its length is positive.
proof fn lemma_in_sphere_length_positive(p: Vec3)
    requires
        0 < dot_s(p, p) < 65536 || p == (Vec3 { x: 65536, y: 0, z: 0 }),
    ensures
        length_s(p) > 0,
{
    let d: int = dot_s(p, p);
    if 0 < d < 65536 {
        assert(d * 65536 >= 65536) by (nonlinear_arith)
            requires
                d >= 1,
        ;
        let r: int = crate::fixed::isqrt(d * 65536);
        assert(crate::fixed::is_sqrt(d * 65536, r) ==> r > 0) by (nonlinear_arith)
            requires
                d * 65536 >= 65536,
        ;
        crate::fixed::lemma_isqrt_some(d * 65536);
    } else {
        assert(dot_s(p, p) == 65536);
        let n: int = 65536int * 65536;
        crate::fixed::lemma_isqrt_some(n);
        let r: int = crate::fixed::isqrt(n);
        assert(r > 0) by (nonlinear_arith)
            requires
                r >= 0,
                r * r <= n,
                n < (r + 1) * (r + 1),
                n >= 65536,
        ;
    }
}

/// Rejection sampling: draw a triple with components in `[-1, 1)` until one
/// falls strictly inside the unit sphere (and is not the zero rounding), or
/// the budget of draws runs out and a fixed unit axis stands in.
fn random_in_unit_sphere(rng: &mut Rng) -> (r: Vec3)
    ensures
        (r, final(rng).state) == random_in_unit_sphere_s(old(rng).state, SPHERE_SAMPLE_TRIES as nat),
        0 < dot_s(r, r) < 65536 || r == (Vec3 { x: 65536, y: 0, z: 0 }),
{
    let mut tries: u32 = SPHERE_SAMPLE_TRIES;
    loop
        invariant
            tries <= SPHERE_SAMPLE_TRIES,
            random_in_unit_sphere_s(old(rng).state, SPHERE_SAMPLE_TRIES as nat)
                == random_in_unit_sphere_s(rng.state, tries as nat),
        decreases tries,
    {
        if tries == 0 {
            return Vec3 { x: 65536, y: 0, z: 0 };
        }
        let p = random_triple(rng);
        let ls: i64 = p.length_squared();
        if 0 < ls && ls < 65536 {
            return p;
        }
        tries = tries - 1;
    }
}

/// One triple of symmetric draws: each component uniform in `[-1, 1)`.
fn random_triple(rng: &mut Rng) -> (r: Vec3)
    ensures
        (r, final(rng).state) == random_triple_s(old(rng).state),
{
    let x: i64 = rng.rand_sym();
    let y: i64 = rng.rand_sym();
    let z: i64 = rng.rand_sym();
    Vec3 { x, y, z }
}

/// The vector scaled to unit length; `vec` must have a positive length.
fn unit_vector(vec: Vec3) -> (r: Vec3)
    requires
        length_s(vec) != 0,
    ensures
        r == vec_div(vec, length_s(vec)),
{
    let len: i64 = vec.length();
    vec.div(len)
}

} // verus!
