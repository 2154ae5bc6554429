//! Rays: parametric lines `P(t) = origin + t * direction` used to query the
//! scene geometry.

use vstd::prelude::*;
use crate::vec3::{length_s, vec_add, vec_div, vec_scale, Vec3};

verus! {

/// A ray; the direction need not be normalized.
#[derive(Clone, Copy, Debug, PartialEq, Eq, Structural)]
pub struct Ray {
    pub origin: Vec3,
    pub direction: Vec3,
}

/// The point `origin + t * direction`.
pub open spec fn ray_at_s(r: Ray, t: int) -> Vec3 {
    vec_add(r.origin, vec_scale(t, r.direction))
}

/// The direction scaled to unit length; meaningful only for a direction of
/// positive length.
pub open spec fn ray_unit_s(r: Ray) -> Vec3 {
    vec_div(r.direction, length_s(r.direction))
}

impl Ray {
    pub fn new(origin: Vec3, direction: Vec3) -> (r: Ray)
        ensures
            r == (Ray { origin, direction }),
    {
        Ray { origin, direction }
    }

    /// The point `P(t) = origin + direction * t`.
    pub fn at(&self, t: i64) -> (r: Vec3)
        ensures
            r == ray_at_s(*self, t as int),
    {
        self.origin.add(self.direction.scale(t))
    }

    /// The direction scaled to unit length; the caller guarantees a
    /// non-degenerate direction.
    pub fn unit_vector(&self) -> (r: Vec3)
        requires
            length_s(self.direction) != 0,
        ensures
            r == ray_unit_s(*self),
    {
        let len: i64 = self.direction.length();
        self.direction.div(len)
    }

    pub fn direction(&self) -> (r: Vec3)
        ensures
            r == self.direction,
    {
        self.direction
    }

    pub fn origin(&self) -> (r: Vec3)
        ensures
            r == self.origin,
    {
        self.origin
    }
}

} // verus!
