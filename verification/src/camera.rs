//! The image sensor: maps normalized image-plane coordinates to world-space
//! rays from a fixed eye point.

use vstd::prelude::*;
use crate::fixed::mul_s;
use crate::ray::Ray;
use crate::vec3::{vec_add, vec_div, vec_scale, vec_sub, Vec3};

verus! {

/// Sensor parameters: `focal length` is the distance between the projection
/// plane and the projection point (origin); `origin` and `lower_left_corner`
/// together with the two viewport edge vectors fix its spatial orientation.
#[derive(Clone, Copy, Debug, PartialEq, Eq, Structural)]
pub struct Sensor {
    pub origin: Vec3,
    pub horizontal: Vec3,
    pub vertical: Vec3,
    pub lower_left_corner: Vec3,
}

/// The sensor derived from a viewport height, an aspect ratio and a focal
/// length (all fixed point), with its eye at the coordinate origin.
pub open spec fn sensor_new_s(height: int, aspect_ratio: int, focal_length: int) -> Sensor {
    let origin = Vec3 { x: 0, y: 0, z: 0 };
    let width = mul_s(aspect_ratio, height);
    let horizontal = Vec3 { x: width as i64, y: 0, z: 0 };
    let vertical = Vec3 { x: 0, y: height as i64, z: 0 };
    Sensor {
        origin,
        horizontal,
        vertical,
        lower_left_corner: vec_sub(
            vec_sub(vec_sub(origin, vec_div(horizontal, 131072)), vec_div(vertical, 131072)),
            Vec3 { x: 0, y: 0, z: focal_length as i64 },
        ),
    }
}

/// The ray from the eye through the viewport point at fractions `(u, v)`.
pub open spec fn calculate_ray_s(s: Sensor, u: int, v: int) -> Ray {
    Ray {
        origin: s.origin,
        direction: vec_sub(
            vec_add(vec_add(s.lower_left_corner, vec_scale(u, s.horizontal)), vec_scale(
                v,
                s.vertical,
            )),
            s.origin,
        ),
    }
}

impl Sensor {
    pub fn new(height: i64, aspect_ratio: i64, focal_length: i64) -> (r: Sensor)
        ensures
            r == sensor_new_s(height as int, aspect_ratio as int, focal_length as int),
    {
        let origin = Vec3::zero();
        let width: i64 = crate::fixed::fx_mul(aspect_ratio, height);
        let horizontal = Vec3::new(width, 0, 0);
        let vertical = Vec3::new(0, height, 0);

        Sensor {
            origin,
            horizontal,
            vertical,
            lower_left_corner: origin.sub(horizontal.div(131072)).sub(vertical.div(131072)).sub(
                Vec3::new(0, 0, focal_length),
            ),
        }
    }

    /// Creates a new ray going from the origin through the viewport point
    /// given by the offset fractions `u` and `v`.
    pub fn calculate_ray(&self, u: i64, v: i64) -> (r: Ray)
        ensures
            r == calculate_ray_s(*self, u as int, v as int),
    {
        Ray::new(
            self.origin,
            self.lower_left_corner.add(self.horizontal.scale(u)).add(self.vertical.scale(v)).sub(
                self.origin,
            ),
        )
    }
}

} // verus!
