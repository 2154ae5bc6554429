//! The record describing where and how a ray meets a surface.

use vstd::prelude::*;
use crate::vec3::Vec3;

verus! {

/// The closest intersection found so far: the point hit, the outward surface
/// normal there, and the ray parameter of the hit.
#[derive(Clone, Copy, Debug, PartialEq, Eq, Structural)]
pub struct HitRecord {
    pub point: Vec3,
    pub normal: Vec3,
    pub t: i64,
}

impl HitRecord {
    /// A placeholder record; a hit test overwrites every field on success.
    pub fn new() -> (r: HitRecord)
        ensures
            r == (HitRecord {
                point: Vec3 { x: 0, y: 0, z: 0 },
                normal: Vec3 { x: 0, y: 0, z: 0 },
                t: 0,
            }),
    {
        HitRecord {
            point: Vec3 { x: 0, y: 0, z: 0 },
            normal: Vec3 { x: 0, y: 0, z: 0 },
            t: 0,
        }
    }
}

} // verus!
