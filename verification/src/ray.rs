//! Rays and the record of a ray meeting geometry.

use vstd::prelude::*;
use crate::resources::MaterialId;
use crate::vector::{spec_dot, spec_v_add, spec_v_neg, spec_v_scale, Point3, Vec3};

verus! {

/// A ray in 3D space, with an origin and a direction. The direction need not
/// have unit length.
#[derive(Debug, Clone, Copy, PartialEq, Eq, Structural)]
pub struct Ray {
    /// The origin of the ray.
    pub orig: Point3,
    /// The direction of the ray.
    pub dir: Vec3,
}

/// The point along a ray at a given parametric distance.
pub open spec fn spec_ray_at(r: Ray, t: i64) -> Point3 {
    spec_v_add(r.orig, spec_v_scale(r.dir, t))
}

impl Ray {
    /// Create a new ray with the given origin and direction.
    pub fn new(orig: Point3, dir: Vec3) -> (r: Ray)
        ensures
            r == (Ray { orig, dir }),
    {
        Ray { orig, dir }
    }

    /// Get the point along the ray at a given distance.
    pub fn at(&self, t: i64) -> (p: Point3)
        ensures
            p == spec_ray_at(*self, t),
    {
        self.orig.add(self.dir.scale(t))
    }
}

/// A record of a hit by a ray. Created fresh per successful geometry test and
/// never mutated after construction.
#[derive(Debug, Clone, Copy, PartialEq, Eq, Structural)]
pub struct Intersection {
    /// The point at which the ray hit the object.
    pub point: Point3,
    /// The normal vector of the object at the point of intersection, always
    /// flipped to oppose the incoming ray.
    pub normal: Vec3,
    /// Whether the ray hit the object from the outside.
    pub front_face: bool,
    /// The material of the object that was hit.
    pub material: MaterialId,
    /// The distance from the ray's origin to the point of intersection.
    pub t: i64,
    /// The u texture coordinate of the hit.
    pub u: i64,
    /// The v texture coordinate of the hit.
    pub v: i64,
}

/// A ray approaches from outside exactly when its direction opposes the
/// outward normal.
pub open spec fn spec_front_face(ray: Ray, outward_normal: Vec3) -> bool {
    spec_dot(ray.dir, outward_normal) < 0
}

impl Intersection {
    /// Calculate the normal vector of the object at the point of
    /// intersection, and whether the ray hit the object from the outside:
    /// the reported normal always points against the incoming ray.
    pub fn face_normal(ray: &Ray, outward_normal: Vec3) -> (r: (bool, Vec3))
        ensures
            r.0 == spec_front_face(*ray, outward_normal),
            r.1 == (if spec_front_face(*ray, outward_normal) {
                outward_normal
            } else {
                spec_v_neg(outward_normal)
            }),
    {
        let front_face = ray.dir.dot(outward_normal) < 0;
        let normal = if front_face {
            outward_normal
        } else {
            outward_normal.neg()
        };
        (front_face, normal)
    }
}

} // verus!
