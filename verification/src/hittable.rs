//! The capability of being hit by a ray: the closed set of geometry
//! variants, each answering an exact intersection query and reporting a
//! bounding box. Adding a shape means adding a variant here; the
//! acceleration structure and the integrator never look inside.

use vstd::prelude::*;
use crate::aabb::Aabb;
use crate::interval::Interval;
use crate::objects::sphere::{spec_sphere_hit, SphereObject};
use crate::ray::{Intersection, Ray};

verus! {

/// An object that can be hit by a ray.
#[derive(Debug, Clone, PartialEq, Eq, Structural)]
pub enum Hittable {
    /// A sphere.
    Sphere(SphereObject),
}

/// The exact intersection query of an object, by variant.
pub open spec fn spec_object_hit(o: Hittable, ray: Ray, time: Interval) -> Option<Intersection> {
    match o {
        Hittable::Sphere(s) => spec_sphere_hit(s, ray, time),
    }
}

/// The bounding box an object reports, by variant.
pub open spec fn spec_object_box(o: Hittable) -> Aabb {
    match o {
        Hittable::Sphere(s) => s.bounding_box,
    }
}

/// The material an object was given.
pub open spec fn spec_object_material(o: Hittable) -> crate::resources::MaterialId {
    match o {
        Hittable::Sphere(s) => s.material,
    }
}

/// A reported intersection lies strictly inside the queried interval, its
/// point is the ray evaluated at its distance, and it names the object's
/// own material.
pub proof fn lemma_object_hit_props(o: Hittable, ray: Ray, time: Interval)
    ensures
        spec_object_hit(o, ray, time) matches Some(h) ==> time.start < h.t < time.end
            && h.point == crate::ray::spec_ray_at(ray, h.t) && h.material
            == spec_object_material(o),
{
}

/// Shrinking the far end of the query interval changes an object's answer
/// in the one predictable way: the same hit while it still fits, none
/// otherwise.
pub proof fn lemma_object_hit_shrink(o: Hittable, ray: Ray, time: Interval, te: i64)
    requires
        te <= time.end,
    ensures
        spec_object_hit(o, ray, Interval { start: time.start, end: te }) == (
        match spec_object_hit(o, ray, time) {
            Some(h) => if h.t < te {
                Some(h)
            } else {
                None::<Intersection>
            },
            None => None,
        }),
{
    match o {
        Hittable::Sphere(s) => {
            crate::objects::sphere::lemma_sphere_hit_shrink(s, ray, time, te);
        },
    }
}

impl Hittable {
    /// Checks for an intersection between the ray and the object strictly
    /// inside the open time interval.
    pub fn hit(&self, r: &Ray, time: Interval) -> (res: Option<Intersection>)
        ensures
            res == spec_object_hit(*self, *r, time),
    {
        match self {
            Hittable::Sphere(s) => s.hit(r, time),
        }
    }

    /// The bounding box enclosing the object.
    pub fn bounding_box(&self) -> (b: Aabb)
        ensures
            b == spec_object_box(*self),
    {
        match self {
            Hittable::Sphere(s) => s.bounding_box(),
        }
    }
}

} // verus!
