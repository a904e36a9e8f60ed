//! Spheres, the archetype of hittable geometry.

use vstd::prelude::*;
use crate::aabb::Aabb;
use crate::fixed::{
    spec_q_add, spec_q_sub, spec_q_mul, spec_q_div, spec_q_sqrt, spec_q_min,
    spec_q_max, q_add, q_sub, q_mul, q_div, q_sqrt, q_min, q_max, SCALE,
};
use crate::interval::Interval;
use crate::ray::{spec_front_face, spec_ray_at, Intersection, Ray};
use crate::resources::MaterialId;
use crate::trig::{spec_acos, spec_atan2, acos_q, atan2_q, PI_Q, TWO_PI_Q};
use crate::vector::{
    spec_dot, spec_len_sq, spec_v_div, spec_v_neg, spec_v_sub, Point3, Vec3,
};

verus! {

/// A sphere object in 3D space.
#[derive(Debug, Clone, PartialEq, Eq, Structural)]
pub struct SphereObject {
    /// The center of the sphere.
    pub center: Point3,
    /// The radius of the sphere.
    pub radius: i64,
    /// The material of the sphere.
    pub material: MaterialId,
    /// The bounding box of the sphere, computed once at construction.
    pub bounding_box: Aabb,
}

/// The box `center +- (radius, radius, radius)`.
pub open spec fn spec_sphere_aabb(center: Point3, radius: i64) -> Aabb {
    Aabb {
        x: Interval {
            start: spec_q_sub(center.x, radius),
            end: spec_q_add(center.x, radius),
        },
        y: Interval {
            start: spec_q_sub(center.y, radius),
            end: spec_q_add(center.y, radius),
        },
        z: Interval {
            start: spec_q_sub(center.z, radius),
            end: spec_q_add(center.z, radius),
        },
    }
}

/// Clamps a scalar into the unit range `[0, 1]`.
pub open spec fn spec_clamp_unit(x: i64) -> i64 {
    spec_q_max(spec_q_min(x, SCALE as i64), 0)
}

/// The standard spherical parameterization of the outward normal:
/// `theta = acos(-y)`, `phi = atan2(-z, x) + pi`, `u = phi / 2pi`,
/// `v = theta / pi`, both clamped into the unit range.
pub open spec fn spec_sphere_uv(p: Point3) -> (i64, i64) {
    let theta = spec_acos(spec_q_sub(0, p.y));
    let phi = spec_q_add(spec_atan2(spec_q_sub(0, p.z), p.x), PI_Q as i64);
    (
        spec_clamp_unit(spec_q_div(phi, TWO_PI_Q as i64)),
        spec_clamp_unit(spec_q_div(theta, PI_Q as i64)),
    )
}

/// The squared direction length, the half-b coefficient, and the
/// discriminant of the ray/sphere quadratic.
pub open spec fn spec_sphere_terms(s: SphereObject, ray: Ray) -> (i64, i64, i64) {
    let oc = spec_v_sub(s.center, ray.orig);
    let a = spec_len_sq(ray.dir);
    let h = spec_dot(oc, ray.dir);
    let c = spec_q_sub(spec_len_sq(oc), spec_q_mul(s.radius, s.radius));
    let disc = spec_q_sub(spec_q_mul(h, h), spec_q_mul(a, c));
    (a, h, disc)
}

/// The smaller, preferred root of the quadratic.
pub open spec fn spec_sphere_t1(s: SphereObject, ray: Ray) -> i64 {
    let (a, h, disc) = spec_sphere_terms(s, ray);
    spec_q_div(spec_q_sub(h, spec_q_sqrt(disc)), a)
}

/// The larger, alternative root of the quadratic.
pub open spec fn spec_sphere_t2(s: SphereObject, ray: Ray) -> i64 {
    let (a, h, disc) = spec_sphere_terms(s, ray);
    spec_q_div(spec_q_add(h, spec_q_sqrt(disc)), a)
}

/// The parametric distance at which a ray first meets the sphere strictly
/// inside the open time interval: the half-b quadratic is solved, the
/// smaller root is preferred, and the larger root is used only when the
/// smaller one lies outside the interval. The roots themselves do not depend
/// on the interval.
pub open spec fn spec_sphere_root(s: SphereObject, ray: Ray, time: Interval) -> Option<i64> {
    let disc = spec_sphere_terms(s, ray).2;
    if disc < 0 {
        None
    } else {
        let t1 = spec_sphere_t1(s, ray);
        if time.start < t1 && t1 < time.end {
            Some(t1)
        } else {
            let t2 = spec_sphere_t2(s, ray);
            if time.start < t2 && t2 < time.end {
                Some(t2)
            } else {
                None
            }
        }
    }
}

/// The full intersection record for a sphere hit: hit point, outward normal
/// scaled by the inverse radius, front-face flag, texture coordinates.
pub open spec fn spec_sphere_hit(s: SphereObject, ray: Ray, time: Interval) -> Option<
    Intersection,
> {
    match spec_sphere_root(s, ray, time) {
        None => None,
        Some(t) => {
            let point = spec_ray_at(ray, t);
            let outward = spec_v_div(spec_v_sub(point, s.center), s.radius);
            let ff = spec_front_face(ray, outward);
            let normal = if ff {
                outward
            } else {
                spec_v_neg(outward)
            };
            let uv = spec_sphere_uv(outward);
            Some(
                Intersection {
                    point,
                    normal,
                    front_face: ff,
                    material: s.material,
                    t,
                    u: uv.0,
                    v: uv.1,
                },
            )
        },
    }
}

/// The squared length of any vector is non-negative: it is a sum of
/// squares under saturating arithmetic.
proof fn lemma_len_sq_nonneg(v: Vec3)
    ensures
        spec_len_sq(v) >= 0,
{
    crate::fixed::lemma_q_square_nonneg(v.x);
    crate::fixed::lemma_q_square_nonneg(v.y);
    crate::fixed::lemma_q_square_nonneg(v.z);
}

/// The two roots of the quadratic come in order: the preferred root never
/// exceeds the alternative.
proof fn lemma_sphere_roots_ordered(s: SphereObject, ray: Ray)
    ensures
        spec_sphere_t1(s, ray) <= spec_sphere_t2(s, ray),
{
    let (a, h, disc) = spec_sphere_terms(s, ray);
    let sq = spec_q_sqrt(disc);
    lemma_len_sq_nonneg(ray.dir);
    crate::fixed::lemma_q_sqrt_nonneg(disc);
    crate::fixed::lemma_q_div_monotone(spec_q_sub(h, sq), spec_q_add(h, sq), a);
}

/// Shrinking the far end of the query interval changes the answer in the
/// one predictable way: the same hit while it still fits, none otherwise.
/// The roots themselves do not depend on the interval, so this is a case
/// analysis over where they fall.
pub proof fn lemma_sphere_hit_shrink(s: SphereObject, ray: Ray, time: Interval, te: i64)
    requires
        te <= time.end,
    ensures
        spec_sphere_hit(s, ray, Interval { start: time.start, end: te }) == (
        match spec_sphere_hit(s, ray, time) {
            Some(h) => if h.t < te {
                Some(h)
            } else {
                None::<crate::ray::Intersection>
            },
            None => None,
        }),
{
    lemma_sphere_roots_ordered(s, ray);
}

impl SphereObject {
    /// Create a new sphere object with the given center, radius, and
    /// material; the bounding box is computed here, once.
    pub fn new(center: Point3, radius: i64, material: MaterialId) -> (s: SphereObject)
        ensures
            s.center == center,
            s.radius == radius,
            s.material == material,
            s.bounding_box == spec_sphere_aabb(center, radius),
    {
        let bounding_box = Self::calculate_aabb(center, radius);
        SphereObject { center, radius, material, bounding_box }
    }

    /// Get the UV coordinates of a point on the sphere.
    fn get_sphere_uv(p: Point3) -> (uv: (i64, i64))
        ensures
            uv == spec_sphere_uv(p),
    {
        let theta = acos_q(q_sub(0, p.y));
        let phi = q_add(atan2_q(q_sub(0, p.z), p.x), PI_Q);

        let u = q_max(q_min(q_div(phi, TWO_PI_Q), SCALE), 0);
        let v = q_max(q_min(q_div(theta, PI_Q), SCALE), 0);

        (u, v)
    }

    /// Calculate the axis-aligned bounding box of the sphere.
    fn calculate_aabb(center: Point3, radius: i64) -> (b: Aabb)
        ensures
            b == spec_sphere_aabb(center, radius),
    {
        let r = Vec3 { x: radius, y: radius, z: radius };
        let min = center.sub(r);
        let max = center.add(r);
        Aabb::new(min, max)
    }

    /// Checks for an intersection between the ray and the sphere strictly
    /// inside the open time interval.
    pub fn hit(&self, r: &Ray, time: Interval) -> (res: Option<Intersection>)
        ensures
            res == spec_sphere_hit(*self, *r, time),
    {
        let oc = self.center.sub(r.orig);
        let a = r.dir.len_sq();
        let h = oc.dot(r.dir);
        let c = q_sub(oc.len_sq(), q_mul(self.radius, self.radius));

        // calculate the discriminant
        let disc = q_sub(q_mul(h, h), q_mul(a, c));
        if disc < 0 {
            return None;
        }

        // find the nearest root that lies in the acceptable range
        let sqrt_d = q_sqrt(disc);

        let mut t = q_div(q_sub(h, sqrt_d), a);
        if t <= time.start || time.end <= t {
            t = q_div(q_add(h, sqrt_d), a);
            if t <= time.start || time.end <= t {
                return None;
            }
        }

        // record the intersection
        let point = r.at(t);
        let outward_normal = point.sub(self.center).div(self.radius);

        let material = self.material;
        let uv = SphereObject::get_sphere_uv(outward_normal);
        let (front_face, normal) = Intersection::face_normal(r, outward_normal);

        Some(
            Intersection {
                point,
                normal,
                front_face,
                material,
                t,
                u: uv.0,
                v: uv.1,
            },
        )
    }

    /// The bounding box computed at construction.
    pub fn bounding_box(&self) -> (b: Aabb)
        ensures
            b == self.bounding_box,
    {
        self.bounding_box
    }
}

} // verus!
