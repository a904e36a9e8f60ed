//! The refractive material.

use vstd::prelude::*;
use crate::fixed::{
    spec_q_div, spec_q_min, spec_q_mul, spec_q_sqrt, spec_q_sub, q_div, q_min,
    q_mul, q_sqrt, q_sub, SCALE,
};
use crate::ray::{Intersection, Ray};
use crate::vector::{
    spec_dot, spec_refract, spec_reflect, spec_unit, spec_v_neg, Color, Vec3,
};

verus! {

/// A dielectric material, which refracts light through the object.
#[derive(Debug, Clone, Copy, PartialEq, Eq, Structural)]
pub struct DielectricMaterial {
    /// The refractive index of the material.
    pub refraction_index: i64,
}

/// The full scatter computation of a dielectric, which is deterministic:
/// the relative index flips for a back face, total internal reflection
/// (`sin theta * index > 1`) forces a reflection, anything else refracts by
/// Snell's law, and the attenuation is always white.
pub open spec fn spec_dielectric_scatter(
    m: DielectricMaterial,
    ray: Ray,
    hit: Intersection,
) -> Option<(Ray, Color)> {
    let ri = if hit.front_face {
        spec_q_div(SCALE as i64, m.refraction_index)
    } else {
        m.refraction_index
    };
    let unit_direction = spec_unit(ray.dir);
    let cos_theta = spec_q_min(spec_dot(spec_v_neg(unit_direction), hit.normal), SCALE as i64);
    let sin_theta = spec_q_sqrt(spec_q_sub(SCALE as i64, spec_q_mul(cos_theta, cos_theta)));
    let cannot_refract = spec_q_mul(ri, sin_theta) > SCALE as i64;
    let direction = if cannot_refract {
        spec_reflect(unit_direction, hit.normal)
    } else {
        spec_refract(unit_direction, hit.normal, ri)
    };
    Some((Ray { orig: hit.point, dir: direction }, Vec3 { x: SCALE as i64, y: SCALE as i64, z: SCALE as i64 }))
}

impl DielectricMaterial {
    /// Constructs a new dielectric material with the given refractive index.
    pub fn new(refraction_index: i64) -> (m: DielectricMaterial)
        ensures
            m.refraction_index == refraction_index,
    {
        DielectricMaterial { refraction_index }
    }

    /// Scatter a ray by reflection or refraction; a dielectric always
    /// scatters and absorbs nothing.
    pub fn scatter(&self, ray: &Ray, hit: &Intersection) -> (r: Option<(Ray, Color)>)
        ensures
            r == spec_dielectric_scatter(*self, *ray, *hit),
            r is Some,
    {
        let ri = if hit.front_face {
            q_div(SCALE, self.refraction_index)
        } else {
            self.refraction_index
        };

        let unit_direction = ray.dir.unit();
        let cos_theta = q_min(unit_direction.neg().dot(hit.normal), SCALE);
        let sin_theta = q_sqrt(q_sub(SCALE, q_mul(cos_theta, cos_theta)));

        let cannot_refract = q_mul(ri, sin_theta) > SCALE;

        let direction = if cannot_refract {
            unit_direction.reflect(hit.normal)
        } else {
            unit_direction.refract(hit.normal, ri)
        };

        let scattered_ray = Ray::new(hit.point, direction);

        Some((scattered_ray, Vec3::one()))
    }
}

} // verus!
