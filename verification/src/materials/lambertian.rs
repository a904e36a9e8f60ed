//! The diffuse material.

use vstd::prelude::*;
use crate::fixed::{spec_q_from, q_from, SCALE};
use crate::random::Random;
use crate::ray::{Intersection, Ray};
use crate::resources::{Resources, TextureId};
use crate::texture::{spec_texture_color, spec_texture_wf};
use crate::vector::{
    spec_len_sq, spec_to_world, spec_unit, spec_v_add, spec_v_scale, spec_v_sub, Color, Vec3,
};

verus! {

/// A Lambertian material, which scatters rays in random directions.
#[derive(Debug, Clone, Copy, PartialEq, Eq, Structural)]
pub struct LambertianMaterial {
    /// The texture of the material's albedo.
    pub albedo: TextureId,
    /// The normal map of the material, if any.
    pub normal_map: Option<TextureId>,
}

/// The texture ids the material holds point into the texture collection,
/// at well-formed textures.
pub open spec fn spec_lambertian_wf(m: LambertianMaterial, res: Resources) -> bool {
    &&& 0 <= m.albedo@ < res.textures@.len()
    &&& spec_texture_wf(res.textures@[m.albedo@])
    &&& m.normal_map matches Some(nm) ==> 0 <= nm@ < res.textures@.len()
        && spec_texture_wf(res.textures@[nm@])
}

/// The normal the scatter uses: the hit's normal, or, under a normal map,
/// the sampled map value stretched from the unit cube to `[-1, 1]` and
/// carried into the world basis around the hit's normal.
pub open spec fn spec_lambertian_normal(
    m: LambertianMaterial,
    res: Resources,
    hit: Intersection,
) -> Vec3 {
    match m.normal_map {
        None => hit.normal,
        Some(nm) => {
            let sampled = spec_texture_color(res.textures@[nm@], res, hit.u, hit.v);
            let stretched = spec_v_sub(
                spec_v_scale(sampled, spec_q_from(2)),
                Vec3 { x: SCALE as i64, y: SCALE as i64, z: SCALE as i64 },
            );
            spec_to_world(hit.normal, stretched)
        },
    }
}

/// The scattered direction for a drawn point `d` of the unit sphere: the
/// normal plus the unit vector of `d`, with the normal itself as the
/// fallback when the sum degenerates to zero.
pub open spec fn spec_lambertian_dir(normal: Vec3, d: Vec3) -> Vec3 {
    let s = spec_v_add(normal, spec_unit(d));
    if s == (Vec3 { x: 0, y: 0, z: 0 }) {
        normal
    } else {
        s
    }
}

impl LambertianMaterial {
    /// Create a new Lambertian material with the given albedo texture.
    pub fn new(albedo: TextureId) -> (m: LambertianMaterial)
        ensures
            m.albedo == albedo,
            m.normal_map is None,
    {
        LambertianMaterial { albedo, normal_map: None }
    }

    /// Create a new Lambertian material with the given albedo and normal
    /// map textures.
    pub fn with_normal_map(albedo: TextureId, normal_map: TextureId) -> (m: LambertianMaterial)
        ensures
            m.albedo == albedo,
            m.normal_map == Some(normal_map),
    {
        LambertianMaterial { albedo, normal_map: Some(normal_map) }
    }

    /// Scatter a ray: the new ray starts at the hit point and heads along
    /// the normal perturbed by a random unit vector; the attenuation is the
    /// albedo texture sampled at the hit's coordinates. A Lambertian
    /// material always scatters.
    pub fn scatter(
        &self,
        resources: &Resources,
        _ray: &Ray,
        hit: &Intersection,
        rng: &mut Random,
    ) -> (r: Option<(Ray, Color)>)
        requires
            spec_lambertian_wf(*self, *resources),
        ensures
            r is Some,
            r matches Some(p) ==> {
                &&& p.0.orig == hit.point
                &&& p.1 == spec_texture_color(
                    resources.textures@[self.albedo@],
                    *resources,
                    hit.u,
                    hit.v,
                )
                &&& exists|d: Vec3|
                    spec_len_sq(d) < SCALE && p.0.dir == spec_lambertian_dir(
                        spec_lambertian_normal(*self, *resources, *hit),
                        d,
                    )
            },
    {
        let mut normal = hit.normal;

        // Apply the normal map if one is present.
        if let Some(normal_map) = self.normal_map {
            // Convert from range [0, 1] to range [-1, 1].
            let sampled = resources.texture(normal_map).color(resources, hit.u, hit.v);
            let stretched = sampled.scale(q_from(2)).sub(Vec3::one());

            // Convert the normal from normal space to world space.
            normal = Vec3::convert_to_world_space(hit.normal, stretched);
        }

        let d = Vec3::random_in_unit_sphere(rng);
        let mut scatter_dir = normal.add(d.unit());

        if scatter_dir.near_zero() {
            scatter_dir = normal;
        }

        proof {
            assert(spec_len_sq(d) < SCALE && scatter_dir == spec_lambertian_dir(
                spec_lambertian_normal(*self, *resources, *hit),
                d,
            ));
        }

        let albedo = resources.texture(self.albedo).color(resources, hit.u, hit.v);

        let scattered_ray = Ray::new(hit.point, scatter_dir);

        Some((scattered_ray, albedo))
    }
}

} // verus!
