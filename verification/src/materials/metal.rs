//! The specular material.

use vstd::prelude::*;
use crate::fixed::q_from;
use crate::fixed::SCALE;
use crate::random::Random;
use crate::ray::{Intersection, Ray};
use crate::resources::{Resources, TextureId};
use crate::texture::{spec_texture_color, spec_texture_wf};
use crate::vector::{
    spec_len_sq, spec_reflect, spec_to_world, spec_unit, spec_v_add, spec_v_scale, spec_v_sub,
    Color, Vec3,
};

verus! {

/// A metal material: a mirror with an optional fuzz that perturbs the
/// reflection.
#[derive(Debug, Clone, Copy, PartialEq, Eq, Structural)]
pub struct MetalMaterial {
    /// The albedo of the material.
    pub albedo: Color,
    /// The fuzziness of the material; zero is a perfect mirror.
    pub fuzz: i64,
    /// The normal map of the material, if any.
    pub normal_map: Option<TextureId>,
}

/// The normal map id, if present, points into the texture collection at a
/// well-formed texture.
pub open spec fn spec_metal_wf(m: MetalMaterial, res: Resources) -> bool {
    m.normal_map matches Some(nm) ==> 0 <= nm@ < res.textures@.len() && spec_texture_wf(
        res.textures@[nm@],
    )
}

/// The normal the scatter reflects about, optionally perturbed by a normal
/// map exactly as for the diffuse material.
pub open spec fn spec_metal_normal(m: MetalMaterial, res: Resources, hit: Intersection) -> Vec3 {
    match m.normal_map {
        None => hit.normal,
        Some(nm) => {
            let sampled = spec_texture_color(res.textures@[nm@], res, hit.u, hit.v);
            let stretched = spec_v_sub(
                spec_v_scale(sampled, crate::fixed::spec_q_from(2)),
                Vec3 { x: SCALE as i64, y: SCALE as i64, z: SCALE as i64 },
            );
            spec_to_world(hit.normal, stretched)
        },
    }
}

impl MetalMaterial {
    /// Creates a new metal material with the given albedo and fuzziness.
    pub fn new(albedo: Color, fuzz: i64) -> (m: MetalMaterial)
        ensures
            m.albedo == albedo,
            m.fuzz == fuzz,
            m.normal_map is None,
    {
        MetalMaterial { albedo, fuzz, normal_map: None }
    }

    /// Creates a new metal material with the given albedo, fuzziness, and
    /// normal map.
    pub fn with_normal_map(albedo: Color, fuzz: i64, normal_map: TextureId) -> (m: MetalMaterial)
        ensures
            m.albedo == albedo,
            m.fuzz == fuzz,
            m.normal_map == Some(normal_map),
    {
        MetalMaterial { albedo, fuzz, normal_map: Some(normal_map) }
    }

    /// Scatter a ray: the incoming direction is reflected about the normal,
    /// normalized, and perturbed by `fuzz` times a random point of the unit
    /// sphere; the attenuation is the fixed albedo. A metal material always
    /// scatters.
    pub fn scatter(
        &self,
        resources: &Resources,
        ray: &Ray,
        hit: &Intersection,
        rng: &mut Random,
    ) -> (r: Option<(Ray, Color)>)
        requires
            spec_metal_wf(*self, *resources),
        ensures
            r is Some,
            r matches Some(p) ==> {
                &&& p.0.orig == hit.point
                &&& p.1 == self.albedo
                &&& exists|d: Vec3|
                    spec_len_sq(d) < SCALE && p.0.dir == spec_v_add(
                        spec_unit(
                            spec_reflect(ray.dir, spec_metal_normal(*self, *resources, *hit)),
                        ),
                        spec_v_scale(d, self.fuzz),
                    )
            },
    {
        let mut normal = hit.normal;

        // Apply the normal map if one is present.
        if let Some(normal_map) = self.normal_map {
            // Convert from range [0, 1] to range [-1, 1].
            let sampled = resources.texture(normal_map).color(resources, hit.u, hit.v);
            let stretched = sampled.scale(q_from(2)).sub(Vec3::one());

            // Convert the normal from normal space to world space.
            normal = Vec3::convert_to_world_space(hit.normal, stretched);
        }

        let d = Vec3::random_in_unit_sphere(rng);
        let reflected = ray.dir.reflect(normal).unit().add(d.scale(self.fuzz));

        proof {
            assert(spec_len_sq(d) < SCALE && reflected == spec_v_add(
                spec_unit(spec_reflect(ray.dir, spec_metal_normal(*self, *resources, *hit))),
                spec_v_scale(d, self.fuzz),
            ));
        }

        let scattered_ray = Ray::new(hit.point, reflected);

        Some((scattered_ray, self.albedo))
    }
}

} // verus!
