//! The material capability: a closed set of variants that decide how light
//! scatters and what is emitted at a hit point.

use vstd::prelude::*;
use crate::materials::dielectric::{spec_dielectric_scatter, DielectricMaterial};
use crate::materials::diffuse_light::{spec_diffuse_light_wf, DiffuseLightMaterial};
use crate::materials::lambertian::{
    spec_lambertian_dir, spec_lambertian_normal, spec_lambertian_wf, LambertianMaterial,
};
use crate::materials::metal::{spec_metal_normal, spec_metal_wf, MetalMaterial};
use crate::random::Random;
use crate::ray::{Intersection, Ray};
use crate::resources::Resources;
use crate::texture::spec_texture_color;
use crate::vector::{
    spec_len_sq, spec_reflect, spec_unit, spec_v_add, spec_v_scale, Color, Vec3,
};
use crate::fixed::SCALE;

verus! {

/// A material that can be assigned to an object in a scene.
#[derive(Debug, Clone, Copy, PartialEq, Eq, Structural)]
pub enum Material {
    /// A diffuse material.
    Lambertian(LambertianMaterial),
    /// A specular material with fuzz.
    Metal(MetalMaterial),
    /// A refractive material.
    Dielectric(DielectricMaterial),
    /// An emission-only material.
    DiffuseLight(DiffuseLightMaterial),
}

/// Whether every texture id a material holds points into the texture
/// collection, at a well-formed texture.
pub open spec fn spec_material_wf(m: Material, res: Resources) -> bool {
    match m {
        Material::Lambertian(l) => spec_lambertian_wf(l, res),
        Material::Metal(mm) => spec_metal_wf(mm, res),
        Material::Dielectric(_) => true,
        Material::DiffuseLight(d) => spec_diffuse_light_wf(d, res),
    }
}

/// Exactly the emission-only material refuses to scatter.
pub open spec fn spec_material_scatters(m: Material) -> bool {
    !(m is DiffuseLight)
}

/// The attenuation a scattering material applies to light along the
/// scattered ray: the sampled albedo texture for a diffuse material, the
/// fixed albedo for a metal, white for a dielectric. The emission-only
/// material never scatters, so its value here is never observed.
pub open spec fn spec_material_attenuation(m: Material, res: Resources, hit: Intersection) -> Color {
    match m {
        Material::Lambertian(l) => spec_texture_color(
            res.textures@[l.albedo@],
            res,
            hit.u,
            hit.v,
        ),
        Material::Metal(mm) => mm.albedo,
        Material::Dielectric(_) => Vec3 { x: SCALE as i64, y: SCALE as i64, z: SCALE as i64 },
        Material::DiffuseLight(_) => Vec3 { x: 0, y: 0, z: 0 },
    }
}

/// What a material emits at a hit: the sampled texture for a light, black
/// for everything else.
pub open spec fn spec_material_emit(m: Material, res: Resources, hit: Intersection) -> Color {
    match m {
        Material::DiffuseLight(d) => spec_texture_color(
            res.textures@[d.texture@],
            res,
            hit.u,
            hit.v,
        ),
        _ => Vec3 { x: 0, y: 0, z: 0 },
    }
}

impl Material {
    /// Scatter a ray off the material at a given intersection point,
    /// returning the scattered ray and the color attenuation along it, or
    /// nothing for a material that does not scatter. Scattering succeeds
    /// exactly for the variants that scatter at all; randomness only
    /// perturbs directions, never the decision.
    pub fn scatter(
        &self,
        resources: &Resources,
        ray: &Ray,
        hit: &Intersection,
        rng: &mut Random,
    ) -> (r: Option<(Ray, Color)>)
        requires
            spec_material_wf(*self, *resources),
        ensures
            r is Some <==> spec_material_scatters(*self),
            r matches Some(p) ==> p.0.orig == hit.point && p.1 == spec_material_attenuation(
                *self,
                *resources,
                *hit,
            ),
            *self matches Material::Lambertian(l) ==> (r matches Some(p) ==> {
                &&& p.1 == spec_texture_color(
                    resources.textures@[l.albedo@],
                    *resources,
                    hit.u,
                    hit.v,
                )
                &&& exists|d: Vec3|
                    spec_len_sq(d) < SCALE && p.0.dir == spec_lambertian_dir(
                        spec_lambertian_normal(l, *resources, *hit),
                        d,
                    )
            }),
            *self matches Material::Metal(mm) ==> (r matches Some(p) ==> {
                &&& p.1 == mm.albedo
                &&& exists|d: Vec3|
                    spec_len_sq(d) < SCALE && p.0.dir == spec_v_add(
                        spec_unit(spec_reflect(ray.dir, spec_metal_normal(mm, *resources, *hit))),
                        spec_v_scale(d, mm.fuzz),
                    )
            }),
            *self matches Material::Dielectric(dm) ==> r == spec_dielectric_scatter(
                dm,
                *ray,
                *hit,
            ),
    {
        match self {
            Material::Lambertian(l) => l.scatter(resources, ray, hit, rng),
            Material::Metal(mm) => mm.scatter(resources, ray, hit, rng),
            Material::Dielectric(dm) => dm.scatter(ray, hit),
            Material::DiffuseLight(_) => None,
        }
    }

    /// Emit light from the material at a given intersection point; only a
    /// diffuse light emits anything.
    pub fn emit(&self, resources: &Resources, hit: &Intersection) -> (c: Color)
        requires
            spec_material_wf(*self, *resources),
        ensures
            c == spec_material_emit(*self, *resources, *hit),
    {
        match self {
            Material::DiffuseLight(d) => d.emit(resources, hit),
            _ => Vec3::zero(),
        }
    }
}

} // verus!
