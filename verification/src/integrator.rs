//! The Monte Carlo integrator: the recursive ray-color estimator at the
//! heart of the renderer. Recursion is bounded by the bounce budget, so a
//! call always terminates; with an exhausted budget it contributes exact
//! black, and it never produces a negative color component as long as the
//! scene's materials do not.

use vstd::prelude::*;
use crate::fixed::{lemma_q_add_nonneg, lemma_q_mul_nonneg, Q_INF};
use crate::hittable::{
    lemma_object_hit_props, spec_object_material, Hittable,
};
use crate::interval::Interval;
use crate::material::{
    spec_material_attenuation, spec_material_emit, spec_material_wf, Material,
};
use crate::random::Random;
use crate::ray::Ray;
use crate::resources::Resources;
use crate::scene::{
    lemma_background_nonneg, spec_background, spec_background_nonneg,
    spec_boxes_conservative, spec_hits_tie_free, spec_no_hits, spec_scene_bvh_ok,
    spec_scene_nearest, Scene,
};
use crate::texture::{lemma_texture_color_nonneg, spec_texture_nonneg};
use crate::vector::{spec_color_nonneg, spec_v_add, spec_v_mul, Color, Vec3};

verus! {

/// The small positive near bound of every secondary query, to suppress a
/// surface re-intersecting itself: about a thousandth of a unit.
pub const SHADOW_BIAS: i64 = 16777;

/// Every object's material id points into the material collection.
pub open spec fn spec_scene_materials_ok(objs: Seq<Hittable>, res: Resources) -> bool {
    forall|j: int|
        0 <= j < objs.len() ==> 0 <= (#[trigger] spec_object_material(objs[j]))@
            < res.materials@.len()
}

/// Every material's texture references point into the texture collection,
/// at well-formed textures.
pub open spec fn spec_resources_wf(res: Resources) -> bool {
    forall|k: int|
        0 <= k < res.materials@.len() ==> #[trigger] spec_material_wf(res.materials@[k], res)
}

/// No stored color is negative: every texture's color, and every metal's
/// albedo. Under this premise the estimator cannot produce negative energy.
pub open spec fn spec_resources_nonneg(res: Resources) -> bool {
    &&& forall|k: int|
        0 <= k < res.textures@.len() ==> #[trigger] spec_texture_nonneg(res.textures@[k])
    &&& forall|k: int|
        0 <= k < res.materials@.len() ==> (#[trigger] res.materials@[k] matches Material::Metal(m)
            ==> spec_color_nonneg(m.albedo))
}

/// What a material emits is non-negative in a non-negative resource
/// collection.
proof fn lemma_emit_nonneg(m: Material, res: Resources, hit: crate::ray::Intersection)
    requires
        spec_material_wf(m, res),
        spec_resources_nonneg(res),
    ensures
        spec_color_nonneg(spec_material_emit(m, res, hit)),
{
    match m {
        Material::DiffuseLight(d) => {
            assert(d.texture@ < res.textures@.len());
            assert(spec_texture_nonneg(res.textures@[d.texture@]));
            lemma_texture_color_nonneg(res.textures@[d.texture@], res, hit.u, hit.v);
        },
        _ => {},
    }
}

/// A hit handed back by the scene names a valid material and witnesses
/// that some object was hit.
proof fn lemma_hit_material_ok(
    objs: Seq<Hittable>,
    res: Resources,
    ray: Ray,
    time: Interval,
    hit: crate::ray::Intersection,
)
    requires
        crate::scene::spec_some_hit_eq(objs, ray, time, hit),
        spec_scene_materials_ok(objs, res),
    ensures
        0 <= hit.material@ < res.materials@.len(),
        !spec_no_hits(objs, ray, time),
{
    let j = choose|j: int|
        0 <= j < objs.len() && #[trigger] crate::hittable::spec_object_hit(objs[j], ray, time)
            == Some(hit);
    lemma_object_hit_props(objs[j], ray, time);
}

/// The attenuation any material reports is non-negative in a non-negative
/// resource collection.
proof fn lemma_attenuation_nonneg(
    m: Material,
    res: Resources,
    hit: crate::ray::Intersection,
    att: Color,
)
    requires
        spec_material_wf(m, res),
        spec_resources_nonneg(res),
        m matches Material::Metal(mm) ==> spec_color_nonneg(mm.albedo),
        match m {
            Material::Lambertian(l) => att == crate::texture::spec_texture_color(
                res.textures@[l.albedo@],
                res,
                hit.u,
                hit.v,
            ),
            Material::Metal(mm) => att == mm.albedo,
            Material::Dielectric(_) => att == (Vec3 {
                x: crate::fixed::SCALE as i64,
                y: crate::fixed::SCALE as i64,
                z: crate::fixed::SCALE as i64,
            }),
            Material::DiffuseLight(_) => true,
        },
        !(m is DiffuseLight),
    ensures
        spec_color_nonneg(att),
{
    match m {
        Material::Lambertian(l) => {
            assert(0 <= l.albedo@ < res.textures@.len());
            assert(spec_texture_nonneg(res.textures@[l.albedo@]));
            lemma_texture_color_nonneg(res.textures@[l.albedo@], res, hit.u, hit.v);
        },
        _ => {},
    }
}

/// Calculates the color seen along a ray: black once the bounce budget is
/// spent; the background where nothing is hit; otherwise the hit material's
/// emission plus the attenuated color of the scattered ray, one recursion
/// level down.
#[verifier::rlimit(100)]
pub fn ray_color(
    scene: &Scene,
    resources: &Resources,
    ray: &Ray,
    depth: u32,
    rng: &mut Random,
) -> (c: Color)
    requires
        spec_scene_bvh_ok(*scene),
        spec_scene_materials_ok(scene.objects@, *resources),
        spec_resources_wf(*resources),
    ensures
        depth == 0 ==> c == (Vec3 { x: 0, y: 0, z: 0 }),
        depth > 0 && spec_no_hits(
            scene.objects@,
            *ray,
            Interval { start: SHADOW_BIAS, end: Q_INF },
        ) ==> c == spec_background(scene.background, ray.dir),
        spec_resources_nonneg(*resources) && spec_background_nonneg(scene.background)
            ==> spec_color_nonneg(c),
        depth > 0 ==> (spec_boxes_conservative(scene.objects@, *ray, Interval {
            start: SHADOW_BIAS,
            end: Q_INF,
        }) ==> (spec_hits_tie_free(scene.objects@, *ray, Interval {
            start: SHADOW_BIAS,
            end: Q_INF,
        }) ==> (spec_scene_nearest(scene.objects@, *ray, Interval {
            start: SHADOW_BIAS,
            end: Q_INF,
        }) matches Some(h) ==> ({
            let m = resources.materials@[h.material@];
            if m is DiffuseLight {
                c == spec_material_emit(m, *resources, h)
            } else {
                exists|b: Color|
                    #![auto]
                    c == spec_v_add(
                        spec_material_emit(m, *resources, h),
                        spec_v_mul(b, spec_material_attenuation(m, *resources, h)),
                    )
            }
        })))),
    decreases depth,
{
    if depth == 0 {
        return Vec3::zero();
    }

    // calculate an intersection; if there is no hit return the background
    let hit = match scene.hit(ray, Interval { start: SHADOW_BIAS, end: Q_INF }) {
        None => {
            proof {
                if spec_background_nonneg(scene.background) {
                    lemma_background_nonneg(scene.background, ray.dir);
                }
            }
            return scene.background(ray.dir);
        },
        Some(hit) => hit,
    };

    proof {
        // A returned hit proves some object was hit, and it carries the
        // material of the object that produced it.
        lemma_hit_material_ok(
            scene.objects@,
            *resources,
            *ray,
            Interval { start: SHADOW_BIAS, end: Q_INF },
            hit,
        );
    }

    // calculate the color of the hit object
    let material = resources.material(hit.material);

    let emitted = material.emit(resources, &hit);

    proof {
        if spec_resources_nonneg(*resources) {
            lemma_emit_nonneg(resources.materials@[hit.material@], *resources, hit);
        }
    }

    // check if the material scatters the ray; if not return the emitted color
    let scattered = material.scatter(resources, ray, &hit, rng);
    let (scatter_ray, attenuation) = match scattered {
        None => {
            proof {
                // Only the emission-only material refuses to scatter, and
                // under the premises the hit is the exhaustive scan's.
                let shadow = Interval { start: SHADOW_BIAS, end: Q_INF };
                if spec_boxes_conservative(scene.objects@, *ray, shadow)
                    && spec_hits_tie_free(scene.objects@, *ray, shadow) {
                    assert(spec_scene_nearest(scene.objects@, *ray, shadow) == Some(hit));
                }
            }
            return emitted;
        },
        Some(s) => s,
    };

    proof {
        if spec_resources_nonneg(*resources) {
            assert(resources.materials@[hit.material@] matches Material::Metal(mm)
                ==> spec_color_nonneg(mm.albedo));
            lemma_attenuation_nonneg(
                resources.materials@[hit.material@],
                *resources,
                hit,
                attenuation,
            );
        }
    }

    // calculate the color of the scattered ray
    let bounce = ray_color(scene, resources, &scatter_ray, depth - 1, rng);
    let scattered_color = bounce.mul(attenuation);

    proof {
        if spec_resources_nonneg(*resources) && spec_background_nonneg(scene.background) {
            lemma_q_mul_nonneg(bounce.x, attenuation.x);
            lemma_q_mul_nonneg(bounce.y, attenuation.y);
            lemma_q_mul_nonneg(bounce.z, attenuation.z);
            lemma_q_add_nonneg(emitted.x, scattered_color.x);
            lemma_q_add_nonneg(emitted.y, scattered_color.y);
            lemma_q_add_nonneg(emitted.z, scattered_color.z);
        }
        // Under the premises the hit is the exhaustive scan's, so the
        // result has the shape emission plus attenuated bounce.
        let shadow = Interval { start: SHADOW_BIAS, end: Q_INF };
        if spec_boxes_conservative(scene.objects@, *ray, shadow) && spec_hits_tie_free(
            scene.objects@,
            *ray,
            shadow,
        ) {
            assert(spec_scene_nearest(scene.objects@, *ray, shadow) == Some(hit));
            let m = resources.materials@[hit.material@];
            assert(spec_v_mul(bounce, spec_material_attenuation(m, *resources, hit))
                == scattered_color);
            assert(spec_v_add(
                spec_material_emit(m, *resources, hit),
                spec_v_mul(bounce, spec_material_attenuation(m, *resources, hit)),
            ) == spec_v_add(emitted, scattered_color));
        }
    }

    emitted.add(scattered_color)
}

} // verus!
