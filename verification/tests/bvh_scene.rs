//! The scene's nearest-hit query, and the equivalence of the accelerated
//! and exhaustive paths.

use raytracer::fixed::{q_from, Q_INF, SCALE};
use raytracer::hittable::Hittable;
use raytracer::interval::Interval;
use raytracer::material::Material;
use raytracer::materials::lambertian::LambertianMaterial;
use raytracer::objects::sphere::SphereObject;
use raytracer::random::Random;
use raytracer::ray::Ray;
use raytracer::resources::{MaterialId, Resources};
use raytracer::scene::{Background, Scene};
use raytracer::texture::Texture;
use raytracer::textures::solid::SolidTexture;
use raytracer::vector::Vec3;

fn any_material(res: &mut Resources) -> MaterialId {
    let tex = res.add_texture(Texture::Solid(SolidTexture::new(Vec3::from_ints(1, 1, 1))));
    res.add_material(Material::Lambertian(LambertianMaterial::new(tex)))
}

fn sky() -> Background {
    Background::Solid(Vec3::from_ints(0, 0, 1))
}

#[test]
fn empty_scene_reports_no_hit() {
    let scene = Scene::new(sky());
    let ray = Ray::new(Vec3::zero(), Vec3::from_ints(0, 0, -1));
    assert!(scene.hit(&ray, Interval { start: 0, end: Q_INF }).is_none());

    let mut built = Scene::new(sky());
    built.build_bvh();
    assert!(built.hit(&ray, Interval { start: 0, end: Q_INF }).is_none());
}

#[test]
fn nearest_of_two_spheres_wins() {
    let mut res = Resources::new();
    let m = any_material(&mut res);
    let mut scene = Scene::new(sky());
    let far = scene.add(Hittable::Sphere(SphereObject::new(
        Vec3::from_ints(0, 0, -9),
        q_from(1),
        m,
    )));
    let near = scene.add(Hittable::Sphere(SphereObject::new(
        Vec3::from_ints(0, 0, -3),
        q_from(1),
        m,
    )));
    assert_ne!(far, near);
    let ray = Ray::new(Vec3::zero(), Vec3::from_ints(0, 0, -1));
    let hit = scene.hit(&ray, Interval { start: 0, end: Q_INF }).unwrap();
    assert_eq!(hit.t, q_from(2));
}

#[test]
fn shrinking_interval_is_order_independent() {
    // The same pair of spheres added in both orders gives the same hit.
    let mut res = Resources::new();
    let m = any_material(&mut res);
    let ray = Ray::new(Vec3::zero(), Vec3::from_ints(0, 0, -1));
    let a = SphereObject::new(Vec3::from_ints(0, 0, -9), q_from(1), m);
    let b = SphereObject::new(Vec3::from_ints(0, 0, -3), q_from(1), m);

    let mut s1 = Scene::new(sky());
    s1.add(Hittable::Sphere(a.clone()));
    s1.add(Hittable::Sphere(b.clone()));
    let mut s2 = Scene::new(sky());
    s2.add(Hittable::Sphere(b));
    s2.add(Hittable::Sphere(a));

    let h1 = s1.hit(&ray, Interval { start: 0, end: Q_INF }).unwrap();
    let h2 = s2.hit(&ray, Interval { start: 0, end: Q_INF }).unwrap();
    assert_eq!(h1.t, h2.t);
    assert_eq!(h1.point, h2.point);
}

/// Draws a small whole-ish coordinate in roughly [-8, 8].
fn coord(rng: &mut Random) -> i64 {
    rng.random_unit_scalar() * 16 - SCALE * 8
}

#[test]
fn bvh_and_linear_paths_agree_on_random_scenes() {
    // The central accelerator property: over a thousand randomized trials,
    // the hierarchy-backed query and the exhaustive scan return the same
    // intersection.
    let mut rng = Random::new(0x5eed);
    let mut res = Resources::new();
    let m = any_material(&mut res);

    for trial in 0..1000u32 {
        let object_count = 1 + (rng.random_unit_scalar() % 7) as usize;
        let mut plain = Scene::new(sky());
        let mut fast = Scene::new(sky());
        for _ in 0..object_count {
            let center = Vec3 { x: coord(&mut rng), y: coord(&mut rng), z: coord(&mut rng) };
            let radius = SCALE / 4 + rng.random_unit_scalar() % (2 * SCALE);
            let sphere = SphereObject::new(center, radius, m);
            plain.add(Hittable::Sphere(sphere.clone()));
            fast.add(Hittable::Sphere(sphere));
        }
        fast.build_bvh();

        let orig = Vec3 { x: coord(&mut rng), y: coord(&mut rng), z: coord(&mut rng) };
        let dir = Vec3 { x: coord(&mut rng), y: coord(&mut rng), z: coord(&mut rng) };
        let ray = Ray::new(orig, dir);
        let time = Interval { start: 16777, end: Q_INF };

        let slow = plain.hit(&ray, time);
        let quick = fast.hit(&ray, time);
        assert_eq!(slow, quick, "trial {}", trial);
    }
}

#[test]
fn bvh_prunes_far_group_and_still_hits() {
    // Two tight clusters far apart; a ray aimed at the second cluster must
    // leave the first cluster's subtree unvisited yet report the correct
    // intersection.
    let mut res = Resources::new();
    let m = any_material(&mut res);
    let mut scene = Scene::new(sky());
    let near_a = scene.add(Hittable::Sphere(SphereObject::new(
        Vec3::zero(),
        q_from(1),
        m,
    )));
    let near_b = scene.add(Hittable::Sphere(SphereObject::new(
        Vec3::from_ints(0, 2, 0),
        q_from(1),
        m,
    )));
    let far_a = scene.add(Hittable::Sphere(SphereObject::new(
        Vec3::from_ints(6, 6, 6),
        q_from(1),
        m,
    )));
    let far_b = scene.add(Hittable::Sphere(SphereObject::new(
        Vec3::from_ints(6, 8, 6),
        q_from(1),
        m,
    )));
    scene.build_bvh();

    let ray = Ray::new(Vec3::from_ints(6, 6, 10), Vec3::from_ints(0, 0, -1));
    let time = Interval { start: 0, end: Q_INF };

    // The candidate list from the hierarchy skips the near cluster, and
    // names no candidate twice.
    let candidates = scene.bvh.as_ref().unwrap().hit(&ray, time).unwrap();
    assert!(candidates.contains(&far_a));
    assert!(!candidates.contains(&near_a));
    assert!(!candidates.contains(&near_b));
    let _ = far_b;
    for k in 0..candidates.len() {
        for l in (k + 1)..candidates.len() {
            assert_ne!(candidates[k], candidates[l]);
        }
    }

    // A ray missing both clusters is pruned at the root: no candidates.
    let astray = Ray::new(Vec3::from_ints(30, 30, 10), Vec3::from_ints(0, 0, -1));
    assert!(scene.bvh.as_ref().unwrap().hit(&astray, time).is_none());

    // And the reported intersection is the correct one: the near face of
    // the sphere at (6,6,6), three units down the ray.
    let hit = scene.hit(&ray, time).unwrap();
    assert_eq!(hit.t, q_from(3));
    assert_eq!(hit.point, Vec3::from_ints(6, 6, 7));
}

#[test]
fn two_separated_spheres_report_second_under_bvh() {
    // The two-sphere arrangement with boxes [-1,1]^3 and [5,7]^3: a ray
    // aimed only at the second still reports the correct intersection
    // through the hierarchy.
    let mut res = Resources::new();
    let m = any_material(&mut res);
    let mut scene = Scene::new(sky());
    scene.add(Hittable::Sphere(SphereObject::new(Vec3::zero(), q_from(1), m)));
    let second = scene.add(Hittable::Sphere(SphereObject::new(
        Vec3::from_ints(6, 6, 6),
        q_from(1),
        m,
    )));
    scene.build_bvh();

    let ray = Ray::new(Vec3::from_ints(6, 6, 10), Vec3::from_ints(0, 0, -1));
    let hit = scene.hit(&ray, Interval { start: 0, end: Q_INF }).unwrap();
    assert_eq!(hit.t, q_from(3));
    assert_eq!(hit.material, m);
    let candidates = scene.bvh.as_ref().unwrap().hit(&ray, Interval { start: 0, end: Q_INF });
    assert!(candidates.unwrap().contains(&second));
}

#[test]
fn duplicate_spheres_agree_on_both_paths() {
    // Two identical spheres: the tie between equal hits must not split the
    // accelerated and exhaustive paths.
    let mut res = Resources::new();
    let m = any_material(&mut res);
    let sphere = SphereObject::new(Vec3::from_ints(0, 0, -4), q_from(1), m);
    let mut plain = Scene::new(sky());
    plain.add(Hittable::Sphere(sphere.clone()));
    plain.add(Hittable::Sphere(sphere.clone()));
    let mut fast = Scene::new(sky());
    fast.add(Hittable::Sphere(sphere.clone()));
    fast.add(Hittable::Sphere(sphere));
    fast.build_bvh();

    let ray = Ray::new(Vec3::zero(), Vec3::from_ints(0, 0, -1));
    let time = Interval { start: 0, end: Q_INF };
    let a = plain.hit(&ray, time).unwrap();
    let b = fast.hit(&ray, time).unwrap();
    assert_eq!(a, b);
    assert_eq!(a.t, q_from(3));
}

#[test]
fn background_colors() {
    let solid = Scene::new(Background::Solid(Vec3::from_ints(0, 1, 0)));
    assert_eq!(solid.background(Vec3::from_ints(1, 2, 3)), Vec3::from_ints(0, 1, 0));

    let grad = Scene::new(Background::Gradient {
        top: Vec3::from_ints(1, 1, 1),
        bottom: Vec3::zero(),
    });
    // Straight up blends fully to the top color.
    assert_eq!(grad.background(Vec3::from_ints(0, 3, 0)), Vec3::from_ints(1, 1, 1));
    // Straight down blends fully to the bottom color.
    assert_eq!(grad.background(Vec3::from_ints(0, -3, 0)), Vec3::zero());
}
