//! Ray/sphere intersection scenarios.

use raytracer::fixed::{q_abs, q_from, q_sub, Q_INF, SCALE};
use raytracer::interval::Interval;
use raytracer::objects::sphere::SphereObject;
use raytracer::ray::Ray;
use raytracer::resources::Resources;
use raytracer::material::Material;
use raytracer::materials::lambertian::LambertianMaterial;
use raytracer::texture::Texture;
use raytracer::textures::solid::SolidTexture;
use raytracer::vector::Vec3;

/// One fixed-point step per million: comfortably finer than the 1e-6
/// tolerance the round-trip asks for.
const TOLERANCE: i64 = 17;

fn any_material(res: &mut Resources) -> raytracer::resources::MaterialId {
    let tex = res.add_texture(Texture::Solid(SolidTexture::new(Vec3::from_ints(1, 0, 0))));
    res.add_material(Material::Lambertian(LambertianMaterial::new(tex)))
}

#[test]
fn head_on_hit_at_half_unit() {
    // Sphere at (0,0,-1) with radius 0.5, ray from the origin toward it.
    let mut res = Resources::new();
    let m = any_material(&mut res);
    let sphere = SphereObject::new(Vec3::from_ints(0, 0, -1), SCALE / 2, m);
    let ray = Ray::new(Vec3::zero(), Vec3::from_ints(0, 0, -1));

    let hit = sphere.hit(&ray, Interval { start: 0, end: Q_INF }).unwrap();
    assert_eq!(hit.t, SCALE / 2);
    assert_eq!(hit.point, Vec3 { x: 0, y: 0, z: -(SCALE / 2) });
    assert_eq!(hit.normal, Vec3::from_ints(0, 0, 1));
    assert!(hit.front_face);
}

#[test]
fn external_round_trip_stays_on_surface() {
    // Sphere at the origin with radius 1, ray fired from (0,0,3) at the
    // center: the hit point must sit exactly one radius from the center.
    let mut res = Resources::new();
    let m = any_material(&mut res);
    let radius = q_from(1);
    let sphere = SphereObject::new(Vec3::zero(), radius, m);
    let ray = Ray::new(Vec3::from_ints(0, 0, 3), Vec3::from_ints(0, 0, -1));

    let hit = sphere.hit(&ray, Interval { start: 0, end: Q_INF }).unwrap();
    assert_eq!(hit.t, q_from(2));
    let dist = ray.at(hit.t).sub(sphere.center).len();
    assert!(q_abs(q_sub(dist, radius)) <= TOLERANCE);
    // The normal has unit length and points away from the center.
    assert!(q_abs(q_sub(hit.normal.len(), SCALE)) <= TOLERANCE);
    assert!(hit.normal.dot(ray.at(hit.t).sub(sphere.center)) > 0);
}

#[test]
fn inside_hit_reports_back_face() {
    // A ray fired from inside the sphere meets the inner surface: the back
    // face, with the reported normal flipped to point inward.
    let mut res = Resources::new();
    let m = any_material(&mut res);
    let sphere = SphereObject::new(Vec3::zero(), q_from(1), m);
    let ray = Ray::new(Vec3::zero(), Vec3::from_ints(0, 0, -1));

    let hit = sphere.hit(&ray, Interval { start: 0, end: Q_INF }).unwrap();
    assert_eq!(hit.t, q_from(1));
    assert!(!hit.front_face);
    // Hit at (0,0,-1); inward means back toward the center: +z.
    assert_eq!(hit.normal, Vec3::from_ints(0, 0, 1));
}

#[test]
fn miss_reports_nothing() {
    let mut res = Resources::new();
    let m = any_material(&mut res);
    let sphere = SphereObject::new(Vec3::from_ints(0, 0, -5), q_from(1), m);
    let up = Ray::new(Vec3::zero(), Vec3::from_ints(0, 1, 0));
    assert!(sphere.hit(&up, Interval { start: 0, end: Q_INF }).is_none());
    // A hit beyond the interval's end is rejected too.
    let toward = Ray::new(Vec3::zero(), Vec3::from_ints(0, 0, -1));
    assert!(sphere.hit(&toward, Interval { start: 0, end: q_from(3) }).is_none());
    assert!(sphere.hit(&toward, Interval { start: 0, end: q_from(5) }).is_some());
}

#[test]
fn bounding_box_wraps_the_sphere() {
    let mut res = Resources::new();
    let m = any_material(&mut res);
    let sphere = SphereObject::new(Vec3::from_ints(2, -1, 4), q_from(3), m);
    let bb = sphere.bounding_box();
    assert_eq!(bb.x.start, q_from(-1));
    assert_eq!(bb.x.end, q_from(5));
    assert_eq!(bb.y.start, q_from(-4));
    assert_eq!(bb.y.end, q_from(2));
    assert_eq!(bb.z.start, q_from(1));
    assert_eq!(bb.z.end, q_from(7));
}

#[test]
fn texture_coordinates_stay_in_unit_square() {
    let mut res = Resources::new();
    let m = any_material(&mut res);
    let sphere = SphereObject::new(Vec3::zero(), q_from(1), m);
    let dirs = [
        Vec3::from_ints(0, 0, -1),
        Vec3::from_ints(0, 1, 1),
        Vec3::from_ints(-3, 2, 1),
        Vec3::from_ints(1, -1, 0),
    ];
    for dir in dirs {
        let ray = Ray::new(Vec3::from_ints(0, 0, 3), dir.sub(Vec3::from_ints(0, 0, 3)));
        if let Some(hit) = sphere.hit(&ray, Interval { start: 0, end: Q_INF }) {
            assert!(0 <= hit.u && hit.u <= SCALE);
            assert!(0 <= hit.v && hit.v <= SCALE);
        }
    }
}
