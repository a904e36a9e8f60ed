//! Materials, textures and the recursive estimator.

use raytracer::fixed::{q_from, SCALE};
use raytracer::hittable::Hittable;
use raytracer::imgbuf::ImageBuffer;
use raytracer::integrator::ray_color;
use raytracer::material::Material;
use raytracer::materials::dielectric::DielectricMaterial;
use raytracer::materials::diffuse_light::DiffuseLightMaterial;
use raytracer::materials::lambertian::LambertianMaterial;
use raytracer::materials::metal::MetalMaterial;
use raytracer::objects::sphere::SphereObject;
use raytracer::random::Random;
use raytracer::ray::{Intersection, Ray};
use raytracer::resources::Resources;
use raytracer::scene::{Background, Scene};
use raytracer::texture::Texture;
use raytracer::textures::image::ImageTexture;
use raytracer::textures::solid::SolidTexture;
use raytracer::vector::Vec3;

fn sample_hit(res: &mut Resources) -> Intersection {
    let tex = res.add_texture(Texture::Solid(SolidTexture::new(Vec3::from_ints(1, 0, 0))));
    let m = res.add_material(Material::Lambertian(LambertianMaterial::new(tex)));
    Intersection {
        point: Vec3::from_ints(0, 0, -1),
        normal: Vec3::from_ints(0, 0, 1),
        front_face: true,
        material: m,
        t: q_from(1),
        u: 0,
        v: 0,
    }
}

#[test]
fn solid_texture_ignores_coordinates() {
    let res = Resources::new();
    let t = Texture::Solid(SolidTexture::new(Vec3::from_ints(0, 1, 0)));
    assert_eq!(t.color(&res, 0, 0), Vec3::from_ints(0, 1, 0));
    assert_eq!(t.color(&res, SCALE, SCALE / 2), Vec3::from_ints(0, 1, 0));
}

#[test]
fn image_texture_samples_by_truncation() {
    // A 2x2 image: red, green / blue, white.
    let data = vec![255, 0, 0, 0, 255, 0, 0, 0, 255, 255, 255, 255];
    let img = ImageBuffer::with_data(2, 2, data);
    let res = Resources::new();
    let t = Texture::Image(ImageTexture::new(img));
    let red = t.color(&res, 0, 0);
    assert_eq!(red, Vec3 { x: SCALE, y: 0, z: 0 });
    let green = t.color(&res, SCALE / 2, 0);
    assert_eq!(green, Vec3 { x: 0, y: SCALE, z: 0 });
    let blue = t.color(&res, 0, SCALE / 2);
    assert_eq!(blue, Vec3 { x: 0, y: 0, z: SCALE });
    // The far corner is clamped onto the last pixel.
    let white = t.color(&res, SCALE, SCALE);
    assert_eq!(white, Vec3 { x: SCALE, y: SCALE, z: SCALE });
}

#[test]
fn lambertian_always_scatters_from_the_hit_point() {
    let mut res = Resources::new();
    let hit = sample_hit(&mut res);
    let mut rng = Random::new(7);
    let ray = Ray::new(Vec3::zero(), Vec3::from_ints(0, 0, -1));
    let material = Material::Lambertian(LambertianMaterial::new(
        res.add_texture(Texture::Solid(SolidTexture::new(Vec3::from_ints(1, 0, 0)))),
    ));
    let (scattered, attenuation) = material.scatter(&res, &ray, &hit, &mut rng).unwrap();
    assert_eq!(scattered.orig, hit.point);
    assert_eq!(attenuation, Vec3::from_ints(1, 0, 0));
}

#[test]
fn metal_reflects_and_keeps_albedo() {
    let mut res = Resources::new();
    let hit = sample_hit(&mut res);
    let mut rng = Random::new(7);
    let ray = Ray::new(Vec3::zero(), Vec3::from_ints(1, 0, -1));
    let albedo = Vec3::from_ints(1, 1, 0);
    // A perfect mirror: no fuzz.
    let material = Material::Metal(MetalMaterial::new(albedo, 0));
    let (scattered, attenuation) = material.scatter(&res, &ray, &hit, &mut rng).unwrap();
    assert_eq!(attenuation, albedo);
    assert_eq!(scattered.orig, hit.point);
    // Reflecting (1,0,-1) about +z gives (1,0,1), normalized.
    let expected = Vec3::from_ints(1, 0, 1).unit();
    assert_eq!(scattered.dir, expected);
}

#[test]
fn dielectric_refracts_head_on() {
    let mut res = Resources::new();
    let hit = sample_hit(&mut res);
    let mut rng = Random::new(7);
    // Head-on through glass: the direction passes straight through and the
    // attenuation is white.
    let ray = Ray::new(Vec3::zero(), Vec3::from_ints(0, 0, -1));
    let material = Material::Dielectric(DielectricMaterial::new(SCALE * 3 / 2));
    let (scattered, attenuation) = material.scatter(&res, &ray, &hit, &mut rng).unwrap();
    assert_eq!(attenuation, Vec3::from_ints(1, 1, 1));
    assert_eq!(scattered.orig, hit.point);
    assert!(scattered.dir.z < 0);
    assert_eq!(scattered.dir.x, 0);
    assert_eq!(scattered.dir.y, 0);
}

#[test]
fn diffuse_light_emits_and_never_scatters() {
    let mut res = Resources::new();
    let hit = sample_hit(&mut res);
    let mut rng = Random::new(7);
    let glow = res.add_texture(Texture::Solid(SolidTexture::new(Vec3::from_ints(4, 4, 4))));
    let material = Material::DiffuseLight(DiffuseLightMaterial::new(glow));
    let ray = Ray::new(Vec3::zero(), Vec3::from_ints(0, 0, -1));
    assert!(material.scatter(&res, &ray, &hit, &mut rng).is_none());
    assert_eq!(material.emit(&res, &hit), Vec3::from_ints(4, 4, 4));
    // Non-emissive materials emit black.
    let plain = Material::Dielectric(DielectricMaterial::new(SCALE * 3 / 2));
    assert_eq!(plain.emit(&res, &hit), Vec3::zero());
}

#[test]
fn ray_color_depth_zero_is_black() {
    let mut res = Resources::new();
    let tex = res.add_texture(Texture::Solid(SolidTexture::new(Vec3::from_ints(1, 1, 1))));
    let m = res.add_material(Material::Lambertian(LambertianMaterial::new(tex)));
    let mut scene = Scene::new(Background::Solid(Vec3::from_ints(1, 1, 1)));
    scene.add(Hittable::Sphere(SphereObject::new(Vec3::from_ints(0, 0, -2), q_from(1), m)));
    let mut rng = Random::new(3);
    let ray = Ray::new(Vec3::zero(), Vec3::from_ints(0, 0, -1));
    let c = ray_color(&scene, &res, &ray, 0, &mut rng);
    assert_eq!(c, Vec3::zero());
}

#[test]
fn ray_color_misses_to_background() {
    let mut res = Resources::new();
    let tex = res.add_texture(Texture::Solid(SolidTexture::new(Vec3::from_ints(1, 1, 1))));
    let m = res.add_material(Material::Lambertian(LambertianMaterial::new(tex)));
    let mut scene = Scene::new(Background::Solid(Vec3::from_ints(0, 0, 1)));
    scene.add(Hittable::Sphere(SphereObject::new(Vec3::from_ints(0, 0, -2), q_from(1), m)));
    let mut rng = Random::new(3);
    let away = Ray::new(Vec3::zero(), Vec3::from_ints(0, 1, 0));
    let c = ray_color(&scene, &res, &away, 8, &mut rng);
    assert_eq!(c, Vec3::from_ints(0, 0, 1));
}

#[test]
fn ray_color_emission_terminates_recursion() {
    let mut res = Resources::new();
    let glow = res.add_texture(Texture::Solid(SolidTexture::new(Vec3::from_ints(2, 2, 2))));
    let m = res.add_material(Material::DiffuseLight(DiffuseLightMaterial::new(glow)));
    let mut scene = Scene::new(Background::Solid(Vec3::zero()));
    scene.add(Hittable::Sphere(SphereObject::new(Vec3::from_ints(0, 0, -3), q_from(1), m)));
    let mut rng = Random::new(3);
    let ray = Ray::new(Vec3::zero(), Vec3::from_ints(0, 0, -1));
    let c = ray_color(&scene, &res, &ray, 8, &mut rng);
    assert_eq!(c, Vec3::from_ints(2, 2, 2));
}

#[test]
fn ray_color_stays_non_negative() {
    let mut res = Resources::new();
    let tex = res.add_texture(Texture::Solid(SolidTexture::new(Vec3::from_ints(1, 0, 1))));
    let diffuse = res.add_material(Material::Lambertian(LambertianMaterial::new(tex)));
    let mirror = res.add_material(Material::Metal(MetalMaterial::new(
        Vec3::from_ints(1, 1, 0),
        SCALE / 10,
    )));
    let glass = res.add_material(Material::Dielectric(DielectricMaterial::new(SCALE * 3 / 2)));
    let mut scene = Scene::new(Background::Gradient {
        top: Vec3::from_ints(1, 1, 1),
        bottom: Vec3::zero(),
    });
    scene.add(Hittable::Sphere(SphereObject::new(Vec3::from_ints(0, 0, -3), q_from(1), diffuse)));
    scene.add(Hittable::Sphere(SphereObject::new(Vec3::from_ints(2, 0, -3), q_from(1), mirror)));
    scene.add(Hittable::Sphere(SphereObject::new(Vec3::from_ints(-2, 0, -3), q_from(1), glass)));
    scene.build_bvh();
    let mut rng = Random::new(11);
    for sx in -4i64..5 {
        for sy in -4i64..5 {
            let dir = Vec3 { x: sx * SCALE / 4, y: sy * SCALE / 4, z: -SCALE };
            let ray = Ray::new(Vec3::zero(), dir);
            let c = ray_color(&scene, &res, &ray, 6, &mut rng);
            assert!(c.x >= 0 && c.y >= 0 && c.z >= 0);
        }
    }
}
