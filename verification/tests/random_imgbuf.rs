//! The pseudo-random generator and the image buffer.

use raytracer::fixed::SCALE;
use raytracer::imgbuf::ImageBuffer;
use raytracer::random::Random;
use raytracer::vector::Vec3;

#[test]
fn jenkins_hash_known_values() {
    assert_eq!(Random::jenkins_hash(0xdeadbeef), 0x0f94fe849334a8fe);
    assert_eq!(Random::jenkins_hash(1), 0x124ea49d);
}

#[test]
fn xorshift_stream_from_seed() {
    let mut rng = Random::new(0xdeadbeef);
    assert_eq!(rng.xor_shift64(), 0x59136075be793e2f);
    assert_eq!(rng.xor_shift64(), 0xed5c350aa3a9a793);
}

#[test]
fn unit_scalars_stay_in_range() {
    let mut rng = Random::new(0xdeadbeef);
    assert_eq!(rng.random_unit_scalar(), 5837664);
    assert_eq!(rng.random_unit_scalar(), 15555637);
    for _ in 0..1000 {
        let v = rng.random_unit_scalar();
        assert!(0 <= v && v < SCALE);
    }
}

#[test]
fn same_seed_same_stream() {
    let mut a = Random::new(42);
    let mut b = Random::new(42);
    for _ in 0..32 {
        assert_eq!(a.xor_shift64(), b.xor_shift64());
    }
}

#[test]
fn random_points_fall_inside_unit_sphere() {
    let mut rng = Random::new(9);
    for _ in 0..200 {
        let p = Vec3::random_in_unit_sphere(&mut rng);
        assert!(p.len_sq() < SCALE);
    }
}

#[test]
fn new_buffer_is_black() {
    let img = ImageBuffer::new(4, 3);
    assert_eq!(img.width, 4);
    assert_eq!(img.height, 3);
    assert_eq!(img.data.len(), 4 * 3 * 3);
    assert!(img.data.iter().all(|b| *b == 0));
}

#[test]
fn with_data_keeps_bytes() {
    let data: Vec<u8> = (0..12).collect();
    let img = ImageBuffer::with_data(2, 2, data.clone());
    assert_eq!(img.data, data);
    assert_eq!(img.pixel(1, 0), (3, 4, 5));
    assert_eq!(img.pixel(0, 1), (6, 7, 8));
}

#[test]
fn set_pixel_round_trips() {
    let mut img = ImageBuffer::new(3, 2);
    img.set_pixel(2, 1, (10, 20, 30));
    assert_eq!(img.pixel(2, 1), (10, 20, 30));
    assert_eq!(img.pixel(0, 0), (0, 0, 0));
    img.set_pixel(0, 0, (1, 2, 3));
    assert_eq!(img.pixel(0, 0), (1, 2, 3));
    assert_eq!(img.pixel(2, 1), (10, 20, 30));
}
