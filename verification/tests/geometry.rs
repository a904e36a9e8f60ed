//! Intervals, boxes, and the slab test on concrete values.

use raytracer::aabb::Aabb;
use raytracer::fixed::{q_from, Q_INF, Q_NEG_INF, SCALE};
use raytracer::interval::Interval;
use raytracer::ray::Ray;
use raytracer::vector::Vec3;

fn boxed(min: (i64, i64, i64), max: (i64, i64, i64)) -> Aabb {
    Aabb::new(
        Vec3::from_ints(min.0, min.1, min.2),
        Vec3::from_ints(max.0, max.1, max.2),
    )
}

#[test]
fn interval_contains_both_ends() {
    let i = Interval { start: q_from(-2), end: q_from(3) };
    assert!(i.contains(q_from(-2)));
    assert!(i.contains(q_from(3)));
    assert!(i.contains(0));
    assert!(!i.contains(q_from(-3)));
    assert!(!i.contains(q_from(4)));
}

#[test]
fn empty_interval_contains_nothing() {
    let e = Interval::empty();
    assert_eq!(e.start, Q_INF);
    assert_eq!(e.end, Q_NEG_INF);
    for v in [Q_NEG_INF, q_from(-1000000), -1, 0, 1, q_from(1000000), Q_INF] {
        assert!(!e.contains(v));
    }
}

#[test]
fn grow_is_commutative() {
    let a = boxed((-1, -2, -3), (1, 2, 3));
    let b = boxed((0, -5, 2), (4, 0, 6));
    let mut ab = a;
    ab.grow(&b);
    let mut ba = b;
    ba.grow(&a);
    assert_eq!(ab, ba);
    assert_eq!(ab, boxed((-1, -5, -3), (4, 2, 6)));
}

#[test]
fn grow_by_empty_is_identity() {
    let a = boxed((-1, -2, -3), (1, 2, 3));
    let mut g = a;
    g.grow(&Aabb::empty());
    assert_eq!(g, a);
    let mut idem = a;
    idem.grow(&a);
    assert_eq!(idem, a);
}

#[test]
fn largest_axis_prefers_earlier_on_ties() {
    assert_eq!(boxed((0, 0, 0), (3, 2, 1)).largest_axis(), 0);
    assert_eq!(boxed((0, 0, 0), (1, 3, 2)).largest_axis(), 1);
    assert_eq!(boxed((0, 0, 0), (1, 2, 3)).largest_axis(), 2);
    // exact ties resolve deterministically: x loses an exact tie to y,
    // and y loses an exact tie to z.
    assert_eq!(boxed((0, 0, 0), (2, 2, 2)).largest_axis(), 2);
    assert_eq!(boxed((0, 0, 0), (3, 3, 1)).largest_axis(), 1);
    assert_eq!(boxed((0, 0, 0), (1, 3, 3)).largest_axis(), 2);
}

#[test]
fn slab_test_hits_box_ahead() {
    let b = boxed((-1, -1, -3), (1, 1, -1));
    let ray = Ray::new(Vec3::zero(), Vec3::from_ints(0, 0, -1));
    assert!(b.hit(&ray, Interval { start: 0, end: Q_INF }));
    // The same box is missed by a ray pointed the other way.
    let away = Ray::new(Vec3::zero(), Vec3::from_ints(0, 0, 1));
    assert!(!b.hit(&away, Interval { start: 0, end: Q_INF }));
}

#[test]
fn slab_test_degenerate_axis_direction() {
    // Direction has a zero x component; the box is offset in x, so the
    // saturating division must reject it.
    let missed = boxed((5, -1, -3), (7, 1, -1));
    let ray = Ray::new(Vec3::zero(), Vec3::from_ints(0, 0, -1));
    assert!(!missed.hit(&ray, Interval { start: 0, end: Q_INF }));
    // A box straddling the origin in x and y is entered despite the zero
    // components.
    let pierced = boxed((-1, -1, -3), (1, 1, -1));
    assert!(pierced.hit(&ray, Interval { start: 0, end: Q_INF }));
}

#[test]
fn ray_at_walks_the_direction() {
    let ray = Ray::new(Vec3::from_ints(1, 2, 3), Vec3::from_ints(0, -1, 2));
    let p = ray.at(q_from(2));
    assert_eq!(p, Vec3::from_ints(1, 0, 7));
    assert_eq!(ray.at(0), ray.orig);
}

#[test]
fn vector_algebra_basics() {
    let a = Vec3::from_ints(1, 2, 3);
    let b = Vec3::from_ints(4, -5, 6);
    assert_eq!(a.add(b), Vec3::from_ints(5, -3, 9));
    assert_eq!(a.sub(b), Vec3::from_ints(-3, 7, -3));
    assert_eq!(a.dot(b), q_from(1 * 4 - 2 * 5 + 3 * 6));
    assert_eq!(a.cross(b), Vec3::from_ints(2 * 6 + 3 * 5, 3 * 4 - 1 * 6, -1 * 5 - 2 * 4));
    assert_eq!(a.scale(q_from(2)), Vec3::from_ints(2, 4, 6));
    assert_eq!(Vec3::from_ints(3, 4, 0).len(), q_from(5));
    assert_eq!(Vec3::from_ints(0, 0, -7).unit(), Vec3::from_ints(0, 0, -1));
    assert_eq!(
        Vec3::from_ints(1, -1, 0).reflect(Vec3::from_ints(0, 1, 0)),
        Vec3::from_ints(1, 1, 0),
    );
    assert_eq!(SCALE, 1 << 24);
}
