//! Axis-aligned bounding boxes and the slab ray/box test.

use vstd::prelude::*;
use crate::fixed::{
    spec_q_div, spec_q_max, spec_q_min, spec_q_sub, q_div, q_sub, Q_INF, Q_NEG_INF,
};
use crate::interval::Interval;
use crate::ray::Ray;
use crate::vector::{spec_v_axis, Point3, Vec3};

verus! {

/// An axis-aligned bounding box: one interval per axis.
#[derive(Debug, Clone, Copy, PartialEq, Eq, Structural)]
pub struct Aabb {
    /// The interval of the bounding box in the x direction.
    pub x: Interval,
    /// The interval of the bounding box in the y direction.
    pub y: Interval,
    /// The interval of the bounding box in the z direction.
    pub z: Interval,
}

/// The union of two intervals: componentwise minimum of starts and maximum
/// of ends.
pub open spec fn spec_interval_union(a: Interval, b: Interval) -> Interval {
    Interval { start: spec_q_min(a.start, b.start), end: spec_q_max(a.end, b.end) }
}

/// The union of two boxes, axis by axis.
pub open spec fn spec_grow(a: Aabb, b: Aabb) -> Aabb {
    Aabb {
        x: spec_interval_union(a.x, b.x),
        y: spec_interval_union(a.y, b.y),
        z: spec_interval_union(a.z, b.z),
    }
}

/// The empty box: every axis holds the empty interval.
pub open spec fn spec_aabb_empty() -> Aabb {
    Aabb {
        x: Interval { start: Q_INF, end: Q_NEG_INF },
        y: Interval { start: Q_INF, end: Q_NEG_INF },
        z: Interval { start: Q_INF, end: Q_NEG_INF },
    }
}

/// Interval containment: every value of `a` lies in `b`.
pub open spec fn spec_interval_le(a: Interval, b: Interval) -> bool {
    b.start <= a.start && a.end <= b.end
}

/// Box containment, axis by axis.
pub open spec fn spec_box_le(a: Aabb, b: Aabb) -> bool {
    spec_interval_le(a.x, b.x) && spec_interval_le(a.y, b.y) && spec_interval_le(a.z, b.z)
}

/// Axis selection on a box: 0 is x, 1 is y, anything further is z.
pub open spec fn spec_aabb_axis(b: Aabb, i: int) -> Interval {
    if i == 0 {
        b.x
    } else if i == 1 {
        b.y
    } else {
        b.z
    }
}

/// One axis of the slab test: entry parameters from the saturating divisions,
/// ordered, then used to tighten the running interval.
pub open spec fn spec_slab_axis(axis: Interval, o: i64, d: i64, s: i64, e: i64) -> (i64, i64) {
    let t0 = spec_q_div(spec_q_sub(axis.start, o), d);
    let t1 = spec_q_div(spec_q_sub(axis.end, o), d);
    let lo = spec_q_min(t0, t1);
    let hi = spec_q_max(t0, t1);
    (spec_q_max(s, lo), spec_q_min(e, hi))
}

/// The slab test from axis `i` on, with running interval `(s, e)`: each axis
/// tightens the interval and the test fails as soon as it collapses.
pub open spec fn spec_slab_from(b: Aabb, orig: Vec3, dir: Vec3, s: i64, e: i64, i: int) -> bool
    decreases 3 - i,
{
    if i >= 3 {
        true
    } else {
        let (s2, e2) = spec_slab_axis(
            spec_aabb_axis(b, i),
            spec_v_axis(orig, i),
            spec_v_axis(dir, i),
            s,
            e,
        );
        if e2 <= s2 {
            false
        } else {
            spec_slab_from(b, orig, dir, s2, e2, i + 1)
        }
    }
}

/// Whether the slab test passes for a ray against a box over a time interval.
pub open spec fn spec_slab_hit(b: Aabb, ray: Ray, time: Interval) -> bool {
    spec_slab_from(b, ray.orig, ray.dir, time.start, time.end, 0)
}

impl Aabb {
    /// The empty bounding box, the identity of `grow`.
    pub fn empty() -> (r: Aabb)
        ensures
            r == spec_aabb_empty(),
    {
        Aabb {
            x: Interval::empty(),
            y: Interval::empty(),
            z: Interval::empty(),
        }
    }

    /// Creates a new axis-aligned bounding box from two corner points.
    pub fn new(min: Point3, max: Point3) -> (r: Aabb)
        ensures
            r.x == (Interval { start: min.x, end: max.x }),
            r.y == (Interval { start: min.y, end: max.y }),
            r.z == (Interval { start: min.z, end: max.z }),
    {
        Aabb {
            x: Interval { start: min.x, end: max.x },
            y: Interval { start: min.y, end: max.y },
            z: Interval { start: min.z, end: max.z },
        }
    }

    /// Grows the bounding box to include another bounding box.
    pub fn grow(&mut self, other: &Aabb)
        ensures
            *final(self) == spec_grow(*old(self), *other),
    {
        self.x.start = if other.x.start < self.x.start { other.x.start } else { self.x.start };
        self.x.end = if other.x.end > self.x.end { other.x.end } else { self.x.end };
        self.y.start = if other.y.start < self.y.start { other.y.start } else { self.y.start };
        self.y.end = if other.y.end > self.y.end { other.y.end } else { self.y.end };
        self.z.start = if other.z.start < self.z.start { other.z.start } else { self.z.start };
        self.z.end = if other.z.end > self.z.end { other.z.end } else { self.z.end };
    }

    /// Returns the axis with the largest extent, ties resolved in favor of
    /// the earlier axis among x, y, then z.
    pub fn largest_axis(&self) -> (r: usize)
        ensures
            r == spec_largest_axis(*self),
            r < 3,
    {
        let x_extent = q_sub(self.x.end, self.x.start);
        let y_extent = q_sub(self.y.end, self.y.start);
        let z_extent = q_sub(self.z.end, self.z.start);
        if x_extent > y_extent {
            if x_extent > z_extent {
                0
            } else {
                2
            }
        } else if y_extent > z_extent {
            1
        } else {
            2
        }
    }

    /// Returns the component of the bounding box for the given axis; the
    /// caller guarantees the axis is one of 0, 1 and 2.
    pub fn component(&self, axis: usize) -> (r: Interval)
        requires
            axis < 3,
        ensures
            r == spec_aabb_axis(*self, axis as int),
    {
        match axis {
            0 => self.x,
            1 => self.y,
            _ => self.z,
        }
    }

    /// Checks if the bounding box intersects with a ray inside the given
    /// time interval, by the slab method: per axis, the two entry parameters
    /// tighten the running interval, and the box is rejected as soon as the
    /// interval collapses. Division by a zero direction component saturates
    /// to the infinities, which compare correctly against any interval.
    pub fn hit(&self, ray: &Ray, time: Interval) -> (r: bool)
        ensures
            r == spec_slab_hit(*self, *ray, time),
    {
        let mut t = time;
        let mut idx: usize = 0;
        while idx < 3
            invariant
                idx <= 3,
                spec_slab_from(*self, ray.orig, ray.dir, t.start, t.end, idx as int)
                    == spec_slab_hit(*self, *ray, time),
            decreases 3 - idx,
        {
            let axis = self.component(idx);
            let o = ray.orig.component(idx);
            let d = ray.dir.component(idx);

            let t0 = q_div(q_sub(axis.start, o), d);
            let t1 = q_div(q_sub(axis.end, o), d);

            let (t0, t1) = if t1 < t0 {
                (t1, t0)
            } else {
                (t0, t1)
            };

            if t0 > t.start {
                t.start = t0;
            }
            if t1 < t.end {
                t.end = t1;
            }

            if t.end <= t.start {
                return false;
            }
            idx = idx + 1;
        }
        true
    }
}

/// Extent comparison picking the dominant axis, exactly as the executable
/// code branches: x wins strict ties over y and y over z.
pub open spec fn spec_largest_axis(b: Aabb) -> usize {
    let xe = spec_q_sub(b.x.end, b.x.start);
    let ye = spec_q_sub(b.y.end, b.y.start);
    let ze = spec_q_sub(b.z.end, b.z.start);
    if xe > ye {
        if xe > ze {
            0usize
        } else {
            2usize
        }
    } else if ye > ze {
        1usize
    } else {
        2usize
    }
}

/// Growing is commutative: the union of two boxes does not depend on the
/// order of its arguments.
pub proof fn lemma_grow_commutative(a: Aabb, b: Aabb)
    ensures
        spec_grow(a, b) == spec_grow(b, a),
{
}

/// Growing a box by the empty box gives the box back, and growing a box by
/// itself changes nothing.
pub proof fn lemma_grow_idempotent(a: Aabb)
    ensures
        spec_grow(a, spec_aabb_empty()) == a,
        spec_grow(a, a) == a,
{
}

/// Growing is associative, so a set of boxes can be folded in any grouping.
pub proof fn lemma_grow_associative(a: Aabb, b: Aabb, c: Aabb)
    ensures
        spec_grow(spec_grow(a, b), c) == spec_grow(a, spec_grow(b, c)),
{
}

/// Both arguments of a union are contained in it.
pub proof fn lemma_grow_contains(a: Aabb, b: Aabb)
    ensures
        spec_box_le(a, spec_grow(a, b)),
        spec_box_le(b, spec_grow(a, b)),
{
}

/// A box whose axis intervals are in order — a real box. A box grown from a
/// real box is itself real.
pub open spec fn spec_aabb_ordered(b: Aabb) -> bool {
    b.x.start <= b.x.end && b.y.start <= b.y.end && b.z.start <= b.z.end
}

/// One axis of the monotonicity argument: the bigger interval yields a
/// wider pair of entry parameters.
proof fn lemma_slab_axis_wider(small: Interval, big: Interval, o: i64, d: i64, s2: i64, s1: i64, e1: i64, e2: i64)
    requires
        big.start <= small.start,
        small.end <= big.end,
        small.start <= small.end,
        s2 <= s1,
        e1 <= e2,
    ensures
        spec_slab_axis(big, o, d, s2, e2).0 <= spec_slab_axis(small, o, d, s1, e1).0,
        spec_slab_axis(small, o, d, s1, e1).1 <= spec_slab_axis(big, o, d, s2, e2).1,
{
    crate::fixed::lemma_q_sub_monotone(big.start, small.start, o);
    crate::fixed::lemma_q_sub_monotone(small.start, small.end, o);
    crate::fixed::lemma_q_sub_monotone(small.end, big.end, o);
    crate::fixed::lemma_q_div_monotone(
        spec_q_sub(big.start, o),
        spec_q_sub(small.start, o),
        d,
    );
    crate::fixed::lemma_q_div_monotone(
        spec_q_sub(small.start, o),
        spec_q_sub(small.end, o),
        d,
    );
    crate::fixed::lemma_q_div_monotone(
        spec_q_sub(small.end, o),
        spec_q_sub(big.end, o),
        d,
    );
}

/// The slab test is monotone in the box: from a given axis on, if the test
/// passes for a real box under a running interval, it passes for any
/// enclosing box under a wider running interval.
proof fn lemma_slab_from_monotone(
    small: Aabb,
    big: Aabb,
    orig: Vec3,
    dir: Vec3,
    s1: i64,
    e1: i64,
    s2: i64,
    e2: i64,
    i: int,
)
    requires
        spec_box_le(small, big),
        spec_aabb_ordered(small),
        s2 <= s1,
        e1 <= e2,
        spec_slab_from(small, orig, dir, s1, e1, i),
    ensures
        spec_slab_from(big, orig, dir, s2, e2, i),
    decreases 3 - i,
{
    if i < 3 {
        let sa = spec_aabb_axis(small, i);
        let ba = spec_aabb_axis(big, i);
        let o = spec_v_axis(orig, i);
        let d = spec_v_axis(dir, i);
        lemma_slab_axis_wider(sa, ba, o, d, s2, s1, e1, e2);
        let n1 = spec_slab_axis(sa, o, d, s1, e1);
        let n2 = spec_slab_axis(ba, o, d, s2, e2);
        lemma_slab_from_monotone(small, big, orig, dir, n1.0, n1.1, n2.0, n2.1, i + 1);
    }
}

/// The slab test is monotone in the box: if a ray meets a real box inside a
/// time interval, it meets every box that contains it.
pub proof fn lemma_slab_monotone(small: Aabb, big: Aabb, ray: Ray, time: Interval)
    requires
        spec_box_le(small, big),
        spec_aabb_ordered(small),
        spec_slab_hit(small, ray, time),
    ensures
        spec_slab_hit(big, ray, time),
{
    lemma_slab_from_monotone(
        small,
        big,
        ray.orig,
        ray.dir,
        time.start,
        time.end,
        time.start,
        time.end,
        0,
    );
}

/// A union is the least box containing both arguments: anything that
/// contains both contains their union.
pub proof fn lemma_grow_least(a: Aabb, b: Aabb, c: Aabb)
    requires
        spec_box_le(a, c),
        spec_box_le(b, c),
    ensures
        spec_box_le(spec_grow(a, b), c),
{
}

/// Box containment is transitive.
pub proof fn lemma_box_le_transitive(a: Aabb, b: Aabb, c: Aabb)
    requires
        spec_box_le(a, b),
        spec_box_le(b, c),
    ensures
        spec_box_le(a, c),
{
}

} // verus!
