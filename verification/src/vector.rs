//! Vectors, points and colors in fixed-point 3-space.

use vstd::prelude::*;
use crate::random::Random;
use crate::fixed::{
    spec_q_add, spec_q_sub, spec_q_mul, spec_q_div, spec_q_sqrt, spec_q_from,
    spec_q_min, spec_q_abs, q_add, q_sub, q_mul, q_div, q_sqrt, q_from, q_min,
    q_abs, SCALE,
};

verus! {

/// A color containing red, green, and blue components.
/// This is an alias for Vec3: x is red, y is green, and z is blue.
pub type Color = Vec3;

/// A point in 3D space. This is an alias for Vec3.
pub type Point3 = Vec3;

/// A vector in 3D space, with x, y, and z fixed-point components.
#[derive(Debug, Clone, Copy, PartialEq, Eq, Structural)]
pub struct Vec3 {
    /// The x component of the vector.
    pub x: i64,
    /// The y component of the vector.
    pub y: i64,
    /// The z component of the vector.
    pub z: i64,
}

/// Axis selection: 0 is x, 1 is y, anything further is z.
pub open spec fn spec_v_axis(v: Vec3, i: int) -> i64 {
    if i == 0 {
        v.x
    } else if i == 1 {
        v.y
    } else {
        v.z
    }
}

pub open spec fn spec_v_add(a: Vec3, b: Vec3) -> Vec3 {
    Vec3 { x: spec_q_add(a.x, b.x), y: spec_q_add(a.y, b.y), z: spec_q_add(a.z, b.z) }
}

pub open spec fn spec_v_sub(a: Vec3, b: Vec3) -> Vec3 {
    Vec3 { x: spec_q_sub(a.x, b.x), y: spec_q_sub(a.y, b.y), z: spec_q_sub(a.z, b.z) }
}

pub open spec fn spec_v_neg(a: Vec3) -> Vec3 {
    Vec3 { x: spec_q_sub(0, a.x), y: spec_q_sub(0, a.y), z: spec_q_sub(0, a.z) }
}

pub open spec fn spec_v_scale(a: Vec3, s: i64) -> Vec3 {
    Vec3 { x: spec_q_mul(a.x, s), y: spec_q_mul(a.y, s), z: spec_q_mul(a.z, s) }
}

pub open spec fn spec_v_mul(a: Vec3, b: Vec3) -> Vec3 {
    Vec3 { x: spec_q_mul(a.x, b.x), y: spec_q_mul(a.y, b.y), z: spec_q_mul(a.z, b.z) }
}

pub open spec fn spec_v_div(a: Vec3, s: i64) -> Vec3 {
    Vec3 { x: spec_q_div(a.x, s), y: spec_q_div(a.y, s), z: spec_q_div(a.z, s) }
}

pub open spec fn spec_dot(a: Vec3, b: Vec3) -> i64 {
    spec_q_add(spec_q_add(spec_q_mul(a.x, b.x), spec_q_mul(a.y, b.y)), spec_q_mul(a.z, b.z))
}

pub open spec fn spec_len_sq(a: Vec3) -> i64 {
    spec_dot(a, a)
}

pub open spec fn spec_len(a: Vec3) -> i64 {
    spec_q_sqrt(spec_len_sq(a))
}

pub open spec fn spec_unit(a: Vec3) -> Vec3 {
    spec_v_div(a, spec_len(a))
}

pub open spec fn spec_cross(a: Vec3, b: Vec3) -> Vec3 {
    Vec3 {
        x: spec_q_sub(spec_q_mul(a.y, b.z), spec_q_mul(a.z, b.y)),
        y: spec_q_sub(spec_q_mul(a.z, b.x), spec_q_mul(a.x, b.z)),
        z: spec_q_sub(spec_q_mul(a.x, b.y), spec_q_mul(a.y, b.x)),
    }
}

/// Reflection of `a` across a normal: `a - n * 2 * dot(a, n)`.
pub open spec fn spec_reflect(a: Vec3, n: Vec3) -> Vec3 {
    spec_v_sub(a, spec_v_scale(n, spec_q_mul(spec_dot(a, n), spec_q_from(2))))
}

impl Vec3 {
    /// Creates a vector from its three components.
    pub fn new(x: i64, y: i64, z: i64) -> (r: Vec3)
        ensures
            r == (Vec3 { x, y, z }),
    {
        Vec3 { x, y, z }
    }

    /// The zero vector.
    pub fn zero() -> (r: Vec3)
        ensures
            r == (Vec3 { x: 0, y: 0, z: 0 }),
    {
        Vec3 { x: 0, y: 0, z: 0 }
    }

    /// The vector whose three components are one.
    pub fn one() -> (r: Vec3)
        ensures
            r == (Vec3 { x: SCALE as i64, y: SCALE as i64, z: SCALE as i64 }),
    {
        Vec3 { x: SCALE, y: SCALE, z: SCALE }
    }

    /// The vector for a triple of small whole numbers.
    pub fn from_ints(x: i64, y: i64, z: i64) -> (r: Vec3)
        ensures
            r == (Vec3 { x: spec_q_from(x), y: spec_q_from(y), z: spec_q_from(z) }),
    {
        Vec3 { x: q_from(x), y: q_from(y), z: q_from(z) }
    }

    /// Adds two vectors together.
    pub fn add(self, other: Vec3) -> (r: Vec3)
        ensures
            r == spec_v_add(self, other),
    {
        Vec3 { x: q_add(self.x, other.x), y: q_add(self.y, other.y), z: q_add(self.z, other.z) }
    }

    /// Subtracts one vector from another.
    pub fn sub(self, other: Vec3) -> (r: Vec3)
        ensures
            r == spec_v_sub(self, other),
    {
        Vec3 { x: q_sub(self.x, other.x), y: q_sub(self.y, other.y), z: q_sub(self.z, other.z) }
    }

    /// Negates the vector.
    pub fn neg(self) -> (r: Vec3)
        ensures
            r == spec_v_neg(self),
    {
        Vec3 { x: q_sub(0, self.x), y: q_sub(0, self.y), z: q_sub(0, self.z) }
    }

    /// Multiplies a vector by a scalar.
    pub fn scale(self, s: i64) -> (r: Vec3)
        ensures
            r == spec_v_scale(self, s),
    {
        Vec3 { x: q_mul(self.x, s), y: q_mul(self.y, s), z: q_mul(self.z, s) }
    }

    /// Multiplies two vectors together componentwise.
    pub fn mul(self, other: Vec3) -> (r: Vec3)
        ensures
            r == spec_v_mul(self, other),
    {
        Vec3 { x: q_mul(self.x, other.x), y: q_mul(self.y, other.y), z: q_mul(self.z, other.z) }
    }

    /// Divides a vector by a scalar.
    pub fn div(self, s: i64) -> (r: Vec3)
        ensures
            r == spec_v_div(self, s),
    {
        Vec3 { x: q_div(self.x, s), y: q_div(self.y, s), z: q_div(self.z, s) }
    }

    /// Calculates the dot product of two vectors.
    pub fn dot(&self, other: Vec3) -> (r: i64)
        ensures
            r == spec_dot(*self, other),
    {
        q_add(q_add(q_mul(self.x, other.x), q_mul(self.y, other.y)), q_mul(self.z, other.z))
    }

    /// Calculates the cross product of two vectors.
    pub fn cross(&self, other: Vec3) -> (r: Vec3)
        ensures
            r == spec_cross(*self, other),
    {
        Vec3 {
            x: q_sub(q_mul(self.y, other.z), q_mul(self.z, other.y)),
            y: q_sub(q_mul(self.z, other.x), q_mul(self.x, other.z)),
            z: q_sub(q_mul(self.x, other.y), q_mul(self.y, other.x)),
        }
    }

    /// Calculates the squared length of the vector.
    pub fn len_sq(&self) -> (r: i64)
        ensures
            r == spec_len_sq(*self),
    {
        self.dot(*self)
    }

    /// Calculates the length of the vector.
    pub fn len(&self) -> (r: i64)
        ensures
            r == spec_len(*self),
            r >= 0,
    {
        q_sqrt(self.len_sq())
    }

    /// Returns a new vector with the same direction, but a length of one.
    pub fn unit(&self) -> (r: Vec3)
        ensures
            r == spec_unit(*self),
    {
        self.div(self.len())
    }

    /// Checks if every component of the vector is smaller than the fixed
    /// quantum, that is, whether the vector is exactly zero.
    pub fn near_zero(&self) -> (r: bool)
        ensures
            r == (self.x == 0 && self.y == 0 && self.z == 0),
    {
        let d: i64 = 1;
        -d < self.x && self.x < d && -d < self.y && self.y < d && -d < self.z && self.z < d
    }

    /// Create a new Vec3 that lies strictly inside the unit sphere, by
    /// rejection sampling: draw a point in the cube `[-1, 1)^3` until its
    /// squared length is below one. The draw budget is bounded so that the
    /// function provably terminates; exhausting it (which a working
    /// generator cannot plausibly do) falls back to a fixed interior point.
    pub fn random_in_unit_sphere(rng: &mut Random) -> (r: Vec3)
        ensures
            spec_len_sq(r) < SCALE,
    {
        let mut tries: usize = 64;
        while tries > 0
            decreases tries,
        {
            let p = Vec3 {
                x: q_sub(q_mul(rng.random_unit_scalar(), q_from(2)), SCALE),
                y: q_sub(q_mul(rng.random_unit_scalar(), q_from(2)), SCALE),
                z: q_sub(q_mul(rng.random_unit_scalar(), q_from(2)), SCALE),
            };
            if p.len_sq() < SCALE {
                return p;
            }
            tries = tries - 1;
        }
        let p = Vec3 { x: 8388608, y: 0, z: 0 };
        proof {
            lemma_half_unit_inside(p);
        }
        p
    }

    /// The component of the vector along the given axis.
    pub fn component(&self, axis: usize) -> (r: i64)
        requires
            axis < 3,
        ensures
            r == spec_v_axis(*self, axis as int),
    {
        match axis {
            0 => self.x,
            1 => self.y,
            _ => self.z,
        }
    }

    /// Reflects the vector across a normal.
    pub fn reflect(&self, normal: Vec3) -> (r: Vec3)
        ensures
            r == spec_reflect(*self, normal),
    {
        self.sub(normal.scale(q_mul(self.dot(normal), q_from(2))))
    }

    /// Refracts the vector through a surface with the given normal and
    /// relative refractive index.
    pub fn refract(&self, normal: Vec3, etai_over_etat: i64) -> (r: Vec3)
        ensures
            r == spec_refract(*self, normal, etai_over_etat),
    {
        let cos_theta = q_min(self.neg().dot(normal), SCALE);
        let r_out_perp = self.add(normal.scale(cos_theta)).scale(etai_over_etat);
        let par_len_sq = q_sub(SCALE, r_out_perp.len_sq());
        let par_scale = q_sub(0, q_sqrt(q_abs(par_len_sq)));
        let r_out_parallel = normal.scale(par_scale);
        r_out_perp.add(r_out_parallel)
    }
}

/// The threshold beyond which a normal counts as nearly parallel to the x
/// axis when picking a helper axis for the tangent basis: 0.9.
pub const AXIS_LIMIT: i64 = 15099494;

/// The tangent basis around a world normal, applied to a tangent-space
/// vector: a helper axis not parallel to the normal gives a tangent by cross
/// product, the bitangent completes the frame, and the vector's components
/// weigh the three basis vectors.
pub open spec fn spec_to_world(n: Vec3, m: Vec3) -> Vec3 {
    let a = if spec_q_abs(n.x) > AXIS_LIMIT {
        Vec3 { x: 0, y: SCALE as i64, z: 0 }
    } else {
        Vec3 { x: SCALE as i64, y: 0, z: 0 }
    };
    let t = spec_unit(spec_cross(a, n));
    let b = spec_cross(n, t);
    spec_v_add(spec_v_add(spec_v_scale(t, m.x), spec_v_scale(b, m.y)), spec_v_scale(n, m.z))
}

impl Vec3 {
    /// Maps a vector from normal space to world space around the given
    /// normal.
    pub fn convert_to_world_space(normal: Vec3, m: Vec3) -> (r: Vec3)
        ensures
            r == spec_to_world(normal, m),
    {
        let a = if q_abs(normal.x) > AXIS_LIMIT {
            Vec3 { x: 0, y: SCALE, z: 0 }
        } else {
            Vec3 { x: SCALE, y: 0, z: 0 }
        };
        let t = a.cross(normal).unit();
        let b = normal.cross(t);
        t.scale(m.x).add(b.scale(m.y)).add(normal.scale(m.z))
    }
}

/// Every component of the color is non-negative.
pub open spec fn spec_color_nonneg(c: Color) -> bool {
    c.x >= 0 && c.y >= 0 && c.z >= 0
}

/// The vector half a unit along x lies strictly inside the unit sphere.
proof fn lemma_half_unit_inside(p: Vec3)
    requires
        p.x == 8388608i64,
        p.y == 0i64,
        p.z == 0i64,
    ensures
        spec_len_sq(p) < SCALE,
{
    assert(8388608int * 8388608int == 70368744177664int) by (nonlinear_arith);
    assert(0int * 0int == 0int) by (nonlinear_arith);
    assert(70368744177664int / 16777216int == 4194304int) by (nonlinear_arith);
}

/// Snell refraction: the perpendicular part is `(a + n * cos) * ratio`, the
/// parallel part is `n * -sqrt(|1 - perp_len_sq|)`.
pub open spec fn spec_refract(a: Vec3, n: Vec3, ratio: i64) -> Vec3 {
    let cos_theta = spec_q_min(spec_dot(spec_v_neg(a), n), SCALE as i64);
    let r_out_perp = spec_v_scale(spec_v_add(a, spec_v_scale(n, cos_theta)), ratio);
    let par_len_sq = spec_q_sub(SCALE as i64, spec_len_sq(r_out_perp));
    let par_scale = spec_q_sub(0, spec_q_sqrt(spec_q_abs(par_len_sq)));
    spec_v_add(r_out_perp, spec_v_scale(n, par_scale))
}

} // verus!
