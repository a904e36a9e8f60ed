//! Fixed-point inverse trigonometry for the spherical texture
//! parameterization: a small polynomial arctangent, extended to the full
//! plane by octant reduction, and arccosine derived from it.

use vstd::prelude::*;
use crate::fixed::{
    spec_q_add, spec_q_sub, spec_q_mul, spec_q_div, spec_q_sqrt, spec_q_abs,
    spec_q_min, spec_q_max, q_add, q_sub, q_mul, q_div, q_sqrt, q_abs, q_min,
    q_max, SCALE,
};

verus! {

/// Pi, scaled by 2^24.
pub const PI_Q: i64 = 52707179;

/// Pi over two, scaled by 2^24.
pub const HALF_PI_Q: i64 = 26353589;

/// Pi over four, scaled by 2^24.
pub const QUARTER_PI_Q: i64 = 13176795;

/// Two pi, scaled by 2^24.
pub const TWO_PI_Q: i64 = 105414357;

/// Coefficient 0.273, scaled by 2^24, for the quadratic arctangent fit.
pub const ATAN_FIT_Q: i64 = 4580180;

/// Quadratic fit of the arctangent on the unit range:
/// `atan(r) ~ r * (pi/4 + 0.273 * (1 - r))`.
pub open spec fn spec_atan_unit(r: i64) -> i64 {
    spec_q_mul(r, spec_q_add(QUARTER_PI_Q as i64, spec_q_mul(ATAN_FIT_Q as i64, spec_q_sub(SCALE as i64, r))))
}

fn atan_unit(r: i64) -> (a: i64)
    ensures
        a == spec_atan_unit(r),
{
    q_mul(r, q_add(QUARTER_PI_Q, q_mul(ATAN_FIT_Q, q_sub(SCALE, r))))
}

/// The angle of the point `(x, y)` in the plane, in `(-pi, pi]`; the origin
/// itself maps to zero.
pub open spec fn spec_atan2(y: i64, x: i64) -> i64 {
    if x == 0 && y == 0 {
        0
    } else {
        let ax = spec_q_abs(x);
        let ay = spec_q_abs(y);
        let base = if ax >= ay {
            spec_atan_unit(spec_q_div(ay, ax))
        } else {
            spec_q_sub(HALF_PI_Q as i64, spec_atan_unit(spec_q_div(ax, ay)))
        };
        if x >= 0 {
            if y >= 0 {
                base
            } else {
                spec_q_sub(0, base)
            }
        } else {
            if y >= 0 {
                spec_q_sub(PI_Q as i64, base)
            } else {
                spec_q_sub(base, PI_Q as i64)
            }
        }
    }
}

pub fn atan2_q(y: i64, x: i64) -> (a: i64)
    ensures
        a == spec_atan2(y, x),
{
    if x == 0 && y == 0 {
        return 0;
    }
    let ax = q_abs(x);
    let ay = q_abs(y);
    let base = if ax >= ay {
        atan_unit(q_div(ay, ax))
    } else {
        q_sub(HALF_PI_Q, atan_unit(q_div(ax, ay)))
    };
    if x >= 0 {
        if y >= 0 {
            base
        } else {
            q_sub(0, base)
        }
    } else {
        if y >= 0 {
            q_sub(PI_Q, base)
        } else {
            q_sub(base, PI_Q)
        }
    }
}

/// Arccosine via the identity `acos(w) = atan2(sqrt(1 - w^2), w)`, with the
/// argument clamped into `[-1, 1]`.
pub open spec fn spec_acos(w: i64) -> i64 {
    let wc = spec_q_max(spec_q_min(w, SCALE as i64), spec_q_sub(0, SCALE as i64));
    spec_atan2(spec_q_sqrt(spec_q_sub(SCALE as i64, spec_q_mul(wc, wc))), wc)
}

pub fn acos_q(w: i64) -> (a: i64)
    ensures
        a == spec_acos(w),
{
    let wc = q_max(q_min(w, SCALE), q_sub(0, SCALE));
    atan2_q(q_sqrt(q_sub(SCALE, q_mul(wc, wc))), wc)
}

} // verus!
