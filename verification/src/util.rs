//! Shared value types: colors, points, complex numbers and the error kinds
//! the library surfaces.

use vstd::prelude::*;
use crate::fixed::{SCALE, PARAM_LIMIT, POINT_LIMIT, lerp, lerp_spec};
use crate::rng::rand_below;

verus! {

/// The error kinds the library surfaces to its callers.
#[derive(Copy, Clone, Debug, PartialEq, Eq, Structural)]
pub enum Error {
    /// A morph or shape check was asked of transforms or transform sets of
    /// differing kind or length.
    InvalidShape,
    /// A transform lookup or removal used an index that is out of bounds.
    IndexOutOfRange,
    /// An animation step index exceeds the total declared step count.
    StepOverflow,
    /// A transform was constructed with a non-positive weight or a
    /// parameter outside the fixed-point domain.
    ConstructionError,
}

/// An RGB color; each channel is a fixed-point value in `[0, 1]`.
#[derive(Copy, Clone, Debug, PartialEq, Eq, Structural)]
pub struct Color {
    pub r: i64,
    pub g: i64,
    pub b: i64,
}

/// A two-dimensional point in fixed-point coordinates.
#[derive(Copy, Clone, Debug, PartialEq, Eq, Structural)]
pub struct Point {
    pub x: i64,
    pub y: i64,
}

/// A complex number with fixed-point real and imaginary parts.
#[derive(Copy, Clone, Debug, PartialEq, Eq, Structural)]
pub struct Complex {
    pub re: i64,
    pub im: i64,
}

/// Every channel lies in `[0, 1]` (zero to `SCALE` raw units).
pub open spec fn valid_color(c: Color) -> bool {
    &&& 0 <= c.r <= SCALE
    &&& 0 <= c.g <= SCALE
    &&& 0 <= c.b <= SCALE
}

/// Both coordinates lie within the finite coordinate domain.
pub open spec fn valid_point(p: Point) -> bool {
    &&& -POINT_LIMIT <= p.x <= POINT_LIMIT
    &&& -POINT_LIMIT <= p.y <= POINT_LIMIT
}

/// Both parts lie within the transform-parameter domain.
pub open spec fn valid_complex(z: Complex) -> bool {
    &&& -PARAM_LIMIT <= z.re <= PARAM_LIMIT
    &&& -PARAM_LIMIT <= z.im <= PARAM_LIMIT
}

/// Every channel lies in the half-open unit interval `[0, 1)`: the range a
/// uniform channel draw produces.
pub open spec fn color_in_unit(c: Color) -> bool {
    &&& 0 <= c.r < SCALE
    &&& 0 <= c.g < SCALE
    &&& 0 <= c.b < SCALE
}

/// Both parts lie in the half-open interval `[-1, 1)`: the range a uniform
/// component draw produces.
pub open spec fn complex_in_unit(z: Complex) -> bool {
    &&& -SCALE <= z.re < SCALE
    &&& -SCALE <= z.im < SCALE
}

/// A channel sum clamped into the unit interval.
pub open spec fn clamped_channel(a: int, b: int) -> int {
    if a + b > SCALE {
        SCALE as int
    } else if a + b < 0 {
        0
    } else {
        a + b
    }
}

impl Color {
    /// A color with uniformly random channels in `[0, 1)`.
    pub fn random(rng: &mut rand::rngs::StdRng) -> (c: Color)
        ensures
            color_in_unit(c),
            valid_color(c),
    {
        Color {
            r: rand_below(rng, SCALE),
            g: rand_below(rng, SCALE),
            b: rand_below(rng, SCALE),
        }
    }

    /// Channel-wise sum of two colors, clamped into `[0, 1]`.
    pub fn add(self, rhs: Color) -> (c: Color)
        requires
            valid_color(self),
            valid_color(rhs),
        ensures
            c.r == clamped_channel(self.r as int, rhs.r as int),
            c.g == clamped_channel(self.g as int, rhs.g as int),
            c.b == clamped_channel(self.b as int, rhs.b as int),
            valid_color(c),
    {
        Color {
            r: if self.r + rhs.r > SCALE {
                SCALE
            } else {
                self.r + rhs.r
            },
            g: if self.g + rhs.g > SCALE {
                SCALE
            } else {
                self.g + rhs.g
            },
            b: if self.b + rhs.b > SCALE {
                SCALE
            } else {
                self.b + rhs.b
            },
        }
    }

    /// Channel-wise product of two colors.
    pub fn mul(self, rhs: Color) -> (c: Color)
        requires
            valid_color(self),
            valid_color(rhs),
        ensures
            c.r == crate::fixed::fmul(self.r as int, rhs.r as int),
            c.g == crate::fixed::fmul(self.g as int, rhs.g as int),
            c.b == crate::fixed::fmul(self.b as int, rhs.b as int),
            valid_color(c),
    {
        proof {
            crate::fixed::lemma_fmul_pct(self.r as int, rhs.r as int);
            crate::fixed::lemma_fmul_pct(self.g as int, rhs.g as int);
            crate::fixed::lemma_fmul_pct(self.b as int, rhs.b as int);
        }
        let r = match crate::fixed::fix_mul(self.r, rhs.r) {
            Some(v) => v,
            None => vstd::pervasive::unreached(),
        };
        let g = match crate::fixed::fix_mul(self.g, rhs.g) {
            Some(v) => v,
            None => vstd::pervasive::unreached(),
        };
        let b = match crate::fixed::fix_mul(self.b, rhs.b) {
            Some(v) => v,
            None => vstd::pervasive::unreached(),
        };
        Color { r, g, b }
    }
}

/// A complex number with uniformly random real and imaginary parts in
/// `[-1, 1)`.
pub fn random_complex_number(rng: &mut rand::rngs::StdRng) -> (z: Complex)
    ensures
        complex_in_unit(z),
        valid_complex(z),
{
    Complex { re: rand_below(rng, 2 * SCALE) - SCALE, im: rand_below(rng, 2 * SCALE) - SCALE }
}

/// Channel-wise linear interpolation between two colors.
pub open spec fn lerp_color_spec(a: Color, b: Color, pct: int) -> Color {
    Color {
        r: lerp_spec(a.r as int, b.r as int, pct) as i64,
        g: lerp_spec(a.g as int, b.g as int, pct) as i64,
        b: lerp_spec(a.b as int, b.b as int, pct) as i64,
    }
}

/// Interpolate between two colors, channel by channel.
pub fn lerp_color(a: Color, b: Color, pct: i64) -> (r: Color)
    requires
        valid_color(a),
        valid_color(b),
        0 <= pct <= SCALE,
    ensures
        r == lerp_color_spec(a, b, pct as int),
        valid_color(r),
{
    Color { r: lerp(a.r, b.r, pct), g: lerp(a.g, b.g, pct), b: lerp(a.b, b.b, pct) }
}

/// Component-wise linear interpolation between two complex numbers.
pub open spec fn lerp_complex_spec(a: Complex, b: Complex, pct: int) -> Complex {
    Complex {
        re: lerp_spec(a.re as int, b.re as int, pct) as i64,
        im: lerp_spec(a.im as int, b.im as int, pct) as i64,
    }
}

/// Interpolate between two complex numbers, real and imaginary parts
/// separately.
pub fn lerp_complex(a: Complex, b: Complex, pct: i64) -> (r: Complex)
    requires
        valid_complex(a),
        valid_complex(b),
        0 <= pct <= SCALE,
    ensures
        r == lerp_complex_spec(a, b, pct as int),
        valid_complex(r),
{
    Complex { re: lerp(a.re, b.re, pct), im: lerp(a.im, b.im, pct) }
}

} // verus!
