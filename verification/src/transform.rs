//! The four transform kinds of the iterated function system: linear,
//! affine, Moebius and inverse-Julia maps. Each maps a point to a new
//! point, mixes a running color with its base color, and interpolates
//! toward another transform of the same kind.

use vstd::prelude::*;
use crate::fixed::{
    SCALE, PARAM_LIMIT, POINT_LIMIT, tdiv, fmul, fdiv, lerp, lerp_spec, is_sqrt, sqrt_floor,
    fix_mul, fix_sqrt, isqrt, lemma_fmul_bound, lemma_tdiv_shrinks, lemma_tdiv_mono,
    lemma_sqrt_unique, lemma_sqrt_mono, lemma_sqrt_bound,
};
use crate::util::{Color, Point, Complex, Error, valid_color, valid_point, valid_complex,
    color_in_unit, complex_in_unit, lerp_color, lerp_complex, lerp_color_spec, lerp_complex_spec,
    random_complex_number};
use crate::rng::{rand_below, rand_bool};

verus! {

/// Fixed-point approximation of pi.
pub const PI_FIX: i64 = 3141593;

/// Fixed-point approximation of two pi.
pub const TWO_PI_FIX: i64 = 6283185;

/// Fixed-point approximation of half pi.
pub const HALF_PI_FIX: i64 = 1570796;

/// Half of one in fixed-point units.
pub const HALF_FIX: i64 = 500000;

/// Clamp a value into the fixed-point unit interval `[-1, 1]`.
pub open spec fn clamp_unit_spec(v: int) -> int {
    if v < -SCALE {
        -SCALE as int
    } else if v > SCALE {
        SCALE as int
    } else {
        v
    }
}

/// Degree-six Taylor polynomial of the cosine around zero, in fixed point;
/// meant for arguments in `[0, pi/2]`.
pub open spec fn poly_cos_spec(x: int) -> int {
    let x2 = fmul(x, x);
    let x4 = fmul(x2, x2);
    let x6 = fmul(x4, x2);
    SCALE - x2 / 2 + x4 / 24 - x6 / 720
}

/// Degree-seven Taylor polynomial of the sine around zero, in fixed point;
/// meant for arguments in `[0, pi/2]`.
pub open spec fn poly_sin_spec(x: int) -> int {
    let x2 = fmul(x, x);
    let x3 = fmul(x2, x);
    let x5 = fmul(x3, x2);
    let x7 = fmul(x5, x2);
    x - x3 / 6 + x5 / 120 - x7 / 5040
}

/// Fixed-point cosine: the angle is reduced modulo two pi, folded into the
/// first quadrant, and approximated by `poly_cos_spec`, clamped to `[-1, 1]`.
pub open spec fn cos_spec(theta: int) -> int {
    let t = theta % (TWO_PI_FIX as int);
    clamp_unit_spec(
        if t < HALF_PI_FIX {
            poly_cos_spec(t)
        } else if t < PI_FIX {
            -poly_cos_spec(PI_FIX - t)
        } else if t < PI_FIX + HALF_PI_FIX {
            -poly_cos_spec(t - PI_FIX)
        } else {
            poly_cos_spec(TWO_PI_FIX - t)
        },
    )
}

/// Fixed-point sine, by the same reduction as `cos_spec`.
pub open spec fn sin_spec(theta: int) -> int {
    let t = theta % (TWO_PI_FIX as int);
    clamp_unit_spec(
        if t < HALF_PI_FIX {
            poly_sin_spec(t)
        } else if t < PI_FIX {
            poly_sin_spec(PI_FIX - t)
        } else if t < PI_FIX + HALF_PI_FIX {
            -poly_sin_spec(t - PI_FIX)
        } else {
            -poly_sin_spec(TWO_PI_FIX - t)
        },
    )
}

/// A fixed-point product of factors no larger than one hundred in
/// magnitude; such a product always fits.
fn fmul_small(a: i64, b: i64) -> (r: i64)
    requires
        -100 * SCALE <= a <= 100 * SCALE,
        -100 * SCALE <= b <= 100 * SCALE,
    ensures
        r == fmul(a as int, b as int),
        -10000 * SCALE <= r <= 10000 * SCALE,
{
    proof {
        lemma_fmul_bound(a as int, b as int, 100 * SCALE as int, 100 * SCALE as int);
        assert(tdiv(100 * (SCALE as int) * (100 * SCALE as int), SCALE as int) == 10000 * SCALE)
            by (nonlinear_arith);
    }
    match fix_mul(a, b) {
        Some(r) => r,
        None => vstd::pervasive::unreached(),
    }
}

/// Clamp a value into `[-1, 1]`.
fn clamp_unit(v: i64) -> (r: i64)
    ensures
        r == clamp_unit_spec(v as int),
        -SCALE <= r <= SCALE,
{
    if v < -SCALE {
        -SCALE
    } else if v > SCALE {
        SCALE
    } else {
        v
    }
}

/// Evaluate the cosine polynomial for an argument in `[0, 1.6]`.
fn poly_cos(x: i64) -> (r: i64)
    requires
        0 <= x <= 1600000,
    ensures
        r == poly_cos_spec(x as int),
        -2 * SCALE <= r <= 2 * SCALE,
{
    let x2 = fmul_small(x, x);
    proof {
        lemma_fmul_bound(x as int, x as int, 1600000, 1600000);
        lemma_tdiv_shrinks((x as int) * (x as int), SCALE as int);
        assert((x as int) * (x as int) >= 0) by (nonlinear_arith);
    }
    let x4 = fmul_small(x2, x2);
    proof {
        lemma_fmul_bound(x2 as int, x2 as int, 2560000, 2560000);
        lemma_tdiv_shrinks((x2 as int) * (x2 as int), SCALE as int);
        assert((x2 as int) * (x2 as int) >= 0) by (nonlinear_arith)
            requires
                x2 >= 0,
        ;
    }
    let x6 = fmul_small(x4, x2);
    proof {
        lemma_fmul_bound(x4 as int, x2 as int, 6553600, 2560000);
        lemma_tdiv_shrinks((x4 as int) * (x2 as int), SCALE as int);
        assert((x4 as int) * (x2 as int) >= 0) by (nonlinear_arith)
            requires
                x2 >= 0,
                x4 >= 0,
        ;
    }
    SCALE - x2 / 2 + x4 / 24 - x6 / 720
}

/// Evaluate the sine polynomial for an argument in `[0, 1.6]`.
fn poly_sin(x: i64) -> (r: i64)
    requires
        0 <= x <= 1600000,
    ensures
        r == poly_sin_spec(x as int),
        -2 * SCALE <= r <= 2 * SCALE,
{
    let x2 = fmul_small(x, x);
    proof {
        lemma_fmul_bound(x as int, x as int, 1600000, 1600000);
        lemma_tdiv_shrinks((x as int) * (x as int), SCALE as int);
        assert((x as int) * (x as int) >= 0) by (nonlinear_arith);
    }
    let x3 = fmul_small(x2, x);
    proof {
        lemma_fmul_bound(x2 as int, x as int, 2560000, 1600000);
        assert((x2 as int) * (x as int) >= 0) by (nonlinear_arith)
            requires
                x >= 0,
                x2 >= 0,
        ;
        lemma_tdiv_shrinks((x2 as int) * (x as int), SCALE as int);
    }
    let x5 = fmul_small(x3, x2);
    proof {
        lemma_fmul_bound(x3 as int, x2 as int, 4096000, 2560000);
        assert((x3 as int) * (x2 as int) >= 0) by (nonlinear_arith)
            requires
                x2 >= 0,
                x3 >= 0,
        ;
        lemma_tdiv_shrinks((x3 as int) * (x2 as int), SCALE as int);
    }
    let x7 = fmul_small(x5, x2);
    proof {
        lemma_fmul_bound(x5 as int, x2 as int, 10485760, 2560000);
        assert((x5 as int) * (x2 as int) >= 0) by (nonlinear_arith)
            requires
                x2 >= 0,
                x5 >= 0,
        ;
        lemma_tdiv_shrinks((x5 as int) * (x2 as int), SCALE as int);
    }
    x - x3 / 6 + x5 / 120 - x7 / 5040
}

/// Reduce an angle modulo two pi, into `[0, 2 pi)`.
fn angle_mod(theta: i64) -> (t: i64)
    ensures
        t == (theta as int) % (TWO_PI_FIX as int),
        0 <= t < TWO_PI_FIX,
{
    match theta.checked_rem_euclid(TWO_PI_FIX) {
        Some(t) => t,
        None => vstd::pervasive::unreached(),
    }
}

/// Fixed-point cosine.
pub fn fix_cos(theta: i64) -> (r: i64)
    ensures
        r == cos_spec(theta as int),
        -SCALE <= r <= SCALE,
{
    let t = angle_mod(theta);
    let v = if t < HALF_PI_FIX {
        poly_cos(t)
    } else if t < PI_FIX {
        -poly_cos(PI_FIX - t)
    } else if t < PI_FIX + HALF_PI_FIX {
        -poly_cos(t - PI_FIX)
    } else {
        poly_cos(TWO_PI_FIX - t)
    };
    clamp_unit(v)
}

/// Fixed-point sine.
pub fn fix_sin(theta: i64) -> (r: i64)
    ensures
        r == sin_spec(theta as int),
        -SCALE <= r <= SCALE,
{
    let t = angle_mod(theta);
    let v = if t < HALF_PI_FIX {
        poly_sin(t)
    } else if t < PI_FIX {
        poly_sin(PI_FIX - t)
    } else if t < PI_FIX + HALF_PI_FIX {
        -poly_sin(t - PI_FIX)
    } else {
        -poly_sin(TWO_PI_FIX - t)
    };
    clamp_unit(v)
}

/// The fixed final map applied before projecting to image space: the
/// half-scale Moebius map that sends `z` to `z / 2`.
pub fn final_transform(x: i64, y: i64) -> (r: (i64, i64))
    requires
        -POINT_LIMIT <= x <= POINT_LIMIT,
        -POINT_LIMIT <= y <= POINT_LIMIT,
    ensures
        r.0 == fmul(x as int, HALF_FIX as int),
        r.1 == fmul(y as int, HALF_FIX as int),
        -POINT_LIMIT <= r.0 <= POINT_LIMIT,
        -POINT_LIMIT <= r.1 <= POINT_LIMIT,
{
    proof {
        lemma_fmul_bound(x as int, HALF_FIX as int, POINT_LIMIT as int, HALF_FIX as int);
        assert(tdiv((POINT_LIMIT as int) * (HALF_FIX as int), SCALE as int) <= POINT_LIMIT as int)
            by (nonlinear_arith);
    }
    let fx = match fix_mul(x, HALF_FIX) {
        Some(v) => v,
        None => vstd::pervasive::unreached(),
    };
    let fy = match fix_mul(y, HALF_FIX) {
        Some(v) => v,
        None => vstd::pervasive::unreached(),
    };
    (fx, fy)
}

/// A transform parameter lies in the fixed-point parameter domain.
pub open spec fn param_ok(v: int) -> bool {
    -PARAM_LIMIT <= v <= PARAM_LIMIT
}

/// A weight is strictly positive and lies in the parameter domain.
pub open spec fn weight_ok(w: int) -> bool {
    1 <= w <= PARAM_LIMIT
}

/// A linear map given by the matrix rows `(a, b)` and `(c, d)`.
#[derive(Copy, Clone, Debug, PartialEq, Eq, Structural)]
pub struct LinearTransform {
    pub a: i64,
    pub b: i64,
    pub c: i64,
    pub d: i64,
    pub base_color: Color,
    pub weight: i64,
}

/// A linear map followed by a translation by `(xshift, yshift)`.
#[derive(Copy, Clone, Debug, PartialEq, Eq, Structural)]
pub struct AffineTransform {
    pub a: i64,
    pub b: i64,
    pub c: i64,
    pub d: i64,
    pub xshift: i64,
    pub yshift: i64,
    pub base_color: Color,
    pub weight: i64,
}

/// The fractional-linear map `z -> (a z + b) / (c z + d)` over complex
/// coefficients.
#[derive(Copy, Clone, Debug, PartialEq, Eq, Structural)]
pub struct MoebiusTransform {
    pub a: Complex,
    pub b: Complex,
    pub c: Complex,
    pub d: Complex,
    pub base_color: Color,
    pub weight: i64,
}

/// The two-branch inverse of the Julia map `z -> z^2 + c`, with the
/// constant `c` stored in polar form `(r, theta)` and cached as a complex
/// value.
#[derive(Copy, Clone, Debug, PartialEq, Eq, Structural)]
pub struct InverseJuliaTransform {
    pub r: i64,
    pub theta: i64,
    pub base_color: Color,
    pub weight: i64,
    pub c: Complex,
}

/// A transform of one of the four kinds.
#[derive(Copy, Clone, Debug, PartialEq, Eq, Structural)]
pub enum Transform {
    LinearTransform(LinearTransform),
    AffineTransform(AffineTransform),
    InverseJuliaTransform(InverseJuliaTransform),
    MoebiusTransform(MoebiusTransform),
}

/// The complex number with the given polar coordinates, in fixed point.
pub open spec fn polar_spec(r: int, theta: int) -> Complex {
    Complex { re: fmul(r, cos_spec(theta)) as i64, im: fmul(r, sin_spec(theta)) as i64 }
}

pub open spec fn valid_linear(t: LinearTransform) -> bool {
    &&& param_ok(t.a as int)
    &&& param_ok(t.b as int)
    &&& param_ok(t.c as int)
    &&& param_ok(t.d as int)
    &&& valid_color(t.base_color)
    &&& weight_ok(t.weight as int)
}

pub open spec fn valid_affine(t: AffineTransform) -> bool {
    &&& param_ok(t.a as int)
    &&& param_ok(t.b as int)
    &&& param_ok(t.c as int)
    &&& param_ok(t.d as int)
    &&& param_ok(t.xshift as int)
    &&& param_ok(t.yshift as int)
    &&& valid_color(t.base_color)
    &&& weight_ok(t.weight as int)
}

pub open spec fn valid_moebius(t: MoebiusTransform) -> bool {
    &&& valid_complex(t.a)
    &&& valid_complex(t.b)
    &&& valid_complex(t.c)
    &&& valid_complex(t.d)
    &&& valid_color(t.base_color)
    &&& weight_ok(t.weight as int)
}

pub open spec fn valid_julia(t: InverseJuliaTransform) -> bool {
    &&& param_ok(t.r as int)
    &&& param_ok(t.theta as int)
    &&& valid_color(t.base_color)
    &&& weight_ok(t.weight as int)
    &&& t.c == polar_spec(t.r as int, t.theta as int)
    &&& valid_complex(t.c)
}

pub open spec fn valid_transform(t: Transform) -> bool {
    match t {
        Transform::LinearTransform(t) => valid_linear(t),
        Transform::AffineTransform(t) => valid_affine(t),
        Transform::InverseJuliaTransform(t) => valid_julia(t),
        Transform::MoebiusTransform(t) => valid_moebius(t),
    }
}

/// Two transforms are of the same kind; their parameter values may differ.
pub open spec fn same_kind(a: Transform, b: Transform) -> bool {
    match (a, b) {
        (Transform::LinearTransform(_), Transform::LinearTransform(_)) => true,
        (Transform::AffineTransform(_), Transform::AffineTransform(_)) => true,
        (Transform::InverseJuliaTransform(_), Transform::InverseJuliaTransform(_)) => true,
        (Transform::MoebiusTransform(_), Transform::MoebiusTransform(_)) => true,
        _ => false,
    }
}

pub open spec fn morph_linear_spec(t: LinearTransform, o: LinearTransform, pct: int)
    -> LinearTransform {
    LinearTransform {
        a: lerp_spec(t.a as int, o.a as int, pct) as i64,
        b: lerp_spec(t.b as int, o.b as int, pct) as i64,
        c: lerp_spec(t.c as int, o.c as int, pct) as i64,
        d: lerp_spec(t.d as int, o.d as int, pct) as i64,
        base_color: lerp_color_spec(t.base_color, o.base_color, pct),
        weight: lerp_spec(t.weight as int, o.weight as int, pct) as i64,
    }
}

pub open spec fn morph_affine_spec(t: AffineTransform, o: AffineTransform, pct: int)
    -> AffineTransform {
    AffineTransform {
        a: lerp_spec(t.a as int, o.a as int, pct) as i64,
        b: lerp_spec(t.b as int, o.b as int, pct) as i64,
        c: lerp_spec(t.c as int, o.c as int, pct) as i64,
        d: lerp_spec(t.d as int, o.d as int, pct) as i64,
        xshift: lerp_spec(t.xshift as int, o.xshift as int, pct) as i64,
        yshift: lerp_spec(t.yshift as int, o.yshift as int, pct) as i64,
        base_color: lerp_color_spec(t.base_color, o.base_color, pct),
        weight: lerp_spec(t.weight as int, o.weight as int, pct) as i64,
    }
}

pub open spec fn morph_moebius_spec(t: MoebiusTransform, o: MoebiusTransform, pct: int)
    -> MoebiusTransform {
    MoebiusTransform {
        a: lerp_complex_spec(t.a, o.a, pct),
        b: lerp_complex_spec(t.b, o.b, pct),
        c: lerp_complex_spec(t.c, o.c, pct),
        d: lerp_complex_spec(t.d, o.d, pct),
        base_color: lerp_color_spec(t.base_color, o.base_color, pct),
        weight: lerp_spec(t.weight as int, o.weight as int, pct) as i64,
    }
}

pub open spec fn morph_julia_spec(t: InverseJuliaTransform, o: InverseJuliaTransform, pct: int)
    -> InverseJuliaTransform {
    let nr = lerp_spec(t.r as int, o.r as int, pct);
    let nt = lerp_spec(t.theta as int, o.theta as int, pct);
    InverseJuliaTransform {
        r: nr as i64,
        theta: nt as i64,
        base_color: lerp_color_spec(t.base_color, o.base_color, pct),
        weight: lerp_spec(t.weight as int, o.weight as int, pct) as i64,
        c: polar_spec(nr, nt),
    }
}

/// Parameter-wise interpolation of two same-kind transforms; for mixed
/// kinds the first argument is returned, but `Transform::morph` reports
/// those as an error instead.
pub open spec fn morph_spec(a: Transform, b: Transform, pct: int) -> Transform {
    match (a, b) {
        (Transform::LinearTransform(t), Transform::LinearTransform(o)) => Transform::LinearTransform(
            morph_linear_spec(t, o, pct),
        ),
        (Transform::AffineTransform(t), Transform::AffineTransform(o)) => Transform::AffineTransform(
            morph_affine_spec(t, o, pct),
        ),
        (
            Transform::InverseJuliaTransform(t),
            Transform::InverseJuliaTransform(o),
        ) => Transform::InverseJuliaTransform(morph_julia_spec(t, o, pct)),
        (Transform::MoebiusTransform(t), Transform::MoebiusTransform(o)) => Transform::MoebiusTransform(
            morph_moebius_spec(t, o, pct),
        ),
        _ => a,
    }
}

/// Mixing a base color into a running color: the channel-wise average of
/// the two.
pub open spec fn mix_spec(base: Color, cur: Color) -> Color {
    Color {
        r: ((base.r + cur.r) / 2) as i64,
        g: ((base.g + cur.g) / 2) as i64,
        b: ((base.b + cur.b) / 2) as i64,
    }
}

fn param_in_range(v: i64) -> (b: bool)
    ensures
        b == param_ok(v as int),
{
    -PARAM_LIMIT <= v && v <= PARAM_LIMIT
}

fn weight_in_range(w: i64) -> (b: bool)
    ensures
        b == weight_ok(w as int),
{
    1 <= w && w <= PARAM_LIMIT
}

fn color_in_range(c: &Color) -> (b: bool)
    ensures
        b == valid_color(*c),
{
    0 <= c.r && c.r <= SCALE && 0 <= c.g && c.g <= SCALE && 0 <= c.b && c.b <= SCALE
}

fn complex_in_range(z: &Complex) -> (b: bool)
    ensures
        b == valid_complex(*z),
{
    -PARAM_LIMIT <= z.re && z.re <= PARAM_LIMIT && -PARAM_LIMIT <= z.im && z.im <= PARAM_LIMIT
}

impl LinearTransform {
    /// Build a linear transform, rejecting parameters outside the
    /// fixed-point domain and non-positive weights.
    pub fn new(a: i64, b: i64, c: i64, d: i64, base_color: Color, weight: i64) -> (r: Result<
        LinearTransform,
        Error,
    >)
        ensures
            r is Ok <==> (param_ok(a as int) && param_ok(b as int) && param_ok(c as int)
                && param_ok(d as int) && valid_color(base_color) && weight_ok(weight as int)),
            r is Ok ==> r->Ok_0 == (LinearTransform { a, b, c, d, base_color, weight }),
            r is Ok ==> valid_linear(r->Ok_0),
            r is Err ==> r->Err_0 == Error::ConstructionError,
    {
        if param_in_range(a) && param_in_range(b) && param_in_range(c) && param_in_range(d)
            && color_in_range(&base_color) && weight_in_range(weight) {
            Ok(LinearTransform { a, b, c, d, base_color, weight })
        } else {
            Err(Error::ConstructionError)
        }
    }

    /// Interpolate every field toward `other` by `pct`.
    pub fn morph(&self, other: &LinearTransform, pct: i64) -> (r: LinearTransform)
        requires
            valid_linear(*self),
            valid_linear(*other),
            0 <= pct <= SCALE,
        ensures
            r == morph_linear_spec(*self, *other, pct as int),
            valid_linear(r),
    {
        LinearTransform {
            a: lerp(self.a, other.a, pct),
            b: lerp(self.b, other.b, pct),
            c: lerp(self.c, other.c, pct),
            d: lerp(self.d, other.d, pct),
            base_color: lerp_color(self.base_color, other.base_color, pct),
            weight: lerp(self.weight, other.weight, pct),
        }
    }
}

impl AffineTransform {
    /// Build an affine transform, rejecting parameters outside the
    /// fixed-point domain and non-positive weights.
    pub fn new(
        a: i64,
        b: i64,
        c: i64,
        d: i64,
        xshift: i64,
        yshift: i64,
        base_color: Color,
        weight: i64,
    ) -> (r: Result<AffineTransform, Error>)
        ensures
            r is Ok <==> (param_ok(a as int) && param_ok(b as int) && param_ok(c as int)
                && param_ok(d as int) && param_ok(xshift as int) && param_ok(yshift as int)
                && valid_color(base_color) && weight_ok(weight as int)),
            r is Ok ==> r->Ok_0 == (AffineTransform {
                a,
                b,
                c,
                d,
                xshift,
                yshift,
                base_color,
                weight,
            }),
            r is Ok ==> valid_affine(r->Ok_0),
            r is Err ==> r->Err_0 == Error::ConstructionError,
    {
        if param_in_range(a) && param_in_range(b) && param_in_range(c) && param_in_range(d)
            && param_in_range(xshift) && param_in_range(yshift) && color_in_range(&base_color)
            && weight_in_range(weight) {
            Ok(AffineTransform { a, b, c, d, xshift, yshift, base_color, weight })
        } else {
            Err(Error::ConstructionError)
        }
    }

    /// Interpolate every field toward `other` by `pct`.
    pub fn morph(&self, other: &AffineTransform, pct: i64) -> (r: AffineTransform)
        requires
            valid_affine(*self),
            valid_affine(*other),
            0 <= pct <= SCALE,
        ensures
            r == morph_affine_spec(*self, *other, pct as int),
            valid_affine(r),
    {
        AffineTransform {
            a: lerp(self.a, other.a, pct),
            b: lerp(self.b, other.b, pct),
            c: lerp(self.c, other.c, pct),
            d: lerp(self.d, other.d, pct),
            xshift: lerp(self.xshift, other.xshift, pct),
            yshift: lerp(self.yshift, other.yshift, pct),
            base_color: lerp_color(self.base_color, other.base_color, pct),
            weight: lerp(self.weight, other.weight, pct),
        }
    }
}

impl MoebiusTransform {
    /// Build a Moebius transform, rejecting coefficients outside the
    /// fixed-point domain and non-positive weights.
    pub fn new(a: Complex, b: Complex, c: Complex, d: Complex, base_color: Color, weight: i64)
        -> (r: Result<MoebiusTransform, Error>)
        ensures
            r is Ok <==> (valid_complex(a) && valid_complex(b) && valid_complex(c)
                && valid_complex(d) && valid_color(base_color) && weight_ok(weight as int)),
            r is Ok ==> r->Ok_0 == (MoebiusTransform { a, b, c, d, base_color, weight }),
            r is Ok ==> valid_moebius(r->Ok_0),
            r is Err ==> r->Err_0 == Error::ConstructionError,
    {
        if complex_in_range(&a) && complex_in_range(&b) && complex_in_range(&c)
            && complex_in_range(&d) && color_in_range(&base_color) && weight_in_range(weight) {
            Ok(MoebiusTransform { a, b, c, d, base_color, weight })
        } else {
            Err(Error::ConstructionError)
        }
    }

    /// Interpolate every field toward `other` by `pct`.
    pub fn morph(&self, other: &MoebiusTransform, pct: i64) -> (r: MoebiusTransform)
        requires
            valid_moebius(*self),
            valid_moebius(*other),
            0 <= pct <= SCALE,
        ensures
            r == morph_moebius_spec(*self, *other, pct as int),
            valid_moebius(r),
    {
        MoebiusTransform {
            a: lerp_complex(self.a, other.a, pct),
            b: lerp_complex(self.b, other.b, pct),
            c: lerp_complex(self.c, other.c, pct),
            d: lerp_complex(self.d, other.d, pct),
            base_color: lerp_color(self.base_color, other.base_color, pct),
            weight: lerp(self.weight, other.weight, pct),
        }
    }
}

impl InverseJuliaTransform {
    /// Build an inverse-Julia transform from the polar constant
    /// `(r, theta)`, caching `c = r (cos theta, sin theta)`; parameters
    /// outside the fixed-point domain and non-positive weights are
    /// rejected.
    pub fn new(r: i64, theta: i64, base_color: Color, weight: i64) -> (res: Result<
        InverseJuliaTransform,
        Error,
    >)
        ensures
            res is Ok <==> (param_ok(r as int) && param_ok(theta as int)
                && valid_color(base_color) && weight_ok(weight as int)),
            res is Ok ==> res->Ok_0 == (InverseJuliaTransform {
                r,
                theta,
                base_color,
                weight,
                c: polar_spec(r as int, theta as int),
            }),
            res is Ok ==> valid_julia(res->Ok_0),
            res is Err ==> res->Err_0 == Error::ConstructionError,
    {
        if param_in_range(r) && param_in_range(theta) && color_in_range(&base_color)
            && weight_in_range(weight) {
            let cos_t = fix_cos(theta);
            let sin_t = fix_sin(theta);
            proof {
                lemma_fmul_bound(r as int, cos_t as int, PARAM_LIMIT as int, SCALE as int);
                lemma_fmul_bound(r as int, sin_t as int, PARAM_LIMIT as int, SCALE as int);
                assert(tdiv((PARAM_LIMIT as int) * (SCALE as int), SCALE as int)
                    == PARAM_LIMIT as int) by (nonlinear_arith);
            }
            let cre = match fix_mul(r, cos_t) {
                Some(v) => v,
                None => vstd::pervasive::unreached(),
            };
            let cim = match fix_mul(r, sin_t) {
                Some(v) => v,
                None => vstd::pervasive::unreached(),
            };
            Ok(InverseJuliaTransform { r, theta, base_color, weight, c: Complex { re: cre, im: cim } })
        } else {
            Err(Error::ConstructionError)
        }
    }

    /// Interpolate `r`, `theta`, the base color and the weight toward
    /// `other` by `pct`, recomputing the cached constant.
    pub fn morph(&self, other: &InverseJuliaTransform, pct: i64) -> (res: InverseJuliaTransform)
        requires
            valid_julia(*self),
            valid_julia(*other),
            0 <= pct <= SCALE,
        ensures
            res == morph_julia_spec(*self, *other, pct as int),
            valid_julia(res),
    {
        let nr = lerp(self.r, other.r, pct);
        let nt = lerp(self.theta, other.theta, pct);
        let nc = lerp_color(self.base_color, other.base_color, pct);
        let nw = lerp(self.weight, other.weight, pct);
        match InverseJuliaTransform::new(nr, nt, nc, nw) {
            Ok(t) => t,
            Err(_) => vstd::pervasive::unreached(),
        }
    }
}

impl Transform {
    /// The transform's base color.
    pub open spec fn base_color_spec(self) -> Color {
        match self {
            Transform::LinearTransform(t) => t.base_color,
            Transform::AffineTransform(t) => t.base_color,
            Transform::InverseJuliaTransform(t) => t.base_color,
            Transform::MoebiusTransform(t) => t.base_color,
        }
    }

    /// The transform's selection weight.
    pub open spec fn weight_spec(self) -> int {
        match self {
            Transform::LinearTransform(t) => t.weight as int,
            Transform::AffineTransform(t) => t.weight as int,
            Transform::InverseJuliaTransform(t) => t.weight as int,
            Transform::MoebiusTransform(t) => t.weight as int,
        }
    }

    /// Interpolate every numeric field toward `other` by `pct`; fails with
    /// `InvalidShape` exactly when the two transforms are of different
    /// kinds.
    pub fn morph(&self, other: Transform, pct: i64) -> (r: Result<Transform, Error>)
        requires
            valid_transform(*self),
            valid_transform(other),
            0 <= pct <= SCALE,
        ensures
            r is Ok <==> same_kind(*self, other),
            r is Ok ==> r->Ok_0 == morph_spec(*self, other, pct as int),
            r is Ok ==> valid_transform(r->Ok_0),
            r is Err ==> r->Err_0 == Error::InvalidShape,
    {
        match (self, &other) {
            (Transform::LinearTransform(t), Transform::LinearTransform(o)) => Ok(
                Transform::LinearTransform(t.morph(o, pct)),
            ),
            (Transform::AffineTransform(t), Transform::AffineTransform(o)) => Ok(
                Transform::AffineTransform(t.morph(o, pct)),
            ),
            (Transform::InverseJuliaTransform(t), Transform::InverseJuliaTransform(o)) => Ok(
                Transform::InverseJuliaTransform(t.morph(o, pct)),
            ),
            (Transform::MoebiusTransform(t), Transform::MoebiusTransform(o)) => Ok(
                Transform::MoebiusTransform(t.morph(o, pct)),
            ),
            _ => Err(Error::InvalidShape),
        }
    }

    /// The transform's base color.
    pub fn get_base_color(&self) -> (c: Color)
        ensures
            c == self.base_color_spec(),
    {
        match self {
            Transform::LinearTransform(t) => t.base_color,
            Transform::AffineTransform(t) => t.base_color,
            Transform::InverseJuliaTransform(t) => t.base_color,
            Transform::MoebiusTransform(t) => t.base_color,
        }
    }

    /// The transform's selection weight.
    pub fn get_weight(&self) -> (w: i64)
        ensures
            w as int == self.weight_spec(),
    {
        match self {
            Transform::LinearTransform(t) => t.weight,
            Transform::AffineTransform(t) => t.weight,
            Transform::InverseJuliaTransform(t) => t.weight,
            Transform::MoebiusTransform(t) => t.weight,
        }
    }

    /// Mix the running color with this transform's base color: the
    /// channel-wise average of the two.
    pub fn transform_color(&self, current_color: Color) -> (c: Color)
        requires
            valid_transform(*self),
            valid_color(current_color),
        ensures
            c == mix_spec(self.base_color_spec(), current_color),
            valid_color(c),
    {
        let base = self.get_base_color();
        Color {
            r: (base.r + current_color.r) / 2,
            g: (base.g + current_color.g) / 2,
            b: (base.b + current_color.b) / 2,
        }
    }

    /// The name of the transform's kind.
    pub fn get_name(&self) -> (s: String)
        ensures
            self is LinearTransform ==> s@ == "LinearTransform"@,
            self is AffineTransform ==> s@ == "AffineTransform"@,
            self is InverseJuliaTransform ==> s@ == "InverseJuliaTransform"@,
            self is MoebiusTransform ==> s@ == "MoebiusTransform"@,
    {
        match self {
            Transform::LinearTransform(_) => "LinearTransform".to_owned(),
            Transform::AffineTransform(_) => "AffineTransform".to_owned(),
            Transform::InverseJuliaTransform(_) => "InverseJuliaTransform".to_owned(),
            Transform::MoebiusTransform(_) => "MoebiusTransform".to_owned(),
        }
    }
}

/// Both coordinates lie in the finite coordinate domain.
pub open spec fn point_in_range(x: int, y: int) -> bool {
    &&& -POINT_LIMIT <= x <= POINT_LIMIT
    &&& -POINT_LIMIT <= y <= POINT_LIMIT
}

pub open spec fn linear_x_spec(t: LinearTransform, p: Point) -> int {
    fmul(t.a as int, p.x as int) + fmul(t.b as int, p.y as int)
}

pub open spec fn linear_y_spec(t: LinearTransform, p: Point) -> int {
    fmul(t.c as int, p.x as int) + fmul(t.d as int, p.y as int)
}

pub open spec fn affine_x_spec(t: AffineTransform, p: Point) -> int {
    fmul(t.a as int, p.x as int) + fmul(t.b as int, p.y as int) + t.xshift
}

pub open spec fn affine_y_spec(t: AffineTransform, p: Point) -> int {
    fmul(t.c as int, p.x as int) + fmul(t.d as int, p.y as int) + t.yshift
}

pub open spec fn mobius_wr_spec(t: MoebiusTransform, p: Point) -> int {
    fmul(t.a.re as int, p.x as int) - fmul(t.a.im as int, p.y as int) + t.b.re
}

pub open spec fn mobius_wi_spec(t: MoebiusTransform, p: Point) -> int {
    fmul(t.a.re as int, p.y as int) + fmul(t.a.im as int, p.x as int) + t.b.im
}

pub open spec fn mobius_dr_spec(t: MoebiusTransform, p: Point) -> int {
    fmul(t.c.re as int, p.x as int) - fmul(t.c.im as int, p.y as int) + t.d.re
}

pub open spec fn mobius_di_spec(t: MoebiusTransform, p: Point) -> int {
    fmul(t.c.re as int, p.y as int) + fmul(t.c.im as int, p.x as int) + t.d.im
}

/// The Moebius map `(a z + b) / (c z + d)` over fixed-point complex
/// arithmetic; `None` when the denominator's squared magnitude truncates to
/// zero or the quotient leaves the coordinate domain.
pub open spec fn mobius_spec(t: MoebiusTransform, p: Point) -> Option<(int, int)> {
    let wr = mobius_wr_spec(t, p);
    let wi = mobius_wi_spec(t, p);
    let dr = mobius_dr_spec(t, p);
    let di = mobius_di_spec(t, p);
    let nrm = fmul(dr, dr) + fmul(di, di);
    if nrm == 0 {
        None
    } else {
        let qx = fdiv(fmul(wr, dr) + fmul(wi, di), nrm);
        let qy = fdiv(fmul(wi, dr) - fmul(wr, di), nrm);
        if point_in_range(qx, qy) {
            Some((qx, qy))
        } else {
            None
        }
    }
}

/// One branch of the inverse Julia map: the principal complex square root
/// of `c - z` (by the half-angle identities, over integer square roots),
/// negated when `neg` is set.
pub open spec fn julia_spec(t: InverseJuliaTransform, p: Point, neg: bool) -> (int, int) {
    let wr = t.c.re - p.x;
    let wi = t.c.im - p.y;
    let m = sqrt_floor(wr * wr + wi * wi);
    let xr = sqrt_floor((m + wr) * (HALF_FIX as int));
    let yr = sqrt_floor((m - wr) * (HALF_FIX as int));
    let ys = if wi >= 0 {
        yr
    } else {
        -yr
    };
    if neg {
        (-xr, -ys)
    } else {
        (xr, ys)
    }
}

/// Whether applying the transform to the point yields a usable coordinate
/// pair; when it does not, the evaluator drops the deposit as degenerate.
pub open spec fn transform_point_ok(t: Transform, p: Point) -> bool {
    match t {
        Transform::LinearTransform(t) => point_in_range(linear_x_spec(t, p), linear_y_spec(t, p)),
        Transform::AffineTransform(t) => point_in_range(affine_x_spec(t, p), affine_y_spec(t, p)),
        Transform::InverseJuliaTransform(_) => true,
        Transform::MoebiusTransform(t) => mobius_spec(t, p) is Some,
    }
}

/// The coordinates a transform application yields; `neg` selects the
/// inverse-Julia branch and is ignored by the other kinds.
pub open spec fn transform_point_val(t: Transform, p: Point, neg: bool) -> (int, int) {
    match t {
        Transform::LinearTransform(t) => (linear_x_spec(t, p), linear_y_spec(t, p)),
        Transform::AffineTransform(t) => (affine_x_spec(t, p), affine_y_spec(t, p)),
        Transform::InverseJuliaTransform(t) => julia_spec(t, p, neg),
        Transform::MoebiusTransform(t) => mobius_spec(t, p)->0,
    }
}

/// The product of two values no larger than the Moebius intermediates
/// stays comfortably inside the wide integer range.
proof fn lemma_prod_in_i128(a: int, b: int)
    requires
        -400000000000000 <= a <= 400000000000000,
        -400000000000000 <= b <= 400000000000000,
    ensures
        -160000000000000000000000000000 <= a * b <= 160000000000000000000000000000,
{
    assert(-160000000000000000000000000000 <= a * b <= 160000000000000000000000000000)
        by (nonlinear_arith)
        requires
            -400000000000000 <= a <= 400000000000000,
            -400000000000000 <= b <= 400000000000000,
    ;
}

/// A fixed-point product of a parameter and a coordinate; such a product
/// always fits, bounded by the product of the domain limits.
fn fmul_pc(a: i64, x: i64) -> (r: i64)
    requires
        param_ok(a as int),
        -POINT_LIMIT <= x <= POINT_LIMIT,
    ensures
        r == fmul(a as int, x as int),
        -128000000000000 <= r <= 128000000000000,
{
    proof {
        lemma_fmul_bound(a as int, x as int, PARAM_LIMIT as int, POINT_LIMIT as int);
        assert(tdiv((PARAM_LIMIT as int) * (POINT_LIMIT as int), SCALE as int)
            == 128000000000000) by (nonlinear_arith);
    }
    match fix_mul(a, x) {
        Some(r) => r,
        None => vstd::pervasive::unreached(),
    }
}

impl LinearTransform {
    /// Apply the linear map to a point; `None` when the image leaves the
    /// coordinate domain.
    pub fn transform_point(&self, point: Point) -> (r: Option<Point>)
        requires
            valid_linear(*self),
            valid_point(point),
        ensures
            r is Some <==> point_in_range(
                linear_x_spec(*self, point),
                linear_y_spec(*self, point),
            ),
            r is Some ==> r->0.x == linear_x_spec(*self, point) && r->0.y == linear_y_spec(
                *self,
                point,
            ) && valid_point(r->0),
    {
        let x = fmul_pc(self.a, point.x) + fmul_pc(self.b, point.y);
        let y = fmul_pc(self.c, point.x) + fmul_pc(self.d, point.y);
        if -POINT_LIMIT <= x && x <= POINT_LIMIT && -POINT_LIMIT <= y && y <= POINT_LIMIT {
            Some(Point { x, y })
        } else {
            None
        }
    }
}

impl AffineTransform {
    /// Apply the affine map to a point; `None` when the image leaves the
    /// coordinate domain.
    pub fn transform_point(&self, point: Point) -> (r: Option<Point>)
        requires
            valid_affine(*self),
            valid_point(point),
        ensures
            r is Some <==> point_in_range(
                affine_x_spec(*self, point),
                affine_y_spec(*self, point),
            ),
            r is Some ==> r->0.x == affine_x_spec(*self, point) && r->0.y == affine_y_spec(
                *self,
                point,
            ) && valid_point(r->0),
    {
        let x = fmul_pc(self.a, point.x) + fmul_pc(self.b, point.y) + self.xshift;
        let y = fmul_pc(self.c, point.x) + fmul_pc(self.d, point.y) + self.yshift;
        if -POINT_LIMIT <= x && x <= POINT_LIMIT && -POINT_LIMIT <= y && y <= POINT_LIMIT {
            Some(Point { x, y })
        } else {
            None
        }
    }
}

impl MoebiusTransform {
    /// Apply the Moebius map to a point; `None` when the denominator
    /// degenerates or the image leaves the coordinate domain.
    pub fn transform_point(&self, point: Point) -> (r: Option<Point>)
        requires
            valid_moebius(*self),
            valid_point(point),
        ensures
            r is Some <==> mobius_spec(*self, point) is Some,
            r is Some ==> (r->0.x as int, r->0.y as int) == mobius_spec(*self, point)->0
                && valid_point(r->0),
    {
        let wr = fmul_pc(self.a.re, point.x) - fmul_pc(self.a.im, point.y) + self.b.re;
        let wi = fmul_pc(self.a.re, point.y) + fmul_pc(self.a.im, point.x) + self.b.im;
        let dr = fmul_pc(self.c.re, point.x) - fmul_pc(self.c.im, point.y) + self.d.re;
        let di = fmul_pc(self.c.re, point.y) + fmul_pc(self.c.im, point.x) + self.d.im;
        proof {
            lemma_prod_in_i128(dr as int, dr as int);
            lemma_prod_in_i128(di as int, di as int);
            lemma_prod_in_i128(wr as int, dr as int);
            lemma_prod_in_i128(wi as int, di as int);
            lemma_prod_in_i128(wi as int, dr as int);
            lemma_prod_in_i128(wr as int, di as int);
        }
        let q1: i128 = (dr as i128) * (dr as i128) / (SCALE as i128);
        let q2: i128 = (di as i128) * (di as i128) / (SCALE as i128);
        proof {
            assert(q1 == fmul(dr as int, dr as int) && q1 >= 0) by {
                assert((dr as int) * (dr as int) >= 0) by (nonlinear_arith);
                lemma_tdiv_shrinks((dr as int) * (dr as int), SCALE as int);
            }
            assert(q2 == fmul(di as int, di as int) && q2 >= 0) by {
                assert((di as int) * (di as int) >= 0) by (nonlinear_arith);
                lemma_tdiv_shrinks((di as int) * (di as int), SCALE as int);
            }
        }
        let nrm: i128 = q1 + q2;
        if nrm == 0 {
            return None;
        }
        let n1: i128 = (wr as i128) * (dr as i128) / (SCALE as i128);
        let n2: i128 = (wi as i128) * (di as i128) / (SCALE as i128);
        let n3: i128 = (wi as i128) * (dr as i128) / (SCALE as i128);
        let n4: i128 = (wr as i128) * (di as i128) / (SCALE as i128);
        proof {
            lemma_tdiv_shrinks((wr as int) * (dr as int), SCALE as int);
            lemma_tdiv_shrinks((wi as int) * (di as int), SCALE as int);
            lemma_tdiv_shrinks((wi as int) * (dr as int), SCALE as int);
            lemma_tdiv_shrinks((wr as int) * (di as int), SCALE as int);
        }
        let nx: i128 = n1 + n2;
        let ny: i128 = n3 - n4;
        let qx: i128 = nx * (SCALE as i128) / nrm;
        let qy: i128 = ny * (SCALE as i128) / nrm;
        proof {
            assert(qx == fdiv(nx as int, nrm as int));
            assert(qy == fdiv(ny as int, nrm as int));
        }
        if -POINT_LIMIT as i128 <= qx && qx <= POINT_LIMIT as i128 && -POINT_LIMIT as i128 <= qy
            && qy <= POINT_LIMIT as i128 {
            Some(Point { x: qx as i64, y: qy as i64 })
        } else {
            None
        }
    }
}

impl InverseJuliaTransform {
    /// Apply one randomly chosen branch of the inverse Julia map to a
    /// point. The branch sign is drawn fresh on every call; both outcomes
    /// satisfy the stated relation.
    pub fn transform_point(&self, point: Point, rng: &mut rand::rngs::StdRng) -> (r: Point)
        requires
            valid_julia(*self),
            valid_point(point),
        ensures
            (r.x as int, r.y as int) == julia_spec(*self, point, false) || (
            r.x as int,
            r.y as int,
            ) == julia_spec(*self, point, true),
            valid_point(r),
    {
        let wr = self.c.re - point.x;
        let wi = self.c.im - point.y;
        proof {
            let ghost bb: int = 3000000000000;
            assert((wr as int) * (wr as int) + (wi as int) * (wi as int) < bb * bb)
                by (nonlinear_arith)
                requires
                    bb == 3000000000000,
                    -2000000000000 <= wr <= 2000000000000,
                    -2000000000000 <= wi <= 2000000000000,
            ;
            assert((wr as int) * (wr as int) >= 0) by (nonlinear_arith);
            assert((wi as int) * (wi as int) >= 0) by (nonlinear_arith);
        }
        let sq: i128 = (wr as i128) * (wr as i128) + (wi as i128) * (wi as i128);
        let m64 = isqrt(sq as u128);
        proof {
            lemma_sqrt_bound(sq as int, 3000000000000);
        }
        let m: i64 = m64 as i64;
        proof {
            let awr: int = if wr >= 0 {
                wr as int
            } else {
                -(wr as int)
            };
            assert(is_sqrt(awr * awr, awr)) by (nonlinear_arith)
                requires
                    awr >= 0,
            ;
            lemma_sqrt_unique(awr * awr, awr, sqrt_floor(awr * awr));
            assert(awr * awr == (wr as int) * (wr as int)) by (nonlinear_arith)
                requires
                    awr == wr as int || awr == -(wr as int),
            ;
            assert(awr * awr <= sq as int) by (nonlinear_arith)
                requires
                    awr * awr == (wr as int) * (wr as int),
                    (wi as int) * (wi as int) >= 0,
                    sq as int == (wr as int) * (wr as int) + (wi as int) * (wi as int),
            ;
            lemma_sqrt_mono(awr * awr, sq as int);
            assert(m >= awr);
        }
        let xr64 = isqrt(((m + wr) as u128) * (HALF_FIX as u128));
        let yr64 = isqrt(((m - wr) as u128) * (HALF_FIX as u128));
        proof {
            assert(((m + wr) as int) * (HALF_FIX as int) < 2000000000int * 2000000000int)
                by (nonlinear_arith)
                requires
                    0 <= m + wr <= 6000000000000,
            ;
            assert(((m - wr) as int) * (HALF_FIX as int) < 2000000000int * 2000000000int)
                by (nonlinear_arith)
                requires
                    0 <= m - wr <= 6000000000000,
            ;
            lemma_sqrt_bound(((m + wr) as int) * (HALF_FIX as int), 2000000000int);
            lemma_sqrt_bound(((m - wr) as int) * (HALF_FIX as int), 2000000000int);
        }
        let xr: i64 = xr64 as i64;
        let yr: i64 = yr64 as i64;
        let ys: i64 = if wi >= 0 {
            yr
        } else {
            -yr
        };
        if rand_bool(rng) {
            Point { x: -xr, y: -ys }
        } else {
            Point { x: xr, y: ys }
        }
    }
}

impl Transform {
    /// Apply the transform to a point; `None` is a degenerate numeric
    /// outcome, to be dropped by the evaluator. The generator feeds the
    /// inverse-Julia branch choice and is untouched by the other kinds.
    pub fn transform_point(&self, point: Point, rng: &mut rand::rngs::StdRng) -> (r: Option<
        Point,
    >)
        requires
            valid_transform(*self),
            valid_point(point),
        ensures
            r is Some <==> transform_point_ok(*self, point),
            r is Some ==> valid_point(r->0),
            r is Some ==> ((r->0.x as int, r->0.y as int) == transform_point_val(
                *self,
                point,
                false,
            ) || (r->0.x as int, r->0.y as int) == transform_point_val(*self, point, true)),
    {
        match self {
            Transform::LinearTransform(t) => t.transform_point(point),
            Transform::AffineTransform(t) => t.transform_point(point),
            Transform::InverseJuliaTransform(t) => Some(t.transform_point(point, rng)),
            Transform::MoebiusTransform(t) => t.transform_point(point),
        }
    }
}

/// A selection weight drawn from an approximately normal distribution
/// centered at one with spread about 0.15: the centered sum of twelve
/// uniform draws, scaled. The exact distribution is a documented design
/// choice; every draw lies in `[0.1, 1.9)`, so the weight is always
/// strictly positive.
fn random_weight(rng: &mut rand::rngs::StdRng) -> (w: i64)
    ensures
        weight_ok(w as int),
        100000 <= w < 1900000,
{
    let mut sum: i64 = 0;
    let mut k: usize = 0;
    while k < 12
        invariant
            0 <= k <= 12,
            0 <= sum <= k * (SCALE - 1),
        decreases 12 - k,
    {
        proof {
            assert((k as int) * (SCALE - 1) <= 11 * (SCALE - 1)) by (nonlinear_arith)
                requires
                    0 <= k < 12,
            ;
            assert((k as int) * (SCALE - 1) + (SCALE - 1) == ((k as int) + 1) * (SCALE - 1))
                by (nonlinear_arith);
        }
        sum = sum + rand_below(rng, SCALE);
        k = k + 1;
    }
    let dev = sum - 6 * SCALE;
    let scaled = match (dev * 15).checked_div(100) {
        Some(v) => v,
        None => vstd::pervasive::unreached(),
    };
    proof {
        assert(scaled == tdiv((dev as int) * 15, 100));
        lemma_tdiv_mono((dev as int) * 15, 89999820, 100);
        lemma_tdiv_mono(-90000000, (dev as int) * 15, 100);
        assert(tdiv(89999820, 100) == 899998) by (nonlinear_arith);
        assert(tdiv(-90000000, 100) == -900000) by (nonlinear_arith);
    }
    SCALE + scaled
}

impl LinearTransform {
    /// A random linear transform: matrix entries uniform in `[-1, 1)`, a
    /// near-normal weight in `[0.1, 1.9)` and a random base color.
    pub fn random(rng: &mut rand::rngs::StdRng) -> (t: LinearTransform)
        ensures
            valid_linear(t),
            -SCALE <= t.a < SCALE,
            -SCALE <= t.b < SCALE,
            -SCALE <= t.c < SCALE,
            -SCALE <= t.d < SCALE,
            color_in_unit(t.base_color),
            100000 <= t.weight < 1900000,
    {
        LinearTransform {
            a: rand_below(rng, 2 * SCALE) - SCALE,
            b: rand_below(rng, 2 * SCALE) - SCALE,
            c: rand_below(rng, 2 * SCALE) - SCALE,
            d: rand_below(rng, 2 * SCALE) - SCALE,
            base_color: Color::random(rng),
            weight: random_weight(rng),
        }
    }
}

impl AffineTransform {
    /// A random affine transform: matrix entries uniform in `[-1, 1)`,
    /// shifts uniform in `[-2, 2)`, a near-normal weight in `[0.1, 1.9)`
    /// and a random base color.
    pub fn random(rng: &mut rand::rngs::StdRng) -> (t: AffineTransform)
        ensures
            valid_affine(t),
            -SCALE <= t.a < SCALE,
            -SCALE <= t.b < SCALE,
            -SCALE <= t.c < SCALE,
            -SCALE <= t.d < SCALE,
            -2 * SCALE <= t.xshift < 2 * SCALE,
            -2 * SCALE <= t.yshift < 2 * SCALE,
            color_in_unit(t.base_color),
            100000 <= t.weight < 1900000,
    {
        AffineTransform {
            a: rand_below(rng, 2 * SCALE) - SCALE,
            b: rand_below(rng, 2 * SCALE) - SCALE,
            c: rand_below(rng, 2 * SCALE) - SCALE,
            d: rand_below(rng, 2 * SCALE) - SCALE,
            xshift: rand_below(rng, 4 * SCALE) - 2 * SCALE,
            yshift: rand_below(rng, 4 * SCALE) - 2 * SCALE,
            base_color: Color::random(rng),
            weight: random_weight(rng),
        }
    }
}

impl MoebiusTransform {
    /// A random Moebius transform: coefficients with uniform parts in
    /// `[-1, 1)`, a near-normal weight in `[0.1, 1.9)` and a random base
    /// color.
    pub fn random(rng: &mut rand::rngs::StdRng) -> (t: MoebiusTransform)
        ensures
            valid_moebius(t),
            complex_in_unit(t.a),
            complex_in_unit(t.b),
            complex_in_unit(t.c),
            complex_in_unit(t.d),
            color_in_unit(t.base_color),
            100000 <= t.weight < 1900000,
    {
        MoebiusTransform {
            a: random_complex_number(rng),
            b: random_complex_number(rng),
            c: random_complex_number(rng),
            d: random_complex_number(rng),
            base_color: Color::random(rng),
            weight: random_weight(rng),
        }
    }
}

impl InverseJuliaTransform {
    /// A random inverse-Julia transform: radius `sqrt(u) * 0.4 + 0.8` for a
    /// uniform `u` (so the radius lies in `[0.8, 1.2)`), angle uniform in
    /// `[0, 2 pi)`, a near-normal weight in `[0.1, 1.9)` and a random base
    /// color.
    pub fn random(rng: &mut rand::rngs::StdRng) -> (t: InverseJuliaTransform)
        ensures
            valid_julia(t),
            800000 <= t.r < 1200000,
            0 <= t.theta < TWO_PI_FIX,
            color_in_unit(t.base_color),
            100000 <= t.weight < 1900000,
    {
        let u = rand_below(rng, SCALE);
        let s = fix_sqrt(u);
        proof {
            assert((u as int) * (SCALE as int) < (SCALE as int) * (SCALE as int))
                by (nonlinear_arith)
                requires
                    0 <= u < SCALE,
            ;
            lemma_sqrt_bound((u as int) * (SCALE as int), SCALE as int);
            lemma_fmul_bound(s as int, 400000, (SCALE - 1) as int, 400000);
            assert(tdiv(((SCALE - 1) as int) * 400000, SCALE as int) == 399999)
                by (nonlinear_arith);
        }
        let sr = match fix_mul(s, 400000) {
            Some(v) => v,
            None => vstd::pervasive::unreached(),
        };
        proof {
            assert(sr >= 0) by {
                lemma_tdiv_shrinks((s as int) * 400000, SCALE as int);
                assert((s as int) * 400000 >= 0) by (nonlinear_arith)
                    requires
                        s >= 0,
                ;
            }
        }
        let r = sr + 800000;
        let u2 = rand_below(rng, SCALE);
        proof {
            lemma_fmul_bound(u2 as int, TWO_PI_FIX as int, (SCALE - 1) as int, TWO_PI_FIX as int);
            assert(tdiv(((SCALE - 1) as int) * (TWO_PI_FIX as int), SCALE as int) == 6283178)
                by (nonlinear_arith);
            assert(fmul(u2 as int, TWO_PI_FIX as int) >= 0) by {
                assert((u2 as int) * (TWO_PI_FIX as int) >= 0) by (nonlinear_arith)
                    requires
                        u2 >= 0,
                ;
                lemma_tdiv_shrinks((u2 as int) * (TWO_PI_FIX as int), SCALE as int);
            }
        }
        let theta = match fix_mul(u2, TWO_PI_FIX) {
            Some(v) => v,
            None => vstd::pervasive::unreached(),
        };
        match InverseJuliaTransform::new(r, theta, Color::random(rng), random_weight(rng)) {
            Ok(t) => t,
            Err(_) => vstd::pervasive::unreached(),
        }
    }
}

/// Whether two transforms are of the same kind.
pub fn kinds_match(a: &Transform, b: &Transform) -> (r: bool)
    ensures
        r == same_kind(*a, *b),
{
    match (a, b) {
        (Transform::LinearTransform(_), Transform::LinearTransform(_)) => true,
        (Transform::AffineTransform(_), Transform::AffineTransform(_)) => true,
        (Transform::InverseJuliaTransform(_), Transform::InverseJuliaTransform(_)) => true,
        (Transform::MoebiusTransform(_), Transform::MoebiusTransform(_)) => true,
        _ => false,
    }
}

/// Build a random transform of the kind the name denotes; an unknown name
/// is a construction error.
pub fn transform_from_str(name: &String, rng: &mut rand::rngs::StdRng) -> (r: Result<
    Transform,
    Error,
>)
    ensures
        r is Ok <==> (name@ == "LinearTransform"@ || name@ == "AffineTransform"@ || name@
            == "MoebiusTransform"@ || name@ == "InverseJuliaTransform"@),
        name@ == "LinearTransform"@ ==> r->Ok_0 is LinearTransform,
        name@ == "AffineTransform"@ ==> r->Ok_0 is AffineTransform,
        name@ == "MoebiusTransform"@ ==> r->Ok_0 is MoebiusTransform,
        name@ == "InverseJuliaTransform"@ ==> r->Ok_0 is InverseJuliaTransform,
        r is Ok ==> valid_transform(r->Ok_0),
        r is Err ==> r->Err_0 == Error::ConstructionError,
{
    proof {
        reveal_strlit("LinearTransform");
        reveal_strlit("AffineTransform");
        reveal_strlit("MoebiusTransform");
        reveal_strlit("InverseJuliaTransform");
        assert("LinearTransform"@[0] == 'L');
        assert("AffineTransform"@[0] == 'A');
        assert("MoebiusTransform"@[0] == 'M');
        assert("InverseJuliaTransform"@[0] == 'I');
    }
    if *name == "LinearTransform".to_owned() {
        Ok(Transform::LinearTransform(LinearTransform::random(rng)))
    } else if *name == "AffineTransform".to_owned() {
        Ok(Transform::AffineTransform(AffineTransform::random(rng)))
    } else if *name == "MoebiusTransform".to_owned() {
        Ok(Transform::MoebiusTransform(MoebiusTransform::random(rng)))
    } else if *name == "InverseJuliaTransform".to_owned() {
        Ok(Transform::InverseJuliaTransform(InverseJuliaTransform::random(rng)))
    } else {
        Err(Error::ConstructionError)
    }
}

/// Interpolating a value with itself gives the value back, whatever the
/// fraction.
proof fn lemma_lerp_same(a: int, pct: int)
    ensures
        lerp_spec(a, a, pct) == a,
{
    assert(fmul(0, pct) == 0);
}

/// At fraction zero the interpolation is the first endpoint.
proof fn lemma_lerp_zero(a: int, b: int)
    ensures
        lerp_spec(a, b, 0) == a,
{
    assert(fmul(b - a, 0) == 0);
}

/// At fraction one the interpolation is the second endpoint.
proof fn lemma_lerp_one(a: int, b: int)
    ensures
        lerp_spec(a, b, SCALE as int) == b,
{
    assert(tdiv((b - a) * SCALE, SCALE as int) == b - a) by (nonlinear_arith);
}

/// Morphing a transform with itself gives the transform back, whatever the
/// fraction: every field interpolates between equal endpoints.
pub proof fn lemma_morph_identity(t: Transform, pct: int)
    requires
        valid_transform(t),
    ensures
        morph_spec(t, t, pct) == t,
{
    assert forall|a: int| #[trigger] lerp_spec(a, a, pct) == a by {
        lemma_lerp_same(a, pct);
    }
}

/// Morphing by fraction zero reproduces the first transform exactly.
pub proof fn lemma_morph_zero(t: Transform, o: Transform)
    requires
        valid_transform(t),
        valid_transform(o),
        same_kind(t, o),
    ensures
        morph_spec(t, o, 0) == t,
{
    assert forall|a: int, b: int| #[trigger] lerp_spec(a, b, 0) == a by {
        lemma_lerp_zero(a, b);
    }
}

/// Morphing by fraction one reproduces the second transform exactly.
pub proof fn lemma_morph_one(t: Transform, o: Transform)
    requires
        valid_transform(t),
        valid_transform(o),
        same_kind(t, o),
    ensures
        morph_spec(t, o, SCALE as int) == o,
{
    assert forall|a: int, b: int| #[trigger] lerp_spec(a, b, SCALE as int) == b by {
        lemma_lerp_one(a, b);
    }
}

} // verus!
