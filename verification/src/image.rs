//! The accumulation image: a dense width x height x 3 energy buffer fed by
//! additive deposits, and its tone-mapping pipeline.
//!
//! Export runs in two stages, as a global photographic tone operator:
//! first a single scale factor is computed from the buffer's log-average
//! luminance (a Ward-style operator for a display peak luminance of 200,
//! with the numerator derived from that assumption rather than copied);
//! then every channel is scaled, gamma-encoded and quantized to eight bits.
//! All arithmetic is fixed point; the exponents are dyadic approximations
//! (13/32 for the 0.4 of the luminance term, 29/64 for the 0.45 gamma)
//! so that every stage is exact integer arithmetic with a provable
//! specification, and the logarithm and power of ten are computed by
//! digit-recurrence loops that the specification functions here mirror
//! exactly.

use vstd::prelude::*;
use crate::fixed::{
    SCALE, tdiv, fmul, fdiv, is_sqrt, sqrt_floor, fsqrt, fix_mul, fix_div, fix_sqrt,
    lemma_fmul_bound, lemma_tdiv_shrinks, lemma_tdiv_mono, lemma_sqrt_exists, lemma_sqrt_unique,
    lemma_sqrt_mono, lemma_sqrt_bound,
};
use crate::util::{Color, valid_color};

verus! {

/// Luminance weight of the red channel, in ten-thousandths.
pub const LUM_R: u64 = 2126;

/// Luminance weight of the green channel, in ten-thousandths.
pub const LUM_G: u64 = 7152;

/// Luminance weight of the blue channel, in ten-thousandths.
pub const LUM_B: u64 = 722;

/// Floor for a pixel's average luminance before the logarithm (one
/// ten-thousandth), so unvisited cells do not degenerate.
pub const LUM_EPS: u64 = 100;

/// The display's assumed peak luminance.
pub const DISPLAY_LUMINANCE_MAX: i64 = 200;

/// The additive constant of the Ward tone operator (1.219).
pub const TONE_OFFSET: i64 = 1219000;

/// A width x height x 3 fixed-point energy buffer. The channel for pixel
/// `(x, y)` and channel index `c` lives at `(y * width + x) * 3 + c`:
/// row-major, origin in the first row.
pub struct Image {
    pub width: usize,
    pub height: usize,
    pub data: Vec<u64>,
}

/// The flat index of pixel `(x, y)` channel `c`.
pub open spec fn idx_spec(w: int, x: int, y: int, c: int) -> int {
    (y * w + x) * 3 + c
}

/// Addition that stops at the top of the `u64` range.
pub open spec fn sat_add_spec(a: u64, b: int) -> u64 {
    if a + b > u64::MAX {
        u64::MAX
    } else {
        (a + b) as u64
    }
}

pub(crate) proof fn lemma_idx_bound(w: int, h: int, x: int, y: int)
    requires
        0 <= x < w,
        0 <= y < h,
    ensures
        0 <= y * w,
        y * w + x < w * h,
        (y * w + x) * 3 + 2 < (w * h) * 3,
        w * h <= (w * h) * 3,
{
    assert(0 <= y * w && y * w + x < w * h && ((y * w + x) * 3 + 2) < (w * h) * 3 && w * h <= (w
        * h) * 3) by (nonlinear_arith)
        requires
            0 <= x < w,
            0 <= y < h,
    ;
}

impl Image {
    /// The buffer holds exactly three channels per pixel.
    pub open spec fn wf(self) -> bool {
        self.data@.len() == (self.width * self.height) * 3
    }

    /// A zero-filled buffer of the given dimensions.
    pub fn new(width: usize, height: usize) -> (img: Image)
        requires
            (width * height) * 3 <= usize::MAX,
        ensures
            img.wf(),
            img.width == width,
            img.height == height,
            forall|i: int| 0 <= i < img.data@.len() ==> img.data@[i] == 0,
    {
        let n = (width * height) * 3;
        let mut data: Vec<u64> = Vec::new();
        let mut i: usize = 0;
        while i < n
            invariant
                i <= n,
                data@.len() == i,
                forall|j: int| 0 <= j < i ==> data@[j] == 0,
            decreases n - i,
        {
            data.push(0u64);
            i = i + 1;
        }
        Image { width, height, data }
    }

    /// The image width in pixels.
    pub fn width(&self) -> (w: usize)
        ensures
            w == self.width,
    {
        self.width
    }

    /// The image height in pixels.
    pub fn height(&self) -> (h: usize)
        ensures
            h == self.height,
    {
        self.height
    }

    /// Add a color's energy to the cell at `(x, y)`. A coordinate outside
    /// the image leaves the buffer untouched and is not an error: it is a
    /// point that diverged outside the visible frame.
    pub fn add_radiance(&mut self, x: usize, y: usize, radiance: Color)
        requires
            old(self).wf(),
            valid_color(radiance),
        ensures
            final(self).wf(),
            final(self).width == old(self).width,
            final(self).height == old(self).height,
            x < old(self).width && y < old(self).height ==> final(self).data@ == old(
                self,
            ).data@.update(
                idx_spec(old(self).width as int, x as int, y as int, 0),
                sat_add_spec(
                    old(self).data@[idx_spec(old(self).width as int, x as int, y as int, 0)],
                    radiance.r as int,
                ),
            ).update(
                idx_spec(old(self).width as int, x as int, y as int, 1),
                sat_add_spec(
                    old(self).data@[idx_spec(old(self).width as int, x as int, y as int, 1)],
                    radiance.g as int,
                ),
            ).update(
                idx_spec(old(self).width as int, x as int, y as int, 2),
                sat_add_spec(
                    old(self).data@[idx_spec(old(self).width as int, x as int, y as int, 2)],
                    radiance.b as int,
                ),
            ),
            !(x < old(self).width && y < old(self).height) ==> final(self).data@ == old(
                self,
            ).data@,
    {
        if x < self.width && y < self.height {
            let n = self.data.len();
            proof {
                lemma_idx_bound(self.width as int, self.height as int, x as int, y as int);
            }
            let base = (y * self.width + x) * 3;
            let c0 = self.data[base];
            self.data[base] = c0.saturating_add(radiance.r as u64);
            let c1 = self.data[base + 1];
            self.data[base + 1] = c1.saturating_add(radiance.g as u64);
            let c2 = self.data[base + 2];
            self.data[base + 2] = c2.saturating_add(radiance.b as u64);
        }
    }
}

/// A pixel's luminance from its three channels, in ten-thousandth weights.
pub open spec fn lum_spec(r: int, g: int, b: int) -> int {
    (2126 * r + 7152 * g + 722 * b) / 10000
}

/// The halving bit weights of the logarithm's fractional accumulation.
pub open spec fn frac_acc(m: int, w: int) -> int
    decreases w,
{
    if w <= 0 {
        0
    } else {
        let m2 = fmul(m, m);
        if m2 >= 10 * SCALE {
            w + frac_acc(m2 / 10, w / 2)
        } else {
            frac_acc(m2, w / 2)
        }
    }
}

/// The decimal exponent of a positive value below ten to the twentieth:
/// the power of ten that brings it into the mantissa range `[1, 10)`.
pub open spec fn lg_e(x: int) -> int {
    if x < 10 {
        -6
    } else if x < 100 {
        -5
    } else if x < 1000 {
        -4
    } else if x < 10000 {
        -3
    } else if x < 100000 {
        -2
    } else if x < 1000000 {
        -1
    } else if x < 10000000 {
        0
    } else if x < 100000000 {
        1
    } else if x < 1000000000 {
        2
    } else if x < 10000000000 {
        3
    } else if x < 100000000000 {
        4
    } else if x < 1000000000000 {
        5
    } else if x < 10000000000000 {
        6
    } else if x < 100000000000000 {
        7
    } else if x < 1000000000000000 {
        8
    } else if x < 10000000000000000 {
        9
    } else if x < 100000000000000000 {
        10
    } else if x < 1000000000000000000 {
        11
    } else if x < 10000000000000000000 {
        12
    } else {
        13
    }
}

/// The mantissa matching `lg_e`: the value scaled into `[1, 10)` fixed
/// point, with truncation on the downward shifts.
pub open spec fn lg_m(x: int) -> int {
    let e = lg_e(x);
    if e == -6 {
        x * 1000000
    } else if e == -5 {
        x * 100000
    } else if e == -4 {
        x * 10000
    } else if e == -3 {
        x * 1000
    } else if e == -2 {
        x * 100
    } else if e == -1 {
        x * 10
    } else if e == 0 {
        x
    } else if e == 1 {
        x / 10
    } else if e == 2 {
        x / 100
    } else if e == 3 {
        x / 1000
    } else if e == 4 {
        x / 10000
    } else if e == 5 {
        x / 100000
    } else if e == 6 {
        x / 1000000
    } else if e == 7 {
        x / 10000000
    } else if e == 8 {
        x / 100000000
    } else if e == 9 {
        x / 1000000000
    } else if e == 10 {
        x / 10000000000
    } else if e == 11 {
        x / 100000000000
    } else if e == 12 {
        x / 1000000000000
    } else {
        x / 10000000000000
    }
}

/// The base-ten logarithm of a fixed-point value, by decimal exponent plus
/// a squaring digit recurrence on the mantissa.
pub open spec fn log10_spec(x: int) -> int {
    lg_e(x) * SCALE + frac_acc(lg_m(x), 500000)
}

/// The fractional accumulation is bounded by twice its leading weight.
proof fn lemma_frac_acc_bounds(m: int, w: int)
    ensures
        0 <= frac_acc(m, w) <= 2 * w || w <= 0,
    decreases w,
{
    if w > 0 {
        let m2 = fmul(m, m);
        if m2 >= 10 * SCALE {
            lemma_frac_acc_bounds(m2 / 10, w / 2);
        } else {
            lemma_frac_acc_bounds(m2, w / 2);
        }
    }
}

/// Evaluate the logarithm's fractional digits for a mantissa in `[1, 10)`.
fn log_frac(m0: i64) -> (acc: i64)
    requires
        SCALE <= m0 < 10 * SCALE,
    ensures
        acc == frac_acc(m0 as int, 500000),
        0 <= acc <= SCALE,
{
    let mut m = m0;
    let mut w: i64 = 500000;
    let mut acc: i64 = 0;
    proof {
        lemma_frac_acc_bounds(m0 as int, 500000);
    }
    while w > 0
        invariant
            SCALE <= m < 10 * SCALE,
            0 <= w <= 500000,
            0 <= acc,
            acc + frac_acc(m as int, w as int) == frac_acc(m0 as int, 500000),
            frac_acc(m as int, w as int) >= 0,
            acc + 2 * w <= 2 * 500000,
        decreases w,
    {
        proof {
            lemma_fmul_bound(m as int, m as int, 10 * SCALE as int, 10 * SCALE as int);
            assert(tdiv((10 * (SCALE as int)) * (10 * (SCALE as int)), SCALE as int) == 100 * (
            SCALE as int)) by (nonlinear_arith);
            assert((m as int) * (m as int) >= (SCALE as int) * (SCALE as int))
                by (nonlinear_arith)
                requires
                    m >= SCALE,
            ;
            assert((m as int) * (m as int) <= (10 * (SCALE as int) - 1) * (10 * (SCALE as int)
                - 1)) by (nonlinear_arith)
                requires
                    0 <= m < 10 * SCALE,
            ;
            lemma_tdiv_mono((SCALE as int) * (SCALE as int), (m as int) * (m as int), SCALE as int);
            lemma_tdiv_mono((m as int) * (m as int), (10 * (SCALE as int) - 1) * (10 * (
            SCALE as int) - 1), SCALE as int);
            assert(tdiv((SCALE as int) * (SCALE as int), SCALE as int) == SCALE as int)
                by (nonlinear_arith);
            assert(tdiv((10 * (SCALE as int) - 1) * (10 * (SCALE as int) - 1), SCALE as int) < 10
                * (SCALE as int) * 10) by (nonlinear_arith);
            lemma_frac_acc_bounds(
                (if fmul(m as int, m as int) >= 10 * SCALE {
                    fmul(m as int, m as int) / 10
                } else {
                    fmul(m as int, m as int)
                }),
                (w / 2) as int,
            );
        }
        let m2 = match fix_mul(m, m) {
            Some(v) => v,
            None => vstd::pervasive::unreached(),
        };
        if m2 >= 10 * SCALE {
            acc = acc + w;
            m = m2 / 10;
            proof {
                assert(SCALE <= m < 10 * SCALE) by (nonlinear_arith)
                    requires
                        10 * SCALE <= m2 < 100 * (SCALE as int),
                        m == m2 / 10,
                ;
            }
        } else {
            m = m2;
        }
        w = w / 2;
    }
    acc
}

/// The base-ten logarithm of a positive fixed-point value.
pub fn log10_fix(x: u64) -> (r: i64)
    requires
        x >= 1,
    ensures
        r == log10_spec(x as int),
        -6 * SCALE <= r <= 14 * SCALE,
{
    let (e, m): (i64, u64) = if x < 10 {
        (-6, x * 1000000)
    } else if x < 100 {
        (-5, x * 100000)
    } else if x < 1000 {
        (-4, x * 10000)
    } else if x < 10000 {
        (-3, x * 1000)
    } else if x < 100000 {
        (-2, x * 100)
    } else if x < 1000000 {
        (-1, x * 10)
    } else if x < 10000000 {
        (0, x)
    } else if x < 100000000 {
        (1, x / 10)
    } else if x < 1000000000 {
        (2, x / 100)
    } else if x < 10000000000 {
        (3, x / 1000)
    } else if x < 100000000000 {
        (4, x / 10000)
    } else if x < 1000000000000 {
        (5, x / 100000)
    } else if x < 10000000000000 {
        (6, x / 1000000)
    } else if x < 100000000000000 {
        (7, x / 10000000)
    } else if x < 1000000000000000 {
        (8, x / 100000000)
    } else if x < 10000000000000000 {
        (9, x / 1000000000)
    } else if x < 100000000000000000 {
        (10, x / 10000000000)
    } else if x < 1000000000000000000 {
        (11, x / 100000000000)
    } else if x < 10000000000000000000 {
        (12, x / 1000000000000)
    } else {
        (13, x / 10000000000000)
    };
    let f = log_frac(m as i64);
    e * SCALE + f
}

/// The truncated fixed-point value of ten to the power `1 / 2^k`.
pub open spec fn ten_root(k: int) -> int {
    if k == 1 {
        3162277
    } else if k == 2 {
        1778279
    } else if k == 3 {
        1333521
    } else if k == 4 {
        1154781
    } else if k == 5 {
        1074607
    } else if k == 6 {
        1036632
    } else if k == 7 {
        1018151
    } else if k == 8 {
        1009035
    } else if k == 9 {
        1004507
    } else if k == 10 {
        1002251
    } else if k == 11 {
        1001124
    } else if k == 12 {
        1000562
    } else if k == 13 {
        1000281
    } else if k == 14 {
        1000140
    } else if k == 15 {
        1000070
    } else if k == 16 {
        1000035
    } else if k == 17 {
        1000017
    } else if k == 18 {
        1000008
    } else if k == 19 {
        1000004
    } else {
        1000002
    }
}

fn ten_root_exec(k: usize) -> (r: i64)
    requires
        1 <= k <= 19,
    ensures
        r == ten_root(k as int),
        SCALE <= r <= 3162277,
{
    if k == 1 {
        3162277
    } else if k == 2 {
        1778279
    } else if k == 3 {
        1333521
    } else if k == 4 {
        1154781
    } else if k == 5 {
        1074607
    } else if k == 6 {
        1036632
    } else if k == 7 {
        1018151
    } else if k == 8 {
        1009035
    } else if k == 9 {
        1004507
    } else if k == 10 {
        1002251
    } else if k == 11 {
        1001124
    } else if k == 12 {
        1000562
    } else if k == 13 {
        1000281
    } else if k == 14 {
        1000140
    } else if k == 15 {
        1000070
    } else if k == 16 {
        1000035
    } else if k == 17 {
        1000017
    } else if k == 18 {
        1000008
    } else if k == 19 {
        1000004
    } else {
        1000002
    }
}

/// The fractional power of ten as a product of the binary-digit factors
/// `10^(1/2^k)`, clamped into the mantissa range at each step.
pub open spec fn pow10_frac(p: int, f: int, k: int) -> int
    decreases 20 - k,
{
    if k > 19 {
        p
    } else {
        if f >= frac_weight(k) {
            let p2 = fmul(p, ten_root(k));
            let p3 = if p2 > 10 * SCALE {
                10 * SCALE as int
            } else {
                p2
            };
            pow10_frac(p3, f - frac_weight(k), k + 1)
        } else {
            pow10_frac(p, f, k + 1)
        }
    }
}

/// The weight of the `k`-th fractional bit: one half, halved `k - 1`
/// times with truncation.
pub open spec fn frac_weight(k: int) -> int
    decreases k,
{
    if k <= 1 {
        500000
    } else {
        frac_weight(k - 1) / 2
    }
}

fn frac_weight_exec(k: usize) -> (w: i64)
    requires
        1 <= k <= 19,
    ensures
        w == frac_weight(k as int),
        0 < w <= 500000,
    decreases k,
{
    proof {
        lemma_frac_weight_lower(k as int);
    }
    if k <= 1 {
        500000
    } else {
        let prev = frac_weight_exec(k - 1);
        prev / 2
    }
}

/// Every fractional weight up to the nineteenth is at least one.
proof fn lemma_frac_weight_lower(k: int)
    requires
        1 <= k <= 19,
    ensures
        frac_weight(k) >= 1,
        frac_weight(k) <= 500000,
{
    assert(frac_weight(1) == 500000);
    assert(frac_weight(2) == 250000);
    assert(frac_weight(3) == 125000);
    assert(frac_weight(4) == 62500);
    assert(frac_weight(5) == 31250);
    assert(frac_weight(6) == 15625);
    assert(frac_weight(7) == 7812);
    assert(frac_weight(8) == 3906);
    assert(frac_weight(9) == 1953);
    assert(frac_weight(10) == 976);
    assert(frac_weight(11) == 488);
    assert(frac_weight(12) == 244);
    assert(frac_weight(13) == 122);
    assert(frac_weight(14) == 61);
    assert(frac_weight(15) == 30);
    assert(frac_weight(16) == 15);
    assert(frac_weight(17) == 7);
    assert(frac_weight(18) == 3);
    assert(frac_weight(19) == 1);
}

/// Ten to a fixed-point power in `[-10, 9]` plus a fraction: the integer
/// part shifts the fractional product by whole decades.
pub open spec fn pow10_int_part(p: int, n: int) -> int {
    if n <= -10 {
        p / 10000000000
    } else if n == -9 {
        p / 1000000000
    } else if n == -8 {
        p / 100000000
    } else if n == -7 {
        p / 10000000
    } else if n == -6 {
        p / 1000000
    } else if n == -5 {
        p / 100000
    } else if n == -4 {
        p / 10000
    } else if n == -3 {
        p / 1000
    } else if n == -2 {
        p / 100
    } else if n == -1 {
        p / 10
    } else if n == 0 {
        p
    } else if n == 1 {
        p * 10
    } else if n == 2 {
        p * 100
    } else if n == 3 {
        p * 1000
    } else if n == 4 {
        p * 10000
    } else if n == 5 {
        p * 100000
    } else if n == 6 {
        p * 1000000
    } else if n == 7 {
        p * 10000000
    } else if n == 8 {
        p * 100000000
    } else {
        p * 1000000000
    }
}

/// Ten to a fixed-point power: the Euclidean integer part shifts decades,
/// the remainder selects binary-digit factors.
pub open spec fn pow10_spec(u: int) -> int {
    let n = u / (SCALE as int);
    let f = u % (SCALE as int);
    pow10_int_part(pow10_frac(SCALE as int, f, 1), n)
}

/// The fractional product stays in the mantissa range.
proof fn lemma_pow10_frac_range(p: int, f: int, k: int)
    requires
        SCALE <= p <= 10 * SCALE,
    ensures
        SCALE <= pow10_frac(p, f, k) <= 10 * SCALE,
    decreases 20 - k,
{
    if k <= 19 {
        if f >= frac_weight(k) {
            let p2 = fmul(p, ten_root(k));
            assert(p2 >= p) by {
                assert((p * ten_root(k)) >= p * SCALE) by (nonlinear_arith)
                    requires
                        p >= 0,
                        ten_root(k) >= SCALE,
                ;
                lemma_tdiv_mono(p * (SCALE as int), p * ten_root(k), SCALE as int);
                assert(tdiv(p * (SCALE as int), SCALE as int) == p) by (nonlinear_arith);
            }
            let p3 = if p2 > 10 * SCALE {
                10 * SCALE as int
            } else {
                p2
            };
            lemma_pow10_frac_range(p3, f - frac_weight(k), k + 1);
        } else {
            lemma_pow10_frac_range(p, f, k + 1);
        }
    }
}

/// Ten to a fixed-point power in `[-10, 9.999999]`.
pub fn pow10_fix(u: i64) -> (r: i64)
    requires
        -10 * SCALE <= u,
        u < 10 * SCALE,
    ensures
        r == pow10_spec(u as int),
        0 <= r <= 100000000000000000,
        u <= SCALE ==> r <= 100 * SCALE,
{
    let n = match u.checked_div_euclid(SCALE) {
        Some(v) => v,
        None => vstd::pervasive::unreached(),
    };
    let f0 = match u.checked_rem_euclid(SCALE) {
        Some(v) => v,
        None => vstd::pervasive::unreached(),
    };
    let mut p: i64 = SCALE;
    let mut f: i64 = f0;
    let mut k: usize = 1;
    proof {
        lemma_pow10_frac_range(SCALE as int, f0 as int, 1);
    }
    while k <= 19
        invariant
            1 <= k <= 20,
            SCALE <= p <= 10 * SCALE,
            0 <= f,
            pow10_frac(p as int, f as int, k as int) == pow10_frac(SCALE as int, f0 as int, 1),
        decreases 20 - k,
    {
        let w = frac_weight_exec(k);
        if f >= w {
            proof {
                lemma_fmul_bound(p as int, ten_root(k as int), 10 * SCALE as int, 3162277);
                assert(tdiv((10 * (SCALE as int)) * 3162277, SCALE as int) <= 100000000)
                    by (nonlinear_arith);
                assert((p as int) * ten_root(k as int) >= (p as int) * (SCALE as int))
                    by (nonlinear_arith)
                    requires
                        p >= 0,
                        ten_root(k as int) >= SCALE,
                ;
                lemma_tdiv_mono((p as int) * (SCALE as int), (p as int) * ten_root(k as int),
                    SCALE as int);
                assert(tdiv((p as int) * (SCALE as int), SCALE as int) == p as int)
                    by (nonlinear_arith);
            }
            let p2 = match fix_mul(p, ten_root_exec(k)) {
                Some(v) => v,
                None => vstd::pervasive::unreached(),
            };
            p = if p2 > 10 * SCALE {
                10 * SCALE
            } else {
                p2
            };
            f = f - w;
        }
        k = k + 1;
    }
    proof {
        lemma_pow10_frac_range(SCALE as int, f0 as int, 1);
    }
    if n <= -10 {
        p / 10000000000
    } else if n == -9 {
        p / 1000000000
    } else if n == -8 {
        p / 100000000
    } else if n == -7 {
        p / 10000000
    } else if n == -6 {
        p / 1000000
    } else if n == -5 {
        p / 100000
    } else if n == -4 {
        p / 10000
    } else if n == -3 {
        p / 1000
    } else if n == -2 {
        p / 100
    } else if n == -1 {
        p / 10
    } else if n == 0 {
        p
    } else if n == 1 {
        p * 10
    } else if n == 2 {
        p * 100
    } else if n == 3 {
        p * 1000
    } else if n == 4 {
        p * 10000
    } else if n == 5 {
        p * 100000
    } else if n == 6 {
        p * 1000000
    } else if n == 7 {
        p * 10000000
    } else if n == 8 {
        p * 100000000
    } else {
        p * 1000000000
    }
}

/// The log term one pixel contributes: the logarithm of its per-iteration
/// luminance, floored at `LUM_EPS`.
pub open spec fn pixel_log(data: Seq<u64>, iters: int, p: int) -> int {
    let lum = lum_spec(data[3 * p] as int, data[3 * p + 1] as int, data[3 * p + 2] as int) / iters;
    let el = if lum < 100 {
        100
    } else {
        lum
    };
    log10_spec(el)
}

/// The sum of the log terms of the first `p` pixels.
pub open spec fn sum_logs(data: Seq<u64>, iters: int, p: int) -> int
    decreases p,
{
    if p <= 0 {
        0
    } else {
        sum_logs(data, iters, p - 1) + pixel_log(data, iters, p - 1)
    }
}

/// The tone operator's numerator: the offset plus a quarter of the display
/// peak luminance raised to the 13/32 power, computed by the same
/// logarithm and power-of-ten pipeline as the denominator.
pub open spec fn tone_numer_spec() -> int {
    TONE_OFFSET + pow10_spec(tdiv(log10_spec(50 * SCALE) * 13, 32))
}

/// The global tone-mapping scale factor of a buffer of `npix` pixels
/// accumulated over `iters` iterations: a Ward-style operator on the
/// buffer's log-average luminance, with 13/32 standing for the exponent
/// 0.4 and the power 2.5 computed exactly as square times square root.
pub open spec fn scalefactor_spec(data: Seq<u64>, npix: int, iters: int) -> int {
    let mean = tdiv(sum_logs(data, iters, npix), npix);
    let u = tdiv(mean * 13, 32);
    let den = TONE_OFFSET + pow10_spec(u);
    let ratio = fdiv(tone_numer_spec(), den);
    tdiv(fmul(fmul(ratio, ratio), fsqrt(ratio)), DISPLAY_LUMINANCE_MAX as int)
}

/// A channel's energy scaled by the tone factor and averaged over the
/// iteration count, capped at the fixed-point range.
pub open spec fn scaled_energy_spec(cell: int, scale: int, iters: int) -> int {
    let b = (cell * scale) / (SCALE as int) / iters;
    if b > i64::MAX {
        i64::MAX as int
    } else {
        b
    }
}

/// Gamma encoding with the dyadic exponent 29/64 = 1/4 + 1/8 + 1/16 +
/// 1/64, a fixed-point approximation of the 0.45 display gamma built from
/// exact integer square roots.
pub open spec fn pow_gamma_spec(v: int) -> int {
    let q4 = fsqrt(fsqrt(v));
    let q8 = fsqrt(q4);
    let q16 = fsqrt(q8);
    let q64 = fsqrt(fsqrt(q16));
    fmul(fmul(q4, q8), fmul(q16, q64))
}

/// Map a gamma-encoded value to eight bits: round half up at 255 units per
/// one, clamped at the top.
pub open spec fn quantize_spec(g: int) -> int {
    let q = (g * 255 + 500000) / (SCALE as int);
    if q > 255 {
        255
    } else {
        q
    }
}

/// The full per-channel export pipeline for a given scale factor.
pub open spec fn channel_out_spec(cell: int, scale: int, iters: int) -> int {
    quantize_spec(pow_gamma_spec(scaled_energy_spec(cell, scale, iters)))
}

/// Fixed-point square roots are monotone and nonnegative.
proof fn lemma_fsqrt_mono(a: int, b: int)
    requires
        0 <= a <= b,
    ensures
        0 <= fsqrt(a) <= fsqrt(b),
{
    lemma_sqrt_mono(a * (SCALE as int), b * (SCALE as int));
    lemma_sqrt_exists(a * (SCALE as int));
}

/// Fixed-point multiplication is monotone over nonnegative values.
proof fn lemma_fmul_mono(a1: int, b1: int, a2: int, b2: int)
    requires
        0 <= a1 <= a2,
        0 <= b1 <= b2,
    ensures
        0 <= fmul(a1, b1) <= fmul(a2, b2),
{
    assert(0 <= a1 * b1 <= a2 * b2) by (nonlinear_arith)
        requires
            0 <= a1 <= a2,
            0 <= b1 <= b2,
    ;
    lemma_tdiv_shrinks(a1 * b1, SCALE as int);
    lemma_tdiv_mono(a1 * b1, a2 * b2, SCALE as int);
}

/// Raising the energy of a channel never lowers its eight-bit output,
/// holding the scale factor and the iteration count fixed: every stage of
/// the export pipeline is monotone.
pub proof fn lemma_tone_map_monotone(c1: int, c2: int, scale: int, iters: int)
    requires
        0 <= c1 <= c2,
        0 <= scale,
        1 <= iters,
    ensures
        channel_out_spec(c1, scale, iters) <= channel_out_spec(c2, scale, iters),
{
    assert(0 <= c1 * scale <= c2 * scale) by (nonlinear_arith)
        requires
            0 <= c1 <= c2,
            0 <= scale,
    ;
    lemma_tdiv_mono(c1 * scale, c2 * scale, SCALE as int);
    lemma_tdiv_shrinks(c1 * scale, SCALE as int);
    let e1 = (c1 * scale) / (SCALE as int);
    let e2 = (c2 * scale) / (SCALE as int);
    lemma_tdiv_mono(e1, e2, iters);
    lemma_tdiv_shrinks(e1, iters);
    let v1 = scaled_energy_spec(c1, scale, iters);
    let v2 = scaled_energy_spec(c2, scale, iters);
    assert(0 <= v1 <= v2);
    lemma_pow_gamma_mono(v1, v2);
    let g1 = pow_gamma_spec(v1);
    let g2 = pow_gamma_spec(v2);
    lemma_tdiv_mono(g1 * 255 + 500000, g2 * 255 + 500000, SCALE as int);
    lemma_tdiv_shrinks(g1 * 255 + 500000, SCALE as int);
}

/// The gamma stage is monotone and nonnegative over nonnegative inputs.
pub proof fn lemma_pow_gamma_mono(v1: int, v2: int)
    requires
        0 <= v1 <= v2,
    ensures
        0 <= pow_gamma_spec(v1) <= pow_gamma_spec(v2),
{
    lemma_fsqrt_mono(v1, v2);
    lemma_fsqrt_mono(fsqrt(v1), fsqrt(v2));
    lemma_fsqrt_mono(fsqrt(fsqrt(v1)), fsqrt(fsqrt(v2)));
    lemma_fsqrt_mono(fsqrt(fsqrt(fsqrt(v1))), fsqrt(fsqrt(fsqrt(v2))));
    lemma_fsqrt_mono(fsqrt(fsqrt(fsqrt(fsqrt(v1)))), fsqrt(fsqrt(fsqrt(fsqrt(v2)))));
    lemma_fsqrt_mono(
        fsqrt(fsqrt(fsqrt(fsqrt(fsqrt(v1))))),
        fsqrt(fsqrt(fsqrt(fsqrt(fsqrt(v2))))),
    );
    let q4a = fsqrt(fsqrt(v1));
    let q8a = fsqrt(q4a);
    let q16a = fsqrt(q8a);
    let q64a = fsqrt(fsqrt(q16a));
    let q4b = fsqrt(fsqrt(v2));
    let q8b = fsqrt(q4b);
    let q16b = fsqrt(q8b);
    let q64b = fsqrt(fsqrt(q16b));
    lemma_fmul_mono(q4a, q8a, q4b, q8b);
    lemma_fmul_mono(q16a, q64a, q16b, q64b);
    lemma_fmul_mono(fmul(q4a, q8a), fmul(q16a, q64a), fmul(q4b, q8b), fmul(q16b, q64b));
}

/// A power of ten is never negative.
proof fn lemma_pow10_nonneg(u: int)
    ensures
        0 <= pow10_spec(u),
{
    let n = u / (SCALE as int);
    let f = u % (SCALE as int);
    lemma_pow10_frac_range(SCALE as int, f, 1);
    let p = pow10_frac(SCALE as int, f, 1);
    if n <= -10 {
        lemma_tdiv_shrinks(p, 10000000000);
    } else if n == -9 {
        lemma_tdiv_shrinks(p, 1000000000);
    } else if n == -8 {
        lemma_tdiv_shrinks(p, 100000000);
    } else if n == -7 {
        lemma_tdiv_shrinks(p, 10000000);
    } else if n == -6 {
        lemma_tdiv_shrinks(p, 1000000);
    } else if n == -5 {
        lemma_tdiv_shrinks(p, 100000);
    } else if n == -4 {
        lemma_tdiv_shrinks(p, 10000);
    } else if n == -3 {
        lemma_tdiv_shrinks(p, 1000);
    } else if n == -2 {
        lemma_tdiv_shrinks(p, 100);
    } else if n == -1 {
        lemma_tdiv_shrinks(p, 10);
    }
}

/// The tone-mapping scale factor is never negative.
pub proof fn lemma_scalefactor_nonneg(data: Seq<u64>, npix: int, iters: int)
    requires
        npix >= 1,
        iters >= 1,
    ensures
        0 <= scalefactor_spec(data, npix, iters),
{
    let mean = tdiv(sum_logs(data, iters, npix), npix);
    let u = tdiv(mean * 13, 32);
    lemma_pow10_nonneg(u);
    lemma_pow10_nonneg(tdiv(log10_spec(50 * SCALE) * 13, 32));
    let den = TONE_OFFSET + pow10_spec(u);
    let numer = tone_numer_spec();
    assert(numer * SCALE >= 0) by (nonlinear_arith)
        requires
            numer >= 0,
    ;
    lemma_tdiv_shrinks(numer * SCALE, den);
    let ratio = fdiv(numer, den);
    lemma_fmul_mono(0, 0, ratio, ratio);
    lemma_fsqrt_mono(0, ratio);
    lemma_fmul_mono(0, 0, fmul(ratio, ratio), fsqrt(ratio));
    lemma_tdiv_shrinks(fmul(fmul(ratio, ratio), fsqrt(ratio)), DISPLAY_LUMINANCE_MAX as int);
}

/// Exporting a buffer with no accumulated energy yields an all-zero
/// eight-bit image: every channel of every pixel maps to zero.
pub proof fn lemma_zero_buffer_export(data: Seq<u64>, npix: int, iters: int)
    requires
        npix >= 1,
        iters >= 1,
        forall|i: int| 0 <= i < data.len() ==> data[i] == 0,
    ensures
        forall|i: int|
            0 <= i < data.len() ==> channel_out_spec(
                data[i] as int,
                scalefactor_spec(data, npix, iters),
                iters,
            ) == 0,
{
    lemma_scalefactor_nonneg(data, npix, iters);
    let sf = scalefactor_spec(data, npix, iters);
    assert forall|i: int| 0 <= i < data.len() implies channel_out_spec(
        data[i] as int,
        sf,
        iters,
    ) == 0 by {
        lemma_zero_channel(sf, iters);
    }
}

/// A channel with no accumulated energy exports as zero, whatever the
/// scale factor: the zero survives scaling, gamma and quantization.
pub proof fn lemma_zero_channel(scale: int, iters: int)
    requires
        0 <= scale,
        1 <= iters,
    ensures
        channel_out_spec(0, scale, iters) == 0,
{
    assert(scaled_energy_spec(0, scale, iters) == 0);
    assert(is_sqrt(0, 0));
    lemma_sqrt_exists(0);
    lemma_sqrt_unique(0, 0, sqrt_floor(0));
    assert(fsqrt(0) == 0);
    assert(pow_gamma_spec(0) == 0);
    assert(quantize_spec(0) == 0);
}

/// Scale a channel's energy and average it over the iteration count.
fn scaled_energy(cell: u64, scale: i64, iters: u64) -> (v: i64)
    requires
        0 <= scale <= 200000000000000,
        iters >= 1,
    ensures
        v as int == scaled_energy_spec(cell as int, scale as int, iters as int),
        v >= 0,
{
    proof {
        assert(0 <= (cell as int) * (scale as int) <= u128::MAX as int) by (nonlinear_arith)
            requires
                0 <= cell <= u64::MAX,
                0 <= scale <= 200000000000000,
        ;
    }
    let a: u128 = (cell as u128) * (scale as u128);
    let b: u128 = a / 1000000 / (iters as u128);
    if b > i64::MAX as u128 {
        i64::MAX
    } else {
        b as i64
    }
}

/// Gamma-encode a nonnegative fixed-point value with the dyadic exponent
/// 29/64.
fn pow_gamma(v: i64) -> (r: i64)
    requires
        v >= 0,
    ensures
        r as int == pow_gamma_spec(v as int),
        0 <= r <= 2000000000000,
{
    let s1 = fix_sqrt(v);
    proof {
        assert((s1 as int) * (SCALE as int) < 2100000000int * 2100000000int) by (nonlinear_arith)
            requires
                0 <= s1 < 4000000000000,
        ;
        lemma_sqrt_bound((s1 as int) * (SCALE as int), 2100000000);
    }
    let q4 = fix_sqrt(s1);
    proof {
        assert((q4 as int) * (SCALE as int) < 46000000int * 46000000int) by (nonlinear_arith)
            requires
                0 <= q4 < 2100000000,
        ;
        lemma_sqrt_bound((q4 as int) * (SCALE as int), 46000000);
    }
    let q8 = fix_sqrt(q4);
    proof {
        assert((q8 as int) * (SCALE as int) < 6800000int * 6800000int) by (nonlinear_arith)
            requires
                0 <= q8 < 46000000,
        ;
        lemma_sqrt_bound((q8 as int) * (SCALE as int), 6800000);
    }
    let q16 = fix_sqrt(q8);
    proof {
        assert((q16 as int) * (SCALE as int) < 2610000int * 2610000int) by (nonlinear_arith)
            requires
                0 <= q16 < 6800000,
        ;
        lemma_sqrt_bound((q16 as int) * (SCALE as int), 2610000);
    }
    let q32 = fix_sqrt(q16);
    proof {
        assert((q32 as int) * (SCALE as int) < 1620000int * 1620000int) by (nonlinear_arith)
            requires
                0 <= q32 < 2610000,
        ;
        lemma_sqrt_bound((q32 as int) * (SCALE as int), 1620000);
    }
    let q64 = fix_sqrt(q32);
    proof {
        lemma_fmul_bound(q4 as int, q8 as int, 2100000000, 46000000);
        assert(tdiv(2100000000int * 46000000int, SCALE as int) < 100000000000int)
            by (nonlinear_arith);
        lemma_fmul_bound(q16 as int, q64 as int, 6800000, 1620000);
        assert(tdiv(6800000int * 1620000int, SCALE as int) < 12000000int) by (nonlinear_arith);
        lemma_fmul_mono(0, 0, q4 as int, q8 as int);
        lemma_fmul_mono(0, 0, q16 as int, q64 as int);
    }
    let m1 = match fix_mul(q4, q8) {
        Some(m) => m,
        None => vstd::pervasive::unreached(),
    };
    let m2 = match fix_mul(q16, q64) {
        Some(m) => m,
        None => vstd::pervasive::unreached(),
    };
    proof {
        lemma_fmul_bound(m1 as int, m2 as int, 100000000000, 12000000);
        assert(tdiv(100000000000int * 12000000int, SCALE as int) <= 2000000000000int)
            by (nonlinear_arith);
        lemma_fmul_mono(0, 0, m1 as int, m2 as int);
    }
    match fix_mul(m1, m2) {
        Some(r) => r,
        None => vstd::pervasive::unreached(),
    }
}

/// Quantize a gamma-encoded value to eight bits.
fn quantize(g: i64) -> (q: u8)
    requires
        0 <= g <= 2000000000000,
    ensures
        q as int == quantize_spec(g as int),
{
    let t = g * 255 + 500000;
    let q0 = t / SCALE;
    if q0 > 255 {
        255
    } else {
        q0 as u8
    }
}

impl Image {
    /// The global tone-mapping scale factor for this buffer, given the
    /// iteration count that produced it.
    pub fn calculate_scalefactor(&self, iterations: usize) -> (r: i64)
        requires
            self.wf(),
            self.width >= 1,
            self.height >= 1,
            iterations >= 1,
        ensures
            r as int == scalefactor_spec(
                self.data@,
                (self.width * self.height) as int,
                iterations as int,
            ),
            0 <= r <= 200000000000000,
    {
        let len = self.data.len();
        proof {
            assert((self.width as int) * (self.height as int) <= ((self.width as int) * (
            self.height as int)) * 3) by (nonlinear_arith);
        }
        let npix = self.width * self.height;
        proof {
            assert(1 <= (self.width as int) * (self.height as int)) by (nonlinear_arith)
                requires
                    self.width >= 1,
                    self.height >= 1,
            ;
        }
        let mut p: usize = 0;
        let mut sum: i128 = 0;
        while p < npix
            invariant
                self.wf(),
                iterations >= 1,
                npix >= 1,
                npix == self.width * self.height,
                len == self.data@.len(),
                p <= npix,
                sum == sum_logs(self.data@, iterations as int, p as int),
                -((p as int) * 14000000) <= sum <= (p as int) * 14000000,
            decreases npix - p,
        {
            let r = self.data[3 * p];
            let g = self.data[3 * p + 1];
            let b = self.data[3 * p + 2];
            let lr: u128 = 2126 * (r as u128) + 7152 * (g as u128) + 722 * (b as u128);
            let l1: u128 = lr / 10000;
            proof {
                lemma_tdiv_mono(lr as int, 10000 * (u64::MAX as int), 10000);
                assert(tdiv(10000 * (u64::MAX as int), 10000) == u64::MAX as int)
                    by (nonlinear_arith);
                lemma_tdiv_shrinks(l1 as int, iterations as int);
            }
            let lum128: u128 = l1 / (iterations as u128);
            let lum: u64 = lum128 as u64;
            let el: u64 = if lum < 100 {
                100
            } else {
                lum
            };
            let lg = log10_fix(el);
            sum = sum + (lg as i128);
            p = p + 1;
        }
        let mean128: i128 = match sum.checked_div(npix as i128) {
            Some(v) => v,
            None => vstd::pervasive::unreached(),
        };
        proof {
            assert(mean128 == tdiv(sum as int, npix as int));
            if sum >= 0 {
                lemma_tdiv_mono(sum as int, (npix as int) * 14000000, npix as int);
                assert(tdiv((npix as int) * 14000000, npix as int) == 14000000)
                    by (nonlinear_arith)
                    requires
                        npix >= 1,
                ;
                lemma_tdiv_shrinks(sum as int, npix as int);
            } else {
                lemma_tdiv_mono(-((npix as int) * 14000000), sum as int, npix as int);
                assert(tdiv(-((npix as int) * 14000000), npix as int) == -14000000)
                    by (nonlinear_arith)
                    requires
                        npix >= 1,
                ;
                lemma_tdiv_shrinks(sum as int, npix as int);
            }
        }
        let mean: i64 = mean128 as i64;
        let u = match (mean * 13).checked_div(32) {
            Some(v) => v,
            None => vstd::pervasive::unreached(),
        };
        let nlog = log10_fix(50000000);
        proof {
            lemma_frac_acc_bounds(lg_m(50000000), 500000);
        }
        let u50 = match (nlog * 13).checked_div(32) {
            Some(v) => v,
            None => vstd::pervasive::unreached(),
        };
        let pw = pow10_fix(u50);
        let numer = TONE_OFFSET + pw;
        let pden = pow10_fix(u);
        let den = TONE_OFFSET + pden;
        proof {
            assert(numer * (SCALE as int) >= 0) by (nonlinear_arith)
                requires
                    numer >= 0,
            ;
            lemma_tdiv_shrinks(numer * (SCALE as int), den as int);
            vstd::arithmetic::div_mod::lemma_div_is_ordered_by_denominator(
                numer * (SCALE as int),
                1219000,
                den as int,
            );
            lemma_tdiv_mono(numer * (SCALE as int), 101219000 * (SCALE as int), 1219000);
            assert(tdiv(101219000 * (SCALE as int), 1219000) < 90000000) by (nonlinear_arith);
        }
        let ratio = match fix_div(numer, den) {
            Some(v) => v,
            None => vstd::pervasive::unreached(),
        };
        proof {
            lemma_fmul_bound(ratio as int, ratio as int, 90000000, 90000000);
            assert(tdiv(90000000int * 90000000int, SCALE as int) <= 10000000000int)
                by (nonlinear_arith);
            lemma_fmul_mono(0, 0, ratio as int, ratio as int);
            assert((ratio as int) * (SCALE as int) < 10000000int * 10000000int)
                by (nonlinear_arith)
                requires
                    0 <= ratio < 90000000,
            ;
            lemma_sqrt_bound((ratio as int) * (SCALE as int), 10000000);
        }
        let s2 = match fix_mul(ratio, ratio) {
            Some(v) => v,
            None => vstd::pervasive::unreached(),
        };
        let sroot = fix_sqrt(ratio);
        proof {
            lemma_fmul_bound(s2 as int, sroot as int, 10000000000, 10000000);
            assert(tdiv(10000000000int * 10000000int, SCALE as int) <= 100000000000int)
                by (nonlinear_arith);
            lemma_fmul_mono(0, 0, s2 as int, sroot as int);
        }
        let s3 = match fix_mul(s2, sroot) {
            Some(v) => v,
            None => vstd::pervasive::unreached(),
        };
        s3 / 200
    }

    /// The buffer after tone scaling and gamma encoding, channel by
    /// channel, still in fixed point.
    pub fn get_gamma_corrected_pixels(&self, iterations: usize) -> (r: Vec<i64>)
        requires
            self.wf(),
            self.width >= 1,
            self.height >= 1,
            iterations >= 1,
        ensures
            r@.len() == self.data@.len(),
            forall|i: int|
                0 <= i < r@.len() ==> r@[i] as int == pow_gamma_spec(
                    scaled_energy_spec(
                        self.data@[i] as int,
                        scalefactor_spec(
                            self.data@,
                            (self.width * self.height) as int,
                            iterations as int,
                        ),
                        iterations as int,
                    ),
                ),
    {
        let sf = self.calculate_scalefactor(iterations);
        let n = self.data.len();
        let mut out: Vec<i64> = Vec::new();
        let mut i: usize = 0;
        while i < n
            invariant
                self.wf(),
                self.width >= 1,
                self.height >= 1,
                iterations >= 1,
                n == self.data@.len(),
                0 <= sf <= 200000000000000,
                sf as int == scalefactor_spec(
                    self.data@,
                    (self.width * self.height) as int,
                    iterations as int,
                ),
                i <= n,
                out@.len() == i,
                forall|j: int|
                    0 <= j < i ==> out@[j] as int == pow_gamma_spec(
                        scaled_energy_spec(self.data@[j] as int, sf as int, iterations as int),
                    ),
            decreases n - i,
        {
            let v = scaled_energy(self.data[i], sf, iterations as u64);
            out.push(pow_gamma(v));
            i = i + 1;
        }
        out
    }

    /// The eight-bit RGB image of this buffer: the full export pipeline,
    /// channel by channel, in the buffer's row-major order.
    pub fn export_pixels(&self, iterations: usize) -> (r: Vec<u8>)
        requires
            self.wf(),
            self.width >= 1,
            self.height >= 1,
            iterations >= 1,
        ensures
            r@.len() == self.data@.len(),
            forall|i: int|
                0 <= i < r@.len() ==> r@[i] as int == channel_out_spec(
                    self.data@[i] as int,
                    scalefactor_spec(
                        self.data@,
                        (self.width * self.height) as int,
                        iterations as int,
                    ),
                    iterations as int,
                ),
    {
        let sf = self.calculate_scalefactor(iterations);
        let n = self.data.len();
        let mut out: Vec<u8> = Vec::new();
        let mut i: usize = 0;
        while i < n
            invariant
                self.wf(),
                self.width >= 1,
                self.height >= 1,
                iterations >= 1,
                n == self.data@.len(),
                0 <= sf <= 200000000000000,
                sf as int == scalefactor_spec(
                    self.data@,
                    (self.width * self.height) as int,
                    iterations as int,
                ),
                i <= n,
                out@.len() == i,
                forall|j: int|
                    0 <= j < i ==> out@[j] as int == channel_out_spec(
                        self.data@[j] as int,
                        sf as int,
                        iterations as int,
                    ),
            decreases n - i,
        {
            let v = scaled_energy(self.data[i], sf, iterations as u64);
            let g = pow_gamma(v);
            out.push(quantize(g));
            i = i + 1;
        }
        out
    }
}

} // verus!
