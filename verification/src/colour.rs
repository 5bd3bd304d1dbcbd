//! Exact RGB <-> HSV conversion.
//!
//! Every hue, saturation and value that this pipeline produces is a rational
//! number with a small denominator (`value = max/255`, `saturation =
//! delta/max`, `hue = k/(6*delta)`, and the shader's fixed rational shifts),
//! so the conversions are carried out on exact integer fractions. This makes
//! the round trip provably exact: converting a colour to HSV and back yields
//! the very same colour.

use vstd::prelude::*;

use vstd::arithmetic::div_mod::{
    lemma_div_is_ordered, lemma_div_multiples_vanish, lemma_fundamental_div_mod,
    lemma_fundamental_div_mod_converse, lemma_mod_pos_bound,
};

use crate::img::Rgb;

verus! {

/// Largest hue denominator the conversions accept.
pub const MAX_HUE_DEN: u64 = 0x4000_0000;

/// Largest saturation and value denominator the conversions accept.
pub const MAX_SV_DEN: u64 = 0x10000;

/// A colour in HSV space. Each coordinate is an exact fraction in `[0, 1]`
/// (the hue strictly below 1): hue is `hn/hd`, saturation `sn/sd`, value
/// `vn/vd`.
#[derive(Clone, Copy, PartialEq, Eq, Structural, Debug)]
pub struct Hsv {
    pub hn: u64,
    pub hd: u64,
    pub sn: u64,
    pub sd: u64,
    pub vn: u64,
    pub vd: u64,
}

impl Hsv {
    /// The fractions are in range and the denominators small enough that the
    /// conversion arithmetic cannot overflow.
    pub open spec fn wf(self) -> bool {
        &&& 1 <= self.hd <= MAX_HUE_DEN
        &&& self.hn < self.hd
        &&& 1 <= self.sd <= MAX_SV_DEN
        &&& self.sn <= self.sd
        &&& 1 <= self.vd <= MAX_SV_DEN
        &&& self.vn <= self.vd
    }
}

/// The largest of the three channels.
pub open spec fn max_channel(c: Rgb) -> int {
    if c.r >= c.g && c.r >= c.b {
        c.r as int
    } else if c.g >= c.b {
        c.g as int
    } else {
        c.b as int
    }
}

/// The smallest of the three channels.
pub open spec fn min_channel(c: Rgb) -> int {
    if c.r <= c.g && c.r <= c.b {
        c.r as int
    } else if c.g <= c.b {
        c.g as int
    } else {
        c.b as int
    }
}

/// The standard RGB -> HSV conversion, as exact fractions. Where the
/// channels are all equal the hue and saturation are zero; the hue numerator
/// is chosen per sector so that the hue lands in `[0, 1)`.
pub open spec fn rgb_to_hsv_spec(c: Rgb) -> Hsv {
    let maxc: int = max_channel(c);
    let minc: int = min_channel(c);
    let delta: int = maxc - minc;
    if delta == 0 {
        Hsv { hn: 0, hd: 1, sn: 0, sd: 1, vn: maxc as u64, vd: 255 }
    } else {
        let k: int = if c.r == maxc {
            if c.g >= c.b {
                c.g - c.b
            } else {
                6 * delta - (c.b - c.g)
            }
        } else if c.g == maxc {
            2 * delta + c.b - c.r
        } else {
            4 * delta + c.r - c.g
        };
        Hsv {
            hn: k as u64,
            hd: (6 * delta) as u64,
            sn: delta as u64,
            sd: maxc as u64,
            vn: maxc as u64,
            vd: 255,
        }
    }
}

/// The standard sector-based HSV -> RGB reconstruction, on exact fractions:
/// `i = floor(h*6)` picks the sector, `f` is the fractional remainder, and
/// `p`, `q`, `t` are the usual derived levels, truncated to whole channel
/// values.
pub open spec fn hsv_to_rgb_spec(hsv: Hsv) -> Rgb {
    let rv: int = (hsv.vn * 255) / (hsv.vd as int);
    if hsv.sn == 0 {
        Rgb { r: rv as u8, g: rv as u8, b: rv as u8 }
    } else {
        let six: int = 6 * hsv.hn;
        let i: int = six / (hsv.hd as int);
        let f: int = six % (hsv.hd as int);
        let p: int = (rv * (hsv.sd - hsv.sn)) / (hsv.sd as int);
        let den: int = hsv.sd * hsv.hd;
        let q: int = (rv * (den - hsv.sn * f)) / den;
        let t: int = (rv * (den - hsv.sn * (hsv.hd - f))) / den;
        if i == 0 {
            Rgb { r: rv as u8, g: t as u8, b: p as u8 }
        } else if i == 1 {
            Rgb { r: q as u8, g: rv as u8, b: p as u8 }
        } else if i == 2 {
            Rgb { r: p as u8, g: rv as u8, b: t as u8 }
        } else if i == 3 {
            Rgb { r: p as u8, g: q as u8, b: rv as u8 }
        } else if i == 4 {
            Rgb { r: t as u8, g: p as u8, b: rv as u8 }
        } else {
            Rgb { r: rv as u8, g: p as u8, b: q as u8 }
        }
    }
}

/// An exactly dividing product: `(q * d) / d == q`.
proof fn lemma_exact_div(n: int, d: int, q: int)
    requires
        d >= 1,
        n == q * d,
    ensures
        n / d == q,
{
    lemma_fundamental_div_mod_converse(n, d, q, 0);
}

/// Quotient and remainder are determined by a decomposition.
proof fn lemma_sector(six: int, hd: int, i: int, f: int)
    requires
        hd >= 1,
        six == i * hd + f,
        0 <= f < hd,
    ensures
        six / hd == i,
        six % hd == f,
{
    lemma_fundamental_div_mod_converse(six, hd, i, f);
}

/// The reconstruction's `q`/`t` terms divide exactly for fractions coming
/// out of `rgb_to_hsv_spec`: with saturation `delta/maxv` and a remainder
/// numerator of the form `6*w`, the term evaluates to `maxv - w`.
proof fn lemma_hsv_term(maxv: int, delta: int, w: int)
    requires
        1 <= maxv,
        1 <= delta,
        0 <= w <= delta,
    ensures
        (maxv * (maxv * (6 * delta) - delta * (6 * w))) / (maxv * (6 * delta)) == maxv - w,
{
    assert(maxv * (maxv * (6 * delta) - delta * (6 * w)) == (maxv - w) * (maxv * (6 * delta))
        && maxv * (6 * delta) >= 1) by (nonlinear_arith)
        requires
            1 <= maxv,
            1 <= delta,
    ;
    lemma_exact_div(
        maxv * (maxv * (6 * delta) - delta * (6 * w)),
        maxv * (6 * delta),
        maxv - w,
    );
}

/// The reconstruction's `p` term divides exactly: `maxv*(maxv-delta)/maxv`
/// is the minimum channel.
proof fn lemma_hsv_p_term(maxv: int, delta: int)
    requires
        1 <= maxv,
        0 <= delta <= maxv,
    ensures
        (maxv * (maxv - delta)) / maxv == maxv - delta,
{
    assert(maxv * (maxv - delta) == (maxv - delta) * maxv) by (nonlinear_arith);
    lemma_exact_div(maxv * (maxv - delta), maxv, maxv - delta);
}

/// A scaled fraction with numerator at most the denominator stays between
/// zero and the scale.
proof fn lemma_scaled_fraction_le(rv: int, num: int, den: int)
    requires
        0 <= rv,
        0 <= num <= den,
        1 <= den,
    ensures
        0 <= (rv * num) / den <= rv,
{
    assert(0 <= rv * num <= rv * den) by (nonlinear_arith)
        requires
            0 <= rv,
            0 <= num <= den,
    ;
    lemma_div_multiples_vanish(rv, den);
    assert(rv * den == den * rv) by (nonlinear_arith);
    lemma_div_is_ordered(rv * num, rv * den, den);
    lemma_div_is_ordered(0, rv * num, den);
}

/// The conversion to HSV yields well-formed fractions with the pipeline's
/// small denominators, and the value fraction is `max_channel / 255`.
pub proof fn lemma_rgb_to_hsv_wf(c: Rgb)
    ensures
        rgb_to_hsv_spec(c).wf(),
        rgb_to_hsv_spec(c).hd <= 1530,
        rgb_to_hsv_spec(c).sd <= 255,
        rgb_to_hsv_spec(c).vn == max_channel(c),
        rgb_to_hsv_spec(c).vd == 255,
{
}

/// Every channel of the reconstruction is at most the scaled value
/// `vn*255/vd`, and some channel equals it: the HSV value of the output is
/// exactly the value put in, truncated to a whole channel.
pub proof fn lemma_hsv_to_rgb_value(hsv: Hsv)
    requires
        hsv.wf(),
    ensures
        max_channel(hsv_to_rgb_spec(hsv)) == (hsv.vn * 255) / (hsv.vd as int),
{
    let rv: int = (hsv.vn * 255) / (hsv.vd as int);
    lemma_scaled_fraction_le(255, hsv.vn as int, hsv.vd as int);
    assert(255 * hsv.vn == hsv.vn * 255) by (nonlinear_arith);
    lemma_div_is_ordered(0, hsv.vn * 255, hsv.vd as int);
    if hsv.sn == 0 {
    } else {
        let six: int = 6 * hsv.hn;
        let f: int = six % (hsv.hd as int);
        let den: int = hsv.sd * hsv.hd;
        lemma_mod_pos_bound(six, hsv.hd as int);
        assert(1 <= den && hsv.sn * f <= den && hsv.sn * (hsv.hd - f) <= den)
            by (nonlinear_arith)
            requires
                1 <= hsv.sd,
                1 <= hsv.hd,
                hsv.sn <= hsv.sd,
                0 <= f < hsv.hd,
                den == hsv.sd * hsv.hd,
        ;
        lemma_scaled_fraction_le(rv, hsv.sd - hsv.sn, hsv.sd as int);
        lemma_scaled_fraction_le(rv, den - hsv.sn * f, den);
        lemma_scaled_fraction_le(rv, den - hsv.sn * (hsv.hd - f), den);
    }
}

/// Round trip: converting any colour to HSV and back recovers it exactly.
pub proof fn lemma_hsv_round_trip(c: Rgb)
    ensures
        hsv_to_rgb_spec(rgb_to_hsv_spec(c)) == c,
{
    let r: int = c.r as int;
    let g: int = c.g as int;
    let b: int = c.b as int;
    let maxc: int = max_channel(c);
    let minc: int = min_channel(c);
    let delta: int = maxc - minc;
    let hsv = rgb_to_hsv_spec(c);
    if delta == 0 {
        lemma_exact_div(maxc * 255, 255, maxc);
        assert(hsv.vn * 255 == maxc * 255);
    } else {
        lemma_exact_div(maxc * 255, 255, maxc);
        assert(hsv.vn * 255 == maxc * 255);
        let rv: int = (hsv.vn * 255) / (hsv.vd as int);
        assert(rv == maxc);
        let six: int = 6 * hsv.hn;
        if c.r == maxc {
            if c.g >= c.b {
                assert(minc == b);
                if g - b < delta {
                    lemma_sector(six, 6 * delta, 0, 6 * (g - b));
                    lemma_hsv_term(maxc, delta, delta - (g - b));
                    lemma_hsv_p_term(maxc, delta);
                } else {
                    lemma_sector(six, 6 * delta, 1, 0);
                    lemma_hsv_term(maxc, delta, 0);
                    lemma_hsv_p_term(maxc, delta);
                }
            } else {
                assert(minc == g);
                lemma_sector(six, 6 * delta, 5, 6 * (delta - (b - g)));
                lemma_hsv_term(maxc, delta, delta - (b - g));
                lemma_hsv_p_term(maxc, delta);
            }
        } else if c.g == maxc {
            if b - r == delta {
                lemma_sector(six, 6 * delta, 3, 0);
                lemma_hsv_term(maxc, delta, 0);
                lemma_hsv_p_term(maxc, delta);
            } else if b >= r {
                assert(minc == r);
                lemma_sector(six, 6 * delta, 2, 6 * (b - r));
                lemma_hsv_term(maxc, delta, delta - (b - r));
                lemma_hsv_p_term(maxc, delta);
            } else {
                assert(minc == b);
                lemma_sector(six, 6 * delta, 1, 6 * (delta - (r - b)));
                lemma_hsv_term(maxc, delta, delta - (r - b));
                lemma_hsv_p_term(maxc, delta);
            }
        } else {
            if r >= g {
                assert(minc == g);
                lemma_sector(six, 6 * delta, 4, 6 * (r - g));
                lemma_hsv_term(maxc, delta, delta - (r - g));
                lemma_hsv_p_term(maxc, delta);
            } else {
                assert(minc == r);
                lemma_sector(six, 6 * delta, 3, 6 * (delta - (g - r)));
                lemma_hsv_term(maxc, delta, delta - (g - r));
                lemma_hsv_p_term(maxc, delta);
            }
        }
    }
}

/// Convert one pixel to its exact HSV fractions.
pub fn rgb_to_hsv(input: Rgb) -> (hsv: Hsv)
    ensures
        hsv == rgb_to_hsv_spec(input),
        hsv.wf(),
        hsv.hd <= 1530,
        hsv.sd <= 255,
        hsv.vn <= 255,
        hsv.vd == 255,
{
    let r: u64 = input.r as u64;
    let g: u64 = input.g as u64;
    let b: u64 = input.b as u64;
    let maxc: u64 = if r >= g && r >= b { r } else if g >= b { g } else { b };
    let minc: u64 = if r <= g && r <= b { r } else if g <= b { g } else { b };
    if maxc == minc {
        Hsv { hn: 0, hd: 1, sn: 0, sd: 1, vn: maxc, vd: 255 }
    } else {
        let delta: u64 = maxc - minc;
        let k: u64 = if r == maxc {
            if g >= b {
                g - b
            } else {
                6 * delta - (b - g)
            }
        } else if g == maxc {
            2 * delta + b - r
        } else {
            4 * delta + r - g
        };
        Hsv { hn: k, hd: 6 * delta, sn: delta, sd: maxc, vn: maxc, vd: 255 }
    }
}

/// Reconstruct one pixel from exact HSV fractions.
pub fn hsv_to_rgb(hsv: Hsv) -> (c: Rgb)
    requires
        hsv.wf(),
    ensures
        c == hsv_to_rgb_spec(hsv),
{
    let rv: u64 = hsv.vn * 255 / hsv.vd;
    proof {
        lemma_scaled_fraction_le(255, hsv.vn as int, hsv.vd as int);
        assert(255 * hsv.vn == hsv.vn * 255) by (nonlinear_arith);
    }
    if hsv.sn == 0 {
        let v8: u8 = rv as u8;
        Rgb { r: v8, g: v8, b: v8 }
    } else {
        let six: u64 = 6 * hsv.hn;
        let i: u64 = six / hsv.hd;
        let f: u64 = six % hsv.hd;
        proof {
            lemma_mod_pos_bound(six as int, hsv.hd as int);
            lemma_fundamental_div_mod(six as int, hsv.hd as int);
            assert(six < 6 * hsv.hd);
            assert(i < 6) by (nonlinear_arith)
                requires
                    1 <= hsv.hd,
                    six == hsv.hd * i + f,
                    0 <= f < hsv.hd,
                    six < 6 * hsv.hd,
            ;
        }
        proof {
            assert(1 <= hsv.sd * hsv.hd
                && hsv.sd * hsv.hd <= MAX_SV_DEN * MAX_HUE_DEN
                && hsv.sn * f <= hsv.sd * hsv.hd
                && hsv.sn * (hsv.hd - f) <= hsv.sd * hsv.hd) by (nonlinear_arith)
                requires
                    1 <= hsv.sd <= MAX_SV_DEN,
                    1 <= hsv.hd <= MAX_HUE_DEN,
                    hsv.sn <= hsv.sd,
                    0 <= f < hsv.hd,
            ;
        }
        let den: u64 = hsv.sd * hsv.hd;
        proof {
            assert(rv * (hsv.sd - hsv.sn) <= 255 * MAX_SV_DEN) by (nonlinear_arith)
                requires
                    0 <= rv <= 255,
                    0 <= hsv.sd - hsv.sn <= MAX_SV_DEN,
            ;
            assert(rv * (den - hsv.sn * f) <= 255 * (MAX_SV_DEN * MAX_HUE_DEN)
                && rv * (den - hsv.sn * (hsv.hd - f)) <= 255 * (MAX_SV_DEN * MAX_HUE_DEN))
                by (nonlinear_arith)
                requires
                    0 <= rv <= 255,
                    0 <= den - hsv.sn * f <= den,
                    0 <= den - hsv.sn * (hsv.hd - f) <= den,
                    den <= MAX_SV_DEN * MAX_HUE_DEN,
            ;
            lemma_scaled_fraction_le(rv as int, hsv.sd - hsv.sn, hsv.sd as int);
            lemma_scaled_fraction_le(rv as int, den - hsv.sn * f, den as int);
            lemma_scaled_fraction_le(rv as int, den - hsv.sn * (hsv.hd - f), den as int);
        }
        let p: u64 = rv * (hsv.sd - hsv.sn) / hsv.sd;
        let q: u64 = rv * (den - hsv.sn * f) / den;
        let t: u64 = rv * (den - hsv.sn * (hsv.hd - f)) / den;
        if i == 0 {
            Rgb { r: rv as u8, g: t as u8, b: p as u8 }
        } else if i == 1 {
            Rgb { r: q as u8, g: rv as u8, b: p as u8 }
        } else if i == 2 {
            Rgb { r: p as u8, g: rv as u8, b: t as u8 }
        } else if i == 3 {
            Rgb { r: p as u8, g: q as u8, b: rv as u8 }
        } else if i == 4 {
            Rgb { r: t as u8, g: p as u8, b: rv as u8 }
        } else if i == 5 {
            Rgb { r: rv as u8, g: p as u8, b: q as u8 }
        } else {
            // The hue is strictly below 1, so the sector is in 0..=5; this
            // defensive branch is provably unreachable.
            proof {
                assert(false);
            }
            Rgb { r: 0, g: 0, b: 0 }
        }
    }
}

} // verus!
