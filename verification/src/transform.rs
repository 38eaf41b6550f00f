//! The HSL/RGB transform, carried out exactly over integers.
//!
//! A channel is an integer in `[0, 255]`; a saturation or luminance is a
//! percentage in `[0, 100]`; a hue is a whole number of degrees. The classic
//! formulas over fractions are evaluated as rational numbers with fixed
//! denominators: a channel fraction is `v / 255`, a percentage is `p / 100`,
//! a hue fraction is `f / 360`, and the two temporaries of the HSL-to-RGB
//! direction are kept over the denominator `10000`. Because the arithmetic
//! is exact, the maximal channel is picked directly and no degenerate
//! hue computation can arise.
//!
//! Rounding is deliberately asymmetric, as in the classic formulation:
//! percentages (and the gray level of a zero-saturation color) are rounded
//! to the nearest integer, while a recovered channel and a hue in degrees
//! are truncated toward zero.

use vstd::prelude::*;
use vstd::arithmetic::div_mod::lemma_div_is_ordered;
use vstd::arithmetic::div_mod::lemma_fundamental_div_mod_converse;

verus! {

/// The largest of three channel values.
pub open spec fn chan_max(a: int, b: int, c: int) -> int {
    if a >= b && a >= c { a } else if b >= c { b } else { c }
}

/// The smallest of three channel values.
pub open spec fn chan_min(a: int, b: int, c: int) -> int {
    if a <= b && a <= c { a } else if b <= c { b } else { c }
}

/// `a / b` rounded to the nearest integer, halves away from zero, for
/// non-negative `a` and positive `b`.
pub open spec fn round_div(a: int, b: int) -> int {
    (2 * a + b) / (2 * b)
}

/// `a / b` truncated toward zero, for positive `b`.
pub open spec fn trunc_div(a: int, b: int) -> int {
    if a >= 0 { a / b } else { -((-a) / b) }
}

/// The luminance of an RGB triple, as a percentage rounded to the nearest
/// integer: `(max + min) / 2` over channel fractions.
pub open spec fn lum_pct(r: int, g: int, b: int) -> int {
    round_div(100 * (chan_max(r, g, b) + chan_min(r, g, b)), 510)
}

/// The denominator of the saturation fraction: `max + min` while the
/// luminance is below one half, `2 - max - min` otherwise (over channel
/// fractions, scaled by 255).
pub open spec fn sat_den(r: int, g: int, b: int) -> int {
    let s = chan_max(r, g, b) + chan_min(r, g, b);
    if s < 255 { s } else { 510 - s }
}

/// The saturation of an RGB triple, as a percentage rounded to the nearest
/// integer; zero exactly for the achromatic triples (`max == min`).
pub open spec fn sat_pct(r: int, g: int, b: int) -> int {
    let mx = chan_max(r, g, b);
    let mn = chan_min(r, g, b);
    if mx == mn {
        0
    } else {
        round_div(100 * (mx - mn), sat_den(r, g, b))
    }
}

/// The hue of an RGB triple in degrees, truncated toward zero; rendered as
/// zero for the achromatic triples, whose hue is undefined. The maximal
/// channel is picked directly, red before green before blue on ties, so the
/// case split is total.
///
/// The value lies in `[-60, 300]`: a red-maximal triple with more blue than
/// green comes out negative, as in the classic formula, which nothing here
/// normalizes into `[0, 360)`.
pub open spec fn hue_deg(r: int, g: int, b: int) -> int {
    let mx = chan_max(r, g, b);
    let mn = chan_min(r, g, b);
    if mx == mn {
        0
    } else if r == mx {
        trunc_div(60 * (g - b), mx - mn)
    } else if g == mx {
        (120 * (mx - mn) + 60 * (b - r)) / (mx - mn)
    } else {
        (240 * (mx - mn) + 60 * (r - g)) / (mx - mn)
    }
}

/// The largest of three channel values.
pub fn get_max(v1: u8, v2: u8, v3: u8) -> (r: u8)
    ensures
        r as int == chan_max(v1 as int, v2 as int, v3 as int),
{
    if v1 < v2 {
        if v2 < v3 { v3 } else { v2 }
    } else {
        if v1 < v3 { v3 } else { v1 }
    }
}

/// The smallest of three channel values.
pub fn get_min(v1: u8, v2: u8, v3: u8) -> (r: u8)
    ensures
        r as int == chan_min(v1 as int, v2 as int, v3 as int),
{
    if v1 > v2 {
        if v2 > v3 { v3 } else { v2 }
    } else {
        if v1 > v3 { v3 } else { v1 }
    }
}

/// `round_div(100 * x, d)` stays within `[0, 100]` whenever `0 <= x <= d`.
proof fn lemma_round_pct_bounds(x: int, d: int)
    requires
        0 <= x <= d,
        1 <= d,
    ensures
        0 <= round_div(100 * x, d) <= 100,
{
    lemma_div_is_ordered(0, 2 * (100 * x) + d, 2 * d);
    lemma_div_is_ordered(2 * (100 * x) + d, 201 * d, 2 * d);
    lemma_fundamental_div_mod_converse(201 * d, 2 * d, 100, d);
}

/// The HSL components of an RGB triple: hue in degrees (truncated), then
/// saturation and luminance as rounded percentages.
pub fn hsl_components(red: u8, green: u8, blue: u8) -> (r: (i32, u8, u8))
    ensures
        r.0 as int == hue_deg(red as int, green as int, blue as int),
        r.1 as int == sat_pct(red as int, green as int, blue as int),
        r.2 as int == lum_pct(red as int, green as int, blue as int),
        -60 <= r.0 <= 300,
        r.1 <= 100,
        r.2 <= 100,
{
    let mx = get_max(red, green, blue);
    let mn = get_min(red, green, blue);
    let mxu = mx as u32;
    let mnu = mn as u32;

    let lum: u32 = (2 * (100 * (mxu + mnu)) + 510) / 1020;
    proof {
        lemma_round_pct_bounds((mxu + mnu) as int, 510);
        lemma_div_is_ordered(0, 2 * (100 * ((mxu + mnu) as int)) + 510, 1020);
    }

    let sat: u32;
    let hue: i32;
    if mx == mn {
        sat = 0;
        hue = 0;
    } else {
        let sum = mxu + mnu;
        let d = mxu - mnu;
        let den: u32 = if sum < 255 { sum } else { 510 - sum };
        proof {
            lemma_round_pct_bounds(d as int, den as int);
        }
        sat = (2 * (100 * d) + den) / (2 * den);

        let ru = red as u32;
        let gu = green as u32;
        let bu = blue as u32;
        if red == mx {
            if green >= blue {
                proof {
                    lemma_div_is_ordered((60 * (gu - bu)) as int, (60 * d) as int, d as int);
                    lemma_fundamental_div_mod_converse(60 * (d as int), d as int, 60, 0);
                }
                hue = ((60 * (gu - bu)) / d) as i32;
            } else {
                proof {
                    lemma_div_is_ordered((60 * (bu - gu)) as int, (60 * d) as int, d as int);
                    lemma_fundamental_div_mod_converse(60 * (d as int), d as int, 60, 0);
                }
                let m = (60 * (bu - gu)) / d;
                hue = -(m as i32);
            }
        } else if green == mx {
            let num = 120 * d + 60 * bu - 60 * ru;
            proof {
                lemma_div_is_ordered(num as int, (180 * d) as int, d as int);
                lemma_fundamental_div_mod_converse(180 * (d as int), d as int, 180, 0);
                lemma_div_is_ordered(0, num as int, d as int);
            }
            hue = (num / d) as i32;
        } else {
            let num = 240 * d + 60 * ru - 60 * gu;
            proof {
                lemma_div_is_ordered(num as int, (300 * d) as int, d as int);
                lemma_fundamental_div_mod_converse(300 * (d as int), d as int, 300, 0);
                lemma_div_is_ordered(0, num as int, d as int);
            }
            hue = (num / d) as i32;
        }
    }
    (hue, sat as u8, lum as u8)
}

/// The first temporary of the HSL-to-RGB direction, scaled by 10000:
/// `l * (1 + s)` below half luminance, `s + l - s * l` otherwise.
pub open spec fn t1_scaled(sp: int, lp: int) -> int {
    if lp < 50 {
        lp * (100 + sp)
    } else {
        100 * sp + 100 * lp - sp * lp
    }
}

/// The second temporary, scaled by 10000: `2 * l - t1`.
pub open spec fn t2_scaled(sp: int, lp: int) -> int {
    200 * lp - t1_scaled(sp, lp)
}

/// The hue-rotated fraction for the red channel, scaled by 360: one third of
/// a turn ahead, wrapped back once it exceeds a full turn.
pub open spec fn fnum_red(h: int) -> int {
    if h + 120 > 360 { h - 240 } else { h + 120 }
}

/// The hue-rotated fraction for the green channel, scaled by 360.
pub open spec fn fnum_green(h: int) -> int {
    h
}

/// The hue-rotated fraction for the blue channel, scaled by 360: one third
/// of a turn behind, wrapped forward once it falls below zero.
pub open spec fn fnum_blue(h: int) -> int {
    if h < 120 { h + 240 } else { h - 120 }
}

/// Recovers a channel value from a hue-rotated fraction `fnum / 360` and the
/// two temporaries `t1n / 10000` and `t2n / 10000`, truncating toward zero:
/// the piecewise-linear tent function of the classic formulation, times 255.
pub open spec fn channel_of(fnum: int, t1n: int, t2n: int) -> int {
    if fnum < 60 {
        ((t2n * 360 + (t1n - t2n) * 6 * fnum) * 255) / 3600000
    } else if fnum < 180 {
        (t1n * 255) / 10000
    } else if fnum < 240 {
        ((t2n * 360 + (t1n - t2n) * 6 * (240 - fnum)) * 255) / 3600000
    } else {
        (t2n * 255) / 10000
    }
}

/// The gray level of a zero-saturation color: `255 * l`, rounded to the
/// nearest integer.
pub open spec fn gray_level(lp: int) -> int {
    round_div(255 * lp, 100)
}

/// The RGB triple a hue (in degrees, `[0, 360)`) and saturation and
/// luminance percentages convert to.
pub open spec fn rgb_of_hsl(h: int, sp: int, lp: int) -> (int, int, int) {
    if sp == 0 {
        let v = gray_level(lp);
        (v, v, v)
    } else {
        let t1n = t1_scaled(sp, lp);
        let t2n = t2_scaled(sp, lp);
        (
            channel_of(fnum_red(h), t1n, t2n),
            channel_of(fnum_green(h), t1n, t2n),
            channel_of(fnum_blue(h), t1n, t2n),
        )
    }
}

/// Recovers one channel value from a hue-rotated fraction and the two
/// temporaries of the transform.
pub fn recalculate_rgb(fnum: u16, t1n: u32, t2n: u32) -> (r: u8)
    requires
        fnum <= 360,
        t2n <= t1n,
        t1n <= 10000,
    ensures
        r as int == channel_of(fnum as int, t1n as int, t2n as int),
{
    let dt = (t1n - t2n) as u64;
    let t2l = t2n as u64;
    if fnum < 60 {
        proof {
            assert(0 <= (t2n as int) * 360 + ((t1n as int) - (t2n as int)) * 6 * (fnum as int)
                <= 3600000)
                by (nonlinear_arith)
                requires
                    0 <= t2n as int <= t1n as int <= 10000,
                    0 <= (fnum as int) && (fnum as int) < 60;
        }
        let num = t2l * 360 + dt * 6 * (fnum as u64);
        proof {
            lemma_div_is_ordered((num as int) * 255, 918000000, 3600000);
        }
        ((num * 255) / 3600000) as u8
    } else if fnum < 180 {
        proof {
            lemma_div_is_ordered((t1n as int) * 255, 2550000, 10000);
        }
        ((t1n * 255) / 10000) as u8
    } else if fnum < 240 {
        let w = 240 - fnum;
        proof {
            assert(0 <= (t2n as int) * 360 + ((t1n as int) - (t2n as int)) * 6 * (w as int)
                <= 3600000)
                by (nonlinear_arith)
                requires
                    0 <= t2n as int <= t1n as int <= 10000,
                    0 <= w as int <= 60;

        }
        let num = t2l * 360 + dt * 6 * (w as u64);
        proof {
            lemma_div_is_ordered((num as int) * 255, 918000000, 3600000);
        }
        ((num * 255) / 3600000) as u8
    } else {
        proof {
            lemma_div_is_ordered((t2n as int) * 255, 2550000, 10000);
        }
        ((t2n * 255) / 10000) as u8
    }
}

/// Converts an HSL triple — hue in whole degrees, saturation and luminance
/// as percentages — to its RGB triple. A zero saturation yields the rounded
/// gray level on all three channels, whatever the hue.
pub fn hsl_to_rgb(hue: u16, saturation: u8, luminance: u8) -> (rgb: (u8, u8, u8))
    requires
        hue < 360,
        saturation <= 100,
        luminance <= 100,
    ensures
        rgb.0 as int == rgb_of_hsl(hue as int, saturation as int, luminance as int).0,
        rgb.1 as int == rgb_of_hsl(hue as int, saturation as int, luminance as int).1,
        rgb.2 as int == rgb_of_hsl(hue as int, saturation as int, luminance as int).2,
{
    let sp = saturation as u32;
    let lp = luminance as u32;
    if saturation == 0 {
        let v = (2 * (255 * lp) + 100) / 200;
        proof {
            lemma_div_is_ordered(0, 2 * (255 * (lp as int)) + 100, 200);
            lemma_div_is_ordered(2 * (255 * (lp as int)) + 100, 51100, 200);
        }
        ((v as u8), (v as u8), (v as u8))
    } else {
        proof {
            if lp < 50 {
                assert(100 * lp <= lp * (100 + sp) <= 200 * lp && lp * (100 + sp) <= 10000)
                    by (nonlinear_arith)
                    requires 1 <= sp <= 100 && 0 <= lp < 50;
            } else {
                assert(100 * lp <= 100 * sp + 100 * lp - sp * lp <= 200 * lp
                    && sp * lp <= 100 * sp
                    && 100 * sp + 100 * lp - sp * lp <= 10000)
                    by (nonlinear_arith)
                    requires 1 <= sp <= 100 && 50 <= lp <= 100;
            }
        }
        let t1n: u32 = if lp < 50 { lp * (100 + sp) } else { 100 * sp + 100 * lp - sp * lp };
        let t2n: u32 = 200 * lp - t1n;

        let fr: u16 = if hue + 120 > 360 { hue - 240 } else { hue + 120 };
        let fg: u16 = hue;
        let fb: u16 = if hue < 120 { hue + 240 } else { hue - 120 };

        let red = recalculate_rgb(fr, t1n, t2n);
        let green = recalculate_rgb(fg, t1n, t2n);
        let blue = recalculate_rgb(fb, t1n, t2n);
        (red, green, blue)
    }
}

/// Law: an achromatic (gray) RGB triple has saturation zero, and its hue is
/// rendered as zero.
pub proof fn lemma_gray_has_zero_saturation(v: int)
    requires
        0 <= v <= 255,
    ensures
        sat_pct(v, v, v) == 0,
        hue_deg(v, v, v) == 0,
{
}

/// Law: converting any zero-saturation HSL triple yields the same rounded
/// gray level on all three channels, regardless of hue.
pub proof fn lemma_zero_saturation_gives_gray(h: int, lp: int)
    requires
        0 <= h < 360,
        0 <= lp <= 100,
    ensures
        rgb_of_hsl(h, 0, lp).0 == gray_level(lp),
        rgb_of_hsl(h, 0, lp).1 == gray_level(lp),
        rgb_of_hsl(h, 0, lp).2 == gray_level(lp),
{
}

} // verus!
