//! The color model: HSV with alpha, RGB with alpha, and the conversions
//! between them.
//!
//! Unit-interval components (saturation, value, alpha, and the RGB channels)
//! are fixed-point fractions: the integer `x` stands for the real number
//! `x / UNIT`. Hue is whole degrees in `[0, 360)`. Divisions in the
//! conversions round to nearest; the byte conversions truncate.

use vstd::prelude::*;

verus! {

/// Denominator of the fixed-point unit interval: `UNIT` stands for 1.0.
pub const UNIT: u64 = 1_000_000;

/// A color as hue, saturation, value and alpha.
///
/// Well-formed values keep `h` reduced modulo 360 and the other components
/// within the unit interval; every producer in this crate does so.
#[derive(Clone, Copy, Debug, PartialEq, Eq, Structural)]
pub struct Hsv {
    /// Hue in degrees, `0 <= h < 360`.
    pub h: u16,
    /// Saturation, `0 <= s <= UNIT`.
    pub s: u64,
    /// Value (brightness), `0 <= v <= UNIT`.
    pub v: u64,
    /// Alpha, `0 <= a <= UNIT`.
    pub a: u64,
}

/// A color as red, green, blue and alpha, each in `0 ..= UNIT`.
#[derive(Clone, Copy, Debug, PartialEq, Eq, Structural)]
pub struct Rgb {
    pub r: u64,
    pub g: u64,
    pub b: u64,
    pub a: u64,
}

impl Hsv {
    /// Hue below 360 degrees, other components within the unit interval.
    pub open spec fn wf(self) -> bool {
        self.h < 360 && self.s <= UNIT && self.v <= UNIT && self.a <= UNIT
    }
}

impl Rgb {
    /// Every channel within the unit interval.
    pub open spec fn wf(self) -> bool {
        self.r <= UNIT && self.g <= UNIT && self.b <= UNIT && self.a <= UNIT
    }
}

impl Default for Hsv {
    /// The all-zero color: black with zero alpha.
    fn default() -> (c: Hsv)
        ensures
            c == (Hsv { h: 0, s: 0, v: 0, a: 0 }),
            c.wf(),
    {
        Hsv { h: 0, s: 0, v: 0, a: 0 }
    }
}

/// `min(x, UNIT)`, as a spec value.
pub open spec fn spec_clamp_unit(x: u64) -> u64 {
    if x > UNIT {
        UNIT
    } else {
        x
    }
}

/// Clamps a unit-interval component from above.
pub fn clamp_unit(x: u64) -> (r: u64)
    ensures
        r == spec_clamp_unit(x),
{
    if x > UNIT {
        UNIT
    } else {
        x
    }
}

/// A fully opaque color from hue, saturation and value.
///
/// Hue is reduced modulo 360 and the components are clamped into the unit
/// interval, so the result is well-formed for any arguments.
pub fn hsv(hue: u16, saturation: u64, value: u64) -> (c: Hsv)
    ensures
        c == (Hsv {
            h: hue % 360,
            s: spec_clamp_unit(saturation),
            v: spec_clamp_unit(value),
            a: UNIT,
        }),
        c.wf(),
{
    hsva(hue, saturation, value, UNIT)
}

/// A color from hue, saturation, value and alpha.
///
/// Hue is reduced modulo 360 and the components are clamped into the unit
/// interval, so the result is well-formed for any arguments.
pub fn hsva(hue: u16, saturation: u64, value: u64, alpha: u64) -> (c: Hsv)
    ensures
        c == (Hsv {
            h: hue % 360,
            s: spec_clamp_unit(saturation),
            v: spec_clamp_unit(value),
            a: spec_clamp_unit(alpha),
        }),
        c.wf(),
{
    Hsv {
        h: hue % 360,
        s: clamp_unit(saturation),
        v: clamp_unit(value),
        a: clamp_unit(alpha),
    }
}

/// Division rounding to the nearest integer (ties upward), for nonnegative
/// operands.
pub open spec fn spec_rdiv(n: int, d: int) -> int {
    (n + d / 2) / d
}

/// Executable rounding division.
fn rdiv(n: u64, d: u64) -> (r: u64)
    requires
        1 <= d,
        n + d / 2 <= u64::MAX,
    ensures
        r == spec_rdiv(n as int, d as int),
{
    (n + d / 2) / d
}

/// The HSV to RGB conversion, as a function on the mathematical model.
///
/// The standard sector formula: the hue is split into a sector index
/// `h / 60` and a fractional part `(h % 60) / 60`, and the channels are
/// chosen from `v` and the mixtures `p`, `q`, `t`. A sector index outside
/// `1 ..= 5` (0, and any index reached through an out-of-range hue) uses the
/// first sector's mapping. Alpha passes through unchanged.
pub open spec fn spec_hsv_to_rgb(c: Hsv) -> Rgb {
    let sector = (c.h as int) / 60;
    let f60 = (c.h as int) % 60;
    let v = c.v as int;
    let s = c.s as int;
    let u = UNIT as int;
    let p = spec_rdiv(v * (u - s), u);
    let q = spec_rdiv(v * (u - spec_rdiv(s * f60, 60)), u);
    let t = spec_rdiv(v * (u - spec_rdiv(s * (60 - f60), 60)), u);
    if sector == 1 {
        Rgb { r: q as u64, g: c.v, b: p as u64, a: c.a }
    } else if sector == 2 {
        Rgb { r: p as u64, g: c.v, b: t as u64, a: c.a }
    } else if sector == 3 {
        Rgb { r: p as u64, g: q as u64, b: c.v, a: c.a }
    } else if sector == 4 {
        Rgb { r: t as u64, g: p as u64, b: c.v, a: c.a }
    } else if sector == 5 {
        Rgb { r: c.v, g: p as u64, b: q as u64, a: c.a }
    } else {
        Rgb { r: c.v, g: t as u64, b: p as u64, a: c.a }
    }
}

/// Converts an HSV color to RGB. Alpha passes through unchanged.
pub fn hsv_to_rgb(c: Hsv) -> (r: Rgb)
    requires
        c.wf(),
    ensures
        r == spec_hsv_to_rgb(c),
        r.wf(),
{
    let sector: u16 = c.h / 60;
    let f60: u64 = (c.h % 60) as u64;
    proof {
        assert(c.s * f60 <= 59 * UNIT) by (nonlinear_arith)
            requires
                c.s <= UNIT,
                f60 <= 59,
        ;
        assert(c.s * (60 - f60) <= 60 * UNIT) by (nonlinear_arith)
            requires
                c.s <= UNIT,
                f60 <= 59,
        ;
    }
    let sf: u64 = rdiv(c.s * f60, 60);
    let sg: u64 = rdiv(c.s * (60 - f60), 60);
    proof {
        vstd::arithmetic::div_mod::lemma_div_is_ordered(
            (c.s * f60 + 30) as int,
            (59 * UNIT + 30) as int,
            60,
        );
        vstd::arithmetic::div_mod::lemma_div_is_ordered(
            (c.s * (60 - f60) + 30) as int,
            (60 * UNIT + 30) as int,
            60,
        );
    }
    let p: u64 = mix(c.v, c.s);
    let q: u64 = mix(c.v, sf);
    let t: u64 = mix(c.v, sg);
    match sector {
        1 => Rgb { r: q, g: c.v, b: p, a: c.a },
        2 => Rgb { r: p, g: c.v, b: t, a: c.a },
        3 => Rgb { r: p, g: q, b: c.v, a: c.a },
        4 => Rgb { r: t, g: p, b: c.v, a: c.a },
        5 => Rgb { r: c.v, g: p, b: q, a: c.a },
        _ => Rgb { r: c.v, g: t, b: p, a: c.a },
    }
}

/// `v * (1 - w)` over the fixed-point unit interval, rounded to nearest.
fn mix(v: u64, w: u64) -> (r: u64)
    requires
        v <= UNIT,
        w <= UNIT,
    ensures
        r == spec_rdiv(v as int * (UNIT - w) as int, UNIT as int),
        r <= v,
{
    proof {
        assert(v * (UNIT - w) <= v * UNIT) by (nonlinear_arith)
            requires
                w <= UNIT,
                v <= UNIT,
        ;
        assert(v * UNIT <= UNIT * UNIT) by (nonlinear_arith)
            requires
                v <= UNIT,
        ;
        vstd::arithmetic::div_mod::lemma_div_is_ordered(
            (v * (UNIT - w) + UNIT / 2) as int,
            (v * UNIT + UNIT / 2) as int,
            UNIT as int,
        );
        assert((v as int * UNIT as int + UNIT as int / 2) / (UNIT as int) == v as int)
            by (nonlinear_arith)
            requires
                v <= UNIT,
        ;
    }
    rdiv(v * (UNIT - w), UNIT)
}

/// Rounding division returns a multiple of the divisor to its exact
/// quotient.
proof fn lemma_rdiv_exact(k: int, d: int)
    requires
        0 <= k,
        1 <= d,
    ensures
        spec_rdiv(k * d, d) == k,
{
    vstd::arithmetic::div_mod::lemma_fundamental_div_mod(d, 2);
    vstd::arithmetic::div_mod::lemma_mod_division_less_than_divisor(d, 2);
    vstd::arithmetic::div_mod::lemma_hoist_over_denominator(d / 2, k, d as nat);
    vstd::arithmetic::div_mod::lemma_basic_div(d / 2, d);
}

/// Bounds of the sixtieth-scale mixture `rdiv(s * k, 60)`: it never exceeds
/// `s`, and it is positive as soon as `s * k` reaches half the scale.
proof fn lemma_rdiv60_bounds(s: int, k: int)
    requires
        0 <= s,
        0 <= k <= 60,
    ensures
        0 <= spec_rdiv(s * k, 60) <= s,
        k >= 1 && s >= 30 ==> spec_rdiv(s * k, 60) >= 1,
{
    vstd::arithmetic::mul::lemma_mul_nonnegative(s, k);
    vstd::arithmetic::div_mod::lemma_div_pos_is_pos(s * k + 30, 60);
    vstd::arithmetic::mul::lemma_mul_inequality(k, 60, s);
    vstd::arithmetic::mul::lemma_mul_is_commutative(s, k);
    vstd::arithmetic::mul::lemma_mul_is_commutative(s, 60);
    vstd::arithmetic::div_mod::lemma_div_is_ordered(s * k + 30, 60 * s + 30, 60);
    vstd::arithmetic::div_mod::lemma_hoist_over_denominator(30, s, 60nat);
    vstd::arithmetic::div_mod::lemma_basic_div(30, 60);
    if k >= 1 && s >= 30 {
        vstd::arithmetic::mul::lemma_mul_inequality(1, k, s);
        vstd::arithmetic::div_mod::lemma_div_is_ordered(60, s * k + 30, 60);
    }
}

/// Undoing the mixture taken through its complement: scaling
/// `s - rdiv(s * (60 - f), 60)` back by `60 / s` recovers `f` exactly, for
/// any saturation of at least a sixtieth.
proof fn lemma_mix_back_t(s: int, f: int)
    requires
        60 <= s,
        0 <= f < 60,
    ensures
        spec_rdiv(60 * (s - spec_rdiv(s * (60 - f), 60)), s) == f,
{
    let n = s * (60 - f);
    let sg = spec_rdiv(n, 60);
    let rem = (n + 30) % 60;
    vstd::arithmetic::div_mod::lemma_fundamental_div_mod(n + 30, 60);
    vstd::arithmetic::div_mod::lemma_mod_division_less_than_divisor(n + 30, 60);
    assert(60 * (s - sg) == s * f - 30 + rem) by {
        vstd::arithmetic::mul::lemma_mul_is_distributive_sub(60, s, sg);
        vstd::arithmetic::mul::lemma_mul_is_distributive_sub(s, 60, f);
        vstd::arithmetic::mul::lemma_mul_is_commutative(s, 60);
    }
    let x = 60 * (s - sg) + s / 2;
    vstd::arithmetic::div_mod::lemma_fundamental_div_mod(s, 2);
    vstd::arithmetic::div_mod::lemma_mod_division_less_than_divisor(s, 2);
    assert(x == f * s + (s / 2 - 30 + rem)) by {
        vstd::arithmetic::mul::lemma_mul_is_commutative(s, f);
    }
    vstd::arithmetic::div_mod::lemma_fundamental_div_mod_converse(x, s, f, s / 2 - 30 + rem);
}

/// Undoing the mixture taken directly: scaling `rdiv(s * f, 60)` back by
/// `60 / s` recovers `f` exactly, once the saturation clears a sixtieth.
proof fn lemma_mix_back_q(s: int, f: int)
    requires
        61 <= s,
        1 <= f < 60,
    ensures
        spec_rdiv(60 * spec_rdiv(s * f, 60), s) == f,
{
    let n = s * f;
    let sf = spec_rdiv(n, 60);
    let rem = (n + 30) % 60;
    vstd::arithmetic::div_mod::lemma_fundamental_div_mod(n + 30, 60);
    vstd::arithmetic::div_mod::lemma_mod_division_less_than_divisor(n + 30, 60);
    assert(60 * sf == n + 30 - rem);
    let x = 60 * sf + s / 2;
    vstd::arithmetic::div_mod::lemma_fundamental_div_mod(s, 2);
    vstd::arithmetic::div_mod::lemma_mod_division_less_than_divisor(s, 2);
    assert(x == f * s + (30 - rem + s / 2)) by {
        vstd::arithmetic::mul::lemma_mul_is_commutative(s, f);
    }
    vstd::arithmetic::div_mod::lemma_fundamental_div_mod_converse(x, s, f, 30 - rem + s / 2);
}

/// Round trip from HSV through RGB and back, on the fully bright slice:
/// at full value, and with saturation past a sixtieth of a percent of the
/// scale, converting to RGB and back returns the color exactly, alpha
/// included. (With smaller saturation the whole-degree hue grid and the
/// fixed-point rounding can shift the recovered hue by a degree; a gray,
/// whose hue is undefined, comes back with hue 0.)
#[verifier::rlimit(50)]
pub proof fn lemma_hsv_rgb_round_trip(c: Hsv)
    requires
        c.wf(),
        c.v == UNIT,
        c.s >= 61,
    ensures
        spec_rgb_to_hsv(spec_hsv_to_rgb(c)) == c,
{
    let u = UNIT as int;
    let s = c.s as int;
    let h = c.h as int;
    let sector = h / 60;
    let f = h % 60;
    vstd::arithmetic::div_mod::lemma_fundamental_div_mod(h, 60);
    vstd::arithmetic::div_mod::lemma_mod_division_less_than_divisor(h, 60);
    let sf = spec_rdiv(s * f, 60);
    let sg = spec_rdiv(s * (60 - f), 60);
    lemma_rdiv60_bounds(s, f);
    lemma_rdiv60_bounds(s, 60 - f);
    assert(spec_rdiv(u * (u - s), u) == u - s) by {
        lemma_rdiv_exact(u - s, u);
        vstd::arithmetic::mul::lemma_mul_is_commutative(u, u - s);
    }
    assert(spec_rdiv(u * (u - sf), u) == u - sf) by {
        lemma_rdiv_exact(u - sf, u);
        vstd::arithmetic::mul::lemma_mul_is_commutative(u, u - sf);
    }
    assert(spec_rdiv(u * (u - sg), u) == u - sg) by {
        lemma_rdiv_exact(u - sg, u);
        vstd::arithmetic::mul::lemma_mul_is_commutative(u, u - sg);
    }
    assert(f >= 1 ==> sf >= 1) by {
        if f >= 1 {
            lemma_rdiv60_bounds(s, 1);
            vstd::arithmetic::mul::lemma_mul_inequality(1, f, s);
            vstd::arithmetic::mul::lemma_mul_is_commutative(s, f);
            vstd::arithmetic::div_mod::lemma_div_is_ordered(s * 1 + 30, s * f + 30, 60);
        }
    }
    assert(f == 0 ==> sf == 0) by {
        if f == 0 {
            vstd::arithmetic::mul::lemma_mul_by_zero_is_zero(s);
            vstd::arithmetic::mul::lemma_mul_is_commutative(s, f);
            vstd::arithmetic::div_mod::lemma_basic_div(30, 60);
        }
    }
    let rgb = spec_hsv_to_rgb(c);
    let d = s;  // chroma: the largest channel is u, the smallest u - s
    // the saturation recovered by the reverse conversion
    assert(spec_rdiv(d * u, u) == d) by {
        lemma_rdiv_exact(d, u);
    }
    if sector == 0 {
        assert(rgb == Rgb { r: UNIT, g: (u - sg) as u64, b: (u - s) as u64, a: c.a });
        let hn = 360 * d + 60 * (u - sg) - 60 * (u - s);
        assert(hn == 60 * (s - sg) + 360 * s);
        assert(spec_rdiv(hn, s) == 360 + f) by {
            vstd::arithmetic::div_mod::lemma_hoist_over_denominator(
                60 * (s - sg) + s / 2,
                360,
                s as nat,
            );
            lemma_mix_back_t(s, f);
        }
        assert((360 + f) % 360 == f) by {
            vstd::arithmetic::div_mod::lemma_mod_add_multiples_vanish(f, 360);
            vstd::arithmetic::div_mod::lemma_small_mod(f as nat, 360nat);
        }
    } else if sector == 1 {
        assert(rgb == Rgb { r: (u - sf) as u64, g: UNIT, b: (u - s) as u64, a: c.a });
        if f == 0 {
            // the red channel ties with the maximum, so the hue comes from red
            let hn = 360 * d + 60 * u - 60 * (u - s);
            assert(hn == 420 * s);
            assert(spec_rdiv(hn, s) == 420) by {
                lemma_rdiv_exact(420, s);
                vstd::arithmetic::mul::lemma_mul_is_commutative(420, s);
            }
            assert(420int % 360int == 60int) by {
                vstd::arithmetic::div_mod::lemma_fundamental_div_mod_converse(420, 360, 1, 60);
            }
        } else {
            let hn = 120 * d + 60 * (u - s) - 60 * (u - sf);
            assert(hn == 60 * sf + 60 * s);
            assert(spec_rdiv(hn, s) == 60 + f) by {
                vstd::arithmetic::div_mod::lemma_hoist_over_denominator(
                    60 * sf + s / 2,
                    60,
                    s as nat,
                );
                lemma_mix_back_q(s, f);
            }
            assert((60 + f) % 360 == 60 + f) by {
                vstd::arithmetic::div_mod::lemma_small_mod((60 + f) as nat, 360nat);
            }
        }
    } else if sector == 2 {
        assert(rgb == Rgb { r: (u - s) as u64, g: UNIT, b: (u - sg) as u64, a: c.a });
        let hn = 120 * d + 60 * (u - sg) - 60 * (u - s);
        assert(hn == 60 * (s - sg) + 120 * s);
        assert(spec_rdiv(hn, s) == 120 + f) by {
            vstd::arithmetic::div_mod::lemma_hoist_over_denominator(
                60 * (s - sg) + s / 2,
                120,
                s as nat,
            );
            lemma_mix_back_t(s, f);
        }
        assert((120 + f) % 360 == 120 + f) by {
            vstd::arithmetic::div_mod::lemma_small_mod((120 + f) as nat, 360nat);
        }
    } else if sector == 3 {
        assert(rgb == Rgb { r: (u - s) as u64, g: (u - sf) as u64, b: UNIT, a: c.a });
        if f == 0 {
            // the green channel ties with the maximum, so the hue comes from green
            let hn = 120 * d + 60 * u - 60 * (u - s);
            assert(hn == 180 * s);
            assert(spec_rdiv(hn, s) == 180) by {
                lemma_rdiv_exact(180, s);
                vstd::arithmetic::mul::lemma_mul_is_commutative(180, s);
            }
            assert(180int % 360int == 180int) by {
                vstd::arithmetic::div_mod::lemma_small_mod(180nat, 360nat);
            }
        } else {
            let hn = 240 * d + 60 * (u - s) - 60 * (u - sf);
            assert(hn == 60 * sf + 180 * s);
            assert(spec_rdiv(hn, s) == 180 + f) by {
                vstd::arithmetic::div_mod::lemma_hoist_over_denominator(
                    60 * sf + s / 2,
                    180,
                    s as nat,
                );
                lemma_mix_back_q(s, f);
            }
            assert((180 + f) % 360 == 180 + f) by {
                vstd::arithmetic::div_mod::lemma_small_mod((180 + f) as nat, 360nat);
            }
        }
    } else if sector == 4 {
        assert(rgb == Rgb { r: (u - sg) as u64, g: (u - s) as u64, b: UNIT, a: c.a });
        let hn = 240 * d + 60 * (u - sg) - 60 * (u - s);
        assert(hn == 60 * (s - sg) + 240 * s);
        assert(spec_rdiv(hn, s) == 240 + f) by {
            vstd::arithmetic::div_mod::lemma_hoist_over_denominator(
                60 * (s - sg) + s / 2,
                240,
                s as nat,
            );
            lemma_mix_back_t(s, f);
        }
        assert((240 + f) % 360 == 240 + f) by {
            vstd::arithmetic::div_mod::lemma_small_mod((240 + f) as nat, 360nat);
        }
    } else {
        assert(sector == 5);
        assert(rgb == Rgb { r: UNIT, g: (u - s) as u64, b: (u - sf) as u64, a: c.a });
        let hn = 360 * d + 60 * (u - s) - 60 * (u - sf);
        assert(hn == 60 * sf + 300 * s);
        if f == 0 {
            assert(spec_rdiv(hn, s) == 300) by {
                lemma_rdiv_exact(300, s);
                vstd::arithmetic::mul::lemma_mul_is_commutative(300, s);
            }
            assert(300int % 360int == 300int) by {
                vstd::arithmetic::div_mod::lemma_small_mod(300nat, 360nat);
            }
        } else {
            assert(spec_rdiv(hn, s) == 300 + f) by {
                vstd::arithmetic::div_mod::lemma_hoist_over_denominator(
                    60 * sf + s / 2,
                    300,
                    s as nat,
                );
                lemma_mix_back_q(s, f);
            }
            assert((300 + f) % 360 == 300 + f) by {
                vstd::arithmetic::div_mod::lemma_small_mod((300 + f) as nat, 360nat);
            }
        }
    }
}

/// Round trip of the grays: a color without saturation maps to the gray
/// with its value on every channel, and comes back with hue 0 and
/// saturation 0 — hue is undefined on grays and normalizes to 0 — while
/// value and alpha survive exactly.
pub proof fn lemma_gray_round_trip(c: Hsv)
    requires
        c.wf(),
        c.s == 0,
    ensures
        spec_hsv_to_rgb(c) == (Rgb { r: c.v, g: c.v, b: c.v, a: c.a }),
        spec_rgb_to_hsv(spec_hsv_to_rgb(c)) == (Hsv { h: 0, s: 0, v: c.v, a: c.a }),
{
    let u = UNIT as int;
    let v = c.v as int;
    let f = (c.h as int) % 60;
    vstd::arithmetic::div_mod::lemma_mod_division_less_than_divisor(c.h as int, 60);
    assert(0 * f == 0 && 0 * (60 - f) == 0) by {
        vstd::arithmetic::mul::lemma_mul_by_zero_is_zero(f);
        vstd::arithmetic::mul::lemma_mul_by_zero_is_zero(60 - f);
        vstd::arithmetic::mul::lemma_mul_is_commutative(0, f);
        vstd::arithmetic::mul::lemma_mul_is_commutative(0, 60 - f);
    }
    vstd::arithmetic::div_mod::lemma_basic_div(30, 60);
    assert(spec_rdiv(v * (u - 0), u) == v) by {
        lemma_rdiv_exact(v, u);
        vstd::arithmetic::mul::lemma_mul_is_commutative(v, u);
    }
    // the reverse conversion sees equal channels: no chroma, no saturation
    if c.v > 0 {
        assert(spec_rdiv(0 * u, v) == 0) by {
            vstd::arithmetic::mul::lemma_mul_is_commutative(0, u);
            vstd::arithmetic::mul::lemma_mul_by_zero_is_zero(u);
            vstd::arithmetic::div_mod::lemma_fundamental_div_mod(v, 2);
            vstd::arithmetic::div_mod::lemma_mod_division_less_than_divisor(v, 2);
            vstd::arithmetic::div_mod::lemma_basic_div(v / 2, v);
        }
    }
}

/// The spread between the largest and smallest channel.
pub open spec fn spec_chroma(c: Rgb) -> int {
    spec_rgb_max(c) - spec_rgb_min(c)
}

/// The dividend of the hue computation in [`spec_rgb_to_hsv`], before the
/// division by the chroma: offset and difference follow whichever channel
/// is largest, ties resolved in the order red, green, blue.
pub open spec fn spec_hue_numerator(c: Rgb) -> int {
    let d = spec_chroma(c);
    if spec_rgb_max(c) == c.r {
        360 * d + 60 * (c.g as int) - 60 * (c.b as int)
    } else if spec_rgb_max(c) == c.g {
        120 * d + 60 * (c.b as int) - 60 * (c.r as int)
    } else {
        240 * d + 60 * (c.r as int) - 60 * (c.g as int)
    }
}

/// The two-step mixture of the forward conversion collapses when the scaled
/// hue fraction is an exact multiple: with `d * f == 60 * (UNIT - x)`, the
/// sixtieth-scale mixture is `UNIT - x` and the full-value channel built
/// from it is `x` itself.
proof fn lemma_mixture_exact(d: int, f: int, x: int)
    requires
        0 <= x <= UNIT as int,
        d * f == 60 * (UNIT as int - x),
    ensures
        spec_rdiv(d * f, 60) == UNIT as int - x,
        spec_rdiv((UNIT as int) * (UNIT as int - spec_rdiv(d * f, 60)), UNIT as int) == x,
{
    let u = UNIT as int;
    assert(d * f == (u - x) * 60) by {
        vstd::arithmetic::mul::lemma_mul_is_commutative(u - x, 60);
    }
    lemma_rdiv_exact(u - x, 60);
    lemma_rdiv_exact(x, u);
    assert(u * (u - (u - x)) == x * u) by {
        vstd::arithmetic::mul::lemma_mul_is_commutative(u, x);
    }
}

/// Round trip from RGB through HSV and back, on the fully bright colors:
/// with the largest channel at full scale, the others below it, and a
/// chromaticity that lands exactly on a whole degree of hue, the conversion
/// to HSV and back returns the color exactly, alpha included. (Off the
/// whole-degree grid the recovered middle channel can shift by up to a
/// sixtieth of the chroma, since hue is stored in whole degrees; a gray,
/// whose hue is undefined, comes back with hue 0.)
#[verifier::rlimit(100)]
pub proof fn lemma_rgb_hsv_round_trip(c: Rgb)
    requires
        c.wf(),
        spec_rgb_max(c) == UNIT,
        spec_rgb_min(c) < UNIT,
        spec_hue_numerator(c) % spec_chroma(c) == 0,
    ensures
        spec_hsv_to_rgb(spec_rgb_to_hsv(c)) == c,
{
    let u = UNIT as int;
    let r = c.r as int;
    let g = c.g as int;
    let b = c.b as int;
    let mn = spec_rgb_min(c) as int;
    let d = u - mn;
    let nn = spec_hue_numerator(c);
    let f0 = nn / d;
    vstd::arithmetic::div_mod::lemma_fundamental_div_mod(nn, d);
    assert(nn == f0 * d) by {
        vstd::arithmetic::mul::lemma_mul_is_commutative(d, f0);
    }
    assert(spec_rdiv(d * u, u) == d) by {
        lemma_rdiv_exact(d, u);
    }
    if c.r == UNIT {
        assert(nn == 360 * d + 60 * g - 60 * b);
        if g >= b {
            assert(mn == b);
            assert(360 * d <= nn <= 420 * d);
            assert(360 <= f0 <= 420) by (nonlinear_arith)
                requires
                    nn == f0 * d,
                    360 * d <= nn <= 420 * d,
                    d >= 1,
            ;
            assert(spec_rdiv(nn, d) == f0) by {
                lemma_rdiv_exact(f0, d);
            }
            let f = f0 - 360;
            assert(f0 % 360 == f) by {
                vstd::arithmetic::div_mod::lemma_mod_add_multiples_vanish(f, 360);
                vstd::arithmetic::div_mod::lemma_small_mod(f as nat, 360nat);
            }
            assert(d * f == 60 * (g - b)) by {
                vstd::arithmetic::mul::lemma_mul_is_distributive_sub_other_way(d, f0, 360);
                vstd::arithmetic::mul::lemma_mul_is_commutative(d, f);
            }
            if f < 60 {
                vstd::arithmetic::div_mod::lemma_basic_div(f, 60);
                vstd::arithmetic::div_mod::lemma_small_mod(f as nat, 60nat);
                assert(d * (60 - f) == 60 * (u - g)) by {
                    vstd::arithmetic::mul::lemma_mul_is_distributive_sub(d, 60, f);
                }
                lemma_mixture_exact(d, 60 - f, g);
                lemma_mixture_exact(d, 60, mn);
            } else {
                assert(f == 60 && g == u);
                vstd::arithmetic::div_mod::lemma_fundamental_div_mod_converse(60, 60, 1, 0);
                assert(d * 0 == 60 * (u - u)) by {
                    vstd::arithmetic::mul::lemma_mul_by_zero_is_zero(d);
                }
                lemma_mixture_exact(d, 0, u);
                lemma_mixture_exact(d, 60, mn);
            }
        } else {
            assert(mn == g);
            assert(300 * d <= nn < 360 * d);
            assert(300 <= f0 < 360) by (nonlinear_arith)
                requires
                    nn == f0 * d,
                    300 * d <= nn < 360 * d,
                    d >= 1,
            ;
            assert(spec_rdiv(nn, d) == f0) by {
                lemma_rdiv_exact(f0, d);
            }
            vstd::arithmetic::div_mod::lemma_small_mod(f0 as nat, 360nat);
            let f = f0 - 300;
            vstd::arithmetic::div_mod::lemma_fundamental_div_mod_converse(f0, 60, 5, f);
            assert(d * f == 60 * (u - b)) by {
                vstd::arithmetic::mul::lemma_mul_is_distributive_sub_other_way(d, f0, 300);
                vstd::arithmetic::mul::lemma_mul_is_commutative(d, f);
            }
            lemma_mixture_exact(d, f, b);
            lemma_mixture_exact(d, 60, mn);
        }
    } else if c.g == UNIT {
        assert(nn == 120 * d + 60 * b - 60 * r);
        if b <= r {
            assert(mn == b);
            assert(60 * d <= nn <= 120 * d);
            assert(60 <= f0 <= 120) by (nonlinear_arith)
                requires
                    nn == f0 * d,
                    60 * d <= nn <= 120 * d,
                    d >= 1,
            ;
            assert(spec_rdiv(nn, d) == f0) by {
                lemma_rdiv_exact(f0, d);
            }
            vstd::arithmetic::div_mod::lemma_small_mod(f0 as nat, 360nat);
            if f0 < 120 {
                let f = f0 - 60;
                vstd::arithmetic::div_mod::lemma_fundamental_div_mod_converse(f0, 60, 1, f);
                assert(d * f == 60 * (u - r)) by {
                    vstd::arithmetic::mul::lemma_mul_is_distributive_sub_other_way(d, f0, 60);
                    vstd::arithmetic::mul::lemma_mul_is_commutative(d, f);
                }
                lemma_mixture_exact(d, f, r);
                lemma_mixture_exact(d, 60, mn);
            } else {
                assert(r == b);
                vstd::arithmetic::div_mod::lemma_fundamental_div_mod_converse(120, 60, 2, 0);
                assert(d * 60 == 60 * (u - mn)) by {
                    vstd::arithmetic::mul::lemma_mul_is_commutative(d, 60);
                }
                lemma_mixture_exact(d, 60, mn);
            }
        } else {
            assert(mn == r);
            assert(120 * d < nn <= 180 * d);
            assert(120 < f0 <= 180) by (nonlinear_arith)
                requires
                    nn == f0 * d,
                    120 * d < nn <= 180 * d,
                    d >= 1,
            ;
            assert(spec_rdiv(nn, d) == f0) by {
                lemma_rdiv_exact(f0, d);
            }
            vstd::arithmetic::div_mod::lemma_small_mod(f0 as nat, 360nat);
            if f0 < 180 {
                let f = f0 - 120;
                vstd::arithmetic::div_mod::lemma_fundamental_div_mod_converse(f0, 60, 2, f);
                assert(d * f == 60 * (b - r)) by {
                    vstd::arithmetic::mul::lemma_mul_is_distributive_sub_other_way(d, f0, 120);
                    vstd::arithmetic::mul::lemma_mul_is_commutative(d, f);
                }
                assert(d * (60 - f) == 60 * (u - b)) by {
                    vstd::arithmetic::mul::lemma_mul_is_distributive_sub(d, 60, f);
                }
                lemma_mixture_exact(d, 60 - f, b);
                lemma_mixture_exact(d, 60, mn);
            } else {
                assert(b == u);
                vstd::arithmetic::div_mod::lemma_fundamental_div_mod_converse(180, 60, 3, 0);
                assert(d * 0 == 60 * (u - u)) by {
                    vstd::arithmetic::mul::lemma_mul_by_zero_is_zero(d);
                }
                lemma_mixture_exact(d, 0, u);
                lemma_mixture_exact(d, 60, mn);
            }
        }
    } else {
        assert(c.b == UNIT);
        assert(nn == 240 * d + 60 * r - 60 * g);
        if r <= g {
            assert(mn == r);
            assert(180 * d <= nn <= 240 * d);
            assert(180 <= f0 <= 240) by (nonlinear_arith)
                requires
                    nn == f0 * d,
                    180 * d <= nn <= 240 * d,
                    d >= 1,
            ;
            assert(spec_rdiv(nn, d) == f0) by {
                lemma_rdiv_exact(f0, d);
            }
            vstd::arithmetic::div_mod::lemma_small_mod(f0 as nat, 360nat);
            if f0 < 240 {
                let f = f0 - 180;
                vstd::arithmetic::div_mod::lemma_fundamental_div_mod_converse(f0, 60, 3, f);
                assert(d * f == 60 * (u - g)) by {
                    vstd::arithmetic::mul::lemma_mul_is_distributive_sub_other_way(d, f0, 180);
                    vstd::arithmetic::mul::lemma_mul_is_commutative(d, f);
                }
                lemma_mixture_exact(d, f, g);
                lemma_mixture_exact(d, 60, mn);
            } else {
                assert(r == g);
                vstd::arithmetic::div_mod::lemma_fundamental_div_mod_converse(240, 60, 4, 0);
                assert(d * 60 == 60 * (u - mn)) by {
                    vstd::arithmetic::mul::lemma_mul_is_commutative(d, 60);
                }
                lemma_mixture_exact(d, 60, mn);
            }
        } else {
            assert(mn == g);
            assert(240 * d < nn < 300 * d);
            assert(240 < f0 < 300) by (nonlinear_arith)
                requires
                    nn == f0 * d,
                    240 * d < nn < 300 * d,
                    d >= 1,
            ;
            assert(spec_rdiv(nn, d) == f0) by {
                lemma_rdiv_exact(f0, d);
            }
            vstd::arithmetic::div_mod::lemma_small_mod(f0 as nat, 360nat);
            let f = f0 - 240;
            vstd::arithmetic::div_mod::lemma_fundamental_div_mod_converse(f0, 60, 4, f);
            assert(d * f == 60 * (r - g)) by {
                vstd::arithmetic::mul::lemma_mul_is_distributive_sub_other_way(d, f0, 240);
                vstd::arithmetic::mul::lemma_mul_is_commutative(d, f);
            }
            assert(d * (60 - f) == 60 * (u - r)) by {
                vstd::arithmetic::mul::lemma_mul_is_distributive_sub(d, 60, f);
            }
            lemma_mixture_exact(d, 60 - f, r);
            lemma_mixture_exact(d, 60, mn);
        }
    }
}

/// The largest of the three channels.
pub open spec fn spec_rgb_max(c: Rgb) -> u64 {
    if c.r >= c.g && c.r >= c.b {
        c.r
    } else if c.g >= c.b {
        c.g
    } else {
        c.b
    }
}

/// The smallest of the three channels.
pub open spec fn spec_rgb_min(c: Rgb) -> u64 {
    if c.r <= c.g && c.r <= c.b {
        c.r
    } else if c.g <= c.b {
        c.g
    } else {
        c.b
    }
}

/// The RGB to HSV conversion, as a function on the mathematical model.
///
/// Value is the largest channel; saturation is the spread of the channels
/// relative to it (zero for black); hue is computed from whichever channel is
/// largest, with ties resolved in the order red, green, blue, and reduced
/// modulo 360. An achromatic color (all channels equal) has hue zero. Alpha
/// passes through unchanged.
pub open spec fn spec_rgb_to_hsv(c: Rgb) -> Hsv {
    let r = c.r as int;
    let g = c.g as int;
    let b = c.b as int;
    let cmax = spec_rgb_max(c) as int;
    let cmin = spec_rgb_min(c) as int;
    let d = cmax - cmin;
    let h = if d == 0 {
        0int
    } else if cmax == r {
        spec_rdiv(360 * d + 60 * g - 60 * b, d) % 360
    } else if cmax == g {
        spec_rdiv(120 * d + 60 * b - 60 * r, d) % 360
    } else {
        spec_rdiv(240 * d + 60 * r - 60 * g, d) % 360
    };
    let s = if cmax == 0 {
        0int
    } else {
        spec_rdiv(d * (UNIT as int), cmax)
    };
    Hsv { h: h as u16, s: s as u64, v: cmax as u64, a: c.a }
}

/// Converts an RGB color to HSV. Alpha passes through unchanged.
pub fn rgb_to_hsv(c: Rgb) -> (h: Hsv)
    requires
        c.wf(),
    ensures
        h == spec_rgb_to_hsv(c),
        h.wf(),
{
    let cmax: u64 = if c.r >= c.g && c.r >= c.b {
        c.r
    } else if c.g >= c.b {
        c.g
    } else {
        c.b
    };
    let cmin: u64 = if c.r <= c.g && c.r <= c.b {
        c.r
    } else if c.g <= c.b {
        c.g
    } else {
        c.b
    };
    let d: u64 = cmax - cmin;
    let hdeg: u64 = if d == 0 {
        0
    } else if cmax == c.r {
        rdiv(360 * d + 60 * c.g - 60 * c.b, d) % 360
    } else if cmax == c.g {
        rdiv(120 * d + 60 * c.b - 60 * c.r, d) % 360
    } else {
        rdiv(240 * d + 60 * c.r - 60 * c.g, d) % 360
    };
    let s: u64 = if cmax == 0 {
        0
    } else {
        proof {
            assert(d * UNIT <= cmax * UNIT) by (nonlinear_arith)
                requires
                    d <= cmax,
            ;
            vstd::arithmetic::div_mod::lemma_div_is_ordered(
                (d * UNIT + cmax / 2) as int,
                (cmax * UNIT + cmax / 2) as int,
                cmax as int,
            );
            assert((cmax as int * UNIT as int + cmax as int / 2) / (cmax as int) == UNIT as int)
                by (nonlinear_arith)
                requires
                    cmax >= 1,
            ;
        }
        rdiv(d * UNIT, cmax)
    };
    Hsv { h: hdeg as u16, s, v: cmax, a: c.a }
}

/// Scales a unit-interval component to a byte by truncation.
pub open spec fn spec_to_byte(x: u64) -> u8 {
    ((x as int * 255) / (UNIT as int)) as u8
}

/// Scales a byte to a unit-interval component.
pub open spec fn spec_from_byte(x: u8) -> u64 {
    ((x as int * UNIT as int) / 255) as u64
}

/// `[0, UNIT] -> [0, 255]` by multiplication and truncation.
fn to_u8(x: u64) -> (r: u8)
    requires
        x <= UNIT,
    ensures
        r == spec_to_byte(x),
{
    proof {
        vstd::arithmetic::div_mod::lemma_div_is_ordered(
            (x * 255) as int,
            (UNIT * 255) as int,
            UNIT as int,
        );
    }
    ((x * 255) / UNIT) as u8
}

/// `[0, 255] -> [0, UNIT]` by multiplication and truncation.
fn from_u8(x: u8) -> (r: u64)
    ensures
        r == spec_from_byte(x),
        r <= UNIT,
{
    proof {
        vstd::arithmetic::div_mod::lemma_div_is_ordered(
            (x as u64 * UNIT) as int,
            (255 * UNIT) as int,
            255,
        );
    }
    (x as u64 * UNIT) / 255
}

impl Hsv {
    /// From red, green, blue and alpha bytes.
    pub fn from_rgba8(rgba: [u8; 4]) -> (c: Hsv)
        ensures
            c == spec_rgb_to_hsv(
                Rgb {
                    r: spec_from_byte(rgba[0]),
                    g: spec_from_byte(rgba[1]),
                    b: spec_from_byte(rgba[2]),
                    a: spec_from_byte(rgba[3]),
                },
            ),
            c.wf(),
    {
        rgb_to_hsv(
            Rgb { r: from_u8(rgba[0]), g: from_u8(rgba[1]), b: from_u8(rgba[2]), a: from_u8(rgba[3]) },
        )
    }

    /// From red, green and blue bytes; the result is fully opaque.
    pub fn from_rgb8(rgb: [u8; 3]) -> (c: Hsv)
        ensures
            c == spec_rgb_to_hsv(
                Rgb {
                    r: spec_from_byte(rgb[0]),
                    g: spec_from_byte(rgb[1]),
                    b: spec_from_byte(rgb[2]),
                    a: UNIT,
                },
            ),
            c.wf(),
    {
        rgb_to_hsv(Rgb { r: from_u8(rgb[0]), g: from_u8(rgb[1]), b: from_u8(rgb[2]), a: UNIT })
    }

    /// From unit-interval red, green, blue and alpha components.
    pub fn from_rgba(rgba: [u64; 4]) -> (c: Hsv)
        requires
            rgba[0] <= UNIT,
            rgba[1] <= UNIT,
            rgba[2] <= UNIT,
            rgba[3] <= UNIT,
        ensures
            c == spec_rgb_to_hsv(Rgb { r: rgba[0], g: rgba[1], b: rgba[2], a: rgba[3] }),
            c.wf(),
    {
        rgb_to_hsv(Rgb { r: rgba[0], g: rgba[1], b: rgba[2], a: rgba[3] })
    }

    /// From unit-interval red, green and blue components; fully opaque.
    pub fn from_rgb(rgb: [u64; 3]) -> (c: Hsv)
        requires
            rgb[0] <= UNIT,
            rgb[1] <= UNIT,
            rgb[2] <= UNIT,
        ensures
            c == spec_rgb_to_hsv(Rgb { r: rgb[0], g: rgb[1], b: rgb[2], a: UNIT }),
            c.wf(),
    {
        rgb_to_hsv(Rgb { r: rgb[0], g: rgb[1], b: rgb[2], a: UNIT })
    }

    /// To unit-interval red, green, blue and alpha components.
    pub fn to_rgba(self) -> (r: [u64; 4])
        requires
            self.wf(),
        ensures
            r == [
                spec_hsv_to_rgb(self).r,
                spec_hsv_to_rgb(self).g,
                spec_hsv_to_rgb(self).b,
                spec_hsv_to_rgb(self).a,
            ],
    {
        let c = hsv_to_rgb(self);
        [c.r, c.g, c.b, c.a]
    }

    /// To unit-interval red, green and blue components.
    pub fn to_rgb(self) -> (r: [u64; 3])
        requires
            self.wf(),
        ensures
            r == [spec_hsv_to_rgb(self).r, spec_hsv_to_rgb(self).g, spec_hsv_to_rgb(self).b],
    {
        let c = hsv_to_rgb(self);
        [c.r, c.g, c.b]
    }

    /// To red, green, blue and alpha bytes, truncating.
    pub fn to_rgba8(self) -> (r: [u8; 4])
        requires
            self.wf(),
        ensures
            r == [
                spec_to_byte(spec_hsv_to_rgb(self).r),
                spec_to_byte(spec_hsv_to_rgb(self).g),
                spec_to_byte(spec_hsv_to_rgb(self).b),
                spec_to_byte(spec_hsv_to_rgb(self).a),
            ],
    {
        let c = hsv_to_rgb(self);
        [to_u8(c.r), to_u8(c.g), to_u8(c.b), to_u8(c.a)]
    }

    /// To red, green and blue bytes, truncating.
    pub fn to_rgb8(self) -> (r: [u8; 3])
        requires
            self.wf(),
        ensures
            r == [
                spec_to_byte(spec_hsv_to_rgb(self).r),
                spec_to_byte(spec_hsv_to_rgb(self).g),
                spec_to_byte(spec_hsv_to_rgb(self).b),
            ],
    {
        let c = hsv_to_rgb(self);
        [to_u8(c.r), to_u8(c.g), to_u8(c.b)]
    }
}

/// The relative luminance of a color: the weighted channel sum
/// `0.2126 r + 0.7152 g + 0.0722 b`, at the fixed-point unit scale.
pub open spec fn spec_relative_luminance(c: Rgb) -> int {
    (2126 * c.r + 7152 * c.g + 722 * c.b) / 10000
}

/// Computes the relative luminance of a color, used for contrast decisions.
pub fn relative_luminance(c: Rgb) -> (l: u64)
    requires
        c.wf(),
    ensures
        l == spec_relative_luminance(c),
        l <= UNIT,
{
    proof {
        vstd::arithmetic::div_mod::lemma_div_is_ordered(
            (2126 * c.r + 7152 * c.g + 722 * c.b) as int,
            (10000 * UNIT) as int,
            10000,
        );
    }
    (2126 * c.r + 7152 * c.g + 722 * c.b) / 10000
}

} // verus!
