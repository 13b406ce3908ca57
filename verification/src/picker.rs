//! The picker controller: the bidirectional mapping between pointer
//! positions and colors, the marker, the cache-invalidation policy, and the
//! input state machine.

use vstd::prelude::*;

use crate::geom::{MAX_EXTENT, Point, Rectangle, Size, clamp_i64, spec_clamp, spec_clamp_point};
use crate::hsv::{Hsv, Rgb, UNIT, hsv_to_rgb, relative_luminance, spec_hsv_to_rgb,
    spec_relative_luminance};
use crate::spectrums::{CellFill, MAX_CANVAS, hue_horizontal, hue_vertical, saturation_value,
    spec_hue_horizontal_fills, spec_hue_vertical_fills, spec_sv_fills};
use crate::style::MarkerShape;

verus! {

/// Which one or two HSV components the surface sweeps across its axes.
///
/// The renderer, the position-to-color mapping and the color-to-position
/// mapping all follow the same axis contract: in `SaturationValue` mode the
/// x-axis carries saturation and the y-axis carries value, value increasing
/// upward; in the two hue modes the swept axis carries hue, increasing
/// left-to-right or top-to-bottom.
#[derive(Clone, Copy, Debug, PartialEq, Eq, Structural)]
pub enum Spectrum {
    SaturationValue,
    HueHorizontal,
    HueVertical,
}

/// The identity of the input currently holding the picker.
#[derive(Clone, Copy, Debug, PartialEq, Eq, Structural)]
pub enum Pressed {
    Primary,
    Secondary,
    Finger(u64),
}

/// The validity flag of a host-side render cache.
///
/// The rasterized geometry itself lives with the host renderer; the
/// controller only decides when it has become stale. A cleared cache forces
/// the next paint to rasterize anew.
#[derive(Clone, Copy, Debug, PartialEq, Eq, Structural)]
pub struct Cache {
    pub valid: bool,
}

impl Cache {
    /// A fresh cache, holding nothing yet.
    pub fn new() -> (c: Cache)
        ensures
            !c.valid,
    {
        Cache { valid: false }
    }

    /// Invalidates the cache: the next paint must rasterize anew.
    pub fn clear(&mut self)
        ensures
            !final(self).valid,
    {
        self.valid = false;
    }

    /// Records that the cache now holds freshly rasterized content.
    pub fn validate(&mut self)
        ensures
            final(self).valid,
    {
        self.valid = true;
    }

    /// Whether the cached content is still current.
    pub fn is_valid(&self) -> (r: bool)
        ensures
            r == self.valid,
    {
        self.valid
    }
}

/// The per-instance interaction state of the picker.
pub struct State {
    /// The input currently held, if any; at most one at a time.
    pub cursor_down: Option<Pressed>,
    /// The most recently observed external color.
    pub current_color: Hsv,
    /// Cache of the gradient layer.
    pub spectrum_cache: Cache,
    /// Cache of the marker layer.
    pub marker_cache: Cache,
}

impl State {
    /// The observed color stays well-formed.
    pub open spec fn wf(self) -> bool {
        self.current_color.wf()
    }
}

impl Default for State {
    /// No input held, the all-zero color observed, both caches empty.
    fn default() -> (s: State)
        ensures
            s.cursor_down is None,
            s.current_color == (Hsv { h: 0, s: 0, v: 0, a: 0 }),
            !s.spectrum_cache.valid,
            !s.marker_cache.valid,
            s.wf(),
    {
        State {
            cursor_down: None,
            current_color: Hsv { h: 0, s: 0, v: 0, a: 0 },
            spectrum_cache: Cache::new(),
            marker_cache: Cache::new(),
        }
    }
}

/// The fraction of the way `pos` lies along an axis that starts at `start`
/// and runs for `extent` pixels, clamped into the axis and scaled to the
/// fixed-point unit interval. A zero extent clamps to the start.
pub open spec fn spec_axis_frac(pos: int, start: int, extent: int) -> int {
    if extent <= 0 {
        0
    } else {
        spec_clamp(pos - start, 0, extent) * (UNIT as int) / extent
    }
}

/// Like [`spec_axis_frac`], but scaled to degrees and reduced modulo 360:
/// the far edge of the axis wraps to hue 0 rather than saturating at 359.
pub open spec fn spec_axis_hue(pos: int, start: int, extent: int) -> int {
    if extent <= 0 {
        0
    } else {
        (spec_clamp(pos - start, 0, extent) * 360 / extent) % 360
    }
}

/// Computes the clamped unit-interval fraction along one axis.
fn axis_frac(pos: i64, start: i64, extent: i64) -> (r: u64)
    requires
        0 <= extent <= MAX_EXTENT,
        -MAX_EXTENT <= start <= MAX_EXTENT,
    ensures
        r == spec_axis_frac(pos as int, start as int, extent as int),
        r <= UNIT,
{
    if extent == 0 {
        0
    } else {
        let c: i64 = clamp_i64(pos, start, start + extent);
        let off: u64 = (c - start) as u64;
        proof {
            assert(off * UNIT <= extent as u64 * UNIT) by (nonlinear_arith)
                requires
                    off <= extent as u64,
            ;
            assert(extent as int * UNIT as int / (extent as int) == UNIT as int)
                by (nonlinear_arith)
                requires
                    extent >= 1,
            ;
            vstd::arithmetic::div_mod::lemma_div_is_ordered(
                (off * UNIT) as int,
                (extent as u64 * UNIT) as int,
                extent as int,
            );
        }
        (off * UNIT) / (extent as u64)
    }
}

/// Computes the clamped hue in degrees along one axis; the far edge wraps
/// to 0.
fn axis_hue(pos: i64, start: i64, extent: i64) -> (r: u16)
    requires
        0 <= extent <= MAX_EXTENT,
        -MAX_EXTENT <= start <= MAX_EXTENT,
    ensures
        r == spec_axis_hue(pos as int, start as int, extent as int),
        r < 360,
{
    if extent == 0 {
        0
    } else {
        let c: i64 = clamp_i64(pos, start, start + extent);
        let off: u64 = (c - start) as u64;
        proof {
            assert(off * 360 <= extent as u64 * 360) by (nonlinear_arith)
                requires
                    off <= extent as u64,
            ;
        }
        (((off * 360) / (extent as u64)) % 360) as u16
    }
}

/// The inverse mapping, on the mathematical model: the color selected when
/// the pointer stands at `p` over `bounds`.
///
/// The position is clamped into the bounds before the fractions are taken.
/// In `SaturationValue` mode the fractions become saturation and value
/// (value inverted, since it grows upward) while hue and alpha carry over
/// from `cur`; in the hue modes the swept fraction becomes the hue, wrapping
/// to 0 at the far edge, while the other components carry over.
pub open spec fn spec_position_to_color(
    spectrum: Spectrum,
    cur: Hsv,
    bounds: Rectangle,
    p: Point,
) -> Hsv {
    match spectrum {
        Spectrum::SaturationValue => Hsv {
            h: cur.h,
            s: spec_axis_frac(p.x as int, bounds.x as int, bounds.width as int) as u64,
            v: (UNIT as int - spec_axis_frac(p.y as int, bounds.y as int, bounds.height as int))
                as u64,
            a: cur.a,
        },
        Spectrum::HueHorizontal => Hsv {
            h: spec_axis_hue(p.x as int, bounds.x as int, bounds.width as int) as u16,
            s: cur.s,
            v: cur.v,
            a: cur.a,
        },
        Spectrum::HueVertical => Hsv {
            h: spec_axis_hue(p.y as int, bounds.y as int, bounds.height as int) as u16,
            s: cur.s,
            v: cur.v,
            a: cur.a,
        },
    }
}

/// Maps a pointer position over `bounds` to the selected color.
pub fn position_to_color(spectrum: Spectrum, cur: Hsv, bounds: Rectangle, p: Point) -> (c: Hsv)
    requires
        cur.wf(),
        bounds.wf(),
    ensures
        c == spec_position_to_color(spectrum, cur, bounds, p),
        c.wf(),
{
    match spectrum {
        Spectrum::SaturationValue => {
            let sat: u64 = axis_frac(p.x, bounds.x, bounds.width);
            let val: u64 = UNIT - axis_frac(p.y, bounds.y, bounds.height);
            Hsv { h: cur.h, s: sat, v: val, a: cur.a }
        },
        Spectrum::HueHorizontal => {
            let hue: u16 = axis_hue(p.x, bounds.x, bounds.width);
            Hsv { h: hue, s: cur.s, v: cur.v, a: cur.a }
        },
        Spectrum::HueVertical => {
            let hue: u16 = axis_hue(p.y, bounds.y, bounds.height);
            Hsv { h: hue, s: cur.s, v: cur.v, a: cur.a }
        },
    }
}

/// The forward mapping, on the mathematical model: where the marker for a
/// color stands on a surface of the given extent. The exact algebraic
/// inverse of [`spec_position_to_color`], solved for the position; in the
/// hue modes the unswept axis centers the marker.
pub open spec fn spec_color_to_marker_position(spectrum: Spectrum, c: Hsv, size: Size) -> Point {
    match spectrum {
        Spectrum::SaturationValue => Point {
            x: (c.s as int * size.width as int / (UNIT as int)) as i64,
            y: ((UNIT as int - c.v as int) * size.height as int / (UNIT as int)) as i64,
        },
        Spectrum::HueVertical => Point {
            x: (size.width as int / 2) as i64,
            y: (c.h as int * size.height as int / 360) as i64,
        },
        Spectrum::HueHorizontal => Point {
            x: (c.h as int * size.width as int / 360) as i64,
            y: (size.height as int / 2) as i64,
        },
    }
}

/// `n * m / d` with the quotient shown to stay within `m`, for unit-style
/// fractions `n <= d`.
fn scale_frac(n: u64, m: i64, d: u64) -> (r: i64)
    requires
        1 <= d,
        n <= d,
        0 <= m <= MAX_EXTENT,
        d <= UNIT,
    ensures
        r == n as int * m as int / (d as int),
        0 <= r <= m,
{
    proof {
        assert(n * (m as u64) <= d * (m as u64)) by (nonlinear_arith)
            requires
                n <= d,
        ;
        assert(d * (m as u64) <= UNIT * (MAX_EXTENT as u64)) by (nonlinear_arith)
            requires
                d <= UNIT,
                0 <= m <= MAX_EXTENT,
        ;
        assert(d as int * m as int / (d as int) == m as int) by (nonlinear_arith)
            requires
                d >= 1,
                m >= 0,
        ;
        vstd::arithmetic::div_mod::lemma_div_is_ordered(
            (n * (m as u64)) as int,
            (d * (m as u64)) as int,
            d as int,
        );
    }
    ((n * (m as u64)) / d) as i64
}

/// Maps a color to its marker position on a surface of the given extent.
pub fn color_to_marker_position(spectrum: Spectrum, c: Hsv, size: Size) -> (p: Point)
    requires
        c.wf(),
        size.wf(),
    ensures
        p == spec_color_to_marker_position(spectrum, c, size),
        0 <= p.x <= size.width,
        0 <= p.y <= size.height,
{
    match spectrum {
        Spectrum::SaturationValue => Point {
            x: scale_frac(c.s, size.width, UNIT),
            y: scale_frac(UNIT - c.v, size.height, UNIT),
        },
        Spectrum::HueVertical => Point {
            x: size.width / 2,
            y: scale_frac(c.h as u64, size.height, 360),
        },
        Spectrum::HueHorizontal => Point {
            x: scale_frac(c.h as u64, size.width, 360),
            y: size.height / 2,
        },
    }
}

/// The fill color of the marker, on the mathematical model: the selected
/// color itself on the saturation/value plane, the fully saturated and
/// fully bright hue on the hue strips (so the marker stays visible whatever
/// saturation and value were chosen elsewhere).
pub open spec fn spec_marker_fill(spectrum: Spectrum, c: Hsv) -> Rgb {
    match spectrum {
        Spectrum::SaturationValue => spec_hsv_to_rgb(c),
        Spectrum::HueHorizontal | Spectrum::HueVertical => spec_hsv_to_rgb(
            Hsv { h: c.h, s: UNIT, v: UNIT, a: UNIT },
        ),
    }
}

/// The outline color of the marker: black over a light fill, white over a
/// dark one, so the marker reads against either.
pub open spec fn spec_marker_outline(fill: Rgb) -> Rgb {
    if spec_relative_luminance(fill) > UNIT as int / 2 {
        Rgb { r: 0, g: 0, b: 0, a: UNIT }
    } else {
        Rgb { r: UNIT, g: UNIT, b: UNIT, a: UNIT }
    }
}

/// Computes the marker's fill and outline colors for the selected color.
pub fn marker_color_and_outline(spectrum: Spectrum, c: Hsv) -> (r: (Rgb, Rgb))
    requires
        c.wf(),
    ensures
        r.0 == spec_marker_fill(spectrum, c),
        r.1 == spec_marker_outline(r.0),
        r.0.wf(),
        r.1.wf(),
{
    let fill: Rgb = match spectrum {
        Spectrum::SaturationValue => hsv_to_rgb(c),
        Spectrum::HueHorizontal | Spectrum::HueVertical => hsv_to_rgb(
            Hsv { h: c.h, s: UNIT, v: UNIT, a: UNIT },
        ),
    };
    let outline: Rgb = if relative_luminance(fill) > UNIT / 2 {
        Rgb { r: 0, g: 0, b: 0, a: UNIT }
    } else {
        Rgb { r: UNIT, g: UNIT, b: UNIT, a: UNIT }
    };
    (fill, outline)
}

/// The visual marker: where it stands and how it is colored.
#[derive(Clone, Copy, Debug, PartialEq, Eq, Structural)]
pub struct Marker {
    pub position: Point,
    pub color: Rgb,
    pub outline: Rgb,
}

/// Builds the marker for the selected color on a surface of extent `bounds`.
pub fn marker(spectrum: Spectrum, current_color: Hsv, bounds: Size) -> (m: Marker)
    requires
        current_color.wf(),
        bounds.wf(),
    ensures
        m.position == spec_color_to_marker_position(spectrum, current_color, bounds),
        m.color == spec_marker_fill(spectrum, current_color),
        m.outline == spec_marker_outline(m.color),
        0 <= m.position.x <= bounds.width,
        0 <= m.position.y <= bounds.height,
        m.color.wf(),
        m.outline.wf(),
{
    let position = color_to_marker_position(spectrum, current_color, bounds);
    let (color, outline) = marker_color_and_outline(spectrum, current_color);
    Marker { position, color, outline }
}

/// Clamping: the color selected at any pointer position equals the color
/// selected at that position clamped into the bounds. A pointer that leaves
/// the surface during a drag therefore behaves as if it stood on the nearest
/// edge.
pub proof fn lemma_position_to_color_clamps(
    spectrum: Spectrum,
    cur: Hsv,
    bounds: Rectangle,
    p: Point,
)
    requires
        bounds.wf(),
    ensures
        spec_position_to_color(spectrum, cur, bounds, p) == spec_position_to_color(
            spectrum,
            cur,
            bounds,
            spec_clamp_point(bounds, p),
        ),
{
}

/// Scaling a fraction of `w` to `scale` and back loses less than one pixel
/// per `scale` step: for `0 <= a <= w`, the value `(a * scale / w) * w /
/// scale` stays in `[0, a]` and falls short of `a` by less than
/// `(w + scale) / scale`.
proof fn lemma_frac_roundtrip(a: int, w: int, scale: int)
    requires
        0 <= a <= w,
        1 <= w,
        1 <= scale,
    ensures
        0 <= (a * scale / w) * w / scale <= a,
        scale * (a - (a * scale / w) * w / scale) < w + scale,
{
    let s = a * scale / w;
    let x = s * w / scale;
    let r1 = (a * scale) % w;
    let r2 = (s * w) % scale;
    vstd::arithmetic::mul::lemma_mul_nonnegative(a, scale);
    vstd::arithmetic::div_mod::lemma_fundamental_div_mod(a * scale, w);
    vstd::arithmetic::div_mod::lemma_mod_division_less_than_divisor(a * scale, w);
    vstd::arithmetic::div_mod::lemma_div_pos_is_pos(a * scale, w);
    vstd::arithmetic::mul::lemma_mul_nonnegative(s, w);
    vstd::arithmetic::div_mod::lemma_fundamental_div_mod(s * w, scale);
    vstd::arithmetic::div_mod::lemma_mod_division_less_than_divisor(s * w, scale);
    vstd::arithmetic::div_mod::lemma_div_pos_is_pos(s * w, scale);
    assert(scale * (a - x) == r1 + r2) by {
        vstd::arithmetic::mul::lemma_mul_is_distributive_sub(scale, a, x);
        vstd::arithmetic::mul::lemma_mul_is_commutative(a, scale);
        vstd::arithmetic::mul::lemma_mul_is_commutative(s, w);
    }
    assert(a - x >= 0) by (nonlinear_arith)
        requires
            scale * (a - x) == r1 + r2,
            r1 >= 0,
            r2 >= 0,
            scale >= 1,
    ;
}

/// The marker position reached after mapping a position to a color and the
/// color back to a position.
pub open spec fn spec_inverse_position(
    spectrum: Spectrum,
    cur: Hsv,
    bounds: Rectangle,
    size: Size,
    p: Point,
) -> Point {
    spec_color_to_marker_position(
        spectrum,
        spec_position_to_color(spectrum, cur, bounds, p),
        size,
    )
}

/// Inverse consistency: for a position strictly inside the bounds, mapping
/// it to a color and the color back to a marker position on a surface of
/// the bounds' extent returns to the position, short by less than one
/// fixed-point quantization step on each swept axis (in a hue mode the
/// unswept axis centers the marker instead).
pub proof fn lemma_marker_position_inverse(
    spectrum: Spectrum,
    cur: Hsv,
    bounds: Rectangle,
    size: Size,
    p: Point,
)
    requires
        size.width == bounds.width,
        size.height == bounds.height,
        bounds.x < p.x < bounds.x + bounds.width,
        bounds.y < p.y < bounds.y + bounds.height,
    ensures
        spectrum is SaturationValue ==> {
            let q = spec_inverse_position(spectrum, cur, bounds, size, p);
            &&& 0 <= p.x - bounds.x - q.x
            &&& (UNIT as int) * (p.x - bounds.x - q.x) < bounds.width + UNIT
            &&& 0 <= p.y - bounds.y - q.y
            &&& (UNIT as int) * (p.y - bounds.y - q.y) < bounds.height + UNIT
        },
        spectrum is HueHorizontal ==> {
            let q = spec_inverse_position(spectrum, cur, bounds, size, p);
            &&& 0 <= p.x - bounds.x - q.x
            &&& 360 * (p.x - bounds.x - q.x) < bounds.width + 360
            &&& q.y == size.height as int / 2
        },
        spectrum is HueVertical ==> {
            let q = spec_inverse_position(spectrum, cur, bounds, size, p);
            &&& 0 <= p.y - bounds.y - q.y
            &&& 360 * (p.y - bounds.y - q.y) < bounds.height + 360
            &&& q.x == size.width as int / 2
        },
{
    let w = bounds.width as int;
    let h = bounds.height as int;
    let u = UNIT as int;
    let ax = p.x - bounds.x;
    let ay = p.y - bounds.y;
    match spectrum {
        Spectrum::SaturationValue => {
            assert(0 <= ax * u / w <= u) by {
                vstd::arithmetic::div_mod::lemma_div_pos_is_pos(ax * u, w);
                vstd::arithmetic::mul::lemma_mul_inequality(ax, w, u);
                vstd::arithmetic::div_mod::lemma_div_is_ordered(ax * u, w * u, w);
                vstd::arithmetic::mul::lemma_mul_is_commutative(w, u);
                vstd::arithmetic::div_mod::lemma_div_multiples_vanish(u, w);
            }
            assert(0 <= ay * u / h <= u) by {
                vstd::arithmetic::div_mod::lemma_div_pos_is_pos(ay * u, h);
                vstd::arithmetic::mul::lemma_mul_inequality(ay, h, u);
                vstd::arithmetic::div_mod::lemma_div_is_ordered(ay * u, h * u, h);
                vstd::arithmetic::mul::lemma_mul_is_commutative(h, u);
                vstd::arithmetic::div_mod::lemma_div_multiples_vanish(u, h);
            }
            lemma_frac_roundtrip(ax, w, u);
            lemma_frac_roundtrip(ay, h, u);
        },
        Spectrum::HueHorizontal => {
            assert(0 <= ax * 360 / w < 360) by {
                vstd::arithmetic::div_mod::lemma_div_pos_is_pos(ax * 360, w);
                assert(ax * 360 / w < 360) by (nonlinear_arith)
                    requires
                        0 <= ax < w,
                        w >= 1,
                ;
            }
            vstd::arithmetic::div_mod::lemma_small_mod((ax * 360 / w) as nat, 360nat);
            lemma_frac_roundtrip(ax, w, 360);
        },
        Spectrum::HueVertical => {
            assert(0 <= ay * 360 / h < 360) by {
                vstd::arithmetic::div_mod::lemma_div_pos_is_pos(ay * 360, h);
                assert(ay * 360 / h < 360) by (nonlinear_arith)
                    requires
                        0 <= ay < h,
                        h >= 1,
                ;
            }
            vstd::arithmetic::div_mod::lemma_small_mod((ay * 360 / h) as nat, 360nat);
            lemma_frac_roundtrip(ay, h, 360);
        },
    }
}

/// Whether observing `new` after `cur` requests a redraw: any change of a
/// swept or fixed component on the saturation/value plane; only a hue change
/// on the hue strips.
pub open spec fn spec_observe_redraw(spectrum: Spectrum, cur: Hsv, new: Hsv) -> bool {
    match spectrum {
        Spectrum::SaturationValue => cur.h != new.h || cur.s != new.s || cur.v != new.v,
        Spectrum::HueHorizontal | Spectrum::HueVertical => cur.h != new.h,
    }
}

/// Whether observing `new` invalidates the gradient cache: only a hue change
/// on the saturation/value plane, whose gradient is tinted by the hue. The
/// hue strips' gradient depends on no observed component.
pub open spec fn spec_observe_clears_gradient(spectrum: Spectrum, cur: Hsv, new: Hsv) -> bool {
    spectrum is SaturationValue && cur.h != new.h
}

/// Whether observing `new` invalidates the marker cache: any change the
/// active mode displays.
pub open spec fn spec_observe_clears_marker(spectrum: Spectrum, cur: Hsv, new: Hsv) -> bool {
    match spectrum {
        Spectrum::SaturationValue => cur.h != new.h || cur.s != new.s || cur.v != new.v,
        Spectrum::HueHorizontal | Spectrum::HueVertical => cur.h != new.h,
    }
}

impl State {
    /// Diffs an externally supplied color against the remembered one,
    /// invalidates whichever caches went stale, remembers the new color, and
    /// reports whether a redraw is needed.
    pub fn observe(&mut self, spectrum: Spectrum, new_color: Hsv) -> (redraw: bool)
        ensures
            redraw == spec_observe_redraw(spectrum, old(self).current_color, new_color),
            final(self).current_color == new_color,
            final(self).cursor_down == old(self).cursor_down,
            final(self).spectrum_cache.valid == (old(self).spectrum_cache.valid
                && !spec_observe_clears_gradient(spectrum, old(self).current_color, new_color)),
            final(self).marker_cache.valid == (old(self).marker_cache.valid
                && !spec_observe_clears_marker(spectrum, old(self).current_color, new_color)),
    {
        let mut redraw: bool = false;
        self.current_color.a = new_color.a;
        match spectrum {
            Spectrum::SaturationValue => {
                if new_color.h != self.current_color.h {
                    self.current_color.h = new_color.h;
                    self.spectrum_cache.clear();
                    self.marker_cache.clear();
                    redraw = true;
                }
                if new_color.s != self.current_color.s || new_color.v != self.current_color.v {
                    self.current_color.s = new_color.s;
                    self.current_color.v = new_color.v;
                    self.marker_cache.clear();
                    redraw = true;
                }
            },
            Spectrum::HueVertical | Spectrum::HueHorizontal => {
                if new_color.h != self.current_color.h {
                    self.current_color.h = new_color.h;
                    self.marker_cache.clear();
                    redraw = true;
                }
                if new_color.s != self.current_color.s || new_color.v != self.current_color.v {
                    self.current_color.s = new_color.s;
                    self.current_color.v = new_color.v;
                }
            },
        }
        redraw
    }
}

/// Idempotence: observing a color leaves it as the remembered color, so
/// observing the same color again requests no redraw and invalidates
/// neither cache.
pub proof fn lemma_observe_idempotent(spectrum: Spectrum, new: Hsv)
    ensures
        !spec_observe_redraw(spectrum, new, new),
        !spec_observe_clears_gradient(spectrum, new, new),
        !spec_observe_clears_marker(spectrum, new, new),
{
}

/// Mode isolation: on a hue strip, a change that keeps the hue — however it
/// moves saturation or value — requests no redraw and invalidates neither
/// cache.
pub proof fn lemma_hue_mode_isolation(spectrum: Spectrum, cur: Hsv, new: Hsv)
    requires
        spectrum is HueHorizontal || spectrum is HueVertical,
        new.h == cur.h,
    ensures
        !spec_observe_redraw(spectrum, cur, new),
        !spec_observe_clears_gradient(spectrum, cur, new),
        !spec_observe_clears_marker(spectrum, cur, new),
{
}

/// A mouse button, as the host reports it.
#[derive(Clone, Copy, Debug, PartialEq, Eq, Structural)]
pub enum Button {
    Left,
    Right,
    Other(u16),
}

/// A low-level pointer event, in the coordinate space of the bounds.
///
/// Mouse events carry no position of their own: the host's current cursor
/// position accompanies them separately. Touch events name the finger and
/// where it stands.
#[derive(Clone, Copy, Debug, PartialEq, Eq, Structural)]
pub enum Event {
    ButtonPressed(Button),
    ButtonReleased(Button),
    CursorMoved,
    FingerPressed { id: u64, position: Point },
    FingerMoved { id: u64, position: Point },
    FingerLifted { id: u64 },
    FingerLost { id: u64 },
}

/// A color-changed notification for the embedding application: the selected
/// color, and whether it answers the alternate (secondary-button) action
/// rather than the principal one.
#[derive(Clone, Copy, Debug, PartialEq, Eq, Structural)]
pub struct Emit {
    pub color: Hsv,
    pub alternate: bool,
}

/// Whether the mouse cursor is known and stands inside the bounds.
pub open spec fn spec_in_bounds(bounds: Rectangle, cursor: Option<Point>) -> bool {
    match cursor {
        Some(p) => bounds.spec_contains(p),
        None => false,
    }
}

/// The next held-input state after an event.
///
/// A press is honored only when nothing is held and it lands inside the
/// bounds (a secondary press also needs the alternate action to be
/// configured); a release leaves the held state only when its identity
/// matches the held one, so a stray release of a never-pressed finger
/// changes nothing. A finger the host loses track of releases nothing:
/// recovery waits for an explicit matching release.
pub open spec fn spec_step(
    down: Option<Pressed>,
    has_alt: bool,
    bounds: Rectangle,
    cursor: Option<Point>,
    event: Event,
) -> Option<Pressed> {
    match event {
        Event::ButtonPressed(Button::Left) => if down is None && spec_in_bounds(bounds, cursor) {
            Some(Pressed::Primary)
        } else {
            down
        },
        Event::ButtonPressed(Button::Right) => if down is None && spec_in_bounds(bounds, cursor)
            && has_alt {
            Some(Pressed::Secondary)
        } else {
            down
        },
        Event::ButtonReleased(Button::Left) => if down == Some(Pressed::Primary) {
            None
        } else {
            down
        },
        Event::ButtonReleased(Button::Right) => if down == Some(Pressed::Secondary) {
            None
        } else {
            down
        },
        Event::FingerPressed { id, position } => if down is None && bounds.spec_contains(
            position,
        ) {
            Some(Pressed::Finger(id))
        } else {
            down
        },
        Event::FingerLifted { id } => if down == Some(Pressed::Finger(id)) {
            None
        } else {
            down
        },
        _ => down,
    }
}

/// The notification an event emits, given the state before the event.
///
/// An honored press emits at the press position; every move while held
/// emits at the new position, unclamped here and clamped by the mapping, so
/// a drag may reach edge values; releases emit nothing. Held secondary
/// moves emit only while the alternate action is configured; touch always
/// answers the principal action.
pub open spec fn spec_emission(
    down: Option<Pressed>,
    has_alt: bool,
    spectrum: Spectrum,
    color: Hsv,
    bounds: Rectangle,
    cursor: Option<Point>,
    event: Event,
) -> Option<Emit> {
    match event {
        Event::ButtonPressed(Button::Left) => if down is None && spec_in_bounds(bounds, cursor) {
            Some(
                Emit {
                    color: spec_position_to_color(spectrum, color, bounds, cursor->Some_0),
                    alternate: false,
                },
            )
        } else {
            None
        },
        Event::ButtonPressed(Button::Right) => if down is None && spec_in_bounds(bounds, cursor)
            && has_alt {
            Some(
                Emit {
                    color: spec_position_to_color(spectrum, color, bounds, cursor->Some_0),
                    alternate: true,
                },
            )
        } else {
            None
        },
        Event::CursorMoved => match (cursor, down) {
            (Some(p), Some(Pressed::Primary)) => Some(
                Emit { color: spec_position_to_color(spectrum, color, bounds, p), alternate: false },
            ),
            (Some(p), Some(Pressed::Secondary)) => if has_alt {
                Some(
                    Emit {
                        color: spec_position_to_color(spectrum, color, bounds, p),
                        alternate: true,
                    },
                )
            } else {
                None
            },
            _ => None,
        },
        Event::FingerPressed { id, position } => if down is None && bounds.spec_contains(
            position,
        ) {
            Some(
                Emit {
                    color: spec_position_to_color(spectrum, color, bounds, position),
                    alternate: false,
                },
            )
        } else {
            None
        },
        Event::FingerMoved { id, position } => if down == Some(Pressed::Finger(id)) {
            Some(
                Emit {
                    color: spec_position_to_color(spectrum, color, bounds, position),
                    alternate: false,
                },
            )
        } else {
            None
        },
        _ => None,
    }
}

impl State {
    /// Dispatches one pointer event: decides the next held-input state and
    /// what notification, if any, to emit. The observed color and the caches
    /// are untouched.
    pub fn handle_event(
        &mut self,
        spectrum: Spectrum,
        has_alt: bool,
        bounds: Rectangle,
        cursor: Option<Point>,
        event: Event,
    ) -> (emit: Option<Emit>)
        requires
            old(self).wf(),
            bounds.wf(),
        ensures
            final(self).cursor_down == spec_step(
                old(self).cursor_down,
                has_alt,
                bounds,
                cursor,
                event,
            ),
            emit == spec_emission(
                old(self).cursor_down,
                has_alt,
                spectrum,
                old(self).current_color,
                bounds,
                cursor,
                event,
            ),
            final(self).current_color == old(self).current_color,
            final(self).spectrum_cache == old(self).spectrum_cache,
            final(self).marker_cache == old(self).marker_cache,
            final(self).wf(),
            emit matches Some(e) ==> e.color.wf(),
    {
        match event {
            Event::ButtonPressed(Button::Left) => {
                if self.cursor_down.is_none() {
                    if let Some(p) = cursor {
                        if bounds.contains(p) {
                            self.cursor_down = Some(Pressed::Primary);
                            let c = position_to_color(spectrum, self.current_color, bounds, p);
                            return Some(Emit { color: c, alternate: false });
                        }
                    }
                }
                None
            },
            Event::ButtonPressed(Button::Right) => {
                if self.cursor_down.is_none() && has_alt {
                    if let Some(p) = cursor {
                        if bounds.contains(p) {
                            self.cursor_down = Some(Pressed::Secondary);
                            let c = position_to_color(spectrum, self.current_color, bounds, p);
                            return Some(Emit { color: c, alternate: true });
                        }
                    }
                }
                None
            },
            Event::ButtonReleased(Button::Left) => {
                if let Some(Pressed::Primary) = self.cursor_down {
                    self.cursor_down = None;
                }
                None
            },
            Event::ButtonReleased(Button::Right) => {
                if let Some(Pressed::Secondary) = self.cursor_down {
                    self.cursor_down = None;
                }
                None
            },
            Event::CursorMoved => {
                if let Some(p) = cursor {
                    match self.cursor_down {
                        Some(Pressed::Primary) => {
                            let c = position_to_color(spectrum, self.current_color, bounds, p);
                            return Some(Emit { color: c, alternate: false });
                        },
                        Some(Pressed::Secondary) => {
                            if has_alt {
                                let c = position_to_color(
                                    spectrum,
                                    self.current_color,
                                    bounds,
                                    p,
                                );
                                return Some(Emit { color: c, alternate: true });
                            }
                        },
                        _ => {},
                    }
                }
                None
            },
            Event::FingerPressed { id, position } => {
                if self.cursor_down.is_none() && bounds.contains(position) {
                    self.cursor_down = Some(Pressed::Finger(id));
                    let c = position_to_color(spectrum, self.current_color, bounds, position);
                    return Some(Emit { color: c, alternate: false });
                }
                None
            },
            Event::FingerMoved { id, position } => {
                if let Some(Pressed::Finger(fid)) = self.cursor_down {
                    if fid == id {
                        let c = position_to_color(
                            spectrum,
                            self.current_color,
                            bounds,
                            position,
                        );
                        return Some(Emit { color: c, alternate: false });
                    }
                }
                None
            },
            Event::FingerLifted { id } => {
                if let Some(Pressed::Finger(fid)) = self.cursor_down {
                    if fid == id {
                        self.cursor_down = None;
                    }
                }
                None
            },
            Event::FingerLost { .. } => None,
            _ => None,
        }
    }
}

/// What one full update cycle decided: whether to request a redraw, and
/// what notification to emit.
#[derive(Clone, Copy, Debug, PartialEq, Eq, Structural)]
pub struct UpdateOutcome {
    pub redraw: bool,
    pub emit: Option<Emit>,
}

impl State {
    /// One full update cycle: observes the externally supplied color (cache
    /// diffing first, so an emitted color builds on the fresh observation),
    /// then dispatches the pointer event.
    pub fn update(
        &mut self,
        spectrum: Spectrum,
        has_alt: bool,
        bounds: Rectangle,
        cursor: Option<Point>,
        event: Event,
        new_color: Hsv,
    ) -> (o: UpdateOutcome)
        requires
            old(self).wf(),
            new_color.wf(),
            bounds.wf(),
        ensures
            o.redraw == spec_observe_redraw(spectrum, old(self).current_color, new_color),
            final(self).current_color == new_color,
            final(self).spectrum_cache.valid == (old(self).spectrum_cache.valid
                && !spec_observe_clears_gradient(spectrum, old(self).current_color, new_color)),
            final(self).marker_cache.valid == (old(self).marker_cache.valid
                && !spec_observe_clears_marker(spectrum, old(self).current_color, new_color)),
            final(self).cursor_down == spec_step(
                old(self).cursor_down,
                has_alt,
                bounds,
                cursor,
                event,
            ),
            o.emit == spec_emission(
                old(self).cursor_down,
                has_alt,
                spectrum,
                new_color,
                bounds,
                cursor,
                event,
            ),
            final(self).wf(),
            o.emit matches Some(e) ==> e.color.wf(),
    {
        let redraw = self.observe(spectrum, new_color);
        let emit = self.handle_event(spectrum, has_alt, bounds, cursor, event);
        UpdateOutcome { redraw, emit }
    }
}

/// One primitive fill the marker is drawn with.
#[derive(Clone, Copy, Debug, PartialEq, Eq, Structural)]
pub enum DrawCommand {
    Rect { x: i64, y: i64, width: i64, height: i64, color: Rgb },
    Circle { cx: i64, cy: i64, radius: i64, color: Rgb },
}

/// The primitives that draw a marker, bottom to top: the outline shape
/// first, grown by the border width, then the fill shape over it. Negative
/// dimensions count as zero.
pub open spec fn spec_marker_commands(m: Marker, shape: MarkerShape) -> Seq<DrawCommand> {
    match shape {
        MarkerShape::Square { size, border_width } => {
            let s = if size < 0 { 0 } else { size as int };
            let b = if border_width < 0 { 0 } else { border_width as int };
            seq![
                DrawCommand::Rect {
                    x: (m.position.x - s / 2 - b) as i64,
                    y: (m.position.y - s / 2 - b) as i64,
                    width: (s + 2 * b) as i64,
                    height: (s + 2 * b) as i64,
                    color: m.outline,
                },
                DrawCommand::Rect {
                    x: (m.position.x - s / 2) as i64,
                    y: (m.position.y - s / 2) as i64,
                    width: s as i64,
                    height: s as i64,
                    color: m.color,
                },
            ]
        },
        MarkerShape::Circle { radius, border_width } => {
            let r = if radius < 0 { 0 } else { radius as int };
            let b = if border_width < 0 { 0 } else { border_width as int };
            seq![
                DrawCommand::Circle {
                    cx: m.position.x,
                    cy: m.position.y,
                    radius: (r + b) as i64,
                    color: m.outline,
                },
                DrawCommand::Circle {
                    cx: m.position.x,
                    cy: m.position.y,
                    radius: r as i64,
                    color: m.color,
                },
            ]
        },
    }
}

impl Marker {
    /// Lays the marker out as draw primitives, clamping negative dimensions
    /// to zero so no drawing primitive ever sees a negative extent.
    pub fn draw(&self, shape: MarkerShape) -> (cmds: Vec<DrawCommand>)
        requires
            shape.wf(),
            -MAX_EXTENT <= self.position.x <= MAX_EXTENT,
            -MAX_EXTENT <= self.position.y <= MAX_EXTENT,
        ensures
            cmds@ == spec_marker_commands(*self, shape),
    {
        let mut cmds: Vec<DrawCommand> = Vec::new();
        match shape {
            MarkerShape::Square { size, border_width } => {
                let s: i64 = if size < 0 {
                    0
                } else {
                    size
                };
                let b: i64 = if border_width < 0 {
                    0
                } else {
                    border_width
                };
                cmds.push(
                    DrawCommand::Rect {
                        x: self.position.x - s / 2 - b,
                        y: self.position.y - s / 2 - b,
                        width: s + 2 * b,
                        height: s + 2 * b,
                        color: self.outline,
                    },
                );
                cmds.push(
                    DrawCommand::Rect {
                        x: self.position.x - s / 2,
                        y: self.position.y - s / 2,
                        width: s,
                        height: s,
                        color: self.color,
                    },
                );
            },
            MarkerShape::Circle { radius, border_width } => {
                let r: i64 = if radius < 0 {
                    0
                } else {
                    radius
                };
                let b: i64 = if border_width < 0 {
                    0
                } else {
                    border_width
                };
                cmds.push(
                    DrawCommand::Circle {
                        cx: self.position.x,
                        cy: self.position.y,
                        radius: r + b,
                        color: self.outline,
                    },
                );
                cmds.push(
                    DrawCommand::Circle {
                        cx: self.position.x,
                        cy: self.position.y,
                        radius: r,
                        color: self.color,
                    },
                );
            },
        }
        proof {
            assert(cmds@ =~= spec_marker_commands(*self, shape));
        }
        cmds
    }
}

/// The marker for a color on a surface of the given extent, on the
/// mathematical model.
pub open spec fn spec_marker(spectrum: Spectrum, c: Hsv, size: Size) -> Marker {
    Marker {
        position: spec_color_to_marker_position(spectrum, c, size),
        color: spec_marker_fill(spectrum, c),
        outline: spec_marker_outline(spec_marker_fill(spectrum, c)),
    }
}

/// The gradient layer's content for the active mode, on the mathematical
/// model: the saturation/value plane tinted by the observed hue, or a hue
/// strip at full saturation and value.
pub open spec fn spec_gradient_fills(spectrum: Spectrum, size: Size, color: Hsv) -> Seq<
    CellFill,
> {
    match spectrum {
        Spectrum::SaturationValue => spec_sv_fills(size, color.h),
        Spectrum::HueVertical => spec_hue_vertical_fills(size, UNIT, UNIT),
        Spectrum::HueHorizontal => spec_hue_horizontal_fills(size, UNIT, UNIT),
    }
}

/// What one paint pass must rasterize: the content of whichever layers had
/// a stale cache, `None` for a layer whose cached geometry is still good.
#[derive(Debug)]
pub struct PaintPlan {
    pub spectrum_fills: Option<Vec<CellFill>>,
    pub marker_commands: Option<Vec<DrawCommand>>,
}

impl State {
    /// One paint pass: regenerates the content of each stale layer — the
    /// gradient from the renderer for the active mode, the marker from the
    /// forward mapping — marks both caches fresh, and leaves a still-valid
    /// layer alone so the host can reuse its cached geometry.
    pub fn paint(&mut self, spectrum: Spectrum, size: Size, shape: MarkerShape) -> (plan:
        PaintPlan)
        requires
            old(self).wf(),
            size.wf(),
            size.width <= MAX_CANVAS,
            size.height <= MAX_CANVAS,
            shape.wf(),
        ensures
            final(self).spectrum_cache.valid,
            final(self).marker_cache.valid,
            final(self).current_color == old(self).current_color,
            final(self).cursor_down == old(self).cursor_down,
            (plan.spectrum_fills is Some) == !old(self).spectrum_cache.valid,
            (plan.marker_commands is Some) == !old(self).marker_cache.valid,
            plan.spectrum_fills matches Some(f) ==> f@ == spec_gradient_fills(
                spectrum,
                size,
                old(self).current_color,
            ),
            plan.marker_commands matches Some(cmds) ==> cmds@ == spec_marker_commands(
                spec_marker(spectrum, old(self).current_color, size),
                shape,
            ),
    {
        let spectrum_fills: Option<Vec<CellFill>> = if !self.spectrum_cache.is_valid() {
            let fills = match spectrum {
                Spectrum::SaturationValue => saturation_value(size, self.current_color.h),
                Spectrum::HueVertical => hue_vertical(size, UNIT, UNIT),
                Spectrum::HueHorizontal => hue_horizontal(size, UNIT, UNIT),
            };
            self.spectrum_cache.validate();
            Some(fills)
        } else {
            None
        };
        let marker_commands: Option<Vec<DrawCommand>> = if !self.marker_cache.is_valid() {
            let m = marker(spectrum, self.current_color, size);
            self.marker_cache.validate();
            Some(m.draw(shape))
        } else {
            None
        };
        PaintPlan { spectrum_fills, marker_commands }
    }
}

} // verus!
