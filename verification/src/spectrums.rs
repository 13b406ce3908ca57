//! The spectrum renderers: pure functions that lay a gradient out as a list
//! of filled cells for a surface of a given pixel extent.
//!
//! A renderer depends only on the extent and the fixed color components —
//! never on pointer or marker state — which is what makes its output
//! cacheable. The host replays the cells onto its drawing surface.

use vstd::prelude::*;

use crate::geom::Size;
use crate::hsv::{Hsv, Rgb, UNIT, hsv_to_rgb, spec_clamp_unit, spec_hsv_to_rgb};

verus! {

/// Side of the square cells the saturation/value plane is coarsened to, in
/// pixels. Finer than one pixel would be wasted work, much coarser is
/// visibly blocky.
pub const QUANTIZATION: i64 = 2;

/// Largest surface extent the renderers accept, in pixels.
pub const MAX_CANVAS: i64 = 16_384;

/// One axis-aligned rectangle of a gradient, filled with a single color.
#[derive(Clone, Copy, Debug, PartialEq, Eq, Structural)]
pub struct CellFill {
    pub x: i64,
    pub y: i64,
    pub width: i64,
    pub height: i64,
    pub color: Rgb,
}

/// `n / d` of the unit interval, at the fixed-point scale.
fn unit_frac(n: u64, d: u64) -> (r: u64)
    requires
        1 <= d,
        n <= d,
        d <= MAX_CANVAS as u64,
    ensures
        r == n as int * UNIT as int / (d as int),
        r <= UNIT,
{
    proof {
        assert(n * UNIT <= d * UNIT) by (nonlinear_arith)
            requires
                n <= d,
        ;
        assert(d as int * UNIT as int / (d as int) == UNIT as int) by (nonlinear_arith)
            requires
                d >= 1,
        ;
        vstd::arithmetic::div_mod::lemma_div_is_ordered(
            (n * UNIT) as int,
            (d * UNIT) as int,
            d as int,
        );
    }
    (n * UNIT) / d
}

/// `n / d` of a turn, in whole degrees; below 360 for `n < d`.
fn deg_frac(n: u64, d: u64) -> (r: u16)
    requires
        1 <= d,
        n < d,
        d <= MAX_CANVAS as u64,
    ensures
        r == n as int * 360 / (d as int),
        r < 360,
{
    proof {
        assert(n * 360 < d * 360) by (nonlinear_arith)
            requires
                n < d,
        ;
        assert(n as int * 360 / (d as int) < 360) by (nonlinear_arith)
            requires
                1 <= d,
                n as int * 360 < d as int * 360,
        ;
    }
    ((n * 360) / d) as u16
}

/// The color of the saturation/value cell in column `c`, row `r`: saturation
/// grows left to right, value grows bottom to top, the hue is fixed.
pub open spec fn spec_sv_color(size: Size, hue: u16, c: int, r: int) -> Rgb {
    spec_hsv_to_rgb(
        Hsv {
            h: hue,
            s: ((QUANTIZATION as int) * c * UNIT as int / (size.width as int)) as u64,
            v: (UNIT as int - (QUANTIZATION as int) * r * UNIT as int / (size.height as int)) as u64,
            a: UNIT,
        },
    )
}

/// The saturation/value cell in column `c`, row `r` of the coarsened grid.
pub open spec fn spec_sv_cell(size: Size, hue: u16, c: int, r: int) -> CellFill {
    CellFill {
        x: ((QUANTIZATION as int) * c) as i64,
        y: ((QUANTIZATION as int) * r) as i64,
        width: QUANTIZATION,
        height: QUANTIZATION,
        color: spec_sv_color(size, hue, c, r),
    }
}

/// The whole saturation/value gradient, cells in column-major order.
pub open spec fn spec_sv_fills(size: Size, hue: u16) -> Seq<CellFill> {
    let cols = size.width as int / (QUANTIZATION as int);
    let rows = size.height as int / (QUANTIZATION as int);
    Seq::new((cols * rows) as nat, |k: int| spec_sv_cell(size, hue, k / rows, k % rows))
}

/// Renders the saturation/value plane for a fixed hue: a coarsened grid of
/// square cells, saturation swept along x, value swept along y (inverted, so
/// value grows upward).
pub fn saturation_value(size: Size, hue: u16) -> (cells: Vec<CellFill>)
    requires
        size.wf(),
        size.width <= MAX_CANVAS,
        size.height <= MAX_CANVAS,
        hue < 360,
    ensures
        cells@ == spec_sv_fills(size, hue),
{
    let cols: u64 = (size.width / QUANTIZATION) as u64;
    let rows: u64 = (size.height / QUANTIZATION) as u64;
    let mut cells: Vec<CellFill> = Vec::new();
    proof {
        vstd::arithmetic::mul::lemma_mul_nonnegative(cols as int, rows as int);
    }
    let mut c: u64 = 0;
    while c < cols
        invariant
            size.wf(),
            size.width <= MAX_CANVAS,
            size.height <= MAX_CANVAS,
            hue < 360,
            cols == size.width as int / (QUANTIZATION as int),
            rows == size.height as int / (QUANTIZATION as int),
            c <= cols,
            cells@.len() == c * rows,
            forall|k: int|
                0 <= k < cells@.len() ==> cells@[k] == spec_sv_cell(
                    size,
                    hue,
                    k / rows as int,
                    k % rows as int,
                ),
        decreases cols - c,
    {
        let mut r: u64 = 0;
        while r < rows
            invariant
                size.wf(),
                size.width <= MAX_CANVAS,
                size.height <= MAX_CANVAS,
                hue < 360,
                cols == size.width as int / (QUANTIZATION as int),
                rows == size.height as int / (QUANTIZATION as int),
                c < cols,
                r <= rows,
                cells@.len() == c * rows + r,
                forall|k: int|
                    0 <= k < cells@.len() ==> cells@[k] == spec_sv_cell(
                        size,
                        hue,
                        k / rows as int,
                        k % rows as int,
                    ),
            decreases rows - r,
        {
            proof {
                assert(2 * c + 2 <= size.width && 2 * r + 2 <= size.height)
                    by (nonlinear_arith)
                    requires
                        c < cols,
                        r < rows,
                        cols == size.width as int / 2,
                        rows == size.height as int / 2,
                        size.width >= 0,
                        size.height >= 0,
                ;
            }
            let sat: u64 = unit_frac(2 * c, size.width as u64);
            let val: u64 = UNIT - unit_frac(2 * r, size.height as u64);
            let color: Rgb = hsv_to_rgb(Hsv { h: hue, s: sat, v: val, a: UNIT });
            let ghost prior_len = cells@.len() as int;
            cells.push(
                CellFill {
                    x: (2 * c) as i64,
                    y: (2 * r) as i64,
                    width: QUANTIZATION,
                    height: QUANTIZATION,
                    color,
                },
            );
            proof {
                vstd::arithmetic::div_mod::lemma_fundamental_div_mod_converse(
                    prior_len,
                    rows as int,
                    c as int,
                    r as int,
                );
                assert(cells@[prior_len] == spec_sv_cell(size, hue, c as int, r as int));
            }
            r = r + 1;
        }
        proof {
            vstd::arithmetic::mul::lemma_mul_is_distributive_add_other_way(
                rows as int,
                c as int,
                1,
            );
        }
        c = c + 1;
    }
    proof {
        assert(cells@ =~= spec_sv_fills(size, hue));
    }
    cells
}

/// The strip of the vertical hue gradient at row `r`: the full width, one
/// pixel tall, hue growing top to bottom.
pub open spec fn spec_hue_vertical_cell(size: Size, s: u64, v: u64, r: int) -> CellFill {
    CellFill {
        x: 0,
        y: r as i64,
        width: size.width,
        height: 1,
        color: spec_hsv_to_rgb(
            Hsv {
                h: (r * 360 / (size.height as int)) as u16,
                s: spec_clamp_unit(s),
                v: spec_clamp_unit(v),
                a: UNIT,
            },
        ),
    }
}

/// The whole vertical hue gradient, one strip per row.
pub open spec fn spec_hue_vertical_fills(size: Size, s: u64, v: u64) -> Seq<CellFill> {
    Seq::new(size.height as nat, |r: int| spec_hue_vertical_cell(size, s, v, r))
}

/// Renders the vertical hue gradient: every hue once, top to bottom, at the
/// given fixed saturation and value.
pub fn hue_vertical(size: Size, saturation: u64, value: u64) -> (cells: Vec<CellFill>)
    requires
        size.wf(),
        size.width <= MAX_CANVAS,
        size.height <= MAX_CANVAS,
    ensures
        cells@ == spec_hue_vertical_fills(size, saturation, value),
{
    let rows: u64 = size.height as u64;
    let mut cells: Vec<CellFill> = Vec::new();
    let mut r: u64 = 0;
    while r < rows
        invariant
            size.wf(),
            size.width <= MAX_CANVAS,
            size.height <= MAX_CANVAS,
            rows == size.height,
            r <= rows,
            cells@.len() == r,
            forall|k: int|
                0 <= k < cells@.len() ==> cells@[k] == spec_hue_vertical_cell(
                    size,
                    saturation,
                    value,
                    k,
                ),
        decreases rows - r,
    {
        let hue: u16 = deg_frac(r, rows);
        let color: Rgb = hsv_to_rgb(crate::hsv::hsva(hue, saturation, value, UNIT));
        cells.push(CellFill { x: 0, y: r as i64, width: size.width, height: 1, color });
        r = r + 1;
    }
    proof {
        assert(cells@ =~= spec_hue_vertical_fills(size, saturation, value));
    }
    cells
}

/// The strip of the horizontal hue gradient at column `c`: one pixel wide,
/// the full height, hue growing left to right.
pub open spec fn spec_hue_horizontal_cell(size: Size, s: u64, v: u64, c: int) -> CellFill {
    CellFill {
        x: c as i64,
        y: 0,
        width: 1,
        height: size.height,
        color: spec_hsv_to_rgb(
            Hsv {
                h: (c * 360 / (size.width as int)) as u16,
                s: spec_clamp_unit(s),
                v: spec_clamp_unit(v),
                a: UNIT,
            },
        ),
    }
}

/// The whole horizontal hue gradient, one strip per column.
pub open spec fn spec_hue_horizontal_fills(size: Size, s: u64, v: u64) -> Seq<CellFill> {
    Seq::new(size.width as nat, |c: int| spec_hue_horizontal_cell(size, s, v, c))
}

/// Renders the horizontal hue gradient: every hue once, left to right, at
/// the given fixed saturation and value.
pub fn hue_horizontal(size: Size, saturation: u64, value: u64) -> (cells: Vec<CellFill>)
    requires
        size.wf(),
        size.width <= MAX_CANVAS,
        size.height <= MAX_CANVAS,
    ensures
        cells@ == spec_hue_horizontal_fills(size, saturation, value),
{
    let cols: u64 = size.width as u64;
    let mut cells: Vec<CellFill> = Vec::new();
    let mut c: u64 = 0;
    while c < cols
        invariant
            size.wf(),
            size.width <= MAX_CANVAS,
            size.height <= MAX_CANVAS,
            cols == size.width,
            c <= cols,
            cells@.len() == c,
            forall|k: int|
                0 <= k < cells@.len() ==> cells@[k] == spec_hue_horizontal_cell(
                    size,
                    saturation,
                    value,
                    k,
                ),
        decreases cols - c,
    {
        let hue: u16 = deg_frac(c, cols);
        let color: Rgb = hsv_to_rgb(crate::hsv::hsva(hue, saturation, value, UNIT));
        cells.push(CellFill { x: c as i64, y: 0, width: 1, height: size.height, color });
        c = c + 1;
    }
    proof {
        assert(cells@ =~= spec_hue_horizontal_fills(size, saturation, value));
    }
    cells
}

} // verus!
