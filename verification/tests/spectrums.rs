use color_picker::geom::Size;
use color_picker::hsv::{Rgb, UNIT, hsv, hsv_to_rgb};
use color_picker::spectrums::{CellFill, hue_horizontal, hue_vertical, saturation_value};

#[test]
fn horizontal_strip_sweeps_every_column() {
    let cells = hue_horizontal(Size { width: 4, height: 2 }, UNIT, UNIT);
    assert_eq!(cells.len(), 4);
    let hues: [u16; 4] = [0, 90, 180, 270];
    for (c, cell) in cells.iter().enumerate() {
        assert_eq!(
            *cell,
            CellFill {
                x: c as i64,
                y: 0,
                width: 1,
                height: 2,
                color: hsv_to_rgb(hsv(hues[c], UNIT, UNIT)),
            }
        );
    }
}

#[test]
fn vertical_strip_sweeps_every_row() {
    let cells = hue_vertical(Size { width: 2, height: 4 }, UNIT, UNIT);
    assert_eq!(cells.len(), 4);
    for (r, cell) in cells.iter().enumerate() {
        assert_eq!(cell.x, 0);
        assert_eq!(cell.y, r as i64);
        assert_eq!(cell.width, 2);
        assert_eq!(cell.height, 1);
        assert_eq!(cell.color, hsv_to_rgb(hsv((r as u16) * 90, UNIT, UNIT)));
    }
}

#[test]
fn strips_use_the_fixed_saturation_and_value() {
    let cells = hue_vertical(Size { width: 1, height: 2 }, 500_000, 250_000);
    assert_eq!(cells[0].color, hsv_to_rgb(hsv(0, 500_000, 250_000)));
    assert_eq!(cells[1].color, hsv_to_rgb(hsv(180, 500_000, 250_000)));
}

#[test]
fn plane_quantizes_in_two_pixel_cells() {
    let cells = saturation_value(Size { width: 4, height: 4 }, 0);
    assert_eq!(cells.len(), 4);
    // column-major: both rows of the left column first
    assert_eq!(
        cells[0],
        CellFill {
            x: 0,
            y: 0,
            width: 2,
            height: 2,
            color: Rgb { r: UNIT, g: UNIT, b: UNIT, a: UNIT },
        }
    );
    assert_eq!(cells[1].x, 0);
    assert_eq!(cells[1].y, 2);
    assert_eq!(cells[1].color, hsv_to_rgb(hsv(0, 0, 500_000)));
    assert_eq!(cells[2].x, 2);
    assert_eq!(cells[2].y, 0);
    assert_eq!(cells[2].color, hsv_to_rgb(hsv(0, 500_000, UNIT)));
    assert_eq!(cells[3].color, hsv_to_rgb(hsv(0, 500_000, 500_000)));
}

#[test]
fn plane_tint_follows_the_hue() {
    let cells = saturation_value(Size { width: 4, height: 2 }, 120);
    // the right column is half saturated green at full value
    assert_eq!(cells[1].color, hsv_to_rgb(hsv(120, 500_000, UNIT)));
}

#[test]
fn empty_surfaces_render_nothing() {
    assert_eq!(saturation_value(Size { width: 0, height: 0 }, 0).len(), 0);
    assert_eq!(hue_vertical(Size { width: 5, height: 0 }, UNIT, UNIT).len(), 0);
    assert_eq!(hue_horizontal(Size { width: 0, height: 5 }, UNIT, UNIT).len(), 0);
    // a one-pixel-tall plane has no full cell to fill
    assert_eq!(saturation_value(Size { width: 4, height: 1 }, 0).len(), 0);
}
