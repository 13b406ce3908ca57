use color_picker::hsv::{Hsv, Rgb, UNIT, hsv, hsva, hsv_to_rgb, relative_luminance, rgb_to_hsv};

#[test]
fn constructor_reduces_hue_and_clamps_components() {
    let c = hsva(400, 2_000_000, 500_000, 3);
    assert_eq!(c, Hsv { h: 40, s: UNIT, v: 500_000, a: 3 });
    let c = hsv(360, 1, 2);
    assert_eq!(c, Hsv { h: 0, s: 1, v: 2, a: UNIT });
}

#[test]
fn primaries_to_rgb() {
    assert_eq!(hsv_to_rgb(hsv(0, UNIT, UNIT)), Rgb { r: UNIT, g: 0, b: 0, a: UNIT });
    assert_eq!(hsv_to_rgb(hsv(120, UNIT, UNIT)), Rgb { r: 0, g: UNIT, b: 0, a: UNIT });
    assert_eq!(hsv_to_rgb(hsv(240, UNIT, UNIT)), Rgb { r: 0, g: 0, b: UNIT, a: UNIT });
    assert_eq!(hsv_to_rgb(hsv(60, UNIT, UNIT)), Rgb { r: UNIT, g: UNIT, b: 0, a: UNIT });
    assert_eq!(hsv_to_rgb(hsv(180, UNIT, UNIT)), Rgb { r: 0, g: UNIT, b: UNIT, a: UNIT });
    assert_eq!(hsv_to_rgb(hsv(300, UNIT, UNIT)), Rgb { r: UNIT, g: 0, b: UNIT, a: UNIT });
}

#[test]
fn mid_sector_to_rgb() {
    // hue 90: halfway through the second sector, so the red channel is the
    // half mixture
    assert_eq!(hsv_to_rgb(hsv(90, UNIT, UNIT)), Rgb { r: 500_000, g: UNIT, b: 0, a: UNIT });
}

#[test]
fn gray_has_equal_channels() {
    let c = hsv_to_rgb(hsv(0, 0, 700_000));
    assert_eq!(c, Rgb { r: 700_000, g: 700_000, b: 700_000, a: UNIT });
}

#[test]
fn alpha_passes_through_both_ways() {
    let rgb = hsv_to_rgb(hsva(200, 300_000, 400_000, 123));
    assert_eq!(rgb.a, 123);
    let hsv_back = rgb_to_hsv(Rgb { r: 0, g: 10, b: 20, a: 77 });
    assert_eq!(hsv_back.a, 77);
}

#[test]
fn rgb_to_hsv_exact_values() {
    assert_eq!(
        rgb_to_hsv(Rgb { r: UNIT, g: 0, b: 0, a: UNIT }),
        Hsv { h: 0, s: UNIT, v: UNIT, a: UNIT }
    );
    // an achromatic input has hue 0 and saturation 0
    assert_eq!(
        rgb_to_hsv(Rgb { r: 500_000, g: 500_000, b: 500_000, a: UNIT }),
        Hsv { h: 0, s: 0, v: 500_000, a: UNIT }
    );
    // black reports saturation 0 through its own branch
    assert_eq!(rgb_to_hsv(Rgb { r: 0, g: 0, b: 0, a: 0 }), Hsv { h: 0, s: 0, v: 0, a: 0 });
    // blue-dominant input lands in the second half of the circle
    assert_eq!(
        rgb_to_hsv(Rgb { r: 0, g: 0, b: UNIT, a: UNIT }),
        Hsv { h: 240, s: UNIT, v: UNIT, a: UNIT }
    );
}

#[test]
fn round_trip_hsv_rgb_hsv() {
    // fully bright colors come back exactly from the RGB side
    let samples: [Hsv; 6] = [
        hsv(0, UNIT, UNIT),
        hsv(37, 800_000, UNIT),
        hsv(90, 61, UNIT),
        hsv(180, 123_456, UNIT),
        hsv(275, 999_999, UNIT),
        hsv(359, 500_000, UNIT),
    ];
    for c in samples {
        assert_eq!(rgb_to_hsv(hsv_to_rgb(c)), c);
    }
}

#[test]
fn round_trip_rgb_hsv_rgb() {
    // fully bright colors on the whole-degree hue grid come back exactly
    // from the HSV side, whichever channel dominates
    let samples: [Rgb; 6] = [
        Rgb { r: UNIT, g: 500_000, b: 0, a: UNIT },
        Rgb { r: UNIT, g: 750_000, b: 500_000, a: 42 },
        Rgb { r: UNIT, g: 0, b: 250_000, a: UNIT },
        Rgb { r: 0, g: UNIT, b: 500_000, a: UNIT },
        Rgb { r: 250_000, g: 0, b: UNIT, a: UNIT },
        Rgb { r: 0, g: 750_000, b: UNIT, a: 7 },
    ];
    for c in samples {
        assert_eq!(hsv_to_rgb(rgb_to_hsv(c)), c);
    }
}

#[test]
fn round_trip_gray() {
    // a gray comes back with hue 0 and saturation 0, value and alpha intact
    let c = hsva(123, 0, 700_000, 300_000);
    assert_eq!(rgb_to_hsv(hsv_to_rgb(c)), Hsv { h: 0, s: 0, v: 700_000, a: 300_000 });
}

#[test]
fn bytes_in_and_out() {
    assert_eq!(Hsv::from_rgb8([255, 0, 0]), Hsv { h: 0, s: UNIT, v: UNIT, a: UNIT });
    assert_eq!(Hsv::from_rgb8([255, 128, 0]), Hsv { h: 30, s: UNIT, v: UNIT, a: UNIT });
    let c = Hsv::from_rgba8([0, 0, 255, 51]);
    assert_eq!(c, Hsv { h: 240, s: UNIT, v: UNIT, a: 200_000 });
    assert_eq!(hsv(0, UNIT, UNIT).to_rgba8(), [255, 0, 0, 255]);
    assert_eq!(hsv(120, UNIT, UNIT).to_rgb8(), [0, 255, 0]);
}

#[test]
fn byte_scaling_truncates() {
    // a channel a hair under full scale truncates down, it does not round up
    let c = hsva(0, UNIT, 999_999, UNIT);
    assert_eq!(c.to_rgb8(), [254, 0, 0]);
}

#[test]
fn component_arrays_in_and_out() {
    assert_eq!(hsv(0, UNIT, UNIT).to_rgba(), [UNIT, 0, 0, UNIT]);
    assert_eq!(hsv(240, UNIT, UNIT).to_rgb(), [0, 0, UNIT]);
    assert_eq!(
        Hsv::from_rgba([UNIT, 0, 0, 300_000]),
        Hsv { h: 0, s: UNIT, v: UNIT, a: 300_000 }
    );
    assert_eq!(Hsv::from_rgb([0, UNIT, 0]), Hsv { h: 120, s: UNIT, v: UNIT, a: UNIT });
}

#[test]
fn luminance_weights_the_channels() {
    assert_eq!(relative_luminance(Rgb { r: UNIT, g: UNIT, b: UNIT, a: UNIT }), UNIT);
    assert_eq!(relative_luminance(Rgb { r: 0, g: 0, b: 0, a: UNIT }), 0);
    // green carries most of the weight
    assert_eq!(relative_luminance(Rgb { r: 0, g: UNIT, b: 0, a: UNIT }), 715_200);
    assert_eq!(relative_luminance(Rgb { r: UNIT, g: 0, b: 0, a: UNIT }), 212_600);
}

#[test]
fn default_color_is_transparent_black() {
    assert_eq!(Hsv::default(), Hsv { h: 0, s: 0, v: 0, a: 0 });
}
