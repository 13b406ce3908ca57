use color_picker::geom::{Point, Rectangle, Size};
use color_picker::hsv::{Hsv, Rgb, UNIT, hsv, hsva, hsv_to_rgb};
use color_picker::picker::{
    Button, DrawCommand, Event, Marker, Pressed, Spectrum, State, color_to_marker_position,
    marker, marker_color_and_outline, position_to_color,
};
use color_picker::style::MarkerShape;

fn bounds_100() -> Rectangle {
    Rectangle { x: 0, y: 0, width: 100, height: 100 }
}

#[test]
fn saturation_value_pick() {
    // bounds (0,0)-(100,100), press at (25,75): a quarter saturation, a
    // quarter value
    let cur = hsva(180, 0, UNIT, UNIT);
    let picked = position_to_color(
        Spectrum::SaturationValue,
        cur,
        bounds_100(),
        Point { x: 25, y: 75 },
    );
    assert_eq!(picked, Hsv { h: 180, s: 250_000, v: 250_000, a: UNIT });
}

#[test]
fn saturation_value_pick_through_update() {
    let mut state = State::default();
    let cur = hsva(180, 0, UNIT, UNIT);
    let outcome = state.update(
        Spectrum::SaturationValue,
        false,
        bounds_100(),
        Some(Point { x: 25, y: 75 }),
        Event::ButtonPressed(Button::Left),
        cur,
    );
    let emit = outcome.emit.expect("a press inside the bounds selects a color");
    assert_eq!(emit.color, Hsv { h: 180, s: 250_000, v: 250_000, a: UNIT });
    assert!(!emit.alternate);
    assert_eq!(state.cursor_down, Some(Pressed::Primary));
}

#[test]
fn hue_drag_with_wrap_at_far_edge() {
    // bounds (0,0)-(360,10), horizontal hue strip: a press at x = 180 picks
    // hue 180; a drag to the far edge reaches the full turn, which wraps to
    // hue 0 (the hue is kept reduced modulo 360, so the edge does not
    // saturate at 359)
    let bounds = Rectangle { x: 0, y: 0, width: 360, height: 10 };
    let mut state = State::default();
    let cur = hsva(0, UNIT, UNIT, UNIT);
    let press = state.update(
        Spectrum::HueHorizontal,
        false,
        bounds,
        Some(Point { x: 180, y: 5 }),
        Event::ButtonPressed(Button::Left),
        cur,
    );
    assert_eq!(press.emit.unwrap().color.h, 180);
    let moved = state.update(
        Spectrum::HueHorizontal,
        false,
        bounds,
        Some(Point { x: 360, y: 5 }),
        Event::CursorMoved,
        cur,
    );
    assert_eq!(moved.emit.unwrap().color.h, 0);
    // one pixel short of the edge stays just below the full turn
    let near = position_to_color(
        Spectrum::HueHorizontal,
        cur,
        bounds,
        Point { x: 359, y: 5 },
    );
    assert_eq!(near.h, 359);
}

#[test]
fn hue_vertical_sweeps_y() {
    let bounds = Rectangle { x: 0, y: 0, width: 10, height: 360 };
    let cur = hsva(0, 700_000, 800_000, UNIT);
    let c = position_to_color(Spectrum::HueVertical, cur, bounds, Point { x: 3, y: 90 });
    assert_eq!(c, Hsv { h: 90, s: 700_000, v: 800_000, a: UNIT });
}

#[test]
fn positions_outside_bounds_clamp() {
    let cur = hsva(40, 0, 0, UNIT);
    let far = position_to_color(
        Spectrum::SaturationValue,
        cur,
        bounds_100(),
        Point { x: -50, y: 500 },
    );
    let edge = position_to_color(
        Spectrum::SaturationValue,
        cur,
        bounds_100(),
        Point { x: 0, y: 100 },
    );
    assert_eq!(far, edge);
    assert_eq!(far, Hsv { h: 40, s: 0, v: 0, a: UNIT });
}

#[test]
fn zero_extent_bounds_clamp_to_start() {
    let degenerate = Rectangle { x: 10, y: 10, width: 0, height: 0 };
    let cur = hsva(120, 300_000, 300_000, UNIT);
    let c = position_to_color(
        Spectrum::SaturationValue,
        cur,
        degenerate,
        Point { x: 999, y: 999 },
    );
    // the start of each axis: zero saturation, full value
    assert_eq!(c, Hsv { h: 120, s: 0, v: UNIT, a: UNIT });
}

#[test]
fn observe_idempotent() {
    let mut state = State::default();
    let color = hsva(200, 400_000, 600_000, UNIT);
    let first = state.observe(Spectrum::SaturationValue, color);
    assert!(first);
    // rasterize so both caches are fresh, then observe the same color again
    state.paint(
        Spectrum::SaturationValue,
        Size { width: 10, height: 10 },
        MarkerShape::Square { size: 8, border_width: 2 },
    );
    let second = state.observe(Spectrum::SaturationValue, color);
    assert!(!second);
    assert!(state.spectrum_cache.is_valid());
    assert!(state.marker_cache.is_valid());
}

#[test]
fn hue_mode_ignores_saturation_and_value_changes() {
    let mut state = State::default();
    let color = hsva(200, 400_000, 600_000, UNIT);
    state.observe(Spectrum::HueHorizontal, color);
    state.paint(
        Spectrum::HueHorizontal,
        Size { width: 10, height: 10 },
        MarkerShape::Square { size: 8, border_width: 2 },
    );
    let shifted = hsva(200, 100_000, 100_000, UNIT);
    let redraw = state.observe(Spectrum::HueHorizontal, shifted);
    assert!(!redraw);
    assert!(state.spectrum_cache.is_valid());
    assert!(state.marker_cache.is_valid());
    // the change is still remembered
    assert_eq!(state.current_color.s, 100_000);
    assert_eq!(state.current_color.v, 100_000);
}

#[test]
fn hue_mode_hue_change_invalidates_marker_only() {
    let mut state = State::default();
    state.observe(Spectrum::HueVertical, hsva(10, UNIT, UNIT, UNIT));
    state.paint(
        Spectrum::HueVertical,
        Size { width: 10, height: 10 },
        MarkerShape::Square { size: 8, border_width: 2 },
    );
    let redraw = state.observe(Spectrum::HueVertical, hsva(20, UNIT, UNIT, UNIT));
    assert!(redraw);
    assert!(state.spectrum_cache.is_valid());
    assert!(!state.marker_cache.is_valid());
}

#[test]
fn saturation_value_mode_invalidation() {
    let mut state = State::default();
    state.observe(Spectrum::SaturationValue, hsva(10, 0, 0, UNIT));
    state.paint(
        Spectrum::SaturationValue,
        Size { width: 10, height: 10 },
        MarkerShape::Square { size: 8, border_width: 2 },
    );
    // a saturation/value change leaves the hue-tinted gradient alone
    let redraw = state.observe(Spectrum::SaturationValue, hsva(10, 500_000, 0, UNIT));
    assert!(redraw);
    assert!(state.spectrum_cache.is_valid());
    assert!(!state.marker_cache.is_valid());
    state.paint(
        Spectrum::SaturationValue,
        Size { width: 10, height: 10 },
        MarkerShape::Square { size: 8, border_width: 2 },
    );
    // a hue change invalidates both layers
    let redraw = state.observe(Spectrum::SaturationValue, hsva(11, 500_000, 0, UNIT));
    assert!(redraw);
    assert!(!state.spectrum_cache.is_valid());
    assert!(!state.marker_cache.is_valid());
}

#[test]
fn stuck_state_recovery() {
    // press finger 1 inside; a release of a finger that was never pressed
    // is ignored; the matching release frees the picker
    let mut state = State::default();
    let cur = hsva(0, UNIT, UNIT, UNIT);
    let press = state.update(
        Spectrum::SaturationValue,
        false,
        bounds_100(),
        None,
        Event::FingerPressed { id: 1, position: Point { x: 50, y: 50 } },
        cur,
    );
    assert!(press.emit.is_some());
    assert_eq!(state.cursor_down, Some(Pressed::Finger(1)));
    let stray = state.update(
        Spectrum::SaturationValue,
        false,
        bounds_100(),
        None,
        Event::FingerLifted { id: 2 },
        cur,
    );
    assert!(stray.emit.is_none());
    assert_eq!(state.cursor_down, Some(Pressed::Finger(1)));
    let matching = state.update(
        Spectrum::SaturationValue,
        false,
        bounds_100(),
        None,
        Event::FingerLifted { id: 1 },
        cur,
    );
    assert!(matching.emit.is_none());
    assert_eq!(state.cursor_down, None);
    let next = state.update(
        Spectrum::SaturationValue,
        false,
        bounds_100(),
        None,
        Event::FingerPressed { id: 2, position: Point { x: 10, y: 10 } },
        cur,
    );
    assert!(next.emit.is_some());
    assert_eq!(state.cursor_down, Some(Pressed::Finger(2)));
}

#[test]
fn concurrent_input_rejected() {
    // while the primary button holds the picker, a secondary press is
    // ignored even with an alternate action configured
    let mut state = State::default();
    let cur = hsva(0, UNIT, UNIT, UNIT);
    state.update(
        Spectrum::SaturationValue,
        true,
        bounds_100(),
        Some(Point { x: 50, y: 50 }),
        Event::ButtonPressed(Button::Left),
        cur,
    );
    assert_eq!(state.cursor_down, Some(Pressed::Primary));
    let second = state.update(
        Spectrum::SaturationValue,
        true,
        bounds_100(),
        Some(Point { x: 60, y: 60 }),
        Event::ButtonPressed(Button::Right),
        cur,
    );
    assert!(second.emit.is_none());
    assert_eq!(state.cursor_down, Some(Pressed::Primary));
}

#[test]
fn secondary_press_needs_alternate_action() {
    let mut state = State::default();
    let cur = hsva(0, UNIT, UNIT, UNIT);
    let ignored = state.update(
        Spectrum::SaturationValue,
        false,
        bounds_100(),
        Some(Point { x: 50, y: 50 }),
        Event::ButtonPressed(Button::Right),
        cur,
    );
    assert!(ignored.emit.is_none());
    assert_eq!(state.cursor_down, None);
    let honored = state.update(
        Spectrum::SaturationValue,
        true,
        bounds_100(),
        Some(Point { x: 50, y: 50 }),
        Event::ButtonPressed(Button::Right),
        cur,
    );
    let emit = honored.emit.unwrap();
    assert!(emit.alternate);
    assert_eq!(state.cursor_down, Some(Pressed::Secondary));
}

#[test]
fn moves_emit_only_while_held() {
    let mut state = State::default();
    let cur = hsva(0, UNIT, UNIT, UNIT);
    let idle_move = state.update(
        Spectrum::SaturationValue,
        false,
        bounds_100(),
        Some(Point { x: 50, y: 50 }),
        Event::CursorMoved,
        cur,
    );
    assert!(idle_move.emit.is_none());
    state.update(
        Spectrum::SaturationValue,
        false,
        bounds_100(),
        Some(Point { x: 50, y: 50 }),
        Event::ButtonPressed(Button::Left),
        cur,
    );
    // a drag that leaves the bounds still emits, clamped to the edge
    let outside_move = state.update(
        Spectrum::SaturationValue,
        false,
        bounds_100(),
        Some(Point { x: 200, y: 50 }),
        Event::CursorMoved,
        cur,
    );
    let emit = outside_move.emit.unwrap();
    assert_eq!(emit.color.s, UNIT);
    state.update(
        Spectrum::SaturationValue,
        false,
        bounds_100(),
        Some(Point { x: 200, y: 50 }),
        Event::ButtonReleased(Button::Left),
        cur,
    );
    assert_eq!(state.cursor_down, None);
}

#[test]
fn press_outside_bounds_ignored() {
    let mut state = State::default();
    let cur = hsva(0, UNIT, UNIT, UNIT);
    let outcome = state.update(
        Spectrum::SaturationValue,
        false,
        bounds_100(),
        Some(Point { x: 200, y: 50 }),
        Event::ButtonPressed(Button::Left),
        cur,
    );
    assert!(outcome.emit.is_none());
    assert_eq!(state.cursor_down, None);
}

#[test]
fn other_fingers_do_not_drag() {
    let mut state = State::default();
    let cur = hsva(0, UNIT, UNIT, UNIT);
    state.update(
        Spectrum::SaturationValue,
        false,
        bounds_100(),
        None,
        Event::FingerPressed { id: 1, position: Point { x: 50, y: 50 } },
        cur,
    );
    let foreign = state.update(
        Spectrum::SaturationValue,
        false,
        bounds_100(),
        None,
        Event::FingerMoved { id: 2, position: Point { x: 60, y: 60 } },
        cur,
    );
    assert!(foreign.emit.is_none());
    let own = state.update(
        Spectrum::SaturationValue,
        false,
        bounds_100(),
        None,
        Event::FingerMoved { id: 1, position: Point { x: 60, y: 60 } },
        cur,
    );
    assert!(own.emit.is_some());
    // a finger the host loses track of releases nothing
    let lost = state.update(
        Spectrum::SaturationValue,
        false,
        bounds_100(),
        None,
        Event::FingerLost { id: 1 },
        cur,
    );
    assert!(lost.emit.is_none());
    assert_eq!(state.cursor_down, Some(Pressed::Finger(1)));
}

#[test]
fn marker_position_forward_mapping() {
    let size = Size { width: 100, height: 100 };
    let c = hsva(180, 250_000, 250_000, UNIT);
    let p = color_to_marker_position(Spectrum::SaturationValue, c, size);
    assert_eq!(p, Point { x: 25, y: 75 });
    let strip = Size { width: 360, height: 10 };
    let c = hsva(180, UNIT, UNIT, UNIT);
    assert_eq!(
        color_to_marker_position(Spectrum::HueHorizontal, c, strip),
        Point { x: 180, y: 5 }
    );
    let column = Size { width: 10, height: 360 };
    assert_eq!(
        color_to_marker_position(Spectrum::HueVertical, c, column),
        Point { x: 5, y: 180 }
    );
}

#[test]
fn forward_and_inverse_mappings_agree() {
    // mapping a position to a color and back returns to the position when
    // the surface extent matches the bounds
    let b = bounds_100();
    let size = Size { width: 100, height: 100 };
    let cur = hsva(0, 0, 0, UNIT);
    for p in [Point { x: 25, y: 75 }, Point { x: 1, y: 99 }, Point { x: 50, y: 50 }] {
        let c = position_to_color(Spectrum::SaturationValue, cur, b, p);
        assert_eq!(color_to_marker_position(Spectrum::SaturationValue, c, size), p);
    }
}

#[test]
fn marker_fill_and_outline() {
    // on the plane the marker carries the selected color itself; a dark
    // fill gets a white outline
    let dark = hsva(0, 0, 100_000, UNIT);
    let (fill, outline) = marker_color_and_outline(Spectrum::SaturationValue, dark);
    assert_eq!(fill, hsv_to_rgb(dark));
    assert_eq!(outline, Rgb { r: UNIT, g: UNIT, b: UNIT, a: UNIT });
    // on a hue strip the marker shows the hue at full saturation and value,
    // whatever was chosen elsewhere; cyan is light, so the outline is black
    let washed = hsva(180, 100, 200, UNIT);
    let (fill, outline) = marker_color_and_outline(Spectrum::HueHorizontal, washed);
    assert_eq!(fill, hsv_to_rgb(hsv(180, UNIT, UNIT)));
    assert_eq!(outline, Rgb { r: 0, g: 0, b: 0, a: UNIT });
}

#[test]
fn marker_draw_square_and_clamping() {
    let m = Marker {
        position: Point { x: 10, y: 10 },
        color: Rgb { r: UNIT, g: 0, b: 0, a: UNIT },
        outline: Rgb { r: 0, g: 0, b: 0, a: UNIT },
    };
    let cmds = m.draw(MarkerShape::Square { size: 8, border_width: 2 });
    assert_eq!(cmds.len(), 2);
    assert_eq!(
        cmds[0],
        DrawCommand::Rect { x: 4, y: 4, width: 12, height: 12, color: m.outline }
    );
    assert_eq!(
        cmds[1],
        DrawCommand::Rect { x: 6, y: 6, width: 8, height: 8, color: m.color }
    );
    // negative dimensions are clamped to zero, never drawn negative
    let cmds = m.draw(MarkerShape::Square { size: -5, border_width: -3 });
    assert_eq!(
        cmds[0],
        DrawCommand::Rect { x: 10, y: 10, width: 0, height: 0, color: m.outline }
    );
    assert_eq!(
        cmds[1],
        DrawCommand::Rect { x: 10, y: 10, width: 0, height: 0, color: m.color }
    );
    let cmds = m.draw(MarkerShape::Circle { radius: -1, border_width: 4 });
    assert_eq!(cmds[0], DrawCommand::Circle { cx: 10, cy: 10, radius: 4, color: m.outline });
    assert_eq!(cmds[1], DrawCommand::Circle { cx: 10, cy: 10, radius: 0, color: m.color });
}

#[test]
fn marker_builds_from_color_and_extent() {
    let size = Size { width: 100, height: 100 };
    let c = hsva(0, UNIT, UNIT, UNIT);
    let m = marker(Spectrum::SaturationValue, c, size);
    assert_eq!(m.position, Point { x: 100, y: 0 });
    assert_eq!(m.color, Rgb { r: UNIT, g: 0, b: 0, a: UNIT });
    // pure red is dark by luminance, so the outline is white
    assert_eq!(m.outline, Rgb { r: UNIT, g: UNIT, b: UNIT, a: UNIT });
}

#[test]
fn paint_regenerates_only_stale_layers() {
    let mut state = State::default();
    state.observe(Spectrum::SaturationValue, hsva(10, 500_000, 500_000, UNIT));
    let size = Size { width: 4, height: 4 };
    let shape = MarkerShape::Square { size: 2, border_width: 1 };
    let first = state.paint(Spectrum::SaturationValue, size, shape);
    assert!(first.spectrum_fills.is_some());
    assert!(first.marker_commands.is_some());
    let second = state.paint(Spectrum::SaturationValue, size, shape);
    assert!(second.spectrum_fills.is_none());
    assert!(second.marker_commands.is_none());
    // a saturation change invalidates the marker layer only
    state.observe(Spectrum::SaturationValue, hsva(10, 600_000, 500_000, UNIT));
    let third = state.paint(Spectrum::SaturationValue, size, shape);
    assert!(third.spectrum_fills.is_none());
    assert!(third.marker_commands.is_some());
}

#[test]
fn default_state_is_idle_and_unpainted() {
    let state = State::default();
    assert_eq!(state.cursor_down, None);
    assert_eq!(state.current_color, Hsv { h: 0, s: 0, v: 0, a: 0 });
    assert!(!state.spectrum_cache.is_valid());
    assert!(!state.marker_cache.is_valid());
}
