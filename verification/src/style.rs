//! Styling of the picker: the shape of the selection marker.
//!
//! The host resolves its theme to a plain [`Style`] value once and hands it
//! to the controller; nothing here is looked up dynamically.

use vstd::prelude::*;

use crate::geom::MAX_EXTENT;

verus! {

/// The shape the marker is drawn with. Dimensions are pixels; negative
/// dimensions are clamped to zero when the marker is drawn.
#[derive(Clone, Copy, Debug, PartialEq, Eq, Structural)]
pub enum MarkerShape {
    Square { size: i64, border_width: i64 },
    Circle { radius: i64, border_width: i64 },
}

impl MarkerShape {
    /// Dimensions within the geometric range.
    pub open spec fn wf(self) -> bool {
        match self {
            MarkerShape::Square { size, border_width } => -MAX_EXTENT <= size <= MAX_EXTENT
                && -MAX_EXTENT <= border_width <= MAX_EXTENT,
            MarkerShape::Circle { radius, border_width } => -MAX_EXTENT <= radius <= MAX_EXTENT
                && -MAX_EXTENT <= border_width <= MAX_EXTENT,
        }
    }
}

/// The appearance of the picker.
#[derive(Clone, Copy, Debug, PartialEq, Eq, Structural)]
pub struct Style {
    pub marker_shape: MarkerShape,
}

/// The stock style: a small square marker with a thin border.
pub fn normal() -> (s: Style)
    ensures
        s.marker_shape == (MarkerShape::Square { size: 8, border_width: 2 }),
        s.marker_shape.wf(),
{
    Style { marker_shape: MarkerShape::Square { size: 8, border_width: 2 } }
}

} // verus!
