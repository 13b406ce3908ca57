//! An interactive two-dimensional color-selection control.
//!
//! The library derives a color from a pointer position inside a rectangular
//! surface and, in the other direction, a marker position from a color. It
//! supports three spectrum modes (a saturation/value plane and two
//! one-dimensional hue gradients) over an HSV color model with alpha.
//!
//! Color components and coordinates are plain integers: unit-interval
//! components are fixed-point fractions of [`hsv::UNIT`], hue is whole
//! degrees, and pixel coordinates are integral. A thin adapter binds the
//! control to a host windowing toolkit; the adapter converts at the boundary.

pub mod geom;
pub mod hsv;
pub mod picker;
pub mod spectrums;
pub mod style;

pub use hsv::{Hsv, Rgb, hsv, hsva};
pub use picker::Spectrum;
pub use style::{MarkerShape, Style};
