//! Cyclic linear interpolation over a palette of 8-bit RGB colours.
//!
//! An animation counts its frames. `interpolate` gives frame number `frame`
//! its colour in the endless cycle red, green, blue, red, ..., where a fixed
//! number of frames leads from one of the three to the next;
//! `compute_frame_color` gives the same colour as three bytes, and
//! `Color::interpolate_linear` walks through any palette in the same way.
//!
//! Between two colours each channel moves in equal steps. A step that does
//! not end on an integer is rounded to the nearest one, and from exactly
//! halfway to the smaller: halfway from red to green is `(127, 127, 0)`.
//!
//! `model` says in integers what these colours are, `laws` proves what holds
//! of them.

pub mod color;
pub mod cycle;
pub mod laws;
pub mod model;

pub use color::Color;
pub use cycle::{compute_frame_color, interpolate, InterpolationError};
