//! The red, green, blue cycle, frame by frame.

use vstd::prelude::*;
use crate::color::Color;
use crate::laws::lemma_rgb_cycle_follows_anchors;
use crate::model::{rgb_anchors, rgb_cycle};

verus! {

/// Why no colour could be computed.
#[derive(Clone, Copy, Debug, PartialEq, Eq, Structural)]
pub enum InterpolationError {
    /// A segment of zero frames: no frame has a position in it.
    ZeroFramesPerColor,
}

/// The colour of `frame` in the cycle red, green, blue, red, ..., where
/// `frames_per_color` frames lead from one of the three to the next.
///
/// The result depends on the two arguments alone. A segment of zero frames
/// is reported as an error for every `frame`; every other pair of arguments
/// has a colour, each channel of it a byte.
pub fn interpolate(frame: usize, frames_per_color: usize) -> (result: Result<
    Color,
    InterpolationError,
>)
    ensures
        frames_per_color == 0 <==> result is Err,
        result matches Err(error) ==> error == InterpolationError::ZeroFramesPerColor,
        result matches Ok(color) ==> color == rgb_cycle(frame as int, frames_per_color as int),
{
    if frames_per_color == 0 {
        return Err(InterpolationError::ZeroFramesPerColor);
    }
    let anchors: [Color; 3] = [Color::red(), Color::green(), Color::blue()];
    proof {
        assert(anchors@ =~= rgb_anchors());
        lemma_rgb_cycle_follows_anchors(frame as int, frames_per_color as int);
    }
    Ok(Color::interpolate_linear(anchors.as_slice(), frame, frames_per_color))
}

/// The three bytes, red, green, blue, that the animation shows at `frame`.
///
/// This is `interpolate` on the counters of a 32-bit host, with the colour
/// laid out as the bytes that a sink reads.
pub fn compute_frame_color(frame: u32, frames_per_color: u32) -> (result: Result<
    Vec<u8>,
    InterpolationError,
>)
    ensures
        frames_per_color == 0 <==> result is Err,
        result matches Err(error) ==> error == InterpolationError::ZeroFramesPerColor,
        result matches Ok(bytes) ==> bytes@ == rgb_cycle(frame as int, frames_per_color as int)@,
{
    match interpolate(frame as usize, frames_per_color as usize) {
        Ok(color) => Ok(color.values()),
        Err(error) => Err(error),
    }
}

} // verus!
