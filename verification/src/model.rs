//! The mathematical model of the colour cycle.
//!
//! Everything here is stated over unbounded integers, so no formula has to
//! care about the width of a machine word.

use vstd::prelude::*;
use crate::color::Color;

verus! {

/// The integer nearest to the fraction `num / den`, for `den > 0`: the
/// whole part, and one more where the remainder is more than half of `den`.
/// A fraction that lies exactly halfway between two integers goes to the
/// smaller one: 127.5 is rounded to 127.
pub open spec fn round_nearest(num: int, den: int) -> int {
    if 2 * (num % den) > den {
        num / den + 1
    } else {
        num / den
    }
}

/// `value` limited to the range of a channel, `0..=255`.
pub open spec fn clamp_channel(value: int) -> int {
    if value < 0 {
        0
    } else if value > 255 {
        255
    } else {
        value
    }
}

/// `value` lies between `a` and `b`, whichever of the two is the larger.
pub open spec fn between(a: int, value: int, b: int) -> bool {
    (a <= value <= b) || (b <= value <= a)
}

/// Each channel of `value` lies between that channel of `a` and of `b`.
pub open spec fn channels_between(a: Color, value: Color, b: Color) -> bool {
    &&& between(a.red as int, value.red as int, b.red as int)
    &&& between(a.green as int, value.green as int, b.green as int)
    &&& between(a.blue as int, value.blue as int, b.blue as int)
}

/// The exact value of a channel on the way from `start` to `end`, after
/// `step` of `steps` equal steps, is `start + (step / steps) * (end - start)`.
/// This is that value as a fraction over `steps`: its numerator.
pub open spec fn blend_numerator(start: int, end: int, step: int, steps: int) -> int {
    start * steps + step * (end - start)
}

/// One channel on the way from `start` to `end`, after `step` of `steps`
/// equal steps: the exact value, rounded to the nearest integer and limited
/// to `0..=255`.
pub open spec fn blend_channel(start: int, end: int, step: int, steps: int) -> int {
    clamp_channel(round_nearest(blend_numerator(start, end, step, steps), steps))
}

/// The colour on the way from `from` to `to`, after `step` of `steps` equal
/// steps, each channel blended on its own.
pub open spec fn blend(from: Color, to: Color, step: int, steps: int) -> Color {
    Color {
        red: blend_channel(from.red as int, to.red as int, step, steps) as u8,
        green: blend_channel(from.green as int, to.green as int, step, steps) as u8,
        blue: blend_channel(from.blue as int, to.blue as int, step, steps) as u8,
    }
}

/// The index of the anchor that the segment holding `frame` starts from, in
/// a cycle of `anchors` anchors with `steps` frames between neighbours.
pub open spec fn segment_index(frame: int, steps: int, anchors: int) -> int {
    (frame / steps) % anchors
}

/// The index of the anchor that follows anchor `index`; the last anchor is
/// followed by the first.
pub open spec fn next_index(index: int, anchors: int) -> int {
    if index + 1 < anchors {
        index + 1
    } else {
        0
    }
}

/// The position of `frame` inside its segment.
pub open spec fn local_frame(frame: int, steps: int) -> int {
    frame % steps
}

/// The anchor that the segment holding `frame` starts from.
pub open spec fn segment_start(anchors: Seq<Color>, frame: int, steps: int) -> Color {
    anchors[segment_index(frame, steps, anchors.len() as int)]
}

/// The anchor that the segment holding `frame` leads to.
pub open spec fn segment_end(anchors: Seq<Color>, frame: int, steps: int) -> Color {
    anchors[next_index(segment_index(frame, steps, anchors.len() as int), anchors.len() as int)]
}

/// The colour of `frame` in the endless cycle through `anchors`, where
/// `steps` frames lead from one anchor to the next.
pub open spec fn cycle_color(anchors: Seq<Color>, frame: int, steps: int) -> Color {
    blend(
        segment_start(anchors, frame, steps),
        segment_end(anchors, frame, steps),
        local_frame(frame, steps),
        steps,
    )
}

/// The fixed palette: red, then green, then blue.
pub open spec fn rgb_anchors() -> Seq<Color> {
    seq![Color::red(), Color::green(), Color::blue()]
}

/// The colour of `frame` in the cycle red, green, blue, red, ..., where
/// `steps` frames lead from one of the three to the next: the first segment
/// of a turn goes from red to green, the second from green to blue, the
/// third from blue back to red.
pub open spec fn rgb_cycle(frame: int, steps: int) -> Color {
    let segment = segment_index(frame, steps, 3);
    let step = local_frame(frame, steps);
    if segment == 0 {
        blend(Color::red(), Color::green(), step, steps)
    } else if segment == 1 {
        blend(Color::green(), Color::blue(), step, steps)
    } else {
        blend(Color::blue(), Color::red(), step, steps)
    }
}

} // verus!
