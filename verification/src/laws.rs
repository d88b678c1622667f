//! What holds of the model, from the rounding of one fraction up to the
//! whole cycle: which integer a fraction is rounded to, how a blended
//! channel moves between its two ends, where the cycle shows its anchors,
//! when it repeats, and that `interpolate` is a function of its arguments.

use vstd::prelude::*;
use vstd::arithmetic::div_mod::{
    lemma_fundamental_div_mod, lemma_fundamental_div_mod_converse, lemma_mod_add_multiples_vanish,
    lemma_mod_bound, lemma_mod_self_0, lemma_small_mod,
};
use crate::color::Color;
use crate::cycle::{interpolate, InterpolationError};
use crate::model::{
    between, blend, blend_channel, blend_numerator, channels_between, cycle_color, local_frame,
    next_index, rgb_anchors, rgb_cycle, round_nearest, segment_end, segment_index, segment_start,
};

verus! {

/// The odd multiples of `den` on both sides of the even multiple
/// `2 * r * den`.
proof fn lemma_odd_multiples(r: int, den: int)
    by (nonlinear_arith)
    ensures
        (2 * r - 1) * den == 2 * (r * den) - den,
        (2 * r + 1) * den == 2 * (r * den) + den,
{
}

/// `round_nearest(num, den)` is the one integer `r` with
/// `r - 1/2 < num / den <= r + 1/2`: no integer is nearer to the fraction,
/// and of two that are equally near it is the smaller.
pub proof fn lemma_round_nearest_brackets(num: int, den: int, r: int)
    requires
        den > 0,
    ensures
        r == round_nearest(num, den) <==> (2 * r - 1) * den < 2 * num <= (2 * r + 1) * den,
{
    let whole = num / den;
    let nearest = round_nearest(num, den);
    lemma_fundamental_div_mod(num, den);
    lemma_mod_bound(num, den);
    lemma_odd_multiples(nearest, den);
    assert(whole * den == den * whole && (whole + 1) * den == den * whole + den)
        by (nonlinear_arith);
    if (2 * r - 1) * den < 2 * num <= (2 * r + 1) * den {
        assert(r == nearest) by (nonlinear_arith)
            requires
                den > 0,
                (2 * r - 1) * den < 2 * num <= (2 * r + 1) * den,
                (2 * nearest - 1) * den < 2 * num <= (2 * nearest + 1) * den,
        ;
    }
}

/// A fraction with a larger numerator is not rounded to a smaller integer.
pub proof fn lemma_round_nearest_monotonic(low: int, high: int, den: int)
    requires
        den > 0,
        low <= high,
    ensures
        round_nearest(low, den) <= round_nearest(high, den),
{
    let below = round_nearest(low, den);
    let above = round_nearest(high, den);
    lemma_round_nearest_brackets(low, den, below);
    lemma_round_nearest_brackets(high, den, above);
    assert(below <= above) by (nonlinear_arith)
        requires
            den > 0,
            (2 * below - 1) * den < 2 * low,
            2 * low <= 2 * high,
            2 * high <= (2 * above + 1) * den,
    ;
}

/// A whole number is rounded to itself.
pub proof fn lemma_round_nearest_whole(whole: int, den: int)
    requires
        den > 0,
    ensures
        round_nearest(whole * den, den) == whole,
{
    lemma_round_nearest_brackets(whole * den, den, whole);
    lemma_odd_multiples(whole, den);
}

/// The exact value of a channel moves from `start` to `end` as the steps
/// go by, in one direction only.
proof fn lemma_blend_numerator_ordered(start: int, end: int, earlier: int, later: int, steps: int)
    requires
        0 <= earlier <= later <= steps,
    ensures
        blend_numerator(start, end, 0, steps) == start * steps,
        blend_numerator(start, end, steps, steps) == end * steps,
        start <= end ==> start * steps <= blend_numerator(start, end, earlier, steps)
            <= blend_numerator(start, end, later, steps) <= end * steps,
        start >= end ==> start * steps >= blend_numerator(start, end, earlier, steps)
            >= blend_numerator(start, end, later, steps) >= end * steps,
{
    let delta = end - start;
    assert(start * steps + steps * delta == end * steps) by (nonlinear_arith)
        requires
            delta == end - start,
    ;
    assert(delta >= 0 ==> 0 <= earlier * delta <= later * delta <= steps * delta)
        by (nonlinear_arith)
        requires
            0 <= earlier <= later <= steps,
    ;
    assert(delta <= 0 ==> 0 >= earlier * delta >= later * delta >= steps * delta)
        by (nonlinear_arith)
        requires
            0 <= earlier <= later <= steps,
    ;
}

/// On the way from `start` to `end` a channel never leaves the range
/// between the two, and a later step is never farther from `end` than an
/// earlier one: the channel does not overshoot and does not turn back.
pub proof fn lemma_blend_channel_monotonic(
    start: int,
    end: int,
    earlier: int,
    later: int,
    steps: int,
)
    requires
        steps > 0,
        0 <= start <= 255,
        0 <= end <= 255,
        0 <= earlier <= later <= steps,
    ensures
        between(start, blend_channel(start, end, earlier, steps), end),
        between(
            blend_channel(start, end, earlier, steps),
            blend_channel(start, end, later, steps),
            end,
        ),
{
    let low = blend_numerator(start, end, earlier, steps);
    let high = blend_numerator(start, end, later, steps);
    lemma_blend_numerator_ordered(start, end, earlier, later, steps);
    lemma_round_nearest_whole(start, steps);
    lemma_round_nearest_whole(end, steps);
    if start <= end {
        lemma_round_nearest_monotonic(start * steps, low, steps);
        lemma_round_nearest_monotonic(low, high, steps);
        lemma_round_nearest_monotonic(high, end * steps, steps);
    } else {
        lemma_round_nearest_monotonic(low, start * steps, steps);
        lemma_round_nearest_monotonic(high, low, steps);
        lemma_round_nearest_monotonic(end * steps, high, steps);
    }
}

/// Between two channel values the rounded blend is a channel value already:
/// limiting it to `0..=255` changes nothing.
pub proof fn lemma_blend_channel_unclamped(start: int, end: int, step: int, steps: int)
    requires
        steps > 0,
        0 <= start <= 255,
        0 <= end <= 255,
        0 <= step <= steps,
    ensures
        blend_channel(start, end, step, steps) == round_nearest(
            blend_numerator(start, end, step, steps),
            steps,
        ),
{
    let exact = blend_numerator(start, end, step, steps);
    lemma_blend_numerator_ordered(start, end, step, step, steps);
    lemma_round_nearest_whole(start, steps);
    lemma_round_nearest_whole(end, steps);
    if start <= end {
        lemma_round_nearest_monotonic(start * steps, exact, steps);
        lemma_round_nearest_monotonic(exact, end * steps, steps);
    } else {
        lemma_round_nearest_monotonic(exact, start * steps, steps);
        lemma_round_nearest_monotonic(end * steps, exact, steps);
    }
}

/// A blended channel starts at `start` and ends at `end`.
pub proof fn lemma_blend_channel_ends(start: int, end: int, steps: int)
    requires
        steps > 0,
        0 <= start <= 255,
        0 <= end <= 255,
    ensures
        blend_channel(start, end, 0, steps) == start,
        blend_channel(start, end, steps, steps) == end,
{
    lemma_blend_numerator_ordered(start, end, 0, steps, steps);
    lemma_round_nearest_whole(start, steps);
    lemma_round_nearest_whole(end, steps);
}

/// Every blended channel is a channel value, whatever is blended: a colour
/// made of blended channels holds each of them unchanged.
pub proof fn lemma_blend_channel_in_range(start: int, end: int, step: int, steps: int)
    ensures
        0 <= blend_channel(start, end, step, steps) <= 255,
{
}

/// A blend that has made no step yet is the colour it starts from.
pub proof fn lemma_blend_starts_at_from(from: Color, to: Color, steps: int)
    requires
        steps > 0,
    ensures
        blend(from, to, 0, steps) == from,
{
    lemma_blend_channel_ends(from.red as int, to.red as int, steps);
    lemma_blend_channel_ends(from.green as int, to.green as int, steps);
    lemma_blend_channel_ends(from.blue as int, to.blue as int, steps);
}

/// The anchor after anchor `index` is anchor `index + 1`, counted round the
/// cycle.
pub proof fn lemma_next_index_wraps(index: int, anchors: int)
    requires
        0 <= index < anchors,
    ensures
        next_index(index, anchors) == (index + 1) % anchors,
{
    if index + 1 < anchors {
        lemma_small_mod((index + 1) as nat, anchors as nat);
    } else {
        lemma_mod_self_0(anchors);
    }
}

/// The cycle without division: after `turns` whole turns through the
/// anchors, `index` further segments and `step` further frames, the colour
/// is `step` of `steps` steps on the way from anchor `index` to the anchor
/// after it, which for the last anchor is the first.
pub proof fn lemma_cycle_color_by_position(
    anchors: Seq<Color>,
    turns: int,
    index: int,
    step: int,
    steps: int,
)
    requires
        0 <= index < anchors.len(),
        0 <= step < steps,
    ensures
        cycle_color(anchors, (turns * anchors.len() + index) * steps + step, steps) == blend(
            anchors[index],
            anchors[next_index(index, anchors.len() as int)],
            step,
            steps,
        ),
{
    let count = anchors.len() as int;
    let segments = turns * count + index;
    lemma_fundamental_div_mod_converse(segments * steps + step, steps, segments, step);
    lemma_fundamental_div_mod_converse(segments, count, turns, index);
}

/// A whole turn through the anchors later, a frame lies in the same segment
/// at the same place.
pub proof fn lemma_turn_keeps_place(frame: int, steps: int, anchors: int)
    requires
        steps > 0,
        anchors > 0,
    ensures
        segment_index(frame + anchors * steps, steps, anchors) == segment_index(
            frame,
            steps,
            anchors,
        ),
        local_frame(frame + anchors * steps, steps) == local_frame(frame, steps),
{
    let quotient = frame / steps;
    let remainder = frame % steps;
    lemma_fundamental_div_mod(frame, steps);
    lemma_mod_bound(frame, steps);
    assert(frame + anchors * steps == (quotient + anchors) * steps + remainder)
        by (nonlinear_arith)
        requires
            frame == steps * quotient + remainder,
    ;
    lemma_fundamental_div_mod_converse(
        frame + anchors * steps,
        steps,
        quotient + anchors,
        remainder,
    );
    lemma_mod_add_multiples_vanish(quotient, anchors);
}

/// The cycle repeats after one turn through its anchors, that is after
/// `anchors.len() * steps` frames.
pub proof fn lemma_cycle_periodic(anchors: Seq<Color>, frame: int, steps: int)
    requires
        anchors.len() > 0,
        steps > 0,
    ensures
        cycle_color(anchors, frame + anchors.len() * steps, steps) == cycle_color(
            anchors,
            frame,
            steps,
        ),
{
    lemma_turn_keeps_place(frame, steps, anchors.len() as int);
}

/// The red, green, blue cycle is the cycle through the fixed palette.
pub proof fn lemma_rgb_cycle_follows_anchors(frame: int, steps: int)
    ensures
        rgb_cycle(frame, steps) == cycle_color(rgb_anchors(), frame, steps),
{
    assert(rgb_anchors().len() == 3);
}

/// The red, green, blue cycle repeats after `3 * steps` frames.
pub proof fn lemma_rgb_cycle_periodic(frame: int, steps: int)
    requires
        steps > 0,
    ensures
        rgb_cycle(frame + 3 * steps, steps) == rgb_cycle(frame, steps),
{
    lemma_turn_keeps_place(frame, steps, 3);
}

/// A frame at which a segment begins shows the anchor that the segment
/// starts from.
pub proof fn lemma_cycle_passes_anchors(anchors: Seq<Color>, frame: int, steps: int)
    requires
        anchors.len() > 0,
        steps > 0,
        frame % steps == 0,
    ensures
        cycle_color(anchors, frame, steps) == segment_start(anchors, frame, steps),
{
    lemma_blend_starts_at_from(
        segment_start(anchors, frame, steps),
        segment_end(anchors, frame, steps),
        steps,
    );
}

/// The red, green, blue cycle shows red at frame 0, green one segment
/// later, blue two segments later, and red again after three.
pub proof fn lemma_rgb_cycle_passes_anchors(steps: int)
    requires
        steps > 0,
    ensures
        rgb_cycle(0, steps) == Color::red(),
        rgb_cycle(steps, steps) == Color::green(),
        rgb_cycle(2 * steps, steps) == Color::blue(),
        rgb_cycle(3 * steps, steps) == Color::red(),
{
    lemma_fundamental_div_mod_converse(0, steps, 0, 0);
    lemma_fundamental_div_mod_converse(steps, steps, 1, 0);
    lemma_fundamental_div_mod_converse(2 * steps, steps, 2, 0);
    lemma_fundamental_div_mod_converse(3 * steps, steps, 3, 0);
    lemma_blend_starts_at_from(Color::red(), Color::green(), steps);
    lemma_blend_starts_at_from(Color::green(), Color::blue(), steps);
    lemma_blend_starts_at_from(Color::blue(), Color::red(), steps);
}

/// Inside one segment the colour moves towards the anchor at the
/// segment's end and never away from it: each channel of a frame lies
/// between the two anchors of the segment, and each channel of a later
/// frame lies between that of the earlier frame and that of the end anchor.
pub proof fn lemma_cycle_monotonic_in_segment(
    anchors: Seq<Color>,
    earlier: int,
    later: int,
    steps: int,
)
    requires
        anchors.len() > 0,
        steps > 0,
        earlier <= later,
        earlier / steps == later / steps,
    ensures
        channels_between(
            segment_start(anchors, earlier, steps),
            cycle_color(anchors, earlier, steps),
            segment_end(anchors, earlier, steps),
        ),
        channels_between(
            cycle_color(anchors, earlier, steps),
            cycle_color(anchors, later, steps),
            segment_end(anchors, earlier, steps),
        ),
{
    let from = segment_start(anchors, earlier, steps);
    let to = segment_end(anchors, earlier, steps);
    let first = local_frame(earlier, steps);
    let second = local_frame(later, steps);
    lemma_fundamental_div_mod(earlier, steps);
    lemma_fundamental_div_mod(later, steps);
    lemma_mod_bound(earlier, steps);
    lemma_mod_bound(later, steps);
    lemma_blend_channel_monotonic(from.red as int, to.red as int, first, second, steps);
    lemma_blend_channel_monotonic(from.green as int, to.green as int, first, second, steps);
    lemma_blend_channel_monotonic(from.blue as int, to.blue as int, first, second, steps);
}

/// Inside one segment of the red, green, blue cycle the colour moves
/// towards the colour at the segment's end and never away from it.
pub proof fn lemma_rgb_cycle_monotonic_in_segment(earlier: int, later: int, steps: int)
    requires
        steps > 0,
        earlier <= later,
        earlier / steps == later / steps,
    ensures
        channels_between(
            segment_start(rgb_anchors(), earlier, steps),
            rgb_cycle(earlier, steps),
            segment_end(rgb_anchors(), earlier, steps),
        ),
        channels_between(
            rgb_cycle(earlier, steps),
            rgb_cycle(later, steps),
            segment_end(rgb_anchors(), earlier, steps),
        ),
{
    lemma_rgb_cycle_follows_anchors(earlier, steps);
    lemma_rgb_cycle_follows_anchors(later, steps);
    lemma_cycle_monotonic_in_segment(rgb_anchors(), earlier, later, steps);
}

/// `interpolate` returns the same three segments later, wherever the later
/// frame can still be counted.
pub proof fn lemma_interpolate_periodic(
    frame: usize,
    frames_per_color: usize,
    first: Result<Color, InterpolationError>,
    second: Result<Color, InterpolationError>,
)
    requires
        frame + 3 * frames_per_color <= usize::MAX,
        call_ensures(interpolate, (frame, frames_per_color), first),
        call_ensures(
            interpolate,
            ((frame + 3 * frames_per_color) as usize, frames_per_color),
            second,
        ),
    ensures
        first == second,
{
    if frames_per_color > 0 {
        lemma_rgb_cycle_periodic(frame as int, frames_per_color as int);
    }
}

/// `interpolate` is a function of its arguments: whatever two calls with
/// the same arguments return, they return the same.
pub proof fn lemma_interpolate_is_pure(
    frame: usize,
    frames_per_color: usize,
    first: Result<Color, InterpolationError>,
    second: Result<Color, InterpolationError>,
)
    requires
        call_ensures(interpolate, (frame, frames_per_color), first),
        call_ensures(interpolate, (frame, frames_per_color), second),
    ensures
        first == second,
{
}

} // verus!
