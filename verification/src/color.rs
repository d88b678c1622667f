//! The 8-bit RGB colour type and the cycle through a palette of colours.

use vstd::prelude::*;
use crate::laws::lemma_blend_channel_unclamped;
use crate::model::{blend, blend_channel, blend_numerator, cycle_color};

verus! {

/// An RGB colour with one byte per channel.
#[derive(Clone, Copy, Debug, PartialEq, Eq, Structural)]
pub struct Color {
    pub red: u8,
    pub green: u8,
    pub blue: u8,
}

impl View for Color {
    type V = Seq<u8>;

    /// The channels in the order red, green, blue.
    open spec fn view(&self) -> Seq<u8> {
        seq![self.red, self.green, self.blue]
    }
}

impl Color {
    /// Pure red, `(255, 0, 0)`.
    pub open spec fn spec_red() -> Color {
        Color { red: 255, green: 0, blue: 0 }
    }

    /// Pure green, `(0, 255, 0)`.
    pub open spec fn spec_green() -> Color {
        Color { red: 0, green: 255, blue: 0 }
    }

    /// Pure blue, `(0, 0, 255)`.
    pub open spec fn spec_blue() -> Color {
        Color { red: 0, green: 0, blue: 255 }
    }

    /// Pure red, `(255, 0, 0)`.
    #[verifier::when_used_as_spec(spec_red)]
    pub fn red() -> (color: Color)
        ensures
            color == Color::spec_red(),
    {
        Color { red: 255, green: 0, blue: 0 }
    }

    /// Pure green, `(0, 255, 0)`.
    #[verifier::when_used_as_spec(spec_green)]
    pub fn green() -> (color: Color)
        ensures
            color == Color::spec_green(),
    {
        Color { red: 0, green: 255, blue: 0 }
    }

    /// Pure blue, `(0, 0, 255)`.
    #[verifier::when_used_as_spec(spec_blue)]
    pub fn blue() -> (color: Color)
        ensures
            color == Color::spec_blue(),
    {
        Color { red: 0, green: 0, blue: 255 }
    }

    /// The colour of `frame` in the endless cycle through `colors`, where
    /// `frames_per_color` frames lead from one colour to the next and the
    /// last colour leads back to the first.
    ///
    /// Between two colours each channel moves in equal steps; a step that
    /// does not end on an integer is rounded to the nearest one, and from
    /// halfway to the smaller.
    pub fn interpolate_linear(colors: &[Color], frame: usize, frames_per_color: usize) -> (color:
        Color)
        requires
            colors@.len() > 0,
            frames_per_color > 0,
        ensures
            color == cycle_color(colors@, frame as int, frames_per_color as int),
    {
        let count: usize = colors.len();
        let start: usize = (frame / frames_per_color) % count;
        let end: usize = if start + 1 < count {
            start + 1
        } else {
            0
        };
        let step: usize = frame % frames_per_color;
        colors[start].blend_to(&colors[end], step, frames_per_color)
    }

    /// The colour on the way from `self` to `to`, after `step` of `steps`
    /// equal steps.
    pub(crate) fn blend_to(&self, to: &Color, step: usize, steps: usize) -> (color: Color)
        requires
            step < steps,
        ensures
            color == blend(*self, *to, step as int, steps as int),
    {
        Color {
            red: blend_byte(self.red, to.red, step, steps),
            green: blend_byte(self.green, to.green, step, steps),
            blue: blend_byte(self.blue, to.blue, step, steps),
        }
    }

    /// The three channel bytes in the order red, green, blue.
    pub fn values(&self) -> (bytes: Vec<u8>)
        ensures
            bytes@ == self@,
    {
        let mut bytes: Vec<u8> = Vec::new();
        bytes.push(self.red);
        bytes.push(self.green);
        bytes.push(self.blue);
        bytes
    }
}

/// One channel on the way from `start` to `end`, after `step` of `steps`
/// equal steps.
///
/// The two ends are weighted in 128 bits, where the products of a byte and a
/// machine word cannot overflow.
fn blend_byte(start: u8, end: u8, step: usize, steps: usize) -> (value: u8)
    requires
        step < steps,
    ensures
        value == blend_channel(start as int, end as int, step as int, steps as int),
{
    let span: u128 = steps as u128;
    let done: u128 = step as u128;
    let left: u128 = span - done;
    assert(start * left <= 255 * span && end * done <= 255 * span) by (nonlinear_arith)
        requires
            start <= 255,
            end <= 255,
            0 <= left <= span,
            0 <= done <= span,
    ;
    let weighted: u128 = start as u128 * left + end as u128 * done;
    assert(weighted == blend_numerator(start as int, end as int, step as int, steps as int))
        by (nonlinear_arith)
        requires
            weighted == start * left + end * done,
            left == steps - step,
            done == step,
    ;
    let whole: u128 = weighted / span;
    let rest: u128 = weighted % span;
    let rounded: u128 = if 2 * rest > span {
        whole + 1
    } else {
        whole
    };
    proof {
        lemma_blend_channel_unclamped(start as int, end as int, step as int, steps as int);
    }
    rounded as u8
}

} // verus!
