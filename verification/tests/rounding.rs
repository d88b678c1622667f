use color_cycle::{interpolate, Color};

fn at(frame: usize, frames_per_color: usize) -> (u8, u8, u8) {
    let color = interpolate(frame, frames_per_color).unwrap();
    (color.red, color.green, color.blue)
}

#[test]
fn thirds_are_exact() {
    assert_eq!(at(1, 3), (170, 85, 0));
    assert_eq!(at(2, 3), (85, 170, 0));
    assert_eq!(at(4, 3), (0, 170, 85));
    assert_eq!(at(8, 3), (170, 0, 85));
}

#[test]
fn quarters_go_to_the_nearest_integer() {
    // 63.75 and 191.25
    assert_eq!(at(1, 4), (191, 64, 0));
    // 191.25 and 63.75
    assert_eq!(at(3, 4), (64, 191, 0));
}

#[test]
fn a_half_goes_down_on_both_channels() {
    // 127.5 and 127.5
    assert_eq!(at(1, 2), (127, 127, 0));
    // 212.5 and 42.5
    assert_eq!(at(1, 6), (212, 42, 0));
    // 42.5 and 212.5
    assert_eq!(at(5, 6), (42, 212, 0));
    // 254.5 and 0.5
    assert_eq!(at(1, 510), (254, 0, 0));
    // 0.5 and 254.5
    assert_eq!(at(509, 510), (0, 254, 0));
}

#[test]
fn what_is_not_a_half_goes_to_the_nearer_side() {
    // 255 * 501 / 1000 = 127.755 and 255 * 499 / 1000 = 127.245
    assert_eq!(at(499, 1000), (128, 127, 0));
    assert_eq!(at(1499, 1000), (0, 128, 127));
    // 255 - 255 / 511 = 254.5009... and 255 / 511 = 0.4990...
    assert_eq!(at(1, 511), (255, 0, 0));
    // 255 - 510 / 1021 = 254.5004... and 510 / 1021 = 0.4995...
    assert_eq!(at(2, 1021), (255, 0, 0));
    // 255 - 510 / 1019 = 254.4995... and 510 / 1019 = 0.5004...
    assert_eq!(at(2, 1019), (254, 1, 0));
}

#[test]
fn a_step_of_a_long_segment_changes_nothing_yet() {
    assert_eq!(at(1, 1_000_000), (255, 0, 0));
    assert_eq!(at(1_000_001, 1_000_000), (0, 255, 0));
}

fn nearest(start: u8, end: u8, step: usize, steps: usize) -> u8 {
    let weighted = start as f64 * steps as f64 + step as f64 * (end as f64 - start as f64);
    // The nearest integer, a half going down.
    (weighted / steps as f64 - 0.5).ceil() as u8
}

#[test]
fn channels_agree_with_rounding_in_floating_point() {
    let anchors = [Color::red(), Color::green(), Color::blue()];
    for steps in 1..=130usize {
        for frame in 0..(3 * steps) {
            let from = anchors[frame / steps];
            let to = anchors[(frame / steps + 1) % 3];
            let step = frame % steps;
            let expected = Color {
                red: nearest(from.red, to.red, step, steps),
                green: nearest(from.green, to.green, step, steps),
                blue: nearest(from.blue, to.blue, step, steps),
            };
            assert_eq!(interpolate(frame, steps), Ok(expected));
        }
    }
}
