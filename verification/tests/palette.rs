use color_cycle::Color;

#[test]
fn the_anchors_are_the_pure_colours() {
    assert_eq!(Color::red(), Color { red: 255, green: 0, blue: 0 });
    assert_eq!(Color::green(), Color { red: 0, green: 255, blue: 0 });
    assert_eq!(Color::blue(), Color { red: 0, green: 0, blue: 255 });
}

#[test]
fn values_are_red_green_blue_in_this_order() {
    assert_eq!(Color { red: 1, green: 2, blue: 3 }.values(), vec![1, 2, 3]);
    assert_eq!(Color::red().values(), vec![255, 0, 0]);
    assert_eq!(Color::green().values(), vec![0, 255, 0]);
    assert_eq!(Color::blue().values(), vec![0, 0, 255]);
}

#[test]
fn a_palette_of_one_colour_never_changes() {
    let only = Color { red: 12, green: 200, blue: 77 };
    for frame in 0..50usize {
        assert_eq!(Color::interpolate_linear(&[only], frame, 7), only);
    }
}

#[test]
fn a_palette_of_two_colours_goes_there_and_back() {
    let dark = Color { red: 10, green: 20, blue: 250 };
    let light = Color { red: 110, green: 220, blue: 50 };
    let palette = [dark, light];
    assert_eq!(Color::interpolate_linear(&palette, 0, 10), dark);
    assert_eq!(
        Color::interpolate_linear(&palette, 1, 10),
        Color { red: 20, green: 40, blue: 230 }
    );
    assert_eq!(
        Color::interpolate_linear(&palette, 5, 10),
        Color { red: 60, green: 120, blue: 150 }
    );
    assert_eq!(Color::interpolate_linear(&palette, 10, 10), light);
    assert_eq!(
        Color::interpolate_linear(&palette, 13, 10),
        Color { red: 80, green: 160, blue: 110 }
    );
    assert_eq!(Color::interpolate_linear(&palette, 20, 10), dark);
}

#[test]
fn a_falling_channel_rounds_a_half_down_too() {
    // From 3 down to 0 in two steps, and from 0 up to 3: 1.5 goes to 1 both times.
    let from = Color { red: 3, green: 0, blue: 9 };
    let to = Color { red: 0, green: 3, blue: 9 };
    assert_eq!(
        Color::interpolate_linear(&[from, to], 1, 2),
        Color { red: 1, green: 1, blue: 9 }
    );
}

#[test]
fn a_longer_palette_wraps_from_its_last_colour_to_its_first() {
    let palette = [
        Color { red: 0, green: 0, blue: 0 },
        Color { red: 100, green: 0, blue: 0 },
        Color { red: 100, green: 100, blue: 0 },
        Color { red: 100, green: 100, blue: 100 },
    ];
    assert_eq!(
        Color::interpolate_linear(&palette, 35, 10),
        Color { red: 50, green: 50, blue: 50 }
    );
    assert_eq!(Color::interpolate_linear(&palette, 40, 10), palette[0]);
    assert_eq!(
        Color::interpolate_linear(&palette, 40 * 1000 + 12, 10),
        Color { red: 100, green: 20, blue: 0 }
    );
}

#[test]
fn the_rgb_palette_gives_the_rgb_cycle() {
    let palette = [Color::red(), Color::green(), Color::blue()];
    for frame in 0..400usize {
        assert_eq!(
            Ok(Color::interpolate_linear(&palette, frame, 100)),
            color_cycle::interpolate(frame, 100)
        );
    }
}
