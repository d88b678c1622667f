use color_cycle::{compute_frame_color, interpolate, Color, InterpolationError};

fn rgb(red: u8, green: u8, blue: u8) -> Result<Color, InterpolationError> {
    Ok(Color { red, green, blue })
}

#[test]
fn frame_0_of_100_is_red() {
    assert_eq!(interpolate(0, 100), rgb(255, 0, 0));
}

#[test]
fn frame_50_of_100_is_halfway_from_red_to_green() {
    assert_eq!(interpolate(50, 100), rgb(127, 127, 0));
}

#[test]
fn frame_100_of_100_is_green() {
    assert_eq!(interpolate(100, 100), rgb(0, 255, 0));
}

#[test]
fn frame_150_of_100_is_halfway_from_green_to_blue() {
    assert_eq!(interpolate(150, 100), rgb(0, 127, 127));
}

#[test]
fn frame_200_of_100_is_blue() {
    assert_eq!(interpolate(200, 100), rgb(0, 0, 255));
}

#[test]
fn frame_250_of_100_is_halfway_from_blue_to_red() {
    assert_eq!(interpolate(250, 100), rgb(127, 0, 127));
}

#[test]
fn frame_300_of_100_is_red_again() {
    assert_eq!(interpolate(300, 100), rgb(255, 0, 0));
}

#[test]
fn frame_bytes_follow_the_same_checkpoints() {
    assert_eq!(compute_frame_color(0, 100), Ok(vec![255, 0, 0]));
    assert_eq!(compute_frame_color(50, 100), Ok(vec![127, 127, 0]));
    assert_eq!(compute_frame_color(100, 100), Ok(vec![0, 255, 0]));
    assert_eq!(compute_frame_color(150, 100), Ok(vec![0, 127, 127]));
    assert_eq!(compute_frame_color(200, 100), Ok(vec![0, 0, 255]));
    assert_eq!(compute_frame_color(250, 100), Ok(vec![127, 0, 127]));
    assert_eq!(compute_frame_color(300, 100), Ok(vec![255, 0, 0]));
}

#[test]
fn frame_bytes_are_three() {
    for frame in 0..700u32 {
        let bytes = compute_frame_color(frame, 7).unwrap();
        assert_eq!(bytes.len(), 3);
    }
}
