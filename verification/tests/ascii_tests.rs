use ascii_webcam::ascii::{get_ascii_char, process_frame};
use ascii_webcam::frame::RawFrame;

/// A frame of the given size with every pixel the one colour `(b, g, r)`.
fn uniform_frame(width: usize, height: usize, b: u8, g: u8, r: u8) -> RawFrame {
    let mut data = Vec::with_capacity(3 * width * height);
    for _ in 0..width * height {
        data.push(b);
        data.push(g);
        data.push(r);
    }
    RawFrame::new(width, height, data).unwrap()
}

/// A 640x480 white frame with a solid black rectangle at x 200, y 100,
/// 240 pixels wide and 280 tall.
fn white_frame_with_black_rect() -> RawFrame {
    let mut data = vec![255u8; 640 * 480 * 3];
    for y in 100..380 {
        for x in 200..440 {
            let i = 3 * (y * 640 + x);
            data[i] = 0;
            data[i + 1] = 0;
            data[i + 2] = 0;
        }
    }
    RawFrame::new(640, 480, data).unwrap()
}

/// Position of a character on the ramp, lightest first.
fn ramp_position(c: char) -> usize {
    " .:-=+*#%@".find(c).expect("character is not on the ramp")
}

#[test]
fn test_process_frame() {
    let frame = white_frame_with_black_rect();

    let result = process_frame(&frame, 80, 24);
    assert!(result.is_ok(), "Process frame failed: {:?}", result.err());
    let ascii_frame = result.unwrap();
    assert!(!ascii_frame.is_empty());

    // Additional checks
    assert!(
        ascii_frame.contains(' '),
        "ASCII frame should contain spaces for white areas"
    );
    assert!(
        ascii_frame.contains('@') || ascii_frame.contains('#'),
        "ASCII frame should contain dark characters for the rectangle"
    );
}

#[test]
fn test_get_ascii_char() {
    assert_eq!(get_ascii_char(0), ' ');
}

#[test]
fn test_get_ascii_char_endpoints() {
    assert_eq!(get_ascii_char(0), ' ');
    assert_eq!(get_ascii_char(255), '@');
}

#[test]
fn test_get_ascii_char_monotone() {
    let mut previous = ramp_position(get_ascii_char(0));
    for v in 1..=255u8 {
        let current = ramp_position(get_ascii_char(v));
        assert!(
            current >= previous,
            "ramp position fell from {} to {} at value {}",
            previous,
            current,
            v
        );
        previous = current;
    }
    assert_eq!(previous, 9);
}

#[test]
fn test_transform_dimensions() {
    let frame = uniform_frame(640, 480, 17, 103, 211);
    let text = process_frame(&frame, 80, 24).unwrap();
    let rows: Vec<&str> = text.split('\n').collect();
    assert_eq!(rows.len(), 24);
    for row in rows {
        assert_eq!(row.chars().count(), 80);
    }
}

#[test]
fn test_transform_single_cell() {
    let frame = uniform_frame(640, 480, 255, 255, 255);
    let text = process_frame(&frame, 1, 1).unwrap();
    assert_eq!(text, "@");
}

#[test]
fn test_full_white_is_uniform_darkest() {
    // Full luminance lands on the last ramp entry, the densest character.
    let frame = uniform_frame(640, 480, 255, 255, 255);
    let text = process_frame(&frame, 80, 24).unwrap();
    for row in text.split('\n') {
        for c in row.chars() {
            assert_eq!(c, '@');
        }
    }
}

#[test]
fn test_full_black_is_uniform_lightest() {
    // Zero luminance lands on the first ramp entry, the space.
    let frame = uniform_frame(640, 480, 0, 0, 0);
    let text = process_frame(&frame, 80, 24).unwrap();
    for row in text.split('\n') {
        for c in row.chars() {
            assert_eq!(c, ' ');
        }
    }
}

#[test]
fn test_black_rect_on_white_has_both_ends() {
    let frame = white_frame_with_black_rect();
    let text = process_frame(&frame, 80, 24).unwrap();
    assert!(text.contains('@'), "white background should render darkest");
    assert!(text.contains(' '), "black rectangle should render lightest");
}

#[test]
fn test_process_frame_rejects_bad_input() {
    let frame = uniform_frame(4, 4, 9, 9, 9);
    assert!(process_frame(&frame, 0, 5).is_err());
    assert!(process_frame(&frame, 5, 0).is_err());
    assert!(process_frame(&frame, -3, 5).is_err());
    assert!(process_frame(&frame, 10001, 5).is_err());
    let empty = RawFrame::new(5, 0, Vec::new()).unwrap();
    assert!(process_frame(&empty, 8, 8).is_err());
}

#[test]
fn test_raw_frame_rejects_mismatched_buffer() {
    assert!(RawFrame::new(2, 2, vec![0u8; 11]).is_none());
    assert!(RawFrame::new(70000, 1, vec![0u8; 210000]).is_none());
    assert!(RawFrame::new(2, 2, vec![0u8; 12]).is_some());
}
