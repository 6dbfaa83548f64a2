use ascii_webcam::app::App;
use ascii_webcam::frame::RawFrame;

/// A 640x480 white frame with a solid black rectangle at x 200, y 100,
/// 240 pixels wide and 280 tall.
fn white_frame_with_black_rect() -> RawFrame {
    let mut data = vec![255u8; 640 * 480 * 3];
    for y in 100..380 {
        for x in 200..440 {
            let i = 3 * (y * 640 + x);
            data[i] = 0;
            data[i + 1] = 0;
            data[i + 2] = 0;
        }
    }
    RawFrame::new(640, 480, data).unwrap()
}

#[test]
fn test_app_creation() {
    let app = App::new();
    assert_eq!(app.ascii_frame, "");
    assert_eq!(app.fps_milli, 0);
    assert!(!app.show_help);
}

#[test]
fn test_app_update() {
    let mut app = App::new();

    let frame = white_frame_with_black_rect();

    let result = app.update(&frame, 80, 24);
    assert!(result.is_ok(), "App update failed: {:?}", result.err());
    assert!(!app.ascii_frame.is_empty());
}

#[test]
fn test_app_toggle_help() {
    let mut app = App::new();
    assert!(!app.show_help);
    app.toggle_help();
    assert!(app.show_help);
    app.toggle_help();
    assert!(!app.show_help);
}

#[test]
fn test_app_update_rejects_bad_target() {
    let mut app = App::new();
    let frame = RawFrame::new(2, 2, vec![128u8; 12]).unwrap();
    let result = app.update(&frame, 0, 24);
    assert!(result.is_err());
    assert_eq!(app.ascii_frame, "");
    let result = app.update(&frame, 80, -1);
    assert!(result.is_err());
    assert_eq!(app.ascii_frame, "");
}

#[test]
fn test_app_update_rejects_empty_frame() {
    let mut app = App::new();
    let frame = RawFrame::new(0, 0, Vec::new()).unwrap();
    let result = app.update(&frame, 80, 24);
    assert!(result.is_err());
    assert_eq!(app.ascii_frame, "");
}
