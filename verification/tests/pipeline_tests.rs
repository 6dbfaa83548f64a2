use ascii_webcam::app::App;
use ascii_webcam::frame::RawFrame;
use ascii_webcam::pipeline::{
    map_key, FrameQueue, PipelineCommand, Scheduler, FRAME_QUEUE_CAPACITY, FPS_WINDOW_CAPACITY,
    TARGET_FPS,
};

fn tiny_frame(shade: u8) -> RawFrame {
    RawFrame::new(1, 1, vec![shade, shade, shade]).unwrap()
}

#[test]
fn test_map_key() {
    assert_eq!(map_key('q'), Some(PipelineCommand::Quit));
    assert_eq!(map_key('?'), Some(PipelineCommand::ToggleHelp));
    assert_eq!(map_key('x'), None);
    assert_eq!(map_key('Q'), None);
}

#[test]
fn test_quit_stops_the_loop() {
    // A quit received mid-cycle terminates the loop at once: the driver
    // consults the scheduler before every capture, so none follows.
    let mut scheduler = Scheduler::new(TARGET_FPS, FPS_WINDOW_CAPACITY);
    let mut app = App::new();
    assert!(scheduler.is_running());
    scheduler.handle_key(&mut app, 'q');
    assert!(!scheduler.is_running());
    scheduler.handle_key(&mut app, '?');
    assert!(!scheduler.is_running());
}

#[test]
fn test_other_keys_keep_running() {
    let mut scheduler = Scheduler::new(TARGET_FPS, FPS_WINDOW_CAPACITY);
    let mut app = App::new();
    scheduler.handle_key(&mut app, 'a');
    assert!(scheduler.is_running());
    assert!(!app.show_help);
}

#[test]
fn test_toggle_help_twice_restores_state() {
    let mut scheduler = Scheduler::new(TARGET_FPS, FPS_WINDOW_CAPACITY);
    let mut app = App::new();
    let before = app.show_help;
    scheduler.handle_key(&mut app, '?');
    assert_eq!(app.show_help, !before);
    scheduler.handle_key(&mut app, '?');
    assert_eq!(app.show_help, before);
    assert!(scheduler.is_running());
}

#[test]
fn test_finish_frame_paces_and_rates() {
    // A window of one slot makes the smoothed rate track the last frame.
    let mut scheduler = Scheduler::new(30, 1);
    let mut app = App::new();
    let sleep = scheduler.finish_frame(&mut app, 0);
    assert_eq!(sleep, 33_333_333);
    // 50 ms per frame is 20 frames per second.
    let sleep = scheduler.finish_frame(&mut app, 50_000_000);
    assert_eq!(sleep, 0);
    assert_eq!(app.fps_milli, 20_000);
}

#[test]
fn test_frame_queue_bound_and_order() {
    let mut queue = FrameQueue::new(FRAME_QUEUE_CAPACITY);
    assert_eq!(queue.len(), 0);
    assert!(queue.try_push(tiny_frame(1)).is_none());
    assert!(queue.try_push(tiny_frame(2)).is_none());
    assert_eq!(queue.len(), 2);
    // The queue is full: the third frame is refused and handed back,
    // never held, so the queue never exceeds its bound of two.
    let refused = queue.try_push(tiny_frame(3));
    assert!(refused.is_some());
    assert_eq!(refused.unwrap().data[0], 3);
    assert_eq!(queue.len(), 2);
    // Delivery is first-in first-out.
    let first = queue.pop().unwrap();
    assert_eq!(first.data[0], 1);
    let second = queue.pop().unwrap();
    assert_eq!(second.data[0], 2);
    assert!(queue.pop().is_none());
}
