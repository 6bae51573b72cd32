use capture_core::frame::FrameData;
use capture_core::manager::get_capture_capabilities;
use capture_core::session::frame_interval_ms;
use capture_core::session::pacing_sleep_ms;
use capture_core::CaptureManager;
use capture_core::CaptureSession;
use capture_core::FrameBuffer;
use capture_core::SourceType;

#[test]
fn test_frame_buffer() {
    let mut buffer = FrameBuffer::new();
    assert!(buffer.get_frame().is_none());
    assert_eq!(buffer.frame_count(), 0);

    buffer.store_frame(FrameData {
        jpeg_base64: "test".to_string(),
        timestamp: 12345,
        width: 100,
        height: 100,
    });

    assert!(buffer.get_frame().is_some());
    assert_eq!(buffer.frame_count(), 1);
}

#[test]
fn test_capture_manager() {
    let manager = CaptureManager::new();
    assert!(manager.active_sources().is_empty());
}

#[test]
fn test_frame_buffer_latest_wins() {
    let mut buffer = FrameBuffer::new();
    for ts in 1..=3u64 {
        buffer.store_frame(FrameData {
            jpeg_base64: format!("frame{}", ts),
            timestamp: ts,
            width: 10,
            height: 10,
        });
    }
    let latest = buffer.get_frame().unwrap();
    assert_eq!(latest.jpeg_base64, "frame3");
    assert_eq!(latest.timestamp, 3);
    assert_eq!(buffer.frame_count(), 3);
}

#[test]
fn test_session_tick_stores_encoded_frame() {
    let mut session = CaptureSession::new_window("win".to_string(), 7, 30, 640, 480).unwrap();
    session.start().unwrap();
    assert!(session.is_running());

    session.tick(Some(b"Man".to_vec()), 42);
    let frame = session.get_frame().unwrap();
    // base64 of the bytes "Man"
    assert_eq!(frame.jpeg_base64, "TWFu");
    assert_eq!(frame.timestamp, 42);
    assert_eq!(frame.width, 640);
    assert_eq!(frame.height, 480);
    assert_eq!(session.frame_count(), 1);

    // a failed capture is absorbed: nothing stored, nothing changed
    session.tick(None, 43);
    assert_eq!(session.frame_count(), 1);
    assert_eq!(session.get_frame().unwrap().timestamp, 42);
}

#[test]
fn test_session_start_idempotent() {
    let mut session = CaptureSession::new_screen("scr".to_string(), 1, 15, 1280, 720).unwrap();
    session.start().unwrap();
    session.tick(Some(vec![1, 2, 3]), 1);
    session.start().unwrap();
    assert!(session.is_running());
    assert_eq!(session.frame_count(), 1);
    session.stop().unwrap();
    assert!(!session.is_running());
}

#[test]
fn test_pacing_one_second_at_30fps() {
    // a capture double that always succeeds instantly: one tick per interval
    let mut session = CaptureSession::new_screen("scr".to_string(), 1, 30, 320, 200).unwrap();
    session.start().unwrap();
    let interval = frame_interval_ms(30);
    assert_eq!(interval, 33);

    let mut now: u64 = 0;
    while now < 1000 {
        session.tick(Some(vec![0u8; 8]), now);
        // the capture itself took no time, so the loop sleeps a full interval
        let sleep = pacing_sleep_ms(interval, 0);
        assert_eq!(sleep, interval);
        now += sleep;
    }
    let count = session.frame_count();
    assert!((29..=31).contains(&count), "frame count {} not within 30 +/- 1", count);
}

#[test]
fn test_pacing_slow_capture_does_not_sleep() {
    assert_eq!(pacing_sleep_ms(33, 50), 0);
    assert_eq!(pacing_sleep_ms(33, 33), 0);
    assert_eq!(pacing_sleep_ms(33, 10), 23);
}

#[test]
fn test_start_capture_twice_keeps_single_loop() {
    let mut manager = CaptureManager::new();
    manager
        .start_capture("src".to_string(), SourceType::Screen, 1, Some(30), None, None)
        .unwrap();
    assert!(manager.is_capturing("src"));

    manager.tick_session("src", Some(vec![9u8]), 5);
    assert_eq!(manager.frame_count("src"), 1);

    // a second start for the same still-running id changes nothing
    manager
        .start_capture("src".to_string(), SourceType::Screen, 1, Some(30), None, None)
        .unwrap();
    assert_eq!(manager.frame_count("src"), 1);
    assert_eq!(manager.active_sources(), vec!["src".to_string()]);
}

#[test]
fn test_stop_capture_then_get_frame_is_none() {
    let mut manager = CaptureManager::new();
    manager
        .start_capture("cam".to_string(), SourceType::Window, 3, None, None, None)
        .unwrap();
    manager.tick_session("cam", Some(vec![1u8, 2u8]), 10);
    assert!(manager.get_frame("cam").is_some());

    manager.stop_capture("cam").unwrap();
    assert!(manager.get_frame("cam").is_none());
    assert_eq!(manager.frame_count("cam"), 0);
    assert!(!manager.is_capturing("cam"));

    // stopping an unknown id is a no-op success
    manager.stop_capture("cam").unwrap();
    manager.stop_capture("never-started").unwrap();
}

#[test]
fn test_stop_all_detaches_everything() {
    let mut manager = CaptureManager::new();
    manager
        .start_capture("a".to_string(), SourceType::Screen, 1, None, None, None)
        .unwrap();
    manager
        .start_capture("b".to_string(), SourceType::Window, 2, None, None, None)
        .unwrap();
    assert_eq!(manager.active_sources().len(), 2);

    manager.stop_all().unwrap();
    assert!(manager.active_sources().is_empty());
    assert!(manager.get_frame("a").is_none());
    assert!(manager.get_frame("b").is_none());
}

#[test]
fn test_manager_rate_policy() {
    let mut manager = CaptureManager::new();
    // requested rate is clamped to the maximum of 30
    manager
        .start_capture("fast".to_string(), SourceType::Screen, 1, Some(100), None, None)
        .unwrap();
    assert_eq!(manager.tick_session("fast", None, 0), Some(33));

    // an omitted rate takes the default of 15
    manager
        .start_capture("dflt".to_string(), SourceType::Screen, 2, None, None, None)
        .unwrap();
    assert_eq!(manager.tick_session("dflt", None, 0), Some(66));

    // an unknown or stopped id ends its loop
    assert_eq!(manager.tick_session("gone", None, 0), None);
}

#[test]
fn test_get_frame_payload_fields() {
    let mut manager = CaptureManager::new();
    manager
        .start_capture("s".to_string(), SourceType::Screen, 1, Some(30), Some(800), Some(600))
        .unwrap();
    assert!(manager.get_frame("s").is_none());

    manager.tick_session("s", Some(b"Ma".to_vec()), 77);
    let payload = manager.get_frame("s").unwrap();
    assert_eq!(payload.source_id, "s");
    assert_eq!(payload.frame_base64, "TWE=");
    assert_eq!(payload.timestamp, 77);
    assert_eq!(payload.width, 800);
    assert_eq!(payload.height, 600);
}

#[test]
fn test_capture_capabilities() {
    let caps = get_capture_capabilities();
    assert!(caps.streaming);
    assert!(caps.window_capture);
    assert!(caps.screen_capture);
    assert_eq!(caps.max_fps, 30);
}
