use capture_core::MousePosition;
use capture_core::RecordingConfig;
use capture_core::RecordingManager;
use capture_core::RecordingState;
use capture_core::ZoomMarker;

fn config(path: &str) -> RecordingConfig {
    RecordingConfig {
        screen_id: Some("1".to_string()),
        mic_id: None,
        output_path: path.to_string(),
        screen_width: 1920,
        screen_height: 1080,
        screen_origin_x: 0,
        screen_origin_y: 0,
    }
}

#[test]
fn test_recording_lifecycle() {
    let mut mgr = RecordingManager::new();
    assert_eq!(mgr.state(), RecordingState::Idle);

    // pause from Idle fails and leaves the state at Idle
    assert_eq!(mgr.pause_recording().unwrap_err(), "Not currently recording");
    assert_eq!(mgr.state(), RecordingState::Idle);
    assert_eq!(mgr.resume_recording().unwrap_err(), "Not currently paused");
    assert_eq!(mgr.stop_recording(0).unwrap_err(), "No recording in progress");

    let path = mgr.start_recording(&config("/tmp/out.mp4")).unwrap();
    assert_eq!(path, "/tmp/out.mp4");
    assert_eq!(mgr.state(), RecordingState::Recording);

    // a second start without an intervening stop fails without effect
    assert_eq!(
        mgr.start_recording(&config("/tmp/other.mp4")).unwrap_err(),
        "Recording is already in progress"
    );
    assert_eq!(mgr.state(), RecordingState::Recording);

    mgr.pause_recording().unwrap();
    assert_eq!(mgr.state(), RecordingState::Paused);
    assert_eq!(mgr.pause_recording().unwrap_err(), "Not currently recording");
    mgr.resume_recording().unwrap();
    assert_eq!(mgr.state(), RecordingState::Recording);

    let outcome = mgr.stop_recording(5000).unwrap();
    assert_eq!(outcome.output_path, "/tmp/out.mp4");
    assert_eq!(mgr.state(), RecordingState::Idle);
    assert_eq!(mgr.stop_recording(5000).unwrap_err(), "No recording in progress");
}

#[test]
fn test_stop_from_paused_completes() {
    let mut mgr = RecordingManager::new();
    mgr.start_recording(&config("/tmp/p.mp4")).unwrap();
    mgr.pause_recording().unwrap();
    let outcome = mgr.stop_recording(1234).unwrap();
    assert_eq!(outcome.output_path, "/tmp/p.mp4");
    assert_eq!(mgr.state(), RecordingState::Idle);
}

#[test]
fn test_toggle_zoom_round_trip() {
    let mut mgr = RecordingManager::new();
    mgr.start_recording(&config("/tmp/z.mp4")).unwrap();

    // zoom in at the screen center
    let marker = mgr.toggle_zoom(200, 100, 960, 540).unwrap().unwrap();
    assert_eq!(
        marker,
        ZoomMarker { start_ms: 100, end_ms: 0, x_centi: 5000, y_centi: 5000, scale_centi: 200 }
    );

    // zoom out closes the marker
    assert!(mgr.toggle_zoom(200, 600, 960, 540).unwrap().is_none());

    let outcome = mgr.stop_recording(1000).unwrap();
    assert_eq!(outcome.markers.len(), 1);
    assert_eq!(
        outcome.markers[0],
        ZoomMarker { start_ms: 100, end_ms: 600, x_centi: 5000, y_centi: 5000, scale_centi: 200 }
    );
    assert!(outcome.markers[0].end_ms > outcome.markers[0].start_ms);
}

#[test]
fn test_toggle_then_stop_closes_marker_at_stop_time() {
    let mut mgr = RecordingManager::new();
    mgr.start_recording(&config("/tmp/z2.mp4")).unwrap();
    mgr.toggle_zoom(200, 100, 0, 0).unwrap();

    let outcome = mgr.stop_recording(600).unwrap();
    assert_eq!(outcome.markers.len(), 1);
    assert_eq!(outcome.markers[0].start_ms, 100);
    assert_eq!(outcome.markers[0].end_ms, 600);
}

#[test]
fn test_zero_duration_marker_is_dropped() {
    let mut mgr = RecordingManager::new();
    mgr.start_recording(&config("/tmp/z3.mp4")).unwrap();
    mgr.toggle_zoom(200, 100, 0, 0).unwrap();
    mgr.toggle_zoom(200, 100, 0, 0).unwrap();
    let outcome = mgr.stop_recording(500).unwrap();
    assert!(outcome.markers.is_empty());
}

#[test]
fn test_toggle_zoom_requires_recording() {
    let mut mgr = RecordingManager::new();
    assert_eq!(mgr.toggle_zoom(200, 0, 0, 0).unwrap_err(), "Not currently recording");

    mgr.start_recording(&config("/tmp/z4.mp4")).unwrap();
    mgr.pause_recording().unwrap();
    assert_eq!(mgr.toggle_zoom(200, 0, 0, 0).unwrap_err(), "Not currently recording");
}

#[test]
fn test_toggle_zoom_clamps_pointer_to_screen() {
    let mut mgr = RecordingManager::new();
    let mut cfg = config("/tmp/z5.mp4");
    cfg.screen_width = 100;
    cfg.screen_height = 100;
    cfg.screen_origin_x = 50;
    cfg.screen_origin_y = 50;
    mgr.start_recording(&cfg).unwrap();

    // left of the recorded screen: clamped to 0
    let m1 = mgr.toggle_zoom(200, 10, 25, 25).unwrap().unwrap();
    assert_eq!((m1.x_centi, m1.y_centi), (0, 0));
    mgr.toggle_zoom(200, 20, 0, 0).unwrap();

    // beyond the far edge: clamped to 10000
    let m2 = mgr.toggle_zoom(200, 30, 500, 500).unwrap().unwrap();
    assert_eq!((m2.x_centi, m2.y_centi), (10000, 10000));
    mgr.toggle_zoom(200, 40, 0, 0).unwrap();

    // a quarter of the way in
    let m3 = mgr.toggle_zoom(200, 50, 75, 75).unwrap().unwrap();
    assert_eq!((m3.x_centi, m3.y_centi), (2500, 2500));
}

#[test]
fn test_cursor_samples_survive_to_stop() {
    let mut mgr = RecordingManager::new();

    // outside a session there is no tracker and the sample is dropped
    mgr.record_cursor_sample(1, 1, 1);

    mgr.start_recording(&config("/tmp/m.mp4")).unwrap();
    mgr.record_cursor_sample(5, 6, 7);
    mgr.record_cursor_sample(-3, 4, 23);

    let outcome = mgr.stop_recording(100).unwrap();
    assert_eq!(
        outcome.samples,
        vec![
            MousePosition { x: 5, y: 6, timestamp_ms: 7 },
            MousePosition { x: -3, y: 4, timestamp_ms: 23 },
        ]
    );
}

#[test]
fn test_start_resets_zoom_timeline() {
    let mut mgr = RecordingManager::new();
    mgr.start_recording(&config("/tmp/a.mp4")).unwrap();
    mgr.toggle_zoom(200, 10, 0, 0).unwrap();
    mgr.stop_recording(100).unwrap();

    mgr.start_recording(&config("/tmp/b.mp4")).unwrap();
    let outcome = mgr.stop_recording(50).unwrap();
    assert!(outcome.markers.is_empty());
    assert!(outcome.samples.is_empty());
}
