use capture_core::devices::is_camera_device_name;
use capture_core::devices::resolve_camera_index;
use capture_core::devices::resolve_screen_index;
use capture_core::devices::is_screen_device_name;
use capture_core::devices::parse_device_line;
use capture_core::devices::should_filter_window;
use capture_core::segments::build_padded_segments;
use capture_core::segments::Segment;
use capture_core::ExportManager;

#[test]
fn test_parse_device_line_camera() {
    let line = "[AVFoundation indev @ 0x7f8123456] [0] FaceTime HD Camera";
    assert_eq!(parse_device_line(line), Some((0, "FaceTime HD Camera".to_string())));
}

#[test]
fn test_parse_device_line_screen_with_padding() {
    let line = "[AVFoundation indev @ 0xdead] [ 2 ]   Capture screen 0  ";
    assert_eq!(parse_device_line(line), Some((2, "Capture screen 0".to_string())));
}

#[test]
fn test_parse_device_line_rejects_non_device_lines() {
    assert_eq!(parse_device_line("AVFoundation video devices:"), None);
    assert_eq!(parse_device_line("[only one bracket] rest"), None);
    assert_eq!(parse_device_line("[a] [not-a-number] Name"), None);
    assert_eq!(parse_device_line(""), None);
}

#[test]
fn test_device_name_classification() {
    assert!(is_screen_device_name("Capture screen 0"));
    assert!(is_screen_device_name("Studio Display"));
    assert!(!is_screen_device_name("FaceTime HD Camera"));

    assert!(is_camera_device_name("FaceTime HD Camera"));
    assert!(!is_camera_device_name("Capture screen 0"));
    assert!(!is_camera_device_name("Studio Display"));
}

#[test]
fn test_parse_resolution() {
    assert_eq!(capture_core::devices::parse_resolution("1920x1080"), Some((1920, 1080)));
    assert_eq!(capture_core::devices::parse_resolution(" 640 x 480 "), Some((640, 480)));
    assert_eq!(capture_core::devices::parse_resolution("1920x1080x3"), None);
    assert_eq!(capture_core::devices::parse_resolution("oops"), None);
    assert_eq!(capture_core::devices::parse_resolution("x1080"), None);
}

#[test]
fn test_should_filter_window() {
    // anything off the normal layer is filtered
    assert!(should_filter_window("Safari", "Page", 25));
    assert!(should_filter_window("Safari", "Page", -1));

    // system processes are filtered
    assert!(should_filter_window("Dock", "", 0));
    assert!(should_filter_window("Window Server", "anything", 0));

    // ordinary titled windows pass
    assert!(!should_filter_window("Safari", "Apple", 0));

    // untitled windows pass only for applications known to use them
    assert!(should_filter_window("Safari", "", 0));
    assert!(!should_filter_window("Finder", "", 0));
    assert!(!should_filter_window("iTerm2", "", 0));
}

#[test]
fn test_build_padded_segments_merges_overlaps() {
    let ranges = vec![(1000u64, 2000u64), (2500u64, 3000u64)];
    let segments = build_padded_segments(&ranges, 10000, 300);
    assert_eq!(segments, vec![Segment { start_ms: 700, end_ms: 3300 }]);
}

#[test]
fn test_build_padded_segments_keeps_separate_ranges() {
    let ranges = vec![(0u64, 100u64), (5000u64, 6000u64)];
    let segments = build_padded_segments(&ranges, 10000, 0);
    assert_eq!(
        segments,
        vec![
            Segment { start_ms: 0, end_ms: 100 },
            Segment { start_ms: 5000, end_ms: 6000 },
        ]
    );
}

#[test]
fn test_build_padded_segments_clips_to_duration() {
    let ranges = vec![(100u64, 200u64)];
    let segments = build_padded_segments(&ranges, 250, 150);
    assert_eq!(segments, vec![Segment { start_ms: 0, end_ms: 250 }]);
    assert!(build_padded_segments(&vec![], 250, 150).is_empty());
}

#[test]
fn test_resolve_screen_index() {
    let ids = vec!["0".to_string(), "3".to_string()];
    // a listed id is kept
    assert_eq!(resolve_screen_index(&ids, "3"), "3");
    // an unknown id falls back to the first listed screen
    assert_eq!(resolve_screen_index(&ids, "724042646"), "0");
    // with nothing listed the request stands
    assert_eq!(resolve_screen_index(&vec![], "7"), "7");
}

#[test]
fn test_resolve_camera_index() {
    let ids = vec!["2".to_string(), "5".to_string()];
    // a listed id is kept
    assert_eq!(resolve_camera_index(&ids, "5"), "5");
    // a plain index picks the camera at that position
    assert_eq!(resolve_camera_index(&ids, "1"), "5");
    // anything else falls back to the first listed camera
    assert_eq!(resolve_camera_index(&ids, "webcam-uuid"), "2");
    assert_eq!(resolve_camera_index(&ids, "9"), "2");
    // with nothing listed the request stands
    assert_eq!(resolve_camera_index(&vec![], "x"), "x");
}

#[test]
fn test_recorder_placeholders_construct() {
    let _audio = capture_core::AudioRecorder::new();
    let _camera = capture_core::CameraRecorder::new();
    let _screen = capture_core::ScreenRecorder::new();
}

#[test]
fn test_export_manager_guards() {
    let mut mgr = ExportManager::new();
    assert_eq!(mgr.request_cancel().unwrap_err(), "No export in progress");

    mgr.begin_export().unwrap();
    assert_eq!(mgr.begin_export().unwrap_err(), "Export already in progress");

    mgr.request_cancel().unwrap();
    assert!(mgr.cancel_requested);

    mgr.finish_export();
    assert!(!mgr.is_exporting);

    // a fresh export starts with a fresh cancel flag
    mgr.begin_export().unwrap();
    assert!(!mgr.cancel_requested);
}
