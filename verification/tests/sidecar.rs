use capture_core::sidecar::parse_mouse_samples;
use capture_core::sidecar::read_zoom_markers;
use capture_core::sidecar::write_mouse_samples;
use capture_core::sidecar::write_zoom_markers;
use capture_core::MousePosition;
use capture_core::ZoomMarker;

#[test]
fn test_read_zoom_markers_legacy_schema() {
    let json = r#"[{"x":1,"y":2,"timestamp_ms":100,"scale":2.0,"duration_ms":500}]"#;
    let markers = read_zoom_markers(json);
    assert_eq!(
        markers,
        vec![ZoomMarker { start_ms: 100, end_ms: 600, x_centi: 100, y_centi: 200, scale_centi: 200 }]
    );
}

#[test]
fn test_read_zoom_markers_current_schema() {
    let json = r#"[{"start_ms":5,"end_ms":10,"x":1.25,"y":0.5,"scale":3.00}]"#;
    let markers = read_zoom_markers(json);
    assert_eq!(
        markers,
        vec![ZoomMarker { start_ms: 5, end_ms: 10, x_centi: 125, y_centi: 50, scale_centi: 300 }]
    );
}

#[test]
fn test_read_zoom_markers_tolerates_whitespace() {
    let json = "[\n  {\n    \"start_ms\": 1,\n    \"end_ms\": 2,\n    \"x\": 0.0,\n    \"y\": 0.0,\n    \"scale\": 2.0\n  },\n  {\n    \"start_ms\": 7,\n    \"end_ms\": 9,\n    \"x\": 12.5,\n    \"y\": 50.0,\n    \"scale\": 1.5\n  }\n]\n";
    let markers = read_zoom_markers(json);
    assert_eq!(markers.len(), 2);
    assert_eq!(
        markers[1],
        ZoomMarker { start_ms: 7, end_ms: 9, x_centi: 1250, y_centi: 5000, scale_centi: 150 }
    );
}

#[test]
fn test_read_zoom_markers_absent_data_is_not_an_error() {
    assert!(read_zoom_markers("").is_empty());
    assert!(read_zoom_markers("[]").is_empty());
    assert!(read_zoom_markers("not json at all").is_empty());
    assert!(read_zoom_markers(r#"[{"start_ms":1}]"#).is_empty());
    // trailing garbage after the array rejects the document
    assert!(read_zoom_markers(r#"[{"start_ms":1,"end_ms":2,"x":0,"y":0,"scale":2}]x"#).is_empty());
}

#[test]
fn test_write_zoom_markers_exact_text() {
    let markers = vec![ZoomMarker {
        start_ms: 1,
        end_ms: 2,
        x_centi: 100,
        y_centi: 200,
        scale_centi: 250,
    }];
    let text = write_zoom_markers(&markers);
    assert_eq!(text, r#"[{"start_ms":1,"end_ms":2,"x":1.00,"y":2.00,"scale":2.50}]"#);
    assert_eq!(write_zoom_markers(&vec![]), "[]");
}

#[test]
fn test_zoom_markers_round_trip() {
    let markers = vec![
        ZoomMarker { start_ms: 0, end_ms: 1500, x_centi: 0, y_centi: 10000, scale_centi: 200 },
        ZoomMarker { start_ms: 2000, end_ms: 2001, x_centi: 4242, y_centi: 7, scale_centi: 125 },
    ];
    let text = write_zoom_markers(&markers);
    assert_eq!(read_zoom_markers(&text), markers);
}

#[test]
fn test_write_mouse_samples_exact_text() {
    let samples = vec![MousePosition { x: -5, y: 3, timestamp_ms: 16 }];
    assert_eq!(write_mouse_samples(&samples), r#"[{"x":-5,"y":3,"timestamp_ms":16}]"#);
    assert_eq!(write_mouse_samples(&vec![]), "[]");
}

#[test]
fn test_mouse_samples_round_trip() {
    let samples = vec![
        MousePosition { x: 0, y: 0, timestamp_ms: 0 },
        MousePosition { x: -1920, y: 1080, timestamp_ms: 16 },
        MousePosition { x: 250, y: -3, timestamp_ms: 33 },
    ];
    let text = write_mouse_samples(&samples);
    assert_eq!(parse_mouse_samples(&text), Some(samples));
}

#[test]
fn test_parse_mouse_samples_truncates_fractions() {
    let json = r#"[{"x":12.75,"y":-3.5,"timestamp_ms":100}]"#;
    assert_eq!(
        parse_mouse_samples(json),
        Some(vec![MousePosition { x: 12, y: -3, timestamp_ms: 100 }])
    );
}

#[test]
fn test_parse_mouse_samples_rejects_malformed_text() {
    assert_eq!(parse_mouse_samples("oops"), None);
    assert_eq!(parse_mouse_samples(r#"[{"x":1}]"#), None);
    assert_eq!(parse_mouse_samples(""), None);
    assert_eq!(parse_mouse_samples("[]"), Some(vec![]));
}
