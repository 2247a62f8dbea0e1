use pigauge::obd::Reading;
use pigauge::snapshot::ObdSnapshot;
use pigauge::ui::{content_type, content_type_for_path, request_path, text_equals, UiConfig};

fn config(fps: u32, port: u16) -> UiConfig {
    UiConfig {
        obd_dev: "/dev/ttyUSB0".to_string(),
        obd_baud: 38400,
        fps,
        poll_interval_ms: 200,
        port,
        web_dir: "web".to_string(),
    }
}

#[test]
fn empty_snapshot_is_default() {
    let s = ObdSnapshot::default();
    assert_eq!(s, ObdSnapshot::empty());
    assert_eq!(s.rpm, None);
    assert_eq!(s.last_ok, None);
    assert!(!s.connected);
}

#[test]
fn recording_sets_one_value_and_marks_live() {
    let mut s = ObdSnapshot::empty();
    s.record(Reading::SpeedKph(50), 100);
    assert_eq!(s.speed_kph, Some(50));
    assert_eq!(s.rpm, None);
    assert_eq!(s.last_ok, Some(100));
    assert!(s.connected);
    s.record(Reading::CoolantC(-40), 130);
    s.record(Reading::ThrottlePct(12), 160);
    s.record(Reading::Rpm(900), 190);
    s.record(Reading::BatteryBits(12.5f32.to_bits()), 220);
    assert_eq!(s.coolant_c, Some(-40));
    assert_eq!(s.throttle_pct, Some(12));
    assert_eq!(s.rpm, Some(900));
    assert_eq!(s.battery_v_bits.map(f32::from_bits), Some(12.5));
    assert_eq!(s.last_ok, Some(220));
}

#[test]
fn stale_snapshot_sent_disconnected() {
    let mut s = ObdSnapshot::empty();
    s.record(Reading::Rpm(900), 1000);
    assert!(s.for_client(3000).connected);
    assert!(!s.for_client(3001).connected);
    assert_eq!(s.for_client(3001).rpm, Some(900));
    // A clock that reads earlier than the reading counts as fresh.
    assert!(s.for_client(500).connected);
    assert_eq!(ObdSnapshot::empty().for_client(100_000), ObdSnapshot::empty());
}

#[test]
fn clear_keeps_reading_time() {
    let mut s = ObdSnapshot::empty();
    s.record(Reading::Rpm(900), 1000);
    s.clear_readings();
    assert_eq!(s.rpm, None);
    assert!(!s.connected);
    assert_eq!(s.last_ok, Some(1000));
}

#[test]
fn frame_interval_from_fps() {
    assert_eq!(config(30, 8080).frame_interval_ms(), 33);
    assert_eq!(config(0, 8080).frame_interval_ms(), 1000);
    assert_eq!(config(1, 8080).frame_interval_ms(), 1000);
    assert_eq!(config(60, 8080).frame_interval_ms(), 16);
    assert_eq!(config(120, 8080).frame_interval_ms(), 16);
    assert_eq!(config(62, 8080).frame_interval_ms(), 16);
    assert_eq!(config(50, 8080).frame_interval_ms(), 20);
}

#[test]
fn ws_port_follows_http_port() {
    assert_eq!(config(30, 8080).ws_port(), 8081);
    assert_eq!(config(30, 65534).ws_port(), 65535);
}

#[test]
fn obd_config_for_dashboard() {
    let c = config(30, 8080).obd_config();
    assert_eq!(c.dev, "/dev/ttyUSB0");
    assert_eq!(c.baud, 38400);
    assert_eq!(c.timeout_ms, 120);
}

#[test]
fn request_paths() {
    assert_eq!(request_path("/"), "index.html");
    assert_eq!(request_path("/app.js"), "app.js");
    assert_eq!(request_path("//style.css"), "style.css");
    assert_eq!(request_path("/car_facing_right/idle.png"), "car_facing_right/idle.png");
    assert_eq!(request_path(""), "");
}

#[test]
fn content_types() {
    assert_eq!(content_type(Some("html")), "text/html; charset=utf-8");
    assert_eq!(content_type(Some("css")), "text/css; charset=utf-8");
    assert_eq!(content_type(Some("js")), "application/javascript; charset=utf-8");
    assert_eq!(content_type(Some("json")), "application/json");
    assert_eq!(content_type(Some("png")), "image/png");
    assert_eq!(content_type(Some("svg")), "image/svg+xml");
    assert_eq!(content_type(Some("ico")), "image/x-icon");
    assert_eq!(content_type(Some("mp4")), "video/mp4");
    assert_eq!(content_type(Some("webm")), "video/webm");
    assert_eq!(content_type(Some("HTML")), "application/octet-stream");
    assert_eq!(content_type(None), "application/octet-stream");
}

#[test]
fn content_type_by_path_extension() {
    assert_eq!(content_type_for_path("web/index.html"), "text/html; charset=utf-8");
    assert_eq!(content_type_for_path("web/scene.js"), "application/javascript; charset=utf-8");
    assert_eq!(content_type_for_path("web/a.b/Makefile"), "application/octet-stream");
    assert_eq!(content_type_for_path("web/.png"), "application/octet-stream");
    assert_eq!(content_type_for_path("web/x.tar.webm"), "video/webm");
}

#[test]
fn text_equality() {
    assert!(text_equals("abc", "abc"));
    assert!(!text_equals("abc", "abd"));
    assert!(!text_equals("ab", "abc"));
    assert!(text_equals("", ""));
}
