use oaat::web_ui::{
    device_switch_ok_body, render_status_json, requested_device, route, BridgeStatus, Route,
    DEVICE_SWITCH_ERROR_BODY,
};

#[test]
fn default_status() {
    let s = BridgeStatus::default();
    assert_eq!(s.bridge_name, "Tune Bridge");
    assert_eq!(s.volume, 100);
    assert!(!s.connected && !s.playing);
    assert!(s.available_devices.is_empty());
}

#[test]
fn status_json_of_the_default_status() {
    let s = BridgeStatus::default();
    assert_eq!(
        render_status_json(&s),
        format!(
            "{{\"bridge_name\":\"Tune Bridge\",\"version\":\"{}\",\"current_device\":\"\",\"available_devices\":[],\"connected\":false,\"controller_name\":null,\"playing\":false,\"volume\":100,\"track_title\":null,\"track_artist\":null,\"track_album\":null,\"artwork_url\":null,\"stream_format\":null,\"stream_sample_rate\":0,\"stream_bits\":0,\"stream_channels\":0}}",
            s.version
        )
    );
}

#[test]
fn status_json_escapes_quotes_and_lists_devices() {
    let mut s = BridgeStatus::default();
    s.bridge_name = "Den \"Hi-Fi\"".into();
    s.version = "1.2".into();
    s.current_device = "hw:1,0".into();
    s.available_devices = vec!["hw:0,0".into(), "USB \"DAC\"".into()];
    s.connected = true;
    s.controller_name = Some("Phone".into());
    s.playing = true;
    s.volume = 42;
    s.track_title = Some("So \"What\"".into());
    s.stream_format = Some("FLAC".into());
    s.stream_sample_rate = Some(96000);
    s.stream_bits = Some(24);
    s.stream_channels = Some(2);
    assert_eq!(
        render_status_json(&s),
        "{\"bridge_name\":\"Den \\\"Hi-Fi\\\"\",\"version\":\"1.2\",\"current_device\":\"hw:1,0\",\"available_devices\":[\"hw:0,0\",\"USB \\\"DAC\\\"\"],\"connected\":true,\"controller_name\":\"Phone\",\"playing\":true,\"volume\":42,\"track_title\":\"So \\\"What\\\"\",\"track_artist\":null,\"track_album\":null,\"artwork_url\":null,\"stream_format\":\"FLAC\",\"stream_sample_rate\":96000,\"stream_bits\":24,\"stream_channels\":2}"
    );
}

#[test]
fn routes() {
    assert_eq!(route("GET", "/"), Route::Page);
    assert_eq!(route("GET", "/index.html"), Route::Page);
    assert_eq!(route("GET", "/api/status"), Route::Status);
    assert_eq!(route("POST", "/api/device"), Route::SwitchDevice);
    assert_eq!(route("POST", "/api/status"), Route::NotFound);
    assert_eq!(route("GET", "/favicon.ico"), Route::NotFound);
}

#[test]
fn device_switch_requests() {
    assert_eq!(requested_device("{\"device\": \"hw:1,0\"}").as_deref(), Some("hw"));
    assert_eq!(requested_device("  {\"device\":\"USB DAC\"}\n").as_deref(), Some("USB DAC"));
    assert_eq!(requested_device("{\"device\": \"\"}"), None);
    assert_eq!(requested_device("{\"device\"}"), None);
    assert_eq!(requested_device("\"device\": \"x\""), None);
    assert_eq!(requested_device("{}"), None);
}

#[test]
fn device_switch_answers() {
    assert_eq!(device_switch_ok_body("USB DAC"), "{\"ok\":true,\"device\":\"USB DAC\"}");
    assert_eq!(DEVICE_SWITCH_ERROR_BODY, "{\"ok\":false,\"error\":\"missing device name\"}");
}
