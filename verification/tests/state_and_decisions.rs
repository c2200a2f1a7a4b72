use webkeylayer_backend::config::{Config, ConfigManager, NetworkConfig};
use webkeylayer_backend::keyboard_hook::{decode_keyboard_hook, keyboard_message_pressed_state, process_key_event, KeyboardEvent};
use webkeylayer_backend::mouse_hook::{
    decode_mouse_hook, high_word, mouse_button_event, mouse_wheel_delta, x_button_code, MouseDirection,
    MouseEvent, MouseEventProcessor, MouseMotionEvent, MouseState,
};
use webkeylayer_backend::ui::json_value::{get_member, merge_json_object, JsonValue};
use webkeylayer_backend::ui::tray::{
    admin_request, admin_url, create_tray_icon_rgba, logs_url, service_label, service_running_from_response,
    stream_url_from_response, toggle_endpoint, toggle_outcome, tray_effect, tray_icon_color, tray_tooltip,
    TrayAction, TrayEffect,
};
use webkeylayer_backend::ui::webview::WebViewHost;
use webkeylayer_backend::websocket_server::BroadcastEvent;
use webkeylayer_backend::{Error, KeyboardState, APP_NAME, VERSION};

#[test]
fn repeated_key_transitions_are_dropped() {
    let mut state = KeyboardState::new();
    let down = KeyboardEvent { keycode: 87, pressed: true };
    assert_eq!(process_key_event(&mut state, down), Some(BroadcastEvent::Key { keycode: 87, pressed: true }));
    assert_eq!(process_key_event(&mut state, down), None);
    assert!(state.is_pressed(87));
    let up = KeyboardEvent { keycode: 87, pressed: false };
    assert_eq!(process_key_event(&mut state, up), Some(BroadcastEvent::Key { keycode: 87, pressed: false }));
    assert_eq!(process_key_event(&mut state, up), None);
    assert!(!state.is_pressed(87));
    assert!(!KeyboardState::default().is_pressed(1));
}

#[test]
fn keyboard_hook_calls_decode_to_transitions() {
    assert_eq!(keyboard_message_pressed_state(0x0100), Some(true));
    assert_eq!(keyboard_message_pressed_state(0x0104), Some(true));
    assert_eq!(keyboard_message_pressed_state(0x0101), Some(false));
    assert_eq!(keyboard_message_pressed_state(0x0105), Some(false));
    assert_eq!(keyboard_message_pressed_state(0x0200), None);
    assert_eq!(decode_keyboard_hook(0, 0x0100, 0x41), Some(KeyboardEvent { keycode: 0x41, pressed: true }));
    assert_eq!(decode_keyboard_hook(0, 0x0101, 0x1_0041), Some(KeyboardEvent { keycode: 0x41, pressed: false }));
    assert_eq!(decode_keyboard_hook(1, 0x0100, 0x41), None);
}

#[test]
fn mouse_hook_calls_decode_buttons_wheel_and_moves() {
    assert_eq!(high_word(0x0078_0000), 0x78);
    assert_eq!(mouse_wheel_delta(0x0078_0000), 120);
    assert_eq!(mouse_wheel_delta(0xFF88_0000), -120);
    assert_eq!(x_button_code(0x0001_0000), Some(4));
    assert_eq!(x_button_code(0x0002_0000), Some(5));
    assert_eq!(x_button_code(0x0003_0000), None);
    assert_eq!(mouse_button_event(0x0201, 0), Some((1, true)));
    assert_eq!(mouse_button_event(0x0205, 0), Some((2, false)));
    assert_eq!(mouse_button_event(0x0207, 0), Some((3, true)));
    assert_eq!(mouse_button_event(0x020C, 0x0002_0000), Some((5, false)));
    assert_eq!(mouse_button_event(0x0200, 0), None);
    assert_eq!(decode_mouse_hook(0, 0x0200, 5, 6, 0), Some(MouseEvent::Move { x: 5, y: 6 }));
    assert_eq!(decode_mouse_hook(0, 0x020A, 5, 6, 0xFF88_0000), Some(MouseEvent::Wheel { delta: -120, x: 5, y: 6 }));
    assert_eq!(
        decode_mouse_hook(0, 0x0204, 5, 6, 0),
        Some(MouseEvent::Button { button: 2, pressed: true, x: 5, y: 6 })
    );
    assert_eq!(decode_mouse_hook(1, 0x0200, 5, 6, 0), None);
}

#[test]
fn direction_names_follow_the_protocol() {
    assert_eq!(MouseDirection::Up.as_str(), "up");
    assert_eq!(MouseDirection::DownRight.as_str(), "down_right");
    assert_eq!(MouseDirection::Idle.as_str(), "idle");
    assert_eq!(MouseDirection::from_delta_with_previous(10, 5, Some(MouseDirection::Right)), MouseDirection::Right);
    assert_eq!(MouseDirection::from_delta_with_previous(10, 5, None), MouseDirection::DownRight);
    assert_eq!(MouseDirection::from_delta_with_previous(10, 5, Some(MouseDirection::DownRight)), MouseDirection::DownRight);
    assert_eq!(MouseDirection::from_delta_with_previous(0, 0, Some(MouseDirection::Up)), MouseDirection::Idle);
}

#[test]
fn idle_is_reported_once_and_directions_are_not_repeated() {
    let mut state = MouseState::new();
    assert_eq!(state.process_sample(0, 0), None);
    assert_eq!(state.process_sample(0, 0), Some(MouseMotionEvent::Idle));
    assert_eq!(state.process_sample(0, 0), None);
    assert_eq!(
        state.process_sample(0, -10),
        Some(MouseMotionEvent::DirectionChanged { dx: 0, dy: -10, direction: MouseDirection::Up })
    );
    assert_eq!(state.process_sample(1, -20), None);
    assert!(state.sample_fits(1, -20));
    state.clear();
    assert_eq!(state.process_sample(7, 7), None);
}

#[test]
fn mouse_buttons_broadcast_only_changes() {
    let mut state = MouseState::new();
    let mut processor = MouseEventProcessor::new();
    let press = MouseEvent::Button { button: 1, pressed: true, x: 3, y: 4 };
    assert_eq!(
        processor.on_event(&mut state, press),
        Some(BroadcastEvent::MouseButton { button: 1, pressed: true, x: 3, y: 4 })
    );
    assert_eq!(processor.on_event(&mut state, press), None);
    assert!(state.is_pressed(1));
    assert_eq!(processor.latest_position, Some((3, 4)));
    assert_eq!(
        processor.on_event(&mut state, MouseEvent::Wheel { delta: 120, x: 9, y: 9 }),
        Some(BroadcastEvent::MouseWheel { delta: 120, x: 9, y: 9 })
    );
    assert_eq!(processor.on_event(&mut state, MouseEvent::Move { x: 20, y: 9 }), None);
    assert_eq!(processor.on_tick(&mut state), None);
    assert_eq!(processor.on_event(&mut state, MouseEvent::Move { x: 40, y: 9 }), None);
    assert_eq!(
        processor.on_tick(&mut state),
        Some(BroadcastEvent::MouseMove { dx: 20, dy: 0, direction: MouseDirection::Right })
    );
    assert!(state.apply_button_event(2, true));
    assert!(!state.apply_button_event(2, true));
    state.update_button(2, false);
    assert!(!state.is_pressed(2));
}

#[test]
fn error_messages_name_their_kind() {
    assert_eq!(Error::Io("disk".to_string()).message(), "IO error: disk");
    assert_eq!(Error::Config("c".to_string()).message(), "Configuration error: c");
    assert_eq!(Error::WebSocket("w".to_string()).message(), "WebSocket error: w");
    assert_eq!(Error::KeyboardHook("k".to_string()).message(), "Keyboard hook error: k");
    assert_eq!(Error::MouseHook("m".to_string()).message(), "Mouse hook error: m");
    assert_eq!(Error::PresetImport("p".to_string()).message(), "Preset import error: p");
    assert_eq!(Error::UI("u".to_string()).message(), "UI error: u");
    assert_eq!(Error::Serialization("s".to_string()).message(), "Serialization error: s");
    assert_eq!(Error::TomlParse("t".to_string()).message(), "TOML parse error: t");
    assert_eq!(Error::Internal("i".to_string()).message(), "Internal error: i");
    assert!(matches!(Error::from("x".to_string()), Error::Internal(ref m) if m == "x"));
    assert!(matches!(Error::from("y"), Error::Internal(ref m) if m == "y"));
}

#[test]
fn default_configuration_matches_the_documentation() {
    let config = Config::default();
    assert_eq!(config.theme.mode, "light");
    assert_eq!(config.theme.primary_color, "#333333");
    assert_eq!(config.theme.highlight_color, "#FF5722");
    assert_eq!(config.preset.layout, "wasd-minimal");
    assert_eq!(config.preset.style, "square");
    assert_eq!(f32::from_bits(config.ui.transparency_bits), 0.9f32);
    assert_eq!(f32::from_bits(config.ui.scale_bits), 1.0f32);
    assert_eq!(config.network.port, 8080);
    assert_eq!(config.network.bind_address, "0.0.0.0");
    assert_eq!(config.i18n.language, "zh-CN");
}

#[test]
fn configuration_holder_returns_the_latest_update() {
    let mut manager = ConfigManager::new(Config::default());
    assert_eq!(manager.get_config().network.port, 8080);
    let mut updated = Config::default();
    updated.network.port = 9000;
    manager.update(updated);
    assert_eq!(manager.get_config().network.port, 9000);
    let a = NetworkConfig { port: 8080, bind_address: "0.0.0.0".to_string() };
    let b = NetworkConfig { port: 8080, bind_address: "127.0.0.1".to_string() };
    let c = NetworkConfig { port: 8081, bind_address: "0.0.0.0".to_string() };
    assert!(!webkeylayer_backend::config::requires_restart(&a, &a.clone()));
    assert!(webkeylayer_backend::config::requires_restart(&a, &b));
    assert!(webkeylayer_backend::config::requires_restart(&a, &c));
}

fn object(members: Vec<(&str, JsonValue)>) -> JsonValue {
    JsonValue::Object(members.into_iter().map(|(k, v)| (k.to_string(), v)).collect())
}

fn number(n: &str) -> JsonValue {
    JsonValue::Number(n.to_string())
}

#[test]
fn partial_updates_merge_into_the_configuration() {
    let mut config = object(vec![
        ("network", object(vec![("port", number("8080")), ("bind_address", JsonValue::Text("0.0.0.0".to_string()))])),
        ("i18n", object(vec![("language", JsonValue::Text("zh-CN".to_string()))])),
    ]);
    let patch = object(vec![
        ("network", object(vec![("port", number("9000"))])),
        ("extra", JsonValue::Bool(true)),
    ]);
    merge_json_object(&mut config, patch);
    let network = get_member(&config, "network").unwrap();
    assert!(matches!(get_member(network, "port"), Some(JsonValue::Number(n)) if n == "9000"));
    assert!(matches!(get_member(network, "bind_address"), Some(JsonValue::Text(t)) if t == "0.0.0.0"));
    assert!(matches!(get_member(&config, "extra"), Some(JsonValue::Bool(true))));
    let i18n = get_member(&config, "i18n").unwrap();
    assert!(matches!(get_member(i18n, "language"), Some(JsonValue::Text(t)) if t == "zh-CN"));

    let mut scalar = number("1");
    merge_json_object(&mut scalar, JsonValue::Array(vec![JsonValue::Null]));
    assert!(matches!(scalar, JsonValue::Array(ref items) if items.len() == 1));

    let mut target = object(vec![("a", number("1"))]);
    merge_json_object(&mut target, JsonValue::Null);
    assert!(matches!(target, JsonValue::Null));

    let mut unchanged = object(vec![("a", number("1"))]);
    merge_json_object(&mut unchanged, object(vec![]));
    assert!(matches!(get_member(&unchanged, "a"), Some(JsonValue::Number(n)) if n == "1"));
}

#[test]
fn tray_actions_map_to_their_effects() {
    assert!(matches!(tray_effect(TrayAction::OpenAdmin, 8888, true), TrayEffect::OpenUrl(ref u) if u == "http://127.0.0.1:8888/admin"));
    assert!(matches!(tray_effect(TrayAction::OpenLogs, 8888, true), TrayEffect::OpenUrl(ref u) if u == "http://127.0.0.1:8888/admin#logs"));
    assert!(matches!(tray_effect(TrayAction::ToggleService, 8888, true), TrayEffect::RequestToggle("/api/service/stop")));
    assert!(matches!(tray_effect(TrayAction::ToggleService, 8888, false), TrayEffect::RequestToggle("/api/service/start")));
    assert!(matches!(tray_effect(TrayAction::CopyStreamUrl, 8888, false), TrayEffect::CopyStreamUrl));
    assert!(matches!(tray_effect(TrayAction::Exit, 8888, false), TrayEffect::Exit));
    assert_eq!(admin_url(8888), "http://127.0.0.1:8888/admin");
    assert_eq!(logs_url(1), "http://127.0.0.1:1/admin#logs");
    assert_eq!(toggle_endpoint(false), "/api/service/start");
    assert_eq!(service_label(false), "启动服务");
    assert_eq!(tray_tooltip(true), "WebKeyLayer 正在运行");
    assert_eq!(tray_tooltip(false), "WebKeyLayer 已停止");
}

#[test]
fn toggling_follows_the_reply() {
    assert!(toggle_outcome(true, None));
    assert!(!toggle_outcome(true, Some(None)));
    assert!(toggle_outcome(false, Some(None)));
    assert!(toggle_outcome(false, Some(Some(true))));
    let reply = object(vec![("data", object(vec![
        ("service_running", JsonValue::Bool(false)),
        ("stream_url", JsonValue::Text("http://h:1/public/".to_string())),
    ]))]);
    assert_eq!(service_running_from_response(&reply), Some(false));
    assert_eq!(stream_url_from_response(&reply), Some("http://h:1/public/".to_string()));
    let other = object(vec![("data", object(vec![("service_running", number("1"))]))]);
    assert_eq!(service_running_from_response(&other), None);
    assert_eq!(stream_url_from_response(&JsonValue::Null), None);
}

#[test]
fn tray_requests_are_framed_for_the_management_port() {
    assert_eq!(
        String::from_utf8(admin_request("POST", "/api/service/stop", 8888, b"")).unwrap(),
        "POST /api/service/stop HTTP/1.1\r\nHost: 127.0.0.1:8888\r\nConnection: close\r\nContent-Length: 0\r\nContent-Type: application/json\r\n\r\n"
    );
    assert!(String::from_utf8(admin_request("GET", "/", 1, b"{}")).unwrap().ends_with("Content-Length: 2\r\nContent-Type: application/json\r\n\r\n{}"));
}

#[test]
fn status_icon_is_a_filled_dot() {
    let color = tray_icon_color(true);
    assert_eq!(color, [84, 214, 168, 255]);
    assert_eq!(tray_icon_color(false), [130, 138, 148, 255]);
    let rgba = create_tray_icon_rgba(color);
    assert_eq!(rgba.len(), 16 * 16 * 4);
    let pixel = |x: usize, y: usize| -> [u8; 4] {
        let i = (y * 16 + x) * 4;
        [rgba[i], rgba[i + 1], rgba[i + 2], rgba[i + 3]]
    };
    assert_eq!(pixel(8, 8), color);
    assert_eq!(pixel(0, 0), [0, 0, 0, 0]);
    assert_eq!(pixel(15, 15), [0, 0, 0, 0]);
    assert_eq!(pixel(1, 8), color);
    assert_eq!(pixel(0, 8), [0, 0, 0, 0]);
    let covered = (0..256).filter(|p| pixel(p % 16, p / 16) == color).count();
    assert_eq!(covered, 156);
}

#[test]
fn version_and_web_view_host() {
    assert_eq!(VERSION, "0.1.0");
    assert_eq!(APP_NAME, "webkeylayer_backend");
    let host = WebViewHost::new().unwrap();
    assert!(host.start().is_ok());
    assert!(host.stop().is_ok());
}
