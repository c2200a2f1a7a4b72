use webkeylayer_backend::keyboard_hook::{held_modifiers, key_name, ModifierKeys};
use webkeylayer_backend::mouse_hook::{MouseDirection, MouseMotionEvent, MouseState};
use webkeylayer_backend::ui::json_value::JsonValue;
use webkeylayer_backend::websocket_server::{
    connection_established_payload, event_payload, heartbeat_ack_payload, heartbeat_latency, latency_ms,
    BroadcastEvent, IdSequence,
};
use webkeylayer_backend::KeyboardState;
use webkeylayer_backend::VERSION;

fn render(v: &JsonValue) -> String {
    match v {
        JsonValue::Null => "null".to_string(),
        JsonValue::Bool(b) => b.to_string(),
        JsonValue::Number(n) => n.clone(),
        JsonValue::Text(t) => format!("\"{}\"", t),
        JsonValue::Array(items) => {
            let parts: Vec<String> = items.iter().map(render).collect();
            format!("[{}]", parts.join(","))
        }
        JsonValue::Object(members) => {
            let parts: Vec<String> = members.iter().map(|(k, m)| format!("\"{}\":{}", k, render(m))).collect();
            format!("{{{}}}", parts.join(","))
        }
    }
}

#[test]
fn message_ids_count_up_from_one() {
    let mut sequence = IdSequence::new();
    assert_eq!(sequence.next_message_id("connection_established"), "connection_established_1");
    assert_eq!(sequence.next_message_id("key_pressed"), "key_pressed_2");
    assert_eq!(sequence.next_message_id("key_pressed"), "key_pressed_3");
    assert_eq!(sequence.next, 4);
}

#[test]
fn client_ids_count_up_from_one() {
    let mut sequence = IdSequence::new();
    assert_eq!(sequence.next_client_id(), "client_1");
    assert_eq!(sequence.next_client_id(), "client_2");
}

#[test]
fn id_counter_wraps_like_fetch_add() {
    let mut sequence = IdSequence { next: u64::MAX };
    assert_eq!(sequence.take_number(), u64::MAX);
    assert_eq!(sequence.take_number(), 0);
    assert_eq!(sequence.take_number(), 1);
}

fn shift_only() -> ModifierKeys {
    ModifierKeys { shift: true, ctrl: false, alt: false, win: false }
}

#[test]
fn event_payloads_carry_the_protocol_fields() {
    assert_eq!(
        render(&event_payload(&BroadcastEvent::Key { keycode: 65, pressed: true }, shift_only())),
        "{\"keycode\":65,\"key_name\":\"A\",\"modifiers\":[\"Shift\"]}"
    );
    assert_eq!(
        render(&event_payload(&BroadcastEvent::Key { keycode: 65, pressed: false }, ModifierKeys::none())),
        "{\"keycode\":65,\"key_name\":\"A\",\"modifiers\":[]}"
    );
    assert_eq!(
        render(&event_payload(
            &BroadcastEvent::MouseButton { button: 1, pressed: false, x: -1025, y: 768 },
            ModifierKeys { shift: true, ctrl: true, alt: true, win: true },
        )),
        "{\"button\":1,\"pressed\":false,\"x\":-1025,\"y\":768,\"modifiers\":[\"Shift\",\"Ctrl\",\"Alt\",\"Win\"]}"
    );
    assert_eq!(
        render(&event_payload(
            &BroadcastEvent::MouseMove { dx: 24, dy: -5, direction: MouseDirection::UpRight },
            shift_only(),
        )),
        "{\"dx\":24,\"dy\":-5,\"direction\":\"up_right\"}"
    );
    assert_eq!(render(&event_payload(&BroadcastEvent::MouseIdle, shift_only())), "{\"state\":\"idle\"}");
    assert_eq!(
        render(&event_payload(&BroadcastEvent::MouseWheel { delta: -120, x: 1200, y: 400 }, shift_only())),
        "{\"delta\":-120,\"x\":1200,\"y\":400}"
    );
    assert_eq!(
        render(&event_payload(&BroadcastEvent::MouseWheel { delta: i32::MIN, x: 0, y: i32::MAX }, shift_only())),
        "{\"delta\":-2147483648,\"x\":0,\"y\":2147483647}"
    );
}

#[test]
fn keys_have_readable_names() {
    assert_eq!(key_name(65), "A");
    assert_eq!(key_name(90), "Z");
    assert_eq!(key_name(48), "0");
    assert_eq!(key_name(57), "9");
    assert_eq!(key_name(112), "F1");
    assert_eq!(key_name(123), "F12");
    assert_eq!(key_name(160), "Shift");
    assert_eq!(key_name(17), "Ctrl");
    assert_eq!(key_name(37), "Left");
    assert_eq!(key_name(32), "Space");
    assert_eq!(key_name(91), "Win");
    assert_eq!(key_name(255), "VK_255");
}

#[test]
fn modifiers_follow_the_keyboard_state() {
    let mut state = KeyboardState::new();
    assert_eq!(held_modifiers(&state), ModifierKeys::none());
    state.update(160, true);
    state.update(65, true);
    assert_eq!(held_modifiers(&state), shift_only());
    state.update(165, true);
    assert_eq!(held_modifiers(&state), ModifierKeys { shift: true, ctrl: false, alt: true, win: false });
    state.update(160, false);
    assert_eq!(held_modifiers(&state), ModifierKeys { shift: false, ctrl: false, alt: true, win: false });
}

#[test]
fn heartbeat_latency_is_measured_from_the_client_timestamp() {
    assert_eq!(latency_ms(Some(1000), 1012), 12);
    assert_eq!(latency_ms(Some(2000), 1012), 0);
    assert_eq!(latency_ms(None, 1012), 0);
    assert_eq!(
        heartbeat_latency("{\"type\":\"heartbeat\",\"timestamp\":1714815630000}", 1714815630012),
        12
    );
    assert_eq!(heartbeat_latency("{\"type\":\"heartbeat\"}", 1714815630012), 0);
    assert_eq!(heartbeat_latency("not json", 5), 0);
}

#[test]
fn greeting_and_heartbeat_payloads() {
    let theme = JsonValue::Object(vec![("mode".to_string(), JsonValue::Text("light".to_string()))]);
    let preset = JsonValue::Object(vec![("layout".to_string(), JsonValue::Text("wasd-minimal".to_string()))]);
    let ui = JsonValue::Object(vec![("scale".to_string(), JsonValue::Number("1.0".to_string()))]);
    let i18n = JsonValue::Object(vec![("language".to_string(), JsonValue::Text("zh-CN".to_string()))]);
    assert_eq!(
        render(&connection_established_payload("client_7", theme, preset, ui, i18n)),
        format!(
            "{{\"server_version\":\"{}\",\"protocol_version\":\"1.0\",\"client_id\":\"client_7\",\"config\":{{\"theme\":{{\"mode\":\"light\"}},\"preset\":{{\"layout\":\"wasd-minimal\"}},\"ui\":{{\"scale\":1.0}},\"i18n\":{{\"language\":\"zh-CN\"}}}}}}",
            VERSION
        )
    );
    assert_eq!(
        render(&heartbeat_ack_payload(1714815630000, 5, 12)),
        "{\"server_time\":1714815630000,\"connected_clients\":5,\"latency_ms\":12}"
    );
}

#[test]
fn a_still_pointer_settles_into_idle_within_two_samples() {
    let mut state = MouseState::new();
    assert_eq!(state.process_sample(100, 100), None);
    assert_eq!(state.process_sample(120, 100), Some(MouseMotionEvent::DirectionChanged { dx: 20, dy: 0, direction: MouseDirection::Right }));
    assert_eq!(state.process_sample(122, 101), None);
    assert_eq!(state.process_sample(122, 101), Some(MouseMotionEvent::Idle));
    assert_eq!(state.last_judged_direction, Some(MouseDirection::Idle));
    assert_eq!(state.process_sample(122, 101), None);
}

#[test]
fn first_sample_at_the_corner_is_only_a_baseline() {
    let mut state = MouseState::new();
    assert!(state.sample_fits(i32::MIN, i32::MIN));
    assert_eq!(state.process_sample(i32::MIN, i32::MIN), None);
    assert!(state.has_sample);
    assert_eq!(state.last_sample_x, i32::MIN);
    assert!(!state.sample_fits(i32::MAX, i32::MAX));
    assert_eq!(state.process_sample(i32::MIN, i32::MIN), Some(MouseMotionEvent::Idle));
    state.clear();
    assert!(state.sample_fits(i32::MAX, i32::MAX));
    assert_eq!(state.process_sample(i32::MAX, i32::MAX), None);
}
