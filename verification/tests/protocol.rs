use webkeylayer_backend::mouse_hook::{MouseDirection, MouseMotionEvent};
use webkeylayer_backend::websocket_server::{
    client_id, client_reply, connection_step, content_type, http_redirect, http_response, is_heartbeat_message,
    is_websocket_upgrade, message_id, parse_http_request_path, public_file_path, safe_relative_components,
    static_request_path, static_target, BroadcastEvent, ClientFrame, ClientReply, ConnectionEvent, ConnectionStep,
    StaticTarget, WebSocketConfig,
};

#[test]
fn message_ids_join_type_and_sequence() {
    assert_eq!(message_id("key_pressed", 1), "key_pressed_1");
    assert_eq!(message_id("mouse_idle", 1234567890), "mouse_idle_1234567890");
    assert_ne!(message_id("mouse", 12), message_id("mouse", 21));
    assert_ne!(message_id("key_pressed", 1), message_id("key_pressed", 10));
}

#[test]
fn client_ids_count_connections() {
    assert_eq!(client_id(1), "client_1");
    assert_eq!(client_id(42), "client_42");
}

#[test]
fn broadcast_event_types_follow_the_protocol() {
    assert_eq!(BroadcastEvent::Key { keycode: 65, pressed: true }.event_type(), "key_pressed");
    assert_eq!(BroadcastEvent::Key { keycode: 65, pressed: false }.event_type(), "key_released");
    assert_eq!(
        BroadcastEvent::MouseButton { button: 1, pressed: true, x: 0, y: 0 }.event_type(),
        "mouse_button_pressed"
    );
    assert_eq!(
        BroadcastEvent::MouseButton { button: 1, pressed: false, x: 0, y: 0 }.event_type(),
        "mouse_button_released"
    );
    assert_eq!(
        BroadcastEvent::MouseMove { dx: 1, dy: 0, direction: MouseDirection::Right }.event_type(),
        "mouse_move_direction_changed"
    );
    assert_eq!(BroadcastEvent::MouseIdle.event_type(), "mouse_idle");
    assert_eq!(BroadcastEvent::MouseWheel { delta: 120, x: 0, y: 0 }.event_type(), "mouse_wheel");
    assert_eq!(
        BroadcastEvent::from_motion(MouseMotionEvent::Idle),
        BroadcastEvent::MouseIdle
    );
}

#[test]
fn websocket_config_defaults_to_all_interfaces() {
    let config = WebSocketConfig::default();
    assert_eq!(config.bind_address, "0.0.0.0");
    assert_eq!(config.port, 8080);
}

#[test]
fn upgrade_header_is_found_case_insensitively() {
    assert!(is_websocket_upgrade(b"GET /stream HTTP/1.1\r\nUpgrade: WebSocket\r\n\r\n"));
    assert!(is_websocket_upgrade(b"GET / HTTP/1.1\r\nupgrade: websocket\r\n"));
    assert!(!is_websocket_upgrade(b"GET /public/ HTTP/1.1\r\nHost: x\r\n\r\n"));
    assert!(!is_websocket_upgrade(b""));
}

#[test]
fn heartbeat_messages_are_recognised_by_type() {
    assert!(is_heartbeat_message(r#"{"type":"heartbeat","id":"h1"}"#));
    assert!(!is_heartbeat_message(r#"{"type":"hello"}"#));
    assert!(!is_heartbeat_message(r#"["heartbeat"]"#));
    assert!(!is_heartbeat_message("heartbeat"));
    assert!(!is_heartbeat_message(r#"{"type":1}"#));
}

#[test]
fn client_frames_get_their_replies() {
    assert_eq!(
        client_reply(&ClientFrame::Text(r#"{"type":"heartbeat"}"#.to_string())),
        ClientReply::HeartbeatAck
    );
    assert_eq!(client_reply(&ClientFrame::Text("hello".to_string())), ClientReply::Ignore);
    assert_eq!(client_reply(&ClientFrame::Binary), ClientReply::Ignore);
    assert_eq!(client_reply(&ClientFrame::Ping), ClientReply::Pong);
    assert_eq!(client_reply(&ClientFrame::Pong), ClientReply::Ignore);
    assert_eq!(client_reply(&ClientFrame::Close), ClientReply::EchoClose);
    assert_eq!(client_reply(&ClientFrame::Other), ClientReply::Ignore);
}

#[test]
fn connection_steps_forward_answer_and_finish() {
    assert!(matches!(
        connection_step(ConnectionEvent::Broadcast("m".to_string())),
        ConnectionStep::Forward(ref s) if s == "m"
    ));
    assert!(matches!(connection_step(ConnectionEvent::Lagged), ConnectionStep::Continue));
    assert!(matches!(connection_step(ConnectionEvent::ChannelClosed), ConnectionStep::Finish));
    assert!(matches!(
        connection_step(ConnectionEvent::Frame(ClientFrame::Close)),
        ConnectionStep::Answer(ClientReply::EchoClose, false)
    ));
    assert!(matches!(
        connection_step(ConnectionEvent::Frame(ClientFrame::Ping)),
        ConnectionStep::Answer(ClientReply::Pong, true)
    ));
    assert!(matches!(connection_step(ConnectionEvent::ReadFailed), ConnectionStep::Fail));
    assert!(matches!(connection_step(ConnectionEvent::PeerClosed), ConnectionStep::Finish));
}

#[test]
fn request_line_path_needs_get_or_head() {
    assert_eq!(parse_http_request_path("GET /public/app.js HTTP/1.1"), Some("/public/app.js".to_string()));
    assert_eq!(parse_http_request_path("HEAD /  HTTP/1.1"), Some("/".to_string()));
    assert_eq!(parse_http_request_path("POST /public/ HTTP/1.1"), None);
    assert_eq!(parse_http_request_path("GET"), None);
}

#[test]
fn static_request_path_defaults_to_root() {
    assert_eq!(static_request_path(b"GET /public/x.css HTTP/1.1\r\nHost: a\r\n\r\n"), "/public/x.css");
    assert_eq!(static_request_path(b"POST /public/ HTTP/1.1\r\n\r\n"), "/");
    assert_eq!(static_request_path(b""), "/");
    assert_eq!(static_request_path(b"GET /caf\xc3\xa9 HTTP/1.1\r\n"), "/caf\u{e9}");
    assert_eq!(static_request_path(b"GET /a\xff HTTP/1.1\r\n"), "/a\u{fffd}");
}

#[test]
fn public_paths_map_inside_the_page_directory() {
    assert_eq!(public_file_path("/public/"), Some(vec!["index.html".to_string()]));
    assert_eq!(public_file_path("/public/js/app.js"), Some(vec!["js".to_string(), "app.js".to_string()]));
    assert_eq!(public_file_path("/public/a//b"), Some(vec!["a".to_string(), "b".to_string()]));
    assert_eq!(public_file_path("/public//a"), None);
    assert_eq!(public_file_path("/public/a/./b"), Some(vec!["a".to_string(), "b".to_string()]));
    assert_eq!(public_file_path("/public/../secret"), None);
    assert_eq!(public_file_path("/public/a/../../secret"), None);
    assert_eq!(public_file_path("/other/file"), None);
    assert_eq!(safe_relative_components("./x"), None);
    assert_eq!(safe_relative_components("/etc/passwd"), None);
}

#[test]
fn backslashes_and_drives_never_leave_the_page_directory() {
    assert_eq!(public_file_path("/public/..\\secret"), None);
    assert_eq!(public_file_path("/public/a\\..\\..\\secret"), None);
    assert_eq!(public_file_path("/public/\\etc\\passwd"), None);
    assert_eq!(public_file_path("/public/C:secret"), None);
    assert_eq!(public_file_path("/public/css/c:x"), None);
    assert_eq!(public_file_path("/public/css\\stream.css"), Some(vec!["css".to_string(), "stream.css".to_string()]));
    assert_eq!(public_file_path("/public/a\\.\\b"), Some(vec!["a".to_string(), "b".to_string()]));
    assert_eq!(public_file_path("/public/notes:1.txt"), Some(vec!["notes:1.txt".to_string()]));
    assert_eq!(safe_relative_components(".\\x"), None);
}

#[test]
fn static_targets_redirect_serve_or_refuse() {
    assert!(matches!(static_target("/"), StaticTarget::Redirect));
    assert!(matches!(static_target("/public?x=1"), StaticTarget::Redirect));
    assert!(matches!(static_target("/nothing"), StaticTarget::NotFound));
    assert!(matches!(static_target("/public/../x"), StaticTarget::NotFound));
    match static_target("/public/index.html?v=2") {
        StaticTarget::File(c) => assert_eq!(c, vec!["index.html".to_string()]),
        _ => panic!("expected a file"),
    }
}

#[test]
fn content_types_follow_the_extension() {
    assert_eq!(content_type("index.html"), "text/html; charset=utf-8");
    assert_eq!(content_type("a.css"), "text/css; charset=utf-8");
    assert_eq!(content_type("a.js"), "application/javascript; charset=utf-8");
    assert_eq!(content_type("a.json"), "application/json; charset=utf-8");
    assert_eq!(content_type("a.png"), "image/png");
    assert_eq!(content_type("a.jpg"), "image/jpeg");
    assert_eq!(content_type("a.jpeg"), "image/jpeg");
    assert_eq!(content_type("a.svg"), "image/svg+xml");
    assert_eq!(content_type(".html"), "application/octet-stream");
    assert_eq!(content_type("README"), "application/octet-stream");
}

#[test]
fn stream_responses_carry_length_and_body() {
    let response = http_response("200 OK", "text/plain", b"hi".to_vec());
    assert_eq!(
        response,
        b"HTTP/1.1 200 OK\r\nContent-Type: text/plain\r\nContent-Length: 2\r\nCache-Control: no-store\r\nConnection: close\r\n\r\nhi"
            .to_vec()
    );
    assert_eq!(
        http_redirect("/public/"),
        b"HTTP/1.1 302 Found\r\nLocation: /public/\r\nContent-Length: 0\r\nCache-Control: no-store\r\nConnection: close\r\n\r\n"
            .to_vec()
    );
}
