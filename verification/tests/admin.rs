use webkeylayer_backend::preset::ImportMode;
use webkeylayer_backend::ui::server::{
    admin_base_url, admin_file_path, admin_route, connection_url, cors_preflight_response, find_header_end,
    http_response, import_mode_from_text, parse_content_length, parse_http_request, request_read_state,
    route_path, static_content_type, stream_url, AdminRoute, RequestReadState, MAX_HTTP_REQUEST_SIZE,
};
use webkeylayer_backend::ui::DEFAULT_ADMIN_PORT;
use webkeylayer_backend::Error;

#[test]
fn management_port_is_fixed() {
    assert_eq!(DEFAULT_ADMIN_PORT, 8888);
    assert_eq!(MAX_HTTP_REQUEST_SIZE, 64 * 1024);
}

#[test]
fn header_end_is_the_first_blank_line() {
    assert_eq!(find_header_end(b"GET / HTTP/1.1\r\nHost: a\r\n\r\nbody"), Some(23));
    assert_eq!(find_header_end(b"\r\n\r\n"), Some(0));
    assert_eq!(find_header_end(b"GET / HTTP/1.1\r\n"), None);
}

#[test]
fn content_length_is_read_case_insensitively() {
    assert_eq!(parse_content_length("POST / HTTP/1.1\r\ncontent-length:  12 \r\n"), 12);
    assert_eq!(parse_content_length("POST / HTTP/1.1\r\nContent-Length: 3\r\nContent-Length: 9"), 3);
    assert_eq!(parse_content_length("POST / HTTP/1.1\r\nContent-Length: x"), 0);
    assert_eq!(parse_content_length("POST / HTTP/1.1\r\nContent-Length: -1"), 0);
    assert_eq!(parse_content_length("POST / HTTP/1.1"), 0);
}

#[test]
fn requests_parse_into_method_path_and_body() {
    let request = parse_http_request(b"POST /api/preset/import HTTP/1.1\r\nContent-Length: 4\r\n\r\nabcdEXTRA").unwrap();
    assert_eq!(request.method, "POST");
    assert_eq!(request.path, "/api/preset/import");
    assert_eq!(request.body, b"abcd".to_vec());

    let request = parse_http_request(b"GET /admin HTTP/1.1\r\n\r\n").unwrap();
    assert_eq!(request.method, "GET");
    assert!(request.body.is_empty());
}

fn ui_error(buffer: &[u8]) -> String {
    match parse_http_request(buffer) {
        Err(Error::UI(message)) => message,
        other => panic!("expected a UI error, got {:?}", other.map(|r| r.method)),
    }
}

#[test]
fn malformed_requests_are_refused() {
    assert_eq!(ui_error(b"GET / HTTP/1.1\r\n"), "invalid admin http request");
    assert_eq!(ui_error(b"\r\n\r\n"), "missing admin http request line");
    assert_eq!(ui_error(b"   \r\nHost: a\r\n\r\n"), "missing admin http method");
    assert_eq!(ui_error(b"GET\r\n\r\n"), "missing admin http path");
    assert_eq!(ui_error(b"POST /x HTTP/1.1\r\nContent-Length: 10\r\n\r\nabc"), "incomplete admin http body");
}

#[test]
fn reading_stops_when_complete_or_too_large() {
    assert_eq!(request_read_state(b"GET / HTTP/1.1\r\n"), RequestReadState::NeedMore);
    assert_eq!(request_read_state(b"GET / HTTP/1.1\r\n\r\n"), RequestReadState::Complete);
    assert_eq!(
        request_read_state(b"POST / HTTP/1.1\r\nContent-Length: 5\r\n\r\nab"),
        RequestReadState::NeedMore
    );
    assert_eq!(
        request_read_state(b"POST / HTTP/1.1\r\nContent-Length: 2\r\n\r\nab"),
        RequestReadState::Complete
    );
    let big = vec![b'a'; MAX_HTTP_REQUEST_SIZE + 1];
    assert_eq!(request_read_state(&big), RequestReadState::TooLarge);
}

#[test]
fn routes_cover_the_management_api() {
    assert_eq!(admin_route("OPTIONS", "/anything"), AdminRoute::CorsPreflight);
    assert_eq!(admin_route("GET", "/"), AdminRoute::AdminPage);
    assert_eq!(admin_route("GET", "/admin"), AdminRoute::AdminPage);
    assert_eq!(admin_route("GET", "/admin/"), AdminRoute::AdminPage);
    assert_eq!(admin_route("GET", "/admin/js/admin.js"), AdminRoute::AdminStatic);
    assert_eq!(admin_route("GET", "/version"), AdminRoute::Version);
    assert_eq!(admin_route("GET", "/api/version"), AdminRoute::Version);
    assert_eq!(admin_route("GET", "/api/config"), AdminRoute::GetConfig);
    assert_eq!(admin_route("POST", "/api/config"), AdminRoute::SaveConfig);
    assert_eq!(admin_route("POST", "/api/config/reload"), AdminRoute::ReloadConfig);
    assert_eq!(admin_route("GET", "/api/status"), AdminRoute::Status);
    assert_eq!(admin_route("GET", "/api/network/ip"), AdminRoute::NetworkInfo);
    assert_eq!(admin_route("GET", "/api/preview"), AdminRoute::Preview);
    assert_eq!(admin_route("GET", "/api/logs"), AdminRoute::Logs);
    assert_eq!(admin_route("DELETE", "/api/logs"), AdminRoute::ClearLogs);
    assert_eq!(admin_route("GET", "/api/preset/list"), AdminRoute::PresetList);
    assert_eq!(admin_route("POST", "/api/preset/import"), AdminRoute::PresetImport);
    assert_eq!(admin_route("POST", "/api/service/start"), AdminRoute::StartService);
    assert_eq!(admin_route("POST", "/api/service/stop"), AdminRoute::StopService);
    assert_eq!(admin_route("PUT", "/api/config"), AdminRoute::NotFound);
    assert_eq!(admin_route("GET", "/api/unknown"), AdminRoute::NotFound);
}

#[test]
fn query_strings_do_not_change_routes() {
    assert_eq!(route_path("/api/status?x=1"), "/api/status");
    assert_eq!(admin_route("GET", "/api/status?x=1"), admin_route("GET", "/api/status"));
    assert_eq!(admin_route("GET", "/admin?tab=logs"), AdminRoute::AdminPage);
    assert_eq!(admin_route("POST", "/api/preset/import?"), AdminRoute::PresetImport);
}

#[test]
fn import_modes_default_to_strict() {
    assert!(matches!(import_mode_from_text(None), Ok(ImportMode::Strict)));
    assert!(matches!(import_mode_from_text(Some("strict")), Ok(ImportMode::Strict)));
    assert!(matches!(import_mode_from_text(Some("lenient")), Ok(ImportMode::Lenient)));
    match import_mode_from_text(Some("loose")) {
        Err(Error::UI(message)) => assert_eq!(message, "unsupported import mode: loose"),
        _ => panic!("expected a UI error"),
    }
}

#[test]
fn management_responses_allow_cross_origin_calls() {
    let response = http_response("200 OK", "application/json; charset=utf-8", b"{}".to_vec());
    let text = String::from_utf8(response).unwrap();
    assert_eq!(
        text,
        "HTTP/1.1 200 OK\r\nContent-Type: application/json; charset=utf-8\r\nContent-Length: 2\r\nCache-Control: no-store\r\nConnection: close\r\nAccess-Control-Allow-Origin: *\r\nAccess-Control-Allow-Methods: GET, POST, DELETE, OPTIONS\r\nAccess-Control-Allow-Headers: Content-Type\r\n\r\n{}"
    );
    let preflight = String::from_utf8(cors_preflight_response()).unwrap();
    assert!(preflight.starts_with("HTTP/1.1 204 No Content\r\nContent-Type: text/plain; charset=utf-8\r\nContent-Length: 0\r\n"));
    assert!(preflight.ends_with("\r\n\r\n"));
}

#[test]
fn admin_assets_stay_under_the_page_directory() {
    assert_eq!(admin_file_path("/admin/"), Some(vec!["index.html".to_string()]));
    assert_eq!(admin_file_path("/admin/js/admin.js"), Some(vec!["js".to_string(), "admin.js".to_string()]));
    assert_eq!(admin_file_path("/admin/../config.toml"), None);
    assert_eq!(admin_file_path("/admin//etc/passwd"), None);
    assert_eq!(admin_file_path("/other"), None);
    assert_eq!(admin_file_path("/admin/..\\x"), None);
    assert_eq!(admin_file_path("/admin/js\\..\\..\\config.toml"), None);
    assert_eq!(admin_file_path("/admin/D:config.toml"), None);
    assert_eq!(admin_file_path("/admin/js\\admin.js"), Some(vec!["js".to_string(), "admin.js".to_string()]));
    assert_eq!(static_content_type("admin.js"), "application/javascript; charset=utf-8");
    assert_eq!(static_content_type("logo.svg"), "image/svg+xml");
    assert_eq!(static_content_type("data.bin"), "application/octet-stream");
}

#[test]
fn network_addresses_are_built_from_host_and_ports() {
    assert_eq!(connection_url("192.168.1.5", 8080), "ws://192.168.1.5:8080/stream");
    assert_eq!(stream_url("192.168.1.5", 8080), "http://192.168.1.5:8080/public/");
    assert_eq!(admin_base_url(8888), "http://127.0.0.1:8888");
}

#[test]
fn tray_requests_are_read_back_by_the_management_service() {
    let framed = webkeylayer_backend::ui::tray::admin_request("POST", "/api/service/stop", 8888, b"{\"a\":1}");
    let request = parse_http_request(&framed).unwrap();
    assert_eq!(request.method, "POST");
    assert_eq!(request.path, "/api/service/stop");
    assert_eq!(request.body, b"{\"a\":1}".to_vec());
    assert_eq!(request_read_state(&framed), RequestReadState::Complete);

    let framed = webkeylayer_backend::ui::tray::admin_request("GET", "/api/status?x=é", 1, b"");
    let request = parse_http_request(&framed).unwrap();
    assert_eq!(request.path, "/api/status?x=é");
    assert!(request.body.is_empty());
}

#[test]
fn response_bodies_follow_the_first_blank_line() {
    let response = http_response("200 OK", "application/json; charset=utf-8", b"{\"code\":0}\r\n\r\nx".to_vec());
    let end = find_header_end(&response).unwrap();
    assert_eq!(&response[end + 4..], b"{\"code\":0}\r\n\r\nx");
}
