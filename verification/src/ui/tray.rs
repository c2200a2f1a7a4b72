//! Tray menu decisions: menu entries and labels, URLs, service toggling and
//! the status icon image.

use crate::text::decimal_digits;
use crate::ui::json_value::{get_member, member_of, JsonValue, JsonView};
use crate::ui::server::{route_of, AdminRoute};
use vstd::prelude::*;

verus! {

/// Side length of the tray icon in pixels.
pub const TRAY_ICON_SIZE: u32 = 16;

/// Window message that wakes the tray thread to apply queued commands
/// (`WM_APP + 0x351`).
pub const TRAY_COMMAND_MESSAGE: u32 = 0x8351;

/// Actions of the tray menu.
#[derive(Debug, Clone, Copy, PartialEq, Eq, Structural)]
pub enum TrayAction {
    OpenAdmin,
    ToggleService,
    CopyStreamUrl,
    OpenLogs,
    Exit,
}

/// One entry of the tray menu.
#[derive(Debug, Clone, Copy)]
pub struct TrayMenuEntry {
    pub action: TrayAction,
    pub label: &'static str,
    pub enabled: bool,
}

/// Label of the service toggle: stop when running, start otherwise.
pub open spec fn service_label_text(service_running: bool) -> Seq<char> {
    if service_running { "停止服务"@ } else { "启动服务"@ }
}

/// Action and label of the `i`-th menu entry.
pub open spec fn menu_entry(i: int, service_running: bool) -> (TrayAction, Seq<char>) {
    if i == 0 {
        (TrayAction::OpenAdmin, "打开管理面板"@)
    } else if i == 1 {
        (TrayAction::ToggleService, service_label_text(service_running))
    } else if i == 2 {
        (TrayAction::CopyStreamUrl, "复制连接地址"@)
    } else if i == 3 {
        (TrayAction::OpenLogs, "查看日志"@)
    } else {
        (TrayAction::Exit, "退出程序"@)
    }
}

/// Label of the service toggle entry.
pub fn service_label(service_running: bool) -> (r: &'static str)
    ensures
        r@ == service_label_text(service_running),
{
    if service_running {
        "停止服务"
    } else {
        "启动服务"
    }
}

/// The tray menu for the given service state: open the management page,
/// toggle the service, copy the stream URL, open the logs, exit; all enabled.
pub fn tray_menu_entries(service_running: bool) -> (r: Vec<TrayMenuEntry>)
    ensures
        r@.len() == 5,
        forall|i: int| 0 <= i < 5 ==> {
            &&& (#[trigger] r@[i]).action == menu_entry(i, service_running).0
            &&& r@[i].label@ == menu_entry(i, service_running).1
            &&& r@[i].enabled
        },
{
    let mut entries: Vec<TrayMenuEntry> = Vec::new();
    entries.push(TrayMenuEntry { action: TrayAction::OpenAdmin, label: "打开管理面板", enabled: true });
    entries.push(
        TrayMenuEntry { action: TrayAction::ToggleService, label: service_label(service_running), enabled: true },
    );
    entries.push(TrayMenuEntry { action: TrayAction::CopyStreamUrl, label: "复制连接地址", enabled: true });
    entries.push(TrayMenuEntry { action: TrayAction::OpenLogs, label: "查看日志", enabled: true });
    entries.push(TrayMenuEntry { action: TrayAction::Exit, label: "退出程序", enabled: true });
    entries
}

/// Tooltip of the tray icon for the given service state.
pub open spec fn tooltip_text(service_running: bool) -> Seq<char> {
    if service_running { "WebKeyLayer 正在运行"@ } else { "WebKeyLayer 已停止"@ }
}

/// Tooltip of the tray icon.
pub fn tray_tooltip(service_running: bool) -> (r: &'static str)
    ensures
        r@ == tooltip_text(service_running),
{
    if service_running {
        "WebKeyLayer 正在运行"
    } else {
        "WebKeyLayer 已停止"
    }
}

/// Address of the management page opened in the browser.
pub open spec fn admin_browser_url_text(admin_port: u16) -> Seq<char> {
    "http://127.0.0.1:"@ + decimal_digits(admin_port as nat) + "/admin"@
}

/// URL of the management page for the given management port.
pub fn admin_browser_url(admin_port: u16) -> (r: String)
    ensures
        r@ == admin_browser_url_text(admin_port),
{
    let mut url = String::from_str("http://127.0.0.1:");
    crate::text::push_decimal_u64(&mut url, admin_port as u64);
    url.append("/admin");
    proof {
        assert(url@ =~= admin_browser_url_text(admin_port));
    }
    url
}

/// URL of the management page (same as [`admin_browser_url`]).
pub fn admin_url(admin_port: u16) -> (r: String)
    ensures
        r@ == admin_browser_url_text(admin_port),
{
    admin_browser_url(admin_port)
}

/// URL of the log section of the management page.
pub fn logs_url(admin_port: u16) -> (r: String)
    ensures
        r@ == admin_browser_url_text(admin_port) + "#logs"@,
{
    let mut url = admin_url(admin_port);
    url.append("#logs");
    url
}

/// Management endpoint the toggle calls: stop when running, start otherwise.
pub open spec fn toggle_endpoint_text(service_running: bool) -> Seq<char> {
    if service_running { "/api/service/stop"@ } else { "/api/service/start"@ }
}

/// Endpoint the service toggle calls.
pub fn toggle_endpoint(service_running: bool) -> (r: &'static str)
    ensures
        r@ == toggle_endpoint_text(service_running),
{
    if service_running {
        "/api/service/stop"
    } else {
        "/api/service/start"
    }
}

/// Service state the tray shows after a toggle request: unchanged when the
/// request failed (`None`), the state the reply reports when it reports one,
/// and the flipped state otherwise.
pub open spec fn toggled_state(service_running: bool, reply: Option<Option<bool>>) -> bool {
    match reply {
        None => service_running,
        Some(Some(reported)) => reported,
        Some(None) => !service_running,
    }
}

/// The service toggle asks for the opposite of the current state: when the
/// service runs it posts to the endpoint the management service routes to
/// stopping it, otherwise to the one it routes to starting it; after the
/// request the tray shows the state the reply reports, the flipped state
/// when the reply reports none, and the unchanged state when the request
/// failed.
pub proof fn lemma_toggle_asks_for_the_opposite(service_running: bool, reported: bool)
    ensures
        route_of("POST"@, toggle_endpoint_text(true)) == AdminRoute::StopService,
        route_of("POST"@, toggle_endpoint_text(false)) == AdminRoute::StartService,
        toggled_state(service_running, None) == service_running,
        toggled_state(service_running, Some(None)) == !service_running,
        toggled_state(service_running, Some(Some(reported))) == reported,
{
    crate::ui::server::lemma_admin_routes("/"@, "x"@);
}

/// Decides the service state after a toggle request (see [`toggled_state`]).
pub fn toggle_outcome(service_running: bool, reply: Option<Option<bool>>) -> (r: bool)
    ensures
        r == toggled_state(service_running, reply),
{
    match reply {
        None => service_running,
        Some(Some(reported)) => reported,
        Some(None) => !service_running,
    }
}

/// Outside work a tray menu action asks for.
#[derive(Debug)]
pub enum TrayEffect {
    /// Open the URL in the default browser.
    OpenUrl(String),
    /// POST to the management endpoint that toggles the input service.
    RequestToggle(&'static str),
    /// Fetch the stream URL from the management service and copy it.
    CopyStreamUrl,
    /// Quit the program.
    Exit,
}

/// Decides what a chosen menu action does: the management page or its log
/// section opens in the browser, the toggle calls the endpoint for the
/// current state, the copy fetches the stream URL, exit quits.
pub fn tray_effect(action: TrayAction, admin_port: u16, service_running: bool) -> (r: TrayEffect)
    ensures
        match action {
            TrayAction::OpenAdmin => r matches TrayEffect::OpenUrl(u) && u@ == admin_browser_url_text(admin_port),
            TrayAction::ToggleService => r matches TrayEffect::RequestToggle(e) && e@ == toggle_endpoint_text(service_running),
            TrayAction::CopyStreamUrl => r is CopyStreamUrl,
            TrayAction::OpenLogs => r matches TrayEffect::OpenUrl(u) && u@ == admin_browser_url_text(admin_port) + "#logs"@,
            TrayAction::Exit => r is Exit,
        },
{
    match action {
        TrayAction::OpenAdmin => TrayEffect::OpenUrl(admin_browser_url(admin_port)),
        TrayAction::ToggleService => TrayEffect::RequestToggle(toggle_endpoint(service_running)),
        TrayAction::CopyStreamUrl => TrayEffect::CopyStreamUrl,
        TrayAction::OpenLogs => TrayEffect::OpenUrl(logs_url(admin_port)),
        TrayAction::Exit => TrayEffect::Exit,
    }
}

/// Header block of a request the tray sends to the management service.
pub open spec fn admin_request_head(method: Seq<char>, path: Seq<char>, admin_port: u16, length: nat) -> Seq<char> {
    method + " "@ + path + " HTTP/1.1\r\nHost: 127.0.0.1:"@ + decimal_digits(admin_port as nat)
        + "\r\nConnection: close\r\nContent-Length: "@ + decimal_digits(length)
        + "\r\nContent-Type: application/json\r\n\r\n"@
}

/// Builds a request to the management service: header block, then the body.
pub fn admin_request(method: &str, path: &str, admin_port: u16, body: &[u8]) -> (r: Vec<u8>)
    ensures
        r@ == vstd::utf8::encode_utf8(admin_request_head(method@, path@, admin_port, body@.len())) + body@,
{
    let mut head = String::from_str(method);
    head.append(" ");
    head.append(path);
    head.append(" HTTP/1.1\r\nHost: 127.0.0.1:");
    crate::text::push_decimal_u64(&mut head, admin_port as u64);
    head.append("\r\nConnection: close\r\nContent-Length: ");
    crate::text::push_decimal_u64(&mut head, body.len() as u64);
    head.append("\r\nContent-Type: application/json\r\n\r\n");
    proof {
        assert(head@ =~= admin_request_head(method@, path@, admin_port, body@.len()));
    }
    let mut out = vstd::slice::slice_to_vec(head.as_str().as_bytes());
    let mut rest = vstd::slice::slice_to_vec(body);
    out.append(&mut rest);
    out
}

/// The service state a management reply reports: its `data.service_running`
/// member, when that is a boolean.
pub open spec fn reported_service_state(reply: JsonView) -> Option<bool> {
    match member_of(reply, "data"@) {
        Some(data) => match member_of(data, "service_running"@) {
            Some(JsonView::Bool(b)) => Some(b),
            _ => None,
        },
        None => None,
    }
}

/// Reads the service state from a management reply.
pub fn service_running_from_response(response: &JsonValue) -> (r: Option<bool>)
    ensures
        r == reported_service_state(response@),
{
    match get_member(response, "data") {
        Some(data) => match get_member(data, "service_running") {
            Some(JsonValue::Bool(b)) => Some(*b),
            _ => None,
        },
        None => None,
    }
}

/// The stream URL a network reply reports: its `data.stream_url` member,
/// when that is a string.
pub open spec fn reported_stream_url(reply: JsonView) -> Option<Seq<char>> {
    match member_of(reply, "data"@) {
        Some(data) => match member_of(data, "stream_url"@) {
            Some(JsonView::Text(t)) => Some(t),
            _ => None,
        },
        None => None,
    }
}

/// Reads the stream URL from a network reply.
pub fn stream_url_from_response(response: &JsonValue) -> (r: Option<String>)
    ensures
        match r {
            Some(u) => reported_stream_url(response@) == Some(u@),
            None => reported_stream_url(response@) is None,
        },
{
    match get_member(response, "data") {
        Some(data) => match get_member(data, "stream_url") {
            Some(JsonValue::Text(t)) => Some(t.clone()),
            _ => None,
        },
        None => None,
    }
}

/// Colour of the status dot: green when running, grey when stopped.
pub open spec fn status_color(service_running: bool) -> [u8; 4] {
    if service_running { [84u8, 214u8, 168u8, 255u8] } else { [130u8, 138u8, 148u8, 255u8] }
}

/// Colour of the status dot.
pub fn tray_icon_color(service_running: bool) -> (r: [u8; 4])
    ensures
        r == status_color(service_running),
{
    if service_running {
        [84u8, 214u8, 168u8, 255u8]
    } else {
        [130u8, 138u8, 148u8, 255u8]
    }
}

/// Pixel `(x, y)` of the 16×16 icon lies on the dot: its centre is within
/// 7 pixels of the icon centre (7.5, 7.5), i.e. `(2x−15)² + (2y−15)² ≤ 196`.
pub open spec fn on_dot(x: int, y: int) -> bool {
    (2 * x - 15) * (2 * x - 15) + (2 * y - 15) * (2 * y - 15) <= 196
}

/// Byte `i` of the RGBA image: the colour component for pixels on the dot,
/// transparent black elsewhere (pixels are stored row by row).
pub open spec fn icon_byte(color: Seq<u8>, i: int) -> u8 {
    let p = i / 4;
    if on_dot(p % 16, p / 16) { color[i % 4] } else { 0 }
}

/// Renders the 16×16 RGBA status icon: a filled dot of the given colour.
pub fn create_tray_icon_rgba(color: [u8; 4]) -> (r: Vec<u8>)
    ensures
        r@.len() == 1024,
        forall|i: int| 0 <= i < 1024 ==> #[trigger] r@[i] == icon_byte(color@, i),
{
    let mut rgba: Vec<u8> = vec![0u8; 1024];
    let mut p: usize = 0;
    while p < 256
        invariant
            p <= 256,
            rgba@.len() == 1024,
            forall|i: int| 0 <= i < 4 * p ==> #[trigger] rgba@[i] == icon_byte(color@, i),
            forall|i: int| 4 * p <= i < 1024 ==> #[trigger] rgba@[i] == 0,
        decreases 256 - p,
    {
        let x = (p % 16) as i64;
        let y = (p / 16) as i64;
        let a = 2 * x - 15;
        let b = 2 * y - 15;
        assert(0 <= a * a <= 225 && 0 <= b * b <= 225) by (nonlinear_arith)
            requires
                -15 <= a <= 15,
                -15 <= b <= 15,
        ;
        let inside = a * a + b * b <= 196;
        if inside {
            let base = 4 * p;
            rgba.set(base, color[0]);
            rgba.set(base + 1, color[1]);
            rgba.set(base + 2, color[2]);
            rgba.set(base + 3, color[3]);
        }
        proof {
            assert forall|i: int| 0 <= i < 4 * (p + 1) implies #[trigger] rgba@[i] == icon_byte(color@, i) by {
                if i >= 4 * p {
                    assert(i / 4 == p as int);
                    assert(i % 4 == i - 4 * p);
                }
            }
        }
        p = p + 1;
    }
    rgba
}

} // verus!
