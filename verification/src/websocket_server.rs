//! Stream service protocol: broadcast event kinds, message ids, the
//! WebSocket/HTTP split of incoming connections, heartbeat recognition and
//! the static-page side of the stream port.

use crate::mouse_hook::{direction_name, MouseDirection, MouseMotionEvent};
use crate::text::decimal;
use crate::keyboard_hook::{key_name, key_name_text, modifier_names, ModifierKeys};
use crate::ui::json_value::{
    items_view, members_view, number_value, push_item, push_member, text_value, unsigned_value, JsonValue, JsonView,
};
use crate::text::{
    ascii_lower, before_first, decimal_digits, first_two_tokens, lines, lossy_text, matches_at,
    segments,
};
use vstd::prelude::*;

verus! {

/// Bind configuration of the stream service.
#[derive(Debug, Clone)]
pub struct WebSocketConfig {
    /// Address to bind (all interfaces by default).
    pub bind_address: String,
    /// Port to listen on.
    pub port: u16,
}

impl Default for WebSocketConfig {
    fn default() -> (r: Self)
        ensures
            r.bind_address@ == "0.0.0.0"@,
            r.port == 8080,
    {
        WebSocketConfig { bind_address: String::from_str("0.0.0.0"), port: 8080 }
    }
}

/// An event broadcast to every stream client.
#[derive(Debug, Clone, Copy, PartialEq, Eq, Structural)]
pub enum BroadcastEvent {
    Key { keycode: u16, pressed: bool },
    MouseButton { button: u8, pressed: bool, x: i32, y: i32 },
    MouseMove { dx: i32, dy: i32, direction: MouseDirection },
    MouseIdle,
    MouseWheel { delta: i32, x: i32, y: i32 },
}

/// Protocol `type` of a broadcast event.
pub open spec fn event_type_name(e: BroadcastEvent) -> Seq<char> {
    match e {
        BroadcastEvent::Key { pressed, .. } => if pressed { "key_pressed"@ } else { "key_released"@ },
        BroadcastEvent::MouseButton { pressed, .. } => if pressed {
            "mouse_button_pressed"@
        } else {
            "mouse_button_released"@
        },
        BroadcastEvent::MouseMove { .. } => "mouse_move_direction_changed"@,
        BroadcastEvent::MouseIdle => "mouse_idle"@,
        BroadcastEvent::MouseWheel { .. } => "mouse_wheel"@,
    }
}

/// Each event goes out under its protocol type: a key press as
/// `key_pressed` and its release as `key_released`, a mouse button as
/// `mouse_button_pressed` / `mouse_button_released`, a direction change as
/// `mouse_move_direction_changed`, idle as `mouse_idle` and a wheel turn as
/// `mouse_wheel`; a press and a release never share a type.
pub proof fn lemma_event_types(keycode: u16, button: u8, x: i32, y: i32, dx: i32, dy: i32, d: MouseDirection, delta: i32)
    ensures
        event_type_name(BroadcastEvent::Key { keycode, pressed: true }) == "key_pressed"@,
        event_type_name(BroadcastEvent::Key { keycode, pressed: false }) == "key_released"@,
        event_type_name(BroadcastEvent::MouseButton { button, pressed: true, x, y }) == "mouse_button_pressed"@,
        event_type_name(BroadcastEvent::MouseButton { button, pressed: false, x, y }) == "mouse_button_released"@,
        event_type_name(BroadcastEvent::MouseMove { dx, dy, direction: d }) == "mouse_move_direction_changed"@,
        event_type_name(BroadcastEvent::MouseIdle) == "mouse_idle"@,
        event_type_name(BroadcastEvent::MouseWheel { delta, x, y }) == "mouse_wheel"@,
{
}

/// The broadcast that reports a motion event.
pub open spec fn motion_broadcast(e: MouseMotionEvent) -> BroadcastEvent {
    match e {
        MouseMotionEvent::DirectionChanged { dx, dy, direction } => BroadcastEvent::MouseMove { dx, dy, direction },
        MouseMotionEvent::Idle => BroadcastEvent::MouseIdle,
    }
}

impl BroadcastEvent {
    /// Protocol `type` of the event.
    pub fn event_type(&self) -> (r: &'static str)
        ensures
            r@ == event_type_name(*self),
    {
        match self {
            BroadcastEvent::Key { pressed, .. } => if *pressed { "key_pressed" } else { "key_released" },
            BroadcastEvent::MouseButton { pressed, .. } => if *pressed {
                "mouse_button_pressed"
            } else {
                "mouse_button_released"
            },
            BroadcastEvent::MouseMove { .. } => "mouse_move_direction_changed",
            BroadcastEvent::MouseIdle => "mouse_idle",
            BroadcastEvent::MouseWheel { .. } => "mouse_wheel",
        }
    }

    /// The broadcast that reports a motion event: a direction change or idle.
    pub fn from_motion(event: MouseMotionEvent) -> (r: BroadcastEvent)
        ensures
            r == motion_broadcast(event),
    {
        match event {
            MouseMotionEvent::DirectionChanged { dx, dy, direction } => BroadcastEvent::MouseMove { dx, dy, direction },
            MouseMotionEvent::Idle => BroadcastEvent::MouseIdle,
        }
    }
}

/// Message id of the `sequence`-th message: `<event type>_<sequence>`.
pub open spec fn message_id_text(event_type: Seq<char>, sequence: u64) -> Seq<char> {
    event_type + "_"@ + decimal_digits(sequence as nat)
}

/// Builds the id of a message from its type and sequence number.
pub fn message_id(event_type: &str, sequence: u64) -> (r: String)
    ensures
        r@ == message_id_text(event_type@, sequence),
{
    let mut id = String::from_str(event_type);
    id.append("_");
    crate::text::push_decimal_u64(&mut id, sequence);
    proof {
        assert(id@ =~= message_id_text(event_type@, sequence));
    }
    id
}

proof fn lemma_digits_end_after_separator(t1: Seq<char>, a: u64, t2: Seq<char>, b: u64)
    requires
        message_id_text(t1, a) == message_id_text(t2, b),
    ensures
        decimal_digits(a as nat).len() >= decimal_digits(b as nat).len(),
{
    let d1 = decimal_digits(a as nat);
    let d2 = decimal_digits(b as nat);
    crate::text::lemma_decimal_digits_are_digits(b as nat);
    reveal_strlit("_");
    let id1 = message_id_text(t1, a);
    let id2 = message_id_text(t2, b);
    if d1.len() < d2.len() {
        let k = id1.len() - d1.len() - 1;
        assert(id1[k] == '_');
        let j = k - (t2.len() + 1);
        assert(0 <= j < d2.len());
        assert(id2[k] == d2[j]);
        assert('0' <= d2[j] <= '9');
    }
}

/// Message ids never repeat: two ids are equal only for the same event type
/// and the same sequence number, so the ids drawn from one increasing
/// sequence are all distinct, whatever their event types.
pub proof fn lemma_message_ids_are_unique(t1: Seq<char>, a: u64, t2: Seq<char>, b: u64)
    requires
        message_id_text(t1, a) == message_id_text(t2, b),
    ensures
        a == b,
        t1 == t2,
{
    lemma_digits_end_after_separator(t1, a, t2, b);
    lemma_digits_end_after_separator(t2, b, t1, a);
    let d1 = decimal_digits(a as nat);
    let d2 = decimal_digits(b as nat);
    let id = message_id_text(t1, a);
    reveal_strlit("_");
    assert(("_"@).len() == 1);
    assert(id.len() == t1.len() + 1 + d1.len());
    assert(message_id_text(t2, b).len() == t2.len() + 1 + d2.len());
    assert(t1.len() == t2.len());
    assert(d1 =~= id.skip(t1.len() + 1int));
    assert(d2 =~= id.skip(t2.len() + 1int));
    assert(t1 =~= id.take(t1.len() as int));
    assert(t2 =~= id.take(t2.len() as int));
    crate::text::lemma_decimal_digits_injective(a as nat, b as nat);
}

/// The number a counter holds after handing out `n`: the following one,
/// wrapping to 0 past `u64::MAX` as an atomic counter's `fetch_add` does.
pub open spec fn following(n: u64) -> u64 {
    if n == u64::MAX {
        0
    } else {
        (n + 1) as u64
    }
}

/// A counter handing out the sequence numbers of message ids or client ids.
#[derive(Debug)]
pub struct IdSequence {
    /// The number the next id gets.
    pub next: u64,
}

impl IdSequence {
    /// A counter whose first id gets number 1.
    pub fn new() -> (r: Self)
        ensures
            r.next == 1,
    {
        IdSequence { next: 1 }
    }

    /// Hands out the next number.
    pub fn take_number(&mut self) -> (n: u64)
        ensures
            n == old(self).next,
            final(self).next == following(old(self).next),
    {
        let n = self.next;
        self.next = if n == u64::MAX {
            0
        } else {
            n + 1
        };
        n
    }

    /// The id of the next message of type `event_type`.
    pub fn next_message_id(&mut self, event_type: &str) -> (r: String)
        ensures
            r@ == message_id_text(event_type@, old(self).next),
            final(self).next == following(old(self).next),
    {
        let n = self.take_number();
        message_id(event_type, n)
    }

    /// The id of the next client to connect.
    pub fn next_client_id(&mut self) -> (r: String)
        ensures
            r@ == client_id_text(old(self).next),
            final(self).next == following(old(self).next),
    {
        let n = self.take_number();
        client_id(n)
    }
}

/// The numbers handed out by `k` successive draws from a counter holding
/// `first`.
pub open spec fn drawn(first: u64, k: nat) -> Seq<u64>
    decreases k,
{
    if k == 0 {
        seq![]
    } else {
        seq![first] + drawn(following(first), (k - 1) as nat)
    }
}

proof fn lemma_drawn_numbers(first: u64, k: nat)
    requires
        first + k <= u64::MAX + 1,
    ensures
        drawn(first, k).len() == k,
        forall|i: int| 0 <= i < k ==> #[trigger] drawn(first, k)[i] == first + i,
    decreases k,
{
    if k > 0 {
        let rest = (k - 1) as nat;
        if rest > 0 {
            assert(following(first) == first + 1);
        }
        lemma_drawn_numbers(following(first), rest);
        assert forall|i: int| 0 <= i < k implies #[trigger] drawn(first, k)[i] == first + i by {
            if i > 0 {
                assert(drawn(first, k)[i] == drawn(following(first), rest)[i - 1]);
            }
        }
    }
}

proof fn lemma_client_ids_are_unique(a: u64, b: u64)
    requires
        client_id_text(a) == client_id_text(b),
    ensures
        a == b,
{
    reveal_strlit("client_");
    let n = ("client_"@).len() as int;
    assert(decimal_digits(a as nat) =~= client_id_text(a).skip(n));
    assert(decimal_digits(b as nat) =~= client_id_text(b).skip(n));
    crate::text::lemma_decimal_digits_injective(a as nat, b as nat);
}

/// Ids drawn from one counter never repeat while it does not wrap: the
/// numbers of `k` successive draws from a counter holding `first` count up
/// from `first`, so two different draws give different message ids, whatever
/// their types, and different client ids.
pub proof fn lemma_drawn_ids_never_repeat(first: u64, k: nat)
    requires
        first + k <= u64::MAX + 1,
    ensures
        drawn(first, k).len() == k,
        forall|i: int| 0 <= i < k ==> #[trigger] drawn(first, k)[i] == first + i,
        forall|i: int, j: int, t1: Seq<char>, t2: Seq<char>|
            #![trigger message_id_text(t1, drawn(first, k)[i]), message_id_text(t2, drawn(first, k)[j])]
            0 <= i < j < k ==> message_id_text(t1, drawn(first, k)[i]) != message_id_text(t2, drawn(first, k)[j]),
        forall|i: int, j: int|
            #![trigger client_id_text(drawn(first, k)[i]), client_id_text(drawn(first, k)[j])]
            0 <= i < j < k ==> client_id_text(drawn(first, k)[i]) != client_id_text(drawn(first, k)[j]),
{
    lemma_drawn_numbers(first, k);
    let d = drawn(first, k);
    assert forall|i: int, j: int, t1: Seq<char>, t2: Seq<char>| 0 <= i < j < k implies
        #[trigger] message_id_text(t1, d[i]) != #[trigger] message_id_text(t2, d[j]) by {
        assert(d[i] == first + i && d[j] == first + j);
        if message_id_text(t1, d[i]) == message_id_text(t2, d[j]) {
            lemma_message_ids_are_unique(t1, d[i], t2, d[j]);
        }
    }
    assert forall|i: int, j: int| 0 <= i < j < k implies
        #[trigger] client_id_text(d[i]) != #[trigger] client_id_text(d[j]) by {
        assert(d[i] == first + i && d[j] == first + j);
        if client_id_text(d[i]) == client_id_text(d[j]) {
            lemma_client_ids_are_unique(d[i], d[j]);
        }
    }
}

/// A JSON number member.
pub open spec fn number_member(name: Seq<char>, n: int) -> (Seq<char>, JsonView) {
    (name, JsonView::Number(decimal(n)))
}

/// The `modifiers` member: the names of the held modifier keys.
pub open spec fn modifiers_member(m: ModifierKeys) -> (Seq<char>, JsonView) {
    ("modifiers"@, JsonView::Array(modifier_names(m).map_values(|n: Seq<char>| JsonView::Text(n))))
}

/// The `payload` of the message that broadcasts an event while the modifier
/// keys `m` are held: a key event carries the key code, the key's readable
/// name and the held modifiers; a mouse button event its button, state,
/// position and the held modifiers; a direction change its delta and
/// direction; idle its state; a wheel event its delta and position.
pub open spec fn event_payload_view(e: BroadcastEvent, m: ModifierKeys) -> JsonView {
    match e {
        BroadcastEvent::Key { keycode, .. } => JsonView::Object(
            seq![
                number_member("keycode"@, keycode as int),
                ("key_name"@, JsonView::Text(key_name_text(keycode))),
                modifiers_member(m),
            ],
        ),
        BroadcastEvent::MouseButton { button, pressed, x, y } => JsonView::Object(
            seq![
                number_member("button"@, button as int),
                ("pressed"@, JsonView::Bool(pressed)),
                number_member("x"@, x as int),
                number_member("y"@, y as int),
                modifiers_member(m),
            ],
        ),
        BroadcastEvent::MouseMove { dx, dy, direction } => JsonView::Object(
            seq![
                number_member("dx"@, dx as int),
                number_member("dy"@, dy as int),
                ("direction"@, JsonView::Text(direction_name(direction))),
            ],
        ),
        BroadcastEvent::MouseIdle => JsonView::Object(seq![("state"@, JsonView::Text("idle"@))]),
        BroadcastEvent::MouseWheel { delta, x, y } => JsonView::Object(
            seq![number_member("delta"@, delta as int), number_member("x"@, x as int), number_member("y"@, y as int)],
        ),
    }
}

fn push_name(items: &mut Vec<JsonValue>, held: bool, name: &str)
    ensures
        items_view(final(items)@) == items_view(old(items)@) + (if held {
            seq![JsonView::Text(name@)]
        } else {
            seq![]
        }),
{
    if held {
        push_item(items, text_value(name));
    } else {
        proof {
            assert(items_view(items@) + seq![] =~= items_view(items@));
        }
    }
}

/// Builds the `modifiers` array for the held modifier keys.
pub fn modifiers_value(m: ModifierKeys) -> (r: JsonValue)
    ensures
        r@ == modifiers_member(m).1,
{
    let mut items: Vec<JsonValue> = Vec::new();
    let ghost start = items_view(items@);
    push_name(&mut items, m.shift, "Shift");
    push_name(&mut items, m.ctrl, "Ctrl");
    push_name(&mut items, m.alt, "Alt");
    push_name(&mut items, m.win, "Win");
    proof {
        let f = |n: Seq<char>| JsonView::Text(n);
        let part = |b: bool, n: Seq<char>| if b { seq![n] } else { Seq::<Seq<char>>::empty() };
        assert(start =~= Seq::<JsonView>::empty());
        assert(modifier_names(m) == part(m.shift, "Shift"@) + part(m.ctrl, "Ctrl"@) + part(m.alt, "Alt"@) + part(m.win, "Win"@));
        assert(modifier_names(m).map_values(f) =~= items_view(items@));
    }
    JsonValue::Array(items)
}

/// Builds the `payload` of the message that broadcasts `event` while the
/// modifier keys `modifiers` are held.
pub fn event_payload(event: &BroadcastEvent, modifiers: ModifierKeys) -> (r: JsonValue)
    ensures
        r@ == event_payload_view(*event, modifiers),
{
    let mut m: Vec<(String, JsonValue)> = Vec::new();
    match *event {
        BroadcastEvent::Key { keycode, .. } => {
            push_member(&mut m, "keycode", number_value(keycode as i64));
            push_member(&mut m, "key_name", JsonValue::Text(key_name(keycode)));
            push_member(&mut m, "modifiers", modifiers_value(modifiers));
            proof {
                assert(members_view(m@) =~= seq![
                    number_member("keycode"@, keycode as int),
                    ("key_name"@, JsonView::Text(key_name_text(keycode))),
                    modifiers_member(modifiers),
                ]);
            }
        },
        BroadcastEvent::MouseButton { button, pressed, x, y } => {
            push_member(&mut m, "button", number_value(button as i64));
            push_member(&mut m, "pressed", JsonValue::Bool(pressed));
            push_member(&mut m, "x", number_value(x as i64));
            push_member(&mut m, "y", number_value(y as i64));
            push_member(&mut m, "modifiers", modifiers_value(modifiers));
            proof {
                assert(members_view(m@) =~= seq![
                    number_member("button"@, button as int),
                    ("pressed"@, JsonView::Bool(pressed)),
                    number_member("x"@, x as int),
                    number_member("y"@, y as int),
                    modifiers_member(modifiers),
                ]);
            }
        },
        BroadcastEvent::MouseMove { dx, dy, direction } => {
            push_member(&mut m, "dx", number_value(dx as i64));
            push_member(&mut m, "dy", number_value(dy as i64));
            push_member(&mut m, "direction", text_value(direction.as_str()));
            proof {
                assert(members_view(m@) =~= seq![
                    number_member("dx"@, dx as int),
                    number_member("dy"@, dy as int),
                    ("direction"@, JsonView::Text(direction_name(direction))),
                ]);
            }
        },
        BroadcastEvent::MouseIdle => {
            push_member(&mut m, "state", text_value("idle"));
            proof {
                assert(members_view(m@) =~= seq![("state"@, JsonView::Text("idle"@))]);
            }
        },
        BroadcastEvent::MouseWheel { delta, x, y } => {
            push_member(&mut m, "delta", number_value(delta as i64));
            push_member(&mut m, "x", number_value(x as i64));
            push_member(&mut m, "y", number_value(y as i64));
            proof {
                assert(members_view(m@) =~= seq![
                    number_member("delta"@, delta as int),
                    number_member("x"@, x as int),
                    number_member("y"@, y as int),
                ]);
            }
        },
    }
    JsonValue::Object(m)
}

/// The `payload` of the message that greets a newly connected client: the
/// server and protocol versions, the client's id and the current theme,
/// preset, overlay and language settings.
pub open spec fn connection_established_view(
    client_id: Seq<char>,
    theme: JsonView,
    preset: JsonView,
    ui: JsonView,
    i18n: JsonView,
) -> JsonView {
    JsonView::Object(
        seq![
            ("server_version"@, JsonView::Text(crate::VERSION@)),
            ("protocol_version"@, JsonView::Text("1.0"@)),
            ("client_id"@, JsonView::Text(client_id)),
            ("config"@, JsonView::Object(seq![("theme"@, theme), ("preset"@, preset), ("ui"@, ui), ("i18n"@, i18n)])),
        ],
    )
}

/// Builds the `payload` that greets the client `client_id`, with the current
/// configuration sections.
pub fn connection_established_payload(
    client_id: &str,
    theme: JsonValue,
    preset: JsonValue,
    ui: JsonValue,
    i18n: JsonValue,
) -> (r: JsonValue)
    ensures
        r@ == connection_established_view(client_id@, theme@, preset@, ui@, i18n@),
{
    let ghost (tv, pv, uv, iv) = (theme@, preset@, ui@, i18n@);
    let mut config: Vec<(String, JsonValue)> = Vec::new();
    push_member(&mut config, "theme", theme);
    push_member(&mut config, "preset", preset);
    push_member(&mut config, "ui", ui);
    push_member(&mut config, "i18n", i18n);
    proof {
        assert(members_view(config@) =~= seq![("theme"@, tv), ("preset"@, pv), ("ui"@, uv), ("i18n"@, iv)]);
    }
    let config = JsonValue::Object(config);
    let mut m: Vec<(String, JsonValue)> = Vec::new();
    push_member(&mut m, "server_version", text_value(crate::VERSION));
    push_member(&mut m, "protocol_version", text_value("1.0"));
    push_member(&mut m, "client_id", text_value(client_id));
    push_member(&mut m, "config", config);
    proof {
        assert(members_view(m@) =~= seq![
            ("server_version"@, JsonView::Text(crate::VERSION@)),
            ("protocol_version"@, JsonView::Text("1.0"@)),
            ("client_id"@, JsonView::Text(client_id@)),
            ("config"@, JsonView::Object(seq![("theme"@, tv), ("preset"@, pv), ("ui"@, uv), ("i18n"@, iv)])),
        ]);
    }
    JsonValue::Object(m)
}

/// Latency of a heartbeat in milliseconds: the server's clock minus the
/// client's timestamp, or 0 when the client sent none or its clock is ahead.
pub open spec fn latency_of(client_time: Option<u64>, server_time: u64) -> u64 {
    match client_time {
        Some(t) => if t <= server_time {
            (server_time - t) as u64
        } else {
            0
        },
        None => 0,
    }
}

/// The latency adds up with the client's timestamp to the server's clock,
/// when the client's clock is not ahead; otherwise, and without a
/// timestamp, it is 0.
pub proof fn lemma_latency_measures_the_gap(client_time: u64, server_time: u64)
    ensures
        client_time <= server_time ==> latency_of(Some(client_time), server_time) + client_time == server_time,
        client_time > server_time ==> latency_of(Some(client_time), server_time) == 0,
        latency_of(None, server_time) == 0,
{
}

/// Latency from a client's timestamp (see [`latency_of`]).
pub fn latency_ms(client_time: Option<u64>, server_time: u64) -> (r: u64)
    ensures
        r == latency_of(client_time, server_time),
{
    match client_time {
        Some(t) => if t <= server_time {
            server_time - t
        } else {
            0
        },
        None => 0,
    }
}

/// Latency of the heartbeat `message` (a JSON object whose `timestamp`
/// member holds the client's clock in milliseconds) received at
/// `server_time`.
pub fn heartbeat_latency(message: &str, server_time: u64) -> (r: u64)
    ensures
        r == latency_of(json_u64_member_of(message@, "timestamp"@), server_time),
{
    latency_ms(json_u64_member(message, "timestamp"), server_time)
}

/// The `payload` that answers a heartbeat: the server's clock (milliseconds
/// since the Unix epoch), the number of connected clients and the latency
/// of the heartbeat.
pub open spec fn heartbeat_ack_view(server_time: u64, connected_clients: u64, latency: u64) -> JsonView {
    JsonView::Object(
        seq![
            ("server_time"@, JsonView::Number(decimal_digits(server_time as nat))),
            ("connected_clients"@, JsonView::Number(decimal_digits(connected_clients as nat))),
            ("latency_ms"@, JsonView::Number(decimal_digits(latency as nat))),
        ],
    )
}

/// Builds the `payload` that answers a heartbeat.
pub fn heartbeat_ack_payload(server_time: u64, connected_clients: u64, latency: u64) -> (r: JsonValue)
    ensures
        r@ == heartbeat_ack_view(server_time, connected_clients, latency),
{
    let mut m: Vec<(String, JsonValue)> = Vec::new();
    push_member(&mut m, "server_time", unsigned_value(server_time));
    push_member(&mut m, "connected_clients", unsigned_value(connected_clients));
    push_member(&mut m, "latency_ms", unsigned_value(latency));
    proof {
        assert(members_view(m@) =~= seq![
            ("server_time"@, JsonView::Number(decimal_digits(server_time as nat))),
            ("connected_clients"@, JsonView::Number(decimal_digits(connected_clients as nat))),
            ("latency_ms"@, JsonView::Number(decimal_digits(latency as nat))),
        ]);
    }
    JsonValue::Object(m)
}

/// Some position of `s` starts `pattern`.
pub open spec fn contains_text(s: Seq<char>, pattern: Seq<char>) -> bool {
    exists|i: int| matches_at(s, i, pattern)
}

/// A peeked request head asks for a WebSocket upgrade: its text, lower-cased
/// over ASCII, contains `upgrade: websocket`.
pub open spec fn is_upgrade_request(head: Seq<u8>) -> bool {
    contains_text(lossy_text(head).map_values(|c: char| ascii_lower(c)), "upgrade: websocket"@)
}

/// Whether a connection's first bytes ask for a WebSocket upgrade (otherwise
/// the connection is served as plain HTTP).
pub fn is_websocket_upgrade(head: &[u8]) -> (r: bool)
    ensures
        r == is_upgrade_request(head@),
{
    let text = crate::text::utf8_lossy(head);
    let cs = crate::text::chars_of(text.as_str());
    let mut lower: Vec<char> = Vec::new();
    let mut i: usize = 0;
    while i < cs.len()
        invariant
            i <= cs@.len(),
            lower@ == cs@.take(i as int).map_values(|c: char| ascii_lower(c)),
        decreases cs@.len() - i,
    {
        let c = crate::text::char_ascii_lower(cs[i]);
        lower.push(c);
        proof {
            assert(cs@.take(i + 1).map_values(|c: char| ascii_lower(c)) =~= cs@.take(i as int).map_values(
                |c: char| ascii_lower(c),
            ).push(ascii_lower(cs@[i as int])));
        }
        i = i + 1;
    }
    proof {
        assert(cs@.take(cs@.len() as int) =~= cs@);
    }
    let pattern = crate::text::chars_of("upgrade: websocket");
    let mut at: usize = 0;
    while at < lower.len()
        invariant
            lower@ == lossy_text(head@).map_values(|c: char| ascii_lower(c)),
            pattern@ == "upgrade: websocket"@,
            at <= lower@.len(),
            forall|j: int| 0 <= j < at ==> !matches_at(lower@, j, pattern@),
        decreases lower@.len() - at,
    {
        if crate::text::chars_match_at(&lower, at, &pattern) {
            return true;
        }
        at = at + 1;
    }
    proof {
        assert forall|j: int| !matches_at(lower@, j, pattern@) by {
            if 0 <= j && j >= lower@.len() {
                assert(pattern@.len() > 0) by {
                    reveal_strlit("upgrade: websocket");
                }
            }
        }
    }
    false
}

/// The string member `key` of a JSON text, when the text is a JSON document
/// whose top level is an object with a string member of that name.
pub uninterp spec fn json_string_member_of(text: Seq<char>, key: Seq<char>) -> Option<Seq<char>>;

/// Reads a string member of a JSON object text with `serde_json`
/// (`from_str` into a `Value`, then `get` and `as_str`).
#[verifier::external_body]
fn json_string_member(text: &str, key: &str) -> (r: Option<String>)
    ensures
        match r {
            Some(t) => json_string_member_of(text@, key@) == Some(t@),
            None => json_string_member_of(text@, key@) is None,
        },
{
    serde_json::from_str::<serde_json::Value>(text).ok().and_then(
        |value| value.get(key).and_then(serde_json::Value::as_str).map(|s| s.to_string()),
    )
}

/// The unsigned integer member `key` of a JSON text, when the text is a JSON
/// document whose top level is an object with a member of that name holding
/// an integer that fits in `u64`.
pub uninterp spec fn json_u64_member_of(text: Seq<char>, key: Seq<char>) -> Option<u64>;

/// Reads an unsigned integer member of a JSON object text with `serde_json`
/// (`from_str` into a `Value`, then `get` and `as_u64`).
#[verifier::external_body]
fn json_u64_member(text: &str, key: &str) -> (r: Option<u64>)
    ensures
        r == json_u64_member_of(text@, key@),
{
    serde_json::from_str::<serde_json::Value>(text).ok().and_then(|value| value.get(key).and_then(serde_json::Value::as_u64))
}

/// Whether a client text message is a protocol heartbeat: a JSON object whose
/// `type` member is `heartbeat`.
pub open spec fn is_heartbeat_text(text: Seq<char>) -> bool {
    json_string_member_of(text, "type"@) == Some("heartbeat"@)
}

/// Whether a client text message is a protocol heartbeat (a JSON object
/// whose `type` is `heartbeat`).
pub fn is_heartbeat_message(text: &str) -> (r: bool)
    ensures
        r == is_heartbeat_text(text@),
{
    match json_string_member(text, "type") {
        Some(t) => crate::text::same_text(t.as_str(), "heartbeat"),
        None => false,
    }
}

/// Id given to the `sequence`-th stream client: `client_<sequence>`.
pub open spec fn client_id_text(sequence: u64) -> Seq<char> {
    "client_"@ + decimal_digits(sequence as nat)
}

/// Builds the id of a newly connected stream client.
pub fn client_id(sequence: u64) -> (r: String)
    ensures
        r@ == client_id_text(sequence),
{
    let mut id = String::from_str("client_");
    crate::text::push_decimal_u64(&mut id, sequence);
    id
}

/// A frame received from a stream client, with what the server reads of it.
#[derive(Debug)]
pub enum ClientFrame {
    Text(String),
    Binary,
    Ping,
    Pong,
    Close,
    Other,
}

/// The server's answer to a client frame.
#[derive(Debug, Clone, Copy, PartialEq, Eq, Structural)]
pub enum ClientReply {
    /// Send a `heartbeat_ack` envelope.
    HeartbeatAck,
    /// Answer with a pong carrying the ping's payload.
    Pong,
    /// Send the close frame back; the connection ends.
    EchoClose,
    /// Nothing to send.
    Ignore,
}

/// Answer to a client frame: heartbeats are acknowledged, pings answered,
/// a close is echoed, everything else is ignored.
pub open spec fn client_reply_of(frame: ClientFrame) -> ClientReply {
    match frame {
        ClientFrame::Text(t) => if is_heartbeat_text(t@) {
            ClientReply::HeartbeatAck
        } else {
            ClientReply::Ignore
        },
        ClientFrame::Ping => ClientReply::Pong,
        ClientFrame::Close => ClientReply::EchoClose,
        _ => ClientReply::Ignore,
    }
}

/// Decides the answer to a client frame (see [`client_reply_of`]).
pub fn client_reply(frame: &ClientFrame) -> (r: ClientReply)
    ensures
        r == client_reply_of(*frame),
{
    match frame {
        ClientFrame::Text(t) => if is_heartbeat_message(t.as_str()) {
            ClientReply::HeartbeatAck
        } else {
            ClientReply::Ignore
        },
        ClientFrame::Ping => ClientReply::Pong,
        ClientFrame::Close => ClientReply::EchoClose,
        _ => ClientReply::Ignore,
    }
}

/// What a stream connection waits for next.
#[derive(Debug)]
pub enum ConnectionEvent {
    /// A serialised broadcast to forward.
    Broadcast(String),
    /// The client fell behind the broadcast channel and missed messages.
    Lagged,
    /// The broadcast channel closed.
    ChannelClosed,
    /// A frame from the client.
    Frame(ClientFrame),
    /// Reading from the client failed.
    ReadFailed,
    /// The client's stream ended.
    PeerClosed,
}

/// What a stream connection does with an event.
#[derive(Debug)]
pub enum ConnectionStep {
    /// Send the text to the client and go on.
    Forward(String),
    /// Send the reply; go on unless the flag is false.
    Answer(ClientReply, bool),
    /// Nothing to send; go on.
    Continue,
    /// End the connection normally.
    Finish,
    /// End the connection with a read error.
    Fail,
}

/// The step a stream connection takes on an event.
pub open spec fn connection_step_of(event: ConnectionEvent) -> ConnectionStep {
    match event {
        ConnectionEvent::Broadcast(text) => ConnectionStep::Forward(text),
        ConnectionEvent::Lagged => ConnectionStep::Continue,
        ConnectionEvent::ChannelClosed => ConnectionStep::Finish,
        ConnectionEvent::Frame(frame) => {
            let reply = client_reply_of(frame);
            ConnectionStep::Answer(reply, reply != ClientReply::EchoClose)
        },
        ConnectionEvent::ReadFailed => ConnectionStep::Fail,
        ConnectionEvent::PeerClosed => ConnectionStep::Finish,
    }
}

/// How a stream connection answers: a ping gets a pong and a heartbeat text
/// an acknowledgement, and the connection goes on; a close is echoed and
/// ends it; a pong, a binary frame and any other text are ignored; each
/// broadcast is forwarded unchanged; a lagging client goes on; a closed
/// channel or client stream ends the connection normally, a failed read
/// ends it with an error.
pub proof fn lemma_connection_answers(text: String, broadcast: String)
    ensures
        connection_step_of(ConnectionEvent::Frame(ClientFrame::Ping)) == ConnectionStep::Answer(ClientReply::Pong, true),
        connection_step_of(ConnectionEvent::Frame(ClientFrame::Close)) == ConnectionStep::Answer(
            ClientReply::EchoClose,
            false,
        ),
        is_heartbeat_text(text@) ==> connection_step_of(ConnectionEvent::Frame(ClientFrame::Text(text)))
            == ConnectionStep::Answer(ClientReply::HeartbeatAck, true),
        !is_heartbeat_text(text@) ==> connection_step_of(ConnectionEvent::Frame(ClientFrame::Text(text)))
            == ConnectionStep::Answer(ClientReply::Ignore, true),
        connection_step_of(ConnectionEvent::Frame(ClientFrame::Pong)) == ConnectionStep::Answer(ClientReply::Ignore, true),
        connection_step_of(ConnectionEvent::Frame(ClientFrame::Binary)) == ConnectionStep::Answer(
            ClientReply::Ignore,
            true,
        ),
        connection_step_of(ConnectionEvent::Frame(ClientFrame::Other)) == ConnectionStep::Answer(
            ClientReply::Ignore,
            true,
        ),
        connection_step_of(ConnectionEvent::Broadcast(broadcast)) == ConnectionStep::Forward(broadcast),
        connection_step_of(ConnectionEvent::Lagged) == ConnectionStep::Continue,
        connection_step_of(ConnectionEvent::ChannelClosed) == ConnectionStep::Finish,
        connection_step_of(ConnectionEvent::PeerClosed) == ConnectionStep::Finish,
        connection_step_of(ConnectionEvent::ReadFailed) == ConnectionStep::Fail,
{
}

/// A heartbeat is recognised by its `type` member alone: the text must be a
/// JSON object whose `type` is the string `heartbeat`.
pub proof fn lemma_heartbeat_is_its_type(text: Seq<char>)
    ensures
        is_heartbeat_text(text) <==> json_string_member_of(text, "type"@) == Some("heartbeat"@),
{
}

/// Decides the step a stream connection takes on an event.
pub fn connection_step(event: ConnectionEvent) -> (r: ConnectionStep)
    ensures
        r == connection_step_of(event),
{
    match event {
        ConnectionEvent::Broadcast(text) => ConnectionStep::Forward(text),
        ConnectionEvent::Lagged => ConnectionStep::Continue,
        ConnectionEvent::ChannelClosed => ConnectionStep::Finish,
        ConnectionEvent::Frame(frame) => {
            let reply = client_reply(&frame);
            let keep_open = match reply {
                ClientReply::EchoClose => false,
                _ => true,
            };
            ConnectionStep::Answer(reply, keep_open)
        },
        ConnectionEvent::ReadFailed => ConnectionStep::Fail,
        ConnectionEvent::PeerClosed => ConnectionStep::Finish,
    }
}

/// Path requested by a plain HTTP request line, if the method is `GET` or
/// `HEAD`.
pub open spec fn request_line_path(line: Seq<char>) -> Option<Seq<char>> {
    match first_two_tokens(line) {
        (Some(method), Some(path)) => if method == "GET"@ || method == "HEAD"@ { Some(path) } else { None },
        _ => None,
    }
}

/// Extracts the path of a `GET`/`HEAD` request line.
pub fn parse_http_request_path(request_line: &str) -> (r: Option<String>)
    ensures
        match (r, request_line_path(request_line@)) {
            (Some(a), Some(b)) => a@ == b,
            (None, None) => true,
            _ => false,
        },
{
    let (method, path) = crate::text::first_two_words(request_line);
    match (method, path) {
        (Some(m), Some(p)) => {
            if crate::text::same_text(m.as_str(), "GET") || crate::text::same_text(m.as_str(), "HEAD") {
                Some(p)
            } else {
                None
            }
        },
        _ => None,
    }
}

/// Path served for a plain HTTP request: the path of its first line, or `/`.
pub open spec fn static_request_path_of(request: Seq<u8>) -> Seq<char> {
    let ls = lines(lossy_text(request));
    if ls.len() > 0 && request_line_path(ls[0]) is Some {
        request_line_path(ls[0])->0
    } else {
        "/"@
    }
}

/// Path served for the bytes of a plain HTTP request.
pub fn static_request_path(request: &[u8]) -> (r: String)
    ensures
        r@ == static_request_path_of(request@),
{
    let text = crate::text::utf8_lossy(request);
    let ls = crate::text::split_lines(text.as_str());
    proof {
        assert(crate::text::strings_view(ls@).len() == ls@.len());
    }
    if ls.len() > 0 {
        proof {
            assert(crate::text::strings_view(ls@)[0] == ls@[0]@);
        }
        match parse_http_request_path(ls[0].as_str()) {
            Some(p) => {
                return p;
            },
            None => {},
        }
    }
    String::from_str("/")
}

/// `s` with every `\` turned into `/`: on Windows, where the server mainly
/// runs, both characters separate path components.
pub open spec fn unify_separators(s: Seq<char>) -> Seq<char> {
    s.map_values(|c: char| if c == '\\' { '/' } else { c })
}

/// Whether `p` begins with a drive designator such as `C:`, which makes a
/// path name a place on that drive rather than a relative entry.
pub open spec fn has_drive_prefix(p: Seq<char>) -> bool {
    &&& p.len() >= 2
    &&& (('a' <= p[0] && p[0] <= 'z') || ('A' <= p[0] && p[0] <= 'Z'))
    &&& p[1] == ':'
}

/// Components a relative request path names, when it is safe to serve.
/// `/` and `\` both separate components. The path must not start at a root
/// or with `.`, must not contain `..`, and no component may begin with a
/// drive designator; empty and `.` components are dropped.
pub open spec fn safe_components(relative: Seq<char>) -> Option<Seq<Seq<char>>> {
    let pieces = segments(unify_separators(relative), '/');
    if pieces[0].len() == 0 || pieces[0] == seq!['.'] || pieces.contains(seq!['.', '.'])
        || exists|k: int| 0 <= k < pieces.len() && has_drive_prefix(#[trigger] pieces[k]) {
        None
    } else {
        Some(pieces.filter(|p: Seq<char>| p.len() > 0 && p != seq!['.']))
    }
}

/// A path component that names an entry inside its directory: not empty,
/// not `.` or `..`, without a separator (`/` or `\`) and without a drive
/// designator.
pub open spec fn is_plain_component(p: Seq<char>) -> bool {
    &&& p.len() > 0
    &&& p != seq!['.']
    &&& p != seq!['.', '.']
    &&& !p.contains('/')
    &&& !p.contains('\\')
    &&& !has_drive_prefix(p)
}

/// Every component of a path accepted for serving is plain, so the file
/// served always lies under the directory it is looked up in.
pub proof fn lemma_safe_components_stay_inside(relative: Seq<char>)
    ensures
        safe_components(relative) matches Some(c) ==> forall|i: int| 0 <= i < c.len() ==> is_plain_component(#[trigger] c[i]),
{
    let unified = unify_separators(relative);
    let pieces = segments(unified, '/');
    let keep = |p: Seq<char>| p.len() > 0 && p != seq!['.'];
    crate::text::lemma_segments_exclude_separator(unified, '/');
    crate::text::lemma_segments_keep_characters(unified, '/');
    assert(!unified.contains('\\')) by {
        if unified.contains('\\') {
            let k = choose|k: int| 0 <= k < unified.len() && unified[k] == '\\';
            assert(unified[k] == (if relative[k] == '\\' { '/' } else { relative[k] }));
        }
    }
    if let Some(c) = safe_components(relative) {
        assert(c == pieces.filter(keep));
        assert forall|i: int| 0 <= i < c.len() implies is_plain_component(#[trigger] c[i]) by {
            pieces.lemma_filter_pred(keep, i);
            pieces.lemma_filter_contains_rev(keep, c[i]);
            let k = choose|k: int| 0 <= k < pieces.len() && pieces[k] == c[i];
            assert(!pieces[k].contains('/'));
            assert(!pieces[k].contains('\\'));
            assert(!has_drive_prefix(pieces[k]));
        }
    }
}

/// The page served at `index.html` is a plain component.
pub proof fn lemma_index_page_is_plain()
    ensures
        is_plain_component("index.html"@),
{
    reveal_strlit("index.html");
    let p = "index.html"@;
    assert(p.len() == 10);
    assert(p != seq!['.']);
    assert(p[0] != '.');
    assert(p != seq!['.', '.']);
    assert forall|k: int| 0 <= k < p.len() implies p[k] != '/' by {}
}

/// A `/public/...` request is answered only with a file under the page
/// directory: every component of the file it names is plain.
pub proof fn lemma_public_files_stay_inside(request_path: Seq<char>)
    ensures
        public_components(request_path) matches Some(c) ==> forall|i: int| 0 <= i < c.len() ==> is_plain_component(#[trigger] c[i]),
{
    lemma_index_page_is_plain();
    let relative = trim_leading(request_path, "/public/"@);
    lemma_safe_components_stay_inside(relative);
}

/// `s` with every `\` turned into `/`.
fn unify_separators_text(s: &str) -> (r: String)
    ensures
        r@ == unify_separators(s@),
{
    let cs = crate::text::chars_of(s);
    let mut out = String::new();
    let mut i: usize = 0;
    proof {
        reveal_strlit("/");
        assert(out@ =~= unify_separators(s@).take(0));
    }
    while i < cs.len()
        invariant
            cs@ == s@,
            i <= cs@.len(),
            "/"@ == seq!['/'],
            out@ == unify_separators(s@).take(i as int),
        decreases cs@.len() - i,
    {
        if cs[i] == '\\' {
            out.append("/");
        } else {
            let one = crate::text::substring(s, i, i + 1);
            out.append(one.as_str());
        }
        proof {
            let u = unify_separators(s@);
            assert(u.take(i + 1) =~= u.take(i as int).push(u[i as int]));
            assert(s@.subrange(i as int, i + 1) =~= seq![s@[i as int]]);
        }
        i = i + 1;
    }
    proof {
        assert(unify_separators(s@).take(s@.len() as int) =~= unify_separators(s@));
    }
    out
}

fn is_ascii_letter(c: char) -> (r: bool)
    ensures
        r == (('a' <= c && c <= 'z') || ('A' <= c && c <= 'Z')),
{
    ('a' <= c && c <= 'z') || ('A' <= c && c <= 'Z')
}

/// Splits a relative path into its components when it is safe to serve.
pub fn safe_relative_components(relative: &str) -> (r: Option<Vec<String>>)
    ensures
        match (r, safe_components(relative@)) {
            (Some(a), Some(b)) => crate::text::strings_view(a@) == b,
            (None, None) => true,
            _ => false,
        },
{
    let unified = unify_separators_text(relative);
    let pieces = crate::text::split_segments(unified.as_str(), '/');
    let ghost gp = crate::text::strings_view(pieces@);
    proof {
        assert(gp.len() == pieces@.len());
        assert(gp.len() > 0);
        assert(gp[0] == pieces@[0]@);
    }
    let first = crate::text::chars_of(pieces[0].as_str());
    if first.len() == 0 || (first.len() == 1 && first[0] == '.') {
        proof {
            if first@.len() == 1 {
                assert(gp[0] =~= seq!['.']);
            }
        }
        return None;
    }
    proof {
        if first@.len() == 1 {
            assert(gp[0] != seq!['.']) by {
                assert(gp[0][0] != '.');
            }
        } else {
            assert(gp[0].len() != 1);
        }
    }
    let mut out: Vec<String> = Vec::new();
    let mut i: usize = 0;
    while i < pieces.len()
        invariant
            gp == crate::text::strings_view(pieces@),
            gp == segments(unify_separators(relative@), '/'),
            gp[0].len() != 0,
            gp[0] != seq!['.'],
            i <= pieces@.len(),
            forall|j: int| 0 <= j < i ==> gp[j] != seq!['.', '.'],
            forall|j: int| 0 <= j < i ==> !has_drive_prefix(#[trigger] gp[j]),
            crate::text::strings_view(out@) == gp.take(i as int).filter(|p: Seq<char>| p.len() > 0 && p != seq!['.']),
        decreases pieces@.len() - i,
    {
        let cs = crate::text::chars_of(pieces[i].as_str());
        proof {
            assert(gp[i as int] == cs@);
            assert(gp.take(i + 1) =~= gp.take(i as int).push(gp[i as int]));
            reveal_with_fuel(Seq::<_>::filter, 1);
            assert(gp.take(i + 1).drop_last() =~= gp.take(i as int));
        }
        let is_parent = cs.len() == 2 && cs[0] == '.' && cs[1] == '.';
        let is_current = cs.len() == 1 && cs[0] == '.';
        let on_drive = cs.len() >= 2 && is_ascii_letter(cs[0]) && cs[1] == ':';
        proof {
            if is_parent {
                assert(cs@ =~= seq!['.', '.']);
            } else if cs@.len() == 2 {
                assert(cs@ != seq!['.', '.']) by {
                    if cs@ == seq!['.', '.'] {
                        assert(cs@[0] == '.' && cs@[1] == '.');
                    }
                }
            }
            if is_current {
                assert(cs@ =~= seq!['.']);
            } else if cs@.len() == 1 {
                assert(cs@ != seq!['.']) by {
                    if cs@ == seq!['.'] {
                        assert(cs@[0] == '.');
                    }
                }
            }
            assert(on_drive == has_drive_prefix(gp[i as int]));
        }
        if is_parent {
            proof {
                assert(gp[i as int] == seq!['.', '.']);
                assert(gp.contains(seq!['.', '.']));
            }
            return None;
        }
        if on_drive {
            proof {
                assert(has_drive_prefix(gp[i as int]));
            }
            return None;
        }
        if cs.len() > 0 && !is_current {
            let ghost old_out = out@;
            out.push(pieces[i].clone());
            proof {
                assert(crate::text::strings_view(out@) =~= crate::text::strings_view(old_out).push(gp[i as int]));
            }
        }
        i = i + 1;
    }
    proof {
        assert(gp.take(gp.len() as int) =~= gp);
        assert(!gp.contains(seq!['.', '.']));
        assert(!exists|k: int| 0 <= k < gp.len() && has_drive_prefix(#[trigger] gp[k]));
    }
    Some(out)
}

/// Removes every leading repetition of `prefix` (what `trim_start_matches`
/// does with a string pattern).
pub open spec fn trim_leading(s: Seq<char>, prefix: Seq<char>) -> Seq<char>
    decreases s.len(),
{
    if prefix.len() > 0 && matches_at(s, 0, prefix) {
        trim_leading(s.skip(prefix.len() as int), prefix)
    } else {
        s
    }
}

/// Components of the file a `/public/...` request names (the page itself for
/// `/public/`), or `None` for paths outside `/public/` and unsafe paths.
pub open spec fn public_components(request_path: Seq<char>) -> Option<Seq<Seq<char>>> {
    if request_path == "/public/"@ {
        Some(seq!["index.html"@])
    } else if matches_at(request_path, 0, "/public/"@) {
        let relative = trim_leading(request_path, "/public/"@);
        if relative.len() == 0 { Some(seq!["index.html"@]) } else { safe_components(relative) }
    } else {
        None
    }
}

fn trim_leading_text(s: &str, prefix: &str) -> (r: String)
    requires
        prefix@.len() > 0,
    ensures
        r@ == trim_leading(s@, prefix@),
{
    let cs = crate::text::chars_of(s);
    let ps = crate::text::chars_of(prefix);
    let mut at: usize = 0;
    proof {
        assert(s@.skip(0) =~= s@);
    }
    let mut matching = crate::text::chars_match_at(&cs, at, &ps);
    while matching
        invariant
            matching == matches_at(cs@, at as int, ps@),
            cs@ == s@,
            ps@ == prefix@,
            ps@.len() > 0,
            at <= cs@.len(),
            trim_leading(s@.skip(at as int), prefix@) == trim_leading(s@, prefix@),
        decreases cs@.len() - at,
    {
        proof {
            let rest = s@.skip(at as int);
            assert(rest.subrange(0, prefix@.len() as int) =~= s@.subrange(at as int, at + prefix@.len()));
            assert(rest.skip(prefix@.len() as int) =~= s@.skip(at + prefix@.len()));
        }
        assert(at + ps@.len() <= cs@.len());
        assert(cs@.len() == cs.len() && ps@.len() == ps.len());
        at = at + ps.len();
        matching = crate::text::chars_match_at(&cs, at, &ps);
    }
    proof {
        let rest = s@.skip(at as int);
        if prefix@.len() <= rest.len() {
            assert(rest.subrange(0, prefix@.len() as int) =~= s@.subrange(at as int, at + prefix@.len()));
        }
    }
    let r = crate::text::substring(s, at, cs.len());
    proof {
        assert(r@ =~= s@.skip(at as int));
    }
    r
}

fn index_page() -> (r: Vec<String>)
    ensures
        crate::text::strings_view(r@) == seq!["index.html"@],
{
    let mut v: Vec<String> = Vec::new();
    v.push(String::from_str("index.html"));
    proof {
        assert(crate::text::strings_view(v@) =~= seq!["index.html"@]);
    }
    v
}

/// Maps a `/public/...` request path to the components of the file to serve.
pub fn public_file_path(request_path: &str) -> (r: Option<Vec<String>>)
    ensures
        match (r, public_components(request_path@)) {
            (Some(a), Some(b)) => crate::text::strings_view(a@) == b,
            (None, None) => true,
            _ => false,
        },
{
    if crate::text::same_text(request_path, "/public/") {
        return Some(index_page());
    }
    if !crate::text::text_starts_with(request_path, "/public/") {
        return None;
    }
    proof {
        reveal_strlit("/public/");
    }
    let relative = trim_leading_text(request_path, "/public/");
    if relative.as_str().is_empty() {
        Some(index_page())
    } else {
        safe_relative_components(relative.as_str())
    }
}

/// What the stream port answers to a plain HTTP request.
#[derive(Debug)]
pub enum StaticTarget {
    /// Redirect to `/public/`.
    Redirect,
    /// `404 Not Found`.
    NotFound,
    /// The file with these components under the page directory.
    File(Vec<String>),
}

/// Target of a plain HTTP request path: `/` and `/public` (query ignored)
/// redirect to the page, `/public/...` names a file, anything else is not found.
pub open spec fn static_target_of(request_path: Seq<char>) -> Option<Option<Seq<Seq<char>>>> {
    let p = before_first(request_path, '?');
    if p == "/"@ || p == "/public"@ {
        None
    } else {
        Some(public_components(p))
    }
}

/// A query string never changes what the stream port answers: `path?query`
/// is answered as `path` is, for a path without `?`.
pub proof fn lemma_query_does_not_change_static_target(path: Seq<char>, query: Seq<char>)
    requires
        !path.contains('?'),
    ensures
        static_target_of(path + seq!['?'] + query) == static_target_of(path),
{
    crate::text::lemma_before_first_ignores_tail(path, '?', query);
    crate::text::lemma_before_first_without_separator(path, '?');
}

/// Decides how the stream port answers a plain HTTP request path.
pub fn static_target(request_path: &str) -> (r: StaticTarget)
    ensures
        match (r, static_target_of(request_path@)) {
            (StaticTarget::Redirect, None) => true,
            (StaticTarget::NotFound, Some(None)) => true,
            (StaticTarget::File(c), Some(Some(d))) => crate::text::strings_view(c@) == d,
            _ => false,
        },
{
    let p = crate::text::before_first_char(request_path, '?');
    if crate::text::same_text(p.as_str(), "/") || crate::text::same_text(p.as_str(), "/public") {
        return StaticTarget::Redirect;
    }
    match public_file_path(p.as_str()) {
        None => StaticTarget::NotFound,
        Some(c) => StaticTarget::File(c),
    }
}

/// Extension of a file name: the part after its last `.`, unless the name
/// has no dot or its only dot is its first character.
pub open spec fn extension_of(name: Seq<char>) -> Option<Seq<char>> {
    let d = crate::preset::importer::last_dot(name, name.len() as int);
    if d <= 0 { None } else { Some(name.skip(d + 1)) }
}

/// MIME type served for a file name, by extension.
pub open spec fn content_type_of(name: Seq<char>) -> Seq<char> {
    match extension_of(name) {
        Some(e) => if e == "html"@ {
            "text/html; charset=utf-8"@
        } else if e == "css"@ {
            "text/css; charset=utf-8"@
        } else if e == "js"@ {
            "application/javascript; charset=utf-8"@
        } else if e == "json"@ {
            "application/json; charset=utf-8"@
        } else if e == "png"@ {
            "image/png"@
        } else if e == "jpg"@ || e == "jpeg"@ {
            "image/jpeg"@
        } else if e == "svg"@ {
            "image/svg+xml"@
        } else {
            "application/octet-stream"@
        },
        None => "application/octet-stream"@,
    }
}

proof fn lemma_last_dot_at(s: Seq<char>, d: int, end: int)
    requires
        0 <= d < end <= s.len(),
        s[d] == '.',
        forall|j: int| d < j < end ==> s[j] != '.',
    ensures
        crate::preset::importer::last_dot(s, end) == d,
    decreases end,
{
    if end - 1 > d {
        lemma_last_dot_at(s, d, end - 1);
    }
}

/// The extension of `base.ext` is `ext`, for a non-empty `base` and an
/// `ext` without a dot.
pub proof fn lemma_extension_after_dot(base: Seq<char>, ext: Seq<char>)
    requires
        base.len() > 0,
        !ext.contains('.'),
    ensures
        extension_of(base + seq!['.'] + ext) == Some(ext),
{
    let s = base + seq!['.'] + ext;
    let d = base.len() as int;
    assert forall|j: int| d < j < s.len() implies s[j] != '.' by {
        assert(s[j] == ext[j - d - 1]);
    }
    lemma_last_dot_at(s, d, s.len() as int);
    assert(s.skip(d + 1) =~= ext);
}

/// Files are served with the MIME type of their extension: `.html`, `.css`,
/// `.js` and `.json` as UTF-8 text of their kind, `.png`, `.jpg`/`.jpeg` and
/// `.svg` as images, and anything else (or a name without extension) as
/// `application/octet-stream`.
pub proof fn lemma_content_types(base: Seq<char>, ext: Seq<char>)
    requires
        base.len() > 0,
        !ext.contains('.'),
    ensures
        content_type_of(base + ".html"@) == "text/html; charset=utf-8"@,
        content_type_of(base + ".css"@) == "text/css; charset=utf-8"@,
        content_type_of(base + ".js"@) == "application/javascript; charset=utf-8"@,
        content_type_of(base + ".json"@) == "application/json; charset=utf-8"@,
        content_type_of(base + ".png"@) == "image/png"@,
        content_type_of(base + ".jpg"@) == "image/jpeg"@,
        content_type_of(base + ".jpeg"@) == "image/jpeg"@,
        content_type_of(base + ".svg"@) == "image/svg+xml"@,
        !(ext == "html"@ || ext == "css"@ || ext == "js"@ || ext == "json"@ || ext == "png"@ || ext == "jpg"@
            || ext == "jpeg"@ || ext == "svg"@) ==> content_type_of(base + seq!['.'] + ext)
            == "application/octet-stream"@,
        !base.contains('.') ==> content_type_of(base) == "application/octet-stream"@,
{
    reveal_strlit(".html");
    reveal_strlit(".css");
    reveal_strlit(".js");
    reveal_strlit(".json");
    reveal_strlit(".png");
    reveal_strlit(".jpg");
    reveal_strlit(".jpeg");
    reveal_strlit(".svg");
    reveal_strlit("html");
    reveal_strlit("css");
    reveal_strlit("js");
    reveal_strlit("json");
    reveal_strlit("png");
    reveal_strlit("jpg");
    reveal_strlit("jpeg");
    reveal_strlit("svg");
    assert(base + ".html"@ =~= base + seq!['.'] + "html"@);
    assert(base + ".css"@ =~= base + seq!['.'] + "css"@);
    assert(base + ".js"@ =~= base + seq!['.'] + "js"@);
    assert(base + ".json"@ =~= base + seq!['.'] + "json"@);
    assert(base + ".png"@ =~= base + seq!['.'] + "png"@);
    assert(base + ".jpg"@ =~= base + seq!['.'] + "jpg"@);
    assert(base + ".jpeg"@ =~= base + seq!['.'] + "jpeg"@);
    assert(base + ".svg"@ =~= base + seq!['.'] + "svg"@);
    lemma_no_dot_in("html"@);
    lemma_no_dot_in("css"@);
    lemma_no_dot_in("js"@);
    lemma_no_dot_in("json"@);
    lemma_no_dot_in("png"@);
    lemma_no_dot_in("jpg"@);
    lemma_no_dot_in("jpeg"@);
    lemma_no_dot_in("svg"@);
    lemma_extension_after_dot(base, "html"@);
    lemma_extension_after_dot(base, "css"@);
    lemma_extension_after_dot(base, "js"@);
    lemma_extension_after_dot(base, "json"@);
    lemma_extension_after_dot(base, "png"@);
    lemma_extension_after_dot(base, "jpg"@);
    lemma_extension_after_dot(base, "jpeg"@);
    lemma_extension_after_dot(base, "svg"@);
    lemma_extension_after_dot(base, ext);
    assert("html"@ != "css"@ && "html"@ != "js"@ && "html"@ != "json"@ && "html"@ != "png"@);
    assert("css"@ != "js"@ && "css"@ != "json"@ && "css"@ != "png"@ && "css"@ != "jpg"@);
    assert("js"@ != "json"@ && "js"@ != "png"@ && "js"@ != "jpg"@ && "js"@ != "jpeg"@);
    assert("json"@ != "png"@ && "json"@ != "jpg"@ && "json"@ != "jpeg"@ && "json"@ != "svg"@);
    assert("png"@ != "jpg"@ && "png"@ != "jpeg"@ && "png"@ != "svg"@) by {
        assert("png"@[0] != "jpg"@[0] && "png"@[0] != "svg"@[0]);
    }
    assert("jpg"@ != "svg"@ && "jpeg"@ != "svg"@) by {
        assert("jpg"@[0] != "svg"@[0]);
    }
    if !base.contains('.') {
        lemma_no_dot_found(base, base.len() as int);
    }
}

proof fn lemma_no_dot_in(s: Seq<char>)
    requires
        forall|i: int| 0 <= i < s.len() ==> s[i] != '.',
    ensures
        !s.contains('.'),
{
}

proof fn lemma_no_dot_found(s: Seq<char>, end: int)
    requires
        0 <= end <= s.len(),
        !s.contains('.'),
    ensures
        crate::preset::importer::last_dot(s, end) == -1,
    decreases end,
{
    if end > 0 {
        assert(s[end - 1] != '.') by {
            if s[end - 1] == '.' {
                assert(s.contains('.'));
            }
        }
        lemma_no_dot_found(s, end - 1);
    }
}

fn extension(name: &str) -> (r: Option<String>)
    ensures
        match (r, extension_of(name@)) {
            (Some(a), Some(b)) => a@ == b,
            (None, None) => true,
            _ => false,
        },
{
    let cs = crate::text::chars_of(name);
    let mut end = cs.len();
    while end > 0 && cs[end - 1] != '.'
        invariant
            cs@ == name@,
            end <= cs@.len(),
            crate::preset::importer::last_dot(name@, end as int) == crate::preset::importer::last_dot(
                name@,
                name@.len() as int,
            ),
        decreases end,
    {
        end = end - 1;
    }
    if end <= 1 {
        None
    } else {
        let e = crate::text::substring(name, end, cs.len());
        proof {
            assert(e@ =~= name@.skip(end as int));
        }
        Some(e)
    }
}

/// MIME type served for a file name.
pub fn content_type(file_name: &str) -> (r: &'static str)
    ensures
        r@ == content_type_of(file_name@),
{
    match extension(file_name) {
        None => "application/octet-stream",
        Some(e) => {
            let e = e.as_str();
            if crate::text::same_text(e, "html") {
                "text/html; charset=utf-8"
            } else if crate::text::same_text(e, "css") {
                "text/css; charset=utf-8"
            } else if crate::text::same_text(e, "js") {
                "application/javascript; charset=utf-8"
            } else if crate::text::same_text(e, "json") {
                "application/json; charset=utf-8"
            } else if crate::text::same_text(e, "png") {
                "image/png"
            } else if crate::text::same_text(e, "jpg") || crate::text::same_text(e, "jpeg") {
                "image/jpeg"
            } else if crate::text::same_text(e, "svg") {
                "image/svg+xml"
            } else {
                "application/octet-stream"
            }
        },
    }
}

/// Header block of a stream-port HTTP response.
pub open spec fn stream_response_head(status: Seq<char>, content_type: Seq<char>, length: nat) -> Seq<char> {
    "HTTP/1.1 "@ + status + "\r\nContent-Type: "@ + content_type + "\r\nContent-Length: "@
        + decimal_digits(length) + "\r\nCache-Control: no-store\r\nConnection: close\r\n\r\n"@
}

/// Builds a complete stream-port HTTP response.
pub fn http_response(status: &str, content_type: &str, body: Vec<u8>) -> (r: Vec<u8>)
    ensures
        r@ == vstd::utf8::encode_utf8(stream_response_head(status@, content_type@, body@.len())) + body@,
{
    let mut head = String::from_str("HTTP/1.1 ");
    head.append(status);
    head.append("\r\nContent-Type: ");
    head.append(content_type);
    head.append("\r\nContent-Length: ");
    crate::text::push_decimal_u64(&mut head, body.len() as u64);
    head.append("\r\nCache-Control: no-store\r\nConnection: close\r\n\r\n");
    proof {
        assert(head@ =~= stream_response_head(status@, content_type@, body@.len()));
    }
    let mut out = vstd::slice::slice_to_vec(head.as_str().as_bytes());
    let mut rest = body;
    out.append(&mut rest);
    out
}

/// Text of a redirect response to `location`.
pub open spec fn redirect_text(location: Seq<char>) -> Seq<char> {
    "HTTP/1.1 302 Found\r\nLocation: "@ + location
        + "\r\nContent-Length: 0\r\nCache-Control: no-store\r\nConnection: close\r\n\r\n"@
}

/// Builds a `302 Found` response to `location`.
pub fn http_redirect(location: &str) -> (r: Vec<u8>)
    ensures
        r@ == vstd::utf8::encode_utf8(redirect_text(location@)),
{
    let mut text = String::from_str("HTTP/1.1 302 Found\r\nLocation: ");
    text.append(location);
    text.append("\r\nContent-Length: 0\r\nCache-Control: no-store\r\nConnection: close\r\n\r\n");
    proof {
        assert(text@ =~= redirect_text(location@));
    }
    vstd::slice::slice_to_vec(text.as_str().as_bytes())
}

} // verus!
