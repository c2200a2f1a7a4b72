//! Mouse input: eight-way direction judgement, the motion sampling state
//! machine, button tracking and the decoding of low-level mouse messages.
//!
//! Directions are judged in screen coordinates (x grows to the right, y grows
//! downwards). A delta belongs to the direction whose centre ray is less than
//! 22.5 degrees away; a previously judged direction is kept while the delta
//! stays within 30.5 degrees (22.5 degrees plus 8 degrees of hysteresis) of
//! its centre ray. Both tests are decided exactly with integer arithmetic.

use crate::websocket_server::BroadcastEvent;
use std::collections::HashMap;
use vstd::prelude::*;

verus! {

broadcast use vstd::std_specs::hash::group_hash_axioms;

/// Numerator of a rational just below tan(30.5 degrees), the hysteresis
/// bound. It is a continued-fraction convergent whose denominator exceeds
/// every along-the-ray component a pair of `i32` deltas can produce, so no
/// such delta lies strictly between this rational and the exact tangent.
pub const HYSTERESIS_TAN_NUM: i128 = 12915401645;

/// Denominator of the hysteresis bound (see [`HYSTERESIS_TAN_NUM`]).
pub const HYSTERESIS_TAN_DEN: i128 = 21926001044;

/// Squared length below which a motion is treated as jitter (4 pixels).
pub const DIRECTION_MIN_DISTANCE_SQUARED: i64 = 16;

/// Protocol code of the left mouse button.
pub const MOUSE_BUTTON_LEFT: u8 = 1;
/// Protocol code of the right mouse button.
pub const MOUSE_BUTTON_RIGHT: u8 = 2;
/// Protocol code of the middle mouse button.
pub const MOUSE_BUTTON_MIDDLE: u8 = 3;
/// Protocol code of the first extra button.
pub const MOUSE_BUTTON_X1: u8 = 4;
/// Protocol code of the second extra button.
pub const MOUSE_BUTTON_X2: u8 = 5;

/// Hook code under which a low-level hook must process the message.
pub const HC_ACTION: i32 = 0;
pub const WM_MOUSEMOVE: u32 = 0x0200;
pub const WM_LBUTTONDOWN: u32 = 0x0201;
pub const WM_LBUTTONUP: u32 = 0x0202;
pub const WM_RBUTTONDOWN: u32 = 0x0204;
pub const WM_RBUTTONUP: u32 = 0x0205;
pub const WM_MBUTTONDOWN: u32 = 0x0207;
pub const WM_MBUTTONUP: u32 = 0x0208;
pub const WM_MOUSEWHEEL: u32 = 0x020A;
pub const WM_XBUTTONDOWN: u32 = 0x020B;
pub const WM_XBUTTONUP: u32 = 0x020C;
/// High word of the extra data for the first extra button.
pub const XBUTTON1: u16 = 1;
/// High word of the extra data for the second extra button.
pub const XBUTTON2: u16 = 2;

/// A mouse event captured by the platform hook.
#[derive(Debug, Clone, Copy, PartialEq, Eq, Structural)]
pub enum MouseEvent {
    Move { x: i32, y: i32 },
    Button { button: u8, pressed: bool, x: i32, y: i32 },
    Wheel { delta: i32, x: i32, y: i32 },
}

/// High 16 bits of a 32-bit value.
pub open spec fn spec_high_word(value: u32) -> u16 {
    (value / 0x10000) as u16
}

/// Signed wheel delta: the high word read as a two's-complement 16-bit value.
pub open spec fn spec_wheel_delta(mouse_data: u32) -> i32 {
    let h = spec_high_word(mouse_data);
    if h < 0x8000 { h as i32 } else { (h - 0x10000) as i32 }
}

/// Protocol code of an extra button, from the event's extra data.
pub open spec fn spec_x_button(mouse_data: u32) -> Option<u8> {
    if spec_high_word(mouse_data) == XBUTTON1 {
        Some(MOUSE_BUTTON_X1)
    } else if spec_high_word(mouse_data) == XBUTTON2 {
        Some(MOUSE_BUTTON_X2)
    } else {
        None
    }
}

/// Button code and pressed state carried by a mouse button message.
pub open spec fn spec_button_event(message: u32, mouse_data: u32) -> Option<(u8, bool)> {
    if message == WM_LBUTTONDOWN {
        Some((MOUSE_BUTTON_LEFT, true))
    } else if message == WM_LBUTTONUP {
        Some((MOUSE_BUTTON_LEFT, false))
    } else if message == WM_RBUTTONDOWN {
        Some((MOUSE_BUTTON_RIGHT, true))
    } else if message == WM_RBUTTONUP {
        Some((MOUSE_BUTTON_RIGHT, false))
    } else if message == WM_MBUTTONDOWN {
        Some((MOUSE_BUTTON_MIDDLE, true))
    } else if message == WM_MBUTTONUP {
        Some((MOUSE_BUTTON_MIDDLE, false))
    } else if message == WM_XBUTTONDOWN {
        match spec_x_button(mouse_data) {
            Some(b) => Some((b, true)),
            None => None,
        }
    } else if message == WM_XBUTTONUP {
        match spec_x_button(mouse_data) {
            Some(b) => Some((b, false)),
            None => None,
        }
    } else {
        None
    }
}

/// Button messages report which button changed and how: each `...DOWN`
/// message (0x0201 left, 0x0204 right, 0x0207 middle, 0x020B extra) is a
/// press and the matching `...UP` message (0x0202, 0x0205, 0x0208, 0x020C) a
/// release of the same button; left is button 1, right 2, middle 3, and the
/// extra buttons are 4 and 5 (high word 1 or 2 of the extra data), any other
/// extra button is ignored; every other message is no button event.
pub proof fn lemma_button_messages(message: u32, mouse_data: u32)
    ensures
        spec_button_event(0x0201, mouse_data) == Some((1u8, true)),
        spec_button_event(0x0202, mouse_data) == Some((1u8, false)),
        spec_button_event(0x0204, mouse_data) == Some((2u8, true)),
        spec_button_event(0x0205, mouse_data) == Some((2u8, false)),
        spec_button_event(0x0207, mouse_data) == Some((3u8, true)),
        spec_button_event(0x0208, mouse_data) == Some((3u8, false)),
        mouse_data / 0x10000 == 1 ==> spec_button_event(0x020B, mouse_data) == Some((4u8, true))
            && spec_button_event(0x020C, mouse_data) == Some((4u8, false)),
        mouse_data / 0x10000 == 2 ==> spec_button_event(0x020B, mouse_data) == Some((5u8, true))
            && spec_button_event(0x020C, mouse_data) == Some((5u8, false)),
        !(mouse_data / 0x10000 == 1 || mouse_data / 0x10000 == 2) ==> spec_button_event(0x020B, mouse_data) is None
            && spec_button_event(0x020C, mouse_data) is None,
        !(message == 0x0201 || message == 0x0202 || message == 0x0204 || message == 0x0205 || message == 0x0207
            || message == 0x0208 || message == 0x020B || message == 0x020C) ==> spec_button_event(message, mouse_data)
            is None,
{
}

/// The wheel delta is the high word of the extra data read as a signed
/// 16-bit number: it lies in `-32768..=32767` and agrees with the high word
/// modulo 2^16 (so `0x0078_0000` is 120 and `0xFF88_0000` is -120).
pub proof fn lemma_wheel_delta_is_signed_high_word(mouse_data: u32)
    ensures
        -0x8000 <= spec_wheel_delta(mouse_data) < 0x8000,
        (spec_wheel_delta(mouse_data) + 0x10000) % 0x10000 == mouse_data / 0x10000,
{
}

/// Reads the high 16 bits of a 32-bit value.
pub fn high_word(value: u32) -> (r: u16)
    ensures
        r == spec_high_word(value),
{
    (value / 0x10000) as u16
}

/// Signed wheel delta carried in the high word of the extra data
/// (normally a multiple of 120 or -120).
pub fn mouse_wheel_delta(mouse_data: u32) -> (r: i32)
    ensures
        r == spec_wheel_delta(mouse_data),
{
    let h = high_word(mouse_data);
    if h < 0x8000 {
        h as i32
    } else {
        h as i32 - 0x10000
    }
}

/// Protocol code of the extra button named by the event's extra data.
pub fn x_button_code(mouse_data: u32) -> (r: Option<u8>)
    ensures
        r == spec_x_button(mouse_data),
{
    let h = high_word(mouse_data);
    if h == XBUTTON1 {
        Some(MOUSE_BUTTON_X1)
    } else if h == XBUTTON2 {
        Some(MOUSE_BUTTON_X2)
    } else {
        None
    }
}

/// Maps a mouse button message to a protocol button code and pressed state.
pub fn mouse_button_event(message: u32, mouse_data: u32) -> (r: Option<(u8, bool)>)
    ensures
        r == spec_button_event(message, mouse_data),
{
    if message == WM_LBUTTONDOWN {
        Some((MOUSE_BUTTON_LEFT, true))
    } else if message == WM_LBUTTONUP {
        Some((MOUSE_BUTTON_LEFT, false))
    } else if message == WM_RBUTTONDOWN {
        Some((MOUSE_BUTTON_RIGHT, true))
    } else if message == WM_RBUTTONUP {
        Some((MOUSE_BUTTON_RIGHT, false))
    } else if message == WM_MBUTTONDOWN {
        Some((MOUSE_BUTTON_MIDDLE, true))
    } else if message == WM_MBUTTONUP {
        Some((MOUSE_BUTTON_MIDDLE, false))
    } else if message == WM_XBUTTONDOWN {
        match x_button_code(mouse_data) {
            Some(b) => Some((b, true)),
            None => None,
        }
    } else if message == WM_XBUTTONUP {
        match x_button_code(mouse_data) {
            Some(b) => Some((b, false)),
            None => None,
        }
    } else {
        None
    }
}

/// Decodes one call of the low-level mouse hook: hook code, message, pointer
/// position and extra data. Only `HC_ACTION` calls produce events: a move, a
/// wheel turn, or a recognised button transition.
pub fn decode_mouse_hook(code: i32, message: u32, x: i32, y: i32, mouse_data: u32) -> (r: Option<MouseEvent>)
    ensures
        r == (if code != HC_ACTION {
            None
        } else if message == WM_MOUSEMOVE {
            Some(MouseEvent::Move { x, y })
        } else if message == WM_MOUSEWHEEL {
            Some(MouseEvent::Wheel { delta: spec_wheel_delta(mouse_data), x, y })
        } else {
            match spec_button_event(message, mouse_data) {
                Some((button, pressed)) => Some(MouseEvent::Button { button, pressed, x, y }),
                None => None,
            }
        }),
{
    if code != HC_ACTION {
        None
    } else if message == WM_MOUSEMOVE {
        Some(MouseEvent::Move { x, y })
    } else if message == WM_MOUSEWHEEL {
        Some(MouseEvent::Wheel { delta: mouse_wheel_delta(mouse_data), x, y })
    } else {
        match mouse_button_event(message, mouse_data) {
            Some((button, pressed)) => Some(MouseEvent::Button { button, pressed, x, y }),
            None => None,
        }
    }
}

/// Eight-way movement direction, or `Idle` for no movement.
#[derive(Debug, Clone, Copy, PartialEq, Eq, Structural)]
pub enum MouseDirection {
    Up,
    Down,
    Left,
    Right,
    UpLeft,
    UpRight,
    DownLeft,
    DownRight,
    Idle,
}

/// Unit-grid vector of a direction's centre ray (`Idle` has none).
pub open spec fn center(d: MouseDirection) -> (int, int) {
    match d {
        MouseDirection::Right => (1, 0),
        MouseDirection::DownRight => (1, 1),
        MouseDirection::Down => (0, 1),
        MouseDirection::DownLeft => (-1, 1),
        MouseDirection::Left => (-1, 0),
        MouseDirection::UpLeft => (-1, -1),
        MouseDirection::Up => (0, -1),
        MouseDirection::UpRight => (1, -1),
        MouseDirection::Idle => (0, 0),
    }
}

pub open spec fn abs(x: int) -> int {
    if x < 0 { -x } else { x }
}

/// Component of the delta along the centre ray of `d` (scaled by the ray's length).
pub open spec fn along(dx: int, dy: int, d: MouseDirection) -> int {
    dx * center(d).0 + dy * center(d).1
}

/// Component of the delta across the centre ray of `d` (same scale as [`along`]).
pub open spec fn across(dx: int, dy: int, d: MouseDirection) -> int {
    dy * center(d).0 - dx * center(d).1
}

/// The delta is less than 22.5 degrees away from the centre ray of `d`:
/// `|across| < tan(22.5°)·along` with `tan(22.5°) = √2 − 1`, i.e.
/// `(|across| + along)² < 2·along²` for a positive `along`.
pub open spec fn within_sector(dx: int, dy: int, d: MouseDirection) -> bool {
    let u = along(dx, dy, d);
    let w = abs(across(dx, dy, d));
    &&& d != MouseDirection::Idle
    &&& u > 0
    &&& (w + u) * (w + u) < 2 * (u * u)
}

/// The delta is at most 30.5 degrees away from the centre ray of `d`.
pub open spec fn within_hysteresis(dx: int, dy: int, d: MouseDirection) -> bool {
    let u = along(dx, dy, d);
    let w = abs(across(dx, dy, d));
    &&& d != MouseDirection::Idle
    &&& u > 0
    &&& w * HYSTERESIS_TAN_DEN <= HYSTERESIS_TAN_NUM * u
}

/// The direction whose sector holds the delta (`Idle` for a zero delta).
pub open spec fn sector_of(dx: int, dy: int) -> MouseDirection {
    if dx == 0 && dy == 0 {
        MouseDirection::Idle
    } else if within_sector(dx, dy, MouseDirection::Right) {
        MouseDirection::Right
    } else if within_sector(dx, dy, MouseDirection::DownRight) {
        MouseDirection::DownRight
    } else if within_sector(dx, dy, MouseDirection::Down) {
        MouseDirection::Down
    } else if within_sector(dx, dy, MouseDirection::DownLeft) {
        MouseDirection::DownLeft
    } else if within_sector(dx, dy, MouseDirection::Left) {
        MouseDirection::Left
    } else if within_sector(dx, dy, MouseDirection::UpLeft) {
        MouseDirection::UpLeft
    } else if within_sector(dx, dy, MouseDirection::Up) {
        MouseDirection::Up
    } else if within_sector(dx, dy, MouseDirection::UpRight) {
        MouseDirection::UpRight
    } else {
        MouseDirection::Idle
    }
}

/// Direction judged for a delta given the previously judged direction:
/// a zero delta is `Idle`; a previous non-idle direction is kept while the
/// delta stays inside its hysteresis cone; otherwise the delta's sector.
pub open spec fn judge(dx: int, dy: int, previous: Option<MouseDirection>) -> MouseDirection {
    if dx == 0 && dy == 0 {
        MouseDirection::Idle
    } else if previous matches Some(p) && p != MouseDirection::Idle && within_hysteresis(dx, dy, p) {
        previous->0
    } else {
        sector_of(dx, dy)
    }
}

/// Protocol name of a direction.
pub open spec fn direction_name(d: MouseDirection) -> Seq<char> {
    match d {
        MouseDirection::Up => "up"@,
        MouseDirection::Down => "down"@,
        MouseDirection::Left => "left"@,
        MouseDirection::Right => "right"@,
        MouseDirection::UpLeft => "up_left"@,
        MouseDirection::UpRight => "up_right"@,
        MouseDirection::DownLeft => "down_left"@,
        MouseDirection::DownRight => "down_right"@,
        MouseDirection::Idle => "idle"@,
    }
}

/// √2 is irrational: no square of an integer is twice a positive square.
proof fn lemma_no_double_square(x: int, y: int)
    requires
        y > 0,
    ensures
        x * x != 2 * (y * y),
    decreases y,
{
    if x * x == 2 * (y * y) {
        let k = x / 2;
        let r = x % 2;
        assert(x == 2 * k + r);
        if r == 1 {
            assert(x * x == 4 * (k * k + k) + 1) by (nonlinear_arith)
                requires
                    x == 2 * k + 1,
            ;
        } else {
            assert(x * x == 4 * (k * k)) by (nonlinear_arith)
                requires
                    x == 2 * k,
            ;
            assert(y * y == 2 * (k * k));
            let m = abs(k);
            assert(m * m == k * k) by (nonlinear_arith)
                requires
                    m == k || m == -k,
            ;
            if m == 0 {
                assert(y * y > 0) by (nonlinear_arith)
                    requires
                        y > 0,
                ;
            } else {
                assert(m < y) by (nonlinear_arith)
                    requires
                        y * y == 2 * (m * m),
                        m > 0,
                        y > 0,
                ;
                lemma_no_double_square(y, m);
            }
        }
    }
}

/// A delta inside a sector is closer to the ray than it is wide.
proof fn lemma_within_is_narrow(dx: int, dy: int, d: MouseDirection)
    ensures
        within_sector(dx, dy, d) ==> abs(across(dx, dy, d)) < along(dx, dy, d),
{
    let u = along(dx, dy, d);
    let w = abs(across(dx, dy, d));
    if u > 0 && w >= u {
        assert((w + u) * (w + u) >= 2 * (u * u)) by (nonlinear_arith)
            requires
                u > 0,
                w >= u,
        ;
    }
}

/// Within one half-quadrant (`p >= q >= 0`, `p > 0`) exactly one of the two
/// neighbouring sectors holds the delta.
proof fn lemma_split_half_quadrant(p: int, q: int)
    requires
        p > 0,
        0 <= q <= p,
    ensures
        ((p + q) * (p + q) < 2 * (p * p)) != ((2 * p) * (2 * p) < 2 * ((p + q) * (p + q))),
{
    lemma_no_double_square(p + q, p);
    assert((2 * p) * (2 * p) == 4 * (p * p)) by (nonlinear_arith);
}

/// Every non-zero delta lies in exactly one of the eight sectors, and that
/// sector is the direction `from_delta` reports: the judgement never answers
/// `Idle` for a movement and does not depend on the order of the tests.
#[verifier::spinoff_prover]
#[verifier::rlimit(50)]
pub proof fn lemma_exactly_one_sector(dx: int, dy: int)
    requires
        !(dx == 0 && dy == 0),
    ensures
        sector_of(dx, dy) != MouseDirection::Idle,
        within_sector(dx, dy, sector_of(dx, dy)),
        forall|d: MouseDirection| within_sector(dx, dy, d) <==> d == sector_of(dx, dy),
{
    lemma_within_is_narrow(dx, dy, MouseDirection::Right);
    lemma_within_is_narrow(dx, dy, MouseDirection::DownRight);
    lemma_within_is_narrow(dx, dy, MouseDirection::Down);
    lemma_within_is_narrow(dx, dy, MouseDirection::DownLeft);
    lemma_within_is_narrow(dx, dy, MouseDirection::Left);
    lemma_within_is_narrow(dx, dy, MouseDirection::UpLeft);
    lemma_within_is_narrow(dx, dy, MouseDirection::Up);
    lemma_within_is_narrow(dx, dy, MouseDirection::UpRight);
    if dx > 0 && dy >= 0 && dy <= dx {
        lemma_split_half_quadrant(dx, dy);
    } else if dx >= 0 && dy > 0 && dx <= dy {
        lemma_split_half_quadrant(dy, dx);
    } else if dx <= 0 && dy > 0 && -dx <= dy {
        lemma_split_half_quadrant(dy, -dx);
    } else if dx < 0 && dy >= 0 && dy <= -dx {
        lemma_split_half_quadrant(-dx, dy);
    } else if dx < 0 && dy <= 0 && -dy <= -dx {
        lemma_split_half_quadrant(-dx, -dy);
    } else if dx <= 0 && dy < 0 && -dx <= -dy {
        lemma_split_half_quadrant(-dy, -dx);
    } else if dx >= 0 && dy < 0 && dx <= -dy {
        lemma_split_half_quadrant(-dy, dx);
    } else {
        lemma_split_half_quadrant(dx, -dy);
    }
}

/// The direction reported opposite to a direction.
pub open spec fn opposite(d: MouseDirection) -> MouseDirection {
    match d {
        MouseDirection::Up => MouseDirection::Down,
        MouseDirection::Down => MouseDirection::Up,
        MouseDirection::Left => MouseDirection::Right,
        MouseDirection::Right => MouseDirection::Left,
        MouseDirection::UpLeft => MouseDirection::DownRight,
        MouseDirection::DownRight => MouseDirection::UpLeft,
        MouseDirection::UpRight => MouseDirection::DownLeft,
        MouseDirection::DownLeft => MouseDirection::UpRight,
        MouseDirection::Idle => MouseDirection::Idle,
    }
}

/// A direction reflected top to bottom (up and down swap, left and right stay).
pub open spec fn upside_down(d: MouseDirection) -> MouseDirection {
    match d {
        MouseDirection::Up => MouseDirection::Down,
        MouseDirection::Down => MouseDirection::Up,
        MouseDirection::UpLeft => MouseDirection::DownLeft,
        MouseDirection::DownLeft => MouseDirection::UpLeft,
        MouseDirection::UpRight => MouseDirection::DownRight,
        MouseDirection::DownRight => MouseDirection::UpRight,
        other => other,
    }
}

proof fn lemma_square_positive(n: int)
    requires
        n > 0,
    ensures
        0 < n * n,
        n * n < 2 * (n * n),
        (2 * n) * (2 * n) < 2 * ((2 * n) * (2 * n)),
{
    assert(0 < n * n) by (nonlinear_arith)
        requires
            n > 0,
    ;
    assert((2 * n) * (2 * n) == 4 * (n * n)) by (nonlinear_arith);
}

/// The compass points of the screen (y grows downward): a move straight
/// right, down, left or up, or along a diagonal, is reported as that
/// direction, under its protocol name.
#[verifier::spinoff_prover]
pub proof fn lemma_compass_points(n: int)
    requires
        n > 0,
    ensures
        sector_of(n, 0) == MouseDirection::Right && direction_name(sector_of(n, 0)) == "right"@,
        sector_of(0, n) == MouseDirection::Down && direction_name(sector_of(0, n)) == "down"@,
        sector_of(-n, 0) == MouseDirection::Left && direction_name(sector_of(-n, 0)) == "left"@,
        sector_of(0, -n) == MouseDirection::Up && direction_name(sector_of(0, -n)) == "up"@,
        sector_of(n, n) == MouseDirection::DownRight && direction_name(sector_of(n, n)) == "down_right"@,
        sector_of(-n, n) == MouseDirection::DownLeft && direction_name(sector_of(-n, n)) == "down_left"@,
        sector_of(-n, -n) == MouseDirection::UpLeft && direction_name(sector_of(-n, -n)) == "up_left"@,
        sector_of(n, -n) == MouseDirection::UpRight && direction_name(sector_of(n, -n)) == "up_right"@,
{
    lemma_square_positive(n);
    lemma_exactly_one_sector(n, 0);
    assert(within_sector(n, 0, MouseDirection::Right));
    lemma_exactly_one_sector(0, n);
    assert(within_sector(0, n, MouseDirection::Down));
    lemma_exactly_one_sector(-n, 0);
    assert(within_sector(-n, 0, MouseDirection::Left));
    lemma_exactly_one_sector(0, -n);
    assert(within_sector(0, -n, MouseDirection::Up));
    lemma_exactly_one_sector(n, n);
    assert(within_sector(n, n, MouseDirection::DownRight));
    lemma_exactly_one_sector(-n, n);
    assert(within_sector(-n, n, MouseDirection::DownLeft));
    lemma_exactly_one_sector(-n, -n);
    assert(within_sector(-n, -n, MouseDirection::UpLeft));
    lemma_exactly_one_sector(n, -n);
    assert(within_sector(n, -n, MouseDirection::UpRight));
}

/// The judgement is symmetric: reversing a move reports the opposite
/// direction.
#[verifier::spinoff_prover]
pub proof fn lemma_reversed_move_is_opposite(dx: int, dy: int)
    ensures
        sector_of(-dx, -dy) == opposite(sector_of(dx, dy)),
{
    if !(dx == 0 && dy == 0) {
        lemma_exactly_one_sector(dx, dy);
        lemma_exactly_one_sector(-dx, -dy);
        let d = sector_of(dx, dy);
        assert(along(-dx, -dy, opposite(d)) == along(dx, dy, d));
        assert(abs(across(-dx, -dy, opposite(d))) == abs(across(dx, dy, d)));
        assert(within_sector(-dx, -dy, opposite(d)));
    }
}

/// The judgement is symmetric: reflecting a move top to bottom reports the
/// reflected direction.
#[verifier::spinoff_prover]
pub proof fn lemma_reflected_move_is_upside_down(dx: int, dy: int)
    ensures
        sector_of(dx, -dy) == upside_down(sector_of(dx, dy)),
{
    if !(dx == 0 && dy == 0) {
        lemma_exactly_one_sector(dx, dy);
        lemma_exactly_one_sector(dx, -dy);
        let d = sector_of(dx, dy);
        assert(along(dx, -dy, upside_down(d)) == along(dx, dy, d));
        assert(abs(across(dx, -dy, upside_down(d))) == abs(across(dx, dy, d)));
        assert(within_sector(dx, -dy, upside_down(d)));
    }
}

/// The hysteresis cone is 30.5 degrees wide on each side: after moving
/// right, a move about 30.45 degrees below the horizontal (1000 across,
/// 588 down) still counts as right, one about 30.54 degrees below it (1000
/// across, 590 down) is reported as down-right, and without a previous
/// direction both are down-right (past the 22.5-degree sector edge).
pub proof fn lemma_hysteresis_width(n: int)
    requires
        n > 0,
    ensures
        judge(1000 * n, 588 * n, Some(MouseDirection::Right)) == MouseDirection::Right,
        judge(1000 * n, 590 * n, Some(MouseDirection::Right)) == MouseDirection::DownRight,
        sector_of(1000 * n, 588 * n) == MouseDirection::DownRight,
        sector_of(1000 * n, 590 * n) == MouseDirection::DownRight,
{
    let num = HYSTERESIS_TAN_NUM as int;
    let den = HYSTERESIS_TAN_DEN as int;
    assert((588 * n) * den <= num * (1000 * n)) by (nonlinear_arith)
        requires
            n > 0,
            num == 12915401645,
            den == 21926001044,
    ;
    assert(!((590 * n) * den <= num * (1000 * n))) by (nonlinear_arith)
        requires
            n > 0,
            num == 12915401645,
            den == 21926001044,
    ;
    lemma_exactly_one_sector(1000 * n, 588 * n);
    lemma_exactly_one_sector(1000 * n, 590 * n);
    let u1 = 1588 * n;
    let w1 = 412 * n;
    assert((w1 + u1) * (w1 + u1) < 2 * (u1 * u1)) by (nonlinear_arith)
        requires
            n > 0,
            u1 == 1588 * n,
            w1 == 412 * n,
    ;
    assert(within_sector(1000 * n, 588 * n, MouseDirection::DownRight));
    let u2 = 1590 * n;
    let w2 = 410 * n;
    assert((w2 + u2) * (w2 + u2) < 2 * (u2 * u2)) by (nonlinear_arith)
        requires
            n > 0,
            u2 == 1590 * n,
            w2 == 410 * n,
    ;
    assert(within_sector(1000 * n, 590 * n, MouseDirection::DownRight));
}

/// A delta inside a sector is also inside that sector's hysteresis cone, so a
/// previous direction is never abandoned for a delta of its own sector.
pub proof fn lemma_sector_within_hysteresis(dx: int, dy: int, d: MouseDirection)
    requires
        within_sector(dx, dy, d),
    ensures
        within_hysteresis(dx, dy, d),
        judge(dx, dy, Some(d)) == d,
{
    let u = along(dx, dy, d);
    let w = abs(across(dx, dy, d));
    let n = HYSTERESIS_TAN_NUM as int;
    let m = HYSTERESIS_TAN_DEN as int;
    if w * m > n * u {
        assert((w + u) * m > (n + m) * u) by (nonlinear_arith)
            requires
                w * m > n * u,
                m > 0,
        ;
        assert(((w + u) * m) * ((w + u) * m) > ((n + m) * u) * ((n + m) * u)) by (nonlinear_arith)
            requires
                (w + u) * m > (n + m) * u,
                (n + m) * u > 0,
        ;
        assert(((w + u) * m) * ((w + u) * m) == ((w + u) * (w + u)) * (m * m)) by (nonlinear_arith);
        assert(((n + m) * u) * ((n + m) * u) == ((n + m) * (n + m)) * (u * u)) by (nonlinear_arith);
        assert(((w + u) * (w + u)) * (m * m) < (2 * (u * u)) * (m * m)) by (nonlinear_arith)
            requires
                (w + u) * (w + u) < 2 * (u * u),
                m * m > 0,
        ;
        assert((n + m) * (n + m) > 2 * (m * m));
        assert(((n + m) * (n + m)) * (u * u) > (2 * (m * m)) * (u * u)) by (nonlinear_arith)
            requires
                (n + m) * (n + m) > 2 * (m * m),
                u * u > 0,
        ;
        assert(false) by (nonlinear_arith)
            requires
                ((w + u) * (w + u)) * (m * m) < (2 * (u * u)) * (m * m),
                ((n + m) * (n + m)) * (u * u) > (2 * (m * m)) * (u * u),
                ((w + u) * m) * ((w + u) * m) > ((n + m) * u) * ((n + m) * u),
                ((w + u) * m) * ((w + u) * m) == ((w + u) * (w + u)) * (m * m),
                ((n + m) * u) * ((n + m) * u) == ((n + m) * (n + m)) * (u * u),
        ;
    }
}

/// Along/across components of an `i32` delta for the centre ray of `d`.
fn components(dx: i32, dy: i32, d: MouseDirection) -> (r: (i64, i64))
    ensures
        r.0 == along(dx as int, dy as int, d),
        r.1 == across(dx as int, dy as int, d),
{
    let x = dx as i64;
    let y = dy as i64;
    match d {
        MouseDirection::Right => (x, y),
        MouseDirection::DownRight => (x + y, y - x),
        MouseDirection::Down => (y, -x),
        MouseDirection::DownLeft => (y - x, -y - x),
        MouseDirection::Left => (-x, -y),
        MouseDirection::UpLeft => (-x - y, x - y),
        MouseDirection::Up => (-y, x),
        MouseDirection::UpRight => (x - y, y + x),
        MouseDirection::Idle => (0, 0),
    }
}

fn abs_i64(x: i64) -> (r: i64)
    requires
        x > i64::MIN,
    ensures
        r == abs(x as int),
{
    if x < 0 { -x } else { x }
}

fn in_sector(dx: i32, dy: i32, d: MouseDirection) -> (r: bool)
    ensures
        r == within_sector(dx as int, dy as int, d),
{
    if d == MouseDirection::Idle {
        return false;
    }
    let (u, v) = components(dx, dy, d);
    if u <= 0 {
        return false;
    }
    assert(-0x1_0000_0000 <= v <= 0x1_0000_0000);
    assert(u <= 0x1_0000_0000);
    let w = abs_i64(v);
    let s = (w + u) as i128;
    let uu = u as i128;
    assert(0 <= s * s <= 0x4_0000_0000 * 0x4_0000_0000) by (nonlinear_arith)
        requires
            0 <= s <= 0x2_0000_0000,
    ;
    assert(0 <= uu * uu <= 0x1_0000_0000 * 0x1_0000_0000) by (nonlinear_arith)
        requires
            0 <= uu <= 0x1_0000_0000,
    ;
    s * s < 2 * (uu * uu)
}

fn in_hysteresis(dx: i32, dy: i32, d: MouseDirection) -> (r: bool)
    ensures
        r == within_hysteresis(dx as int, dy as int, d),
{
    if d == MouseDirection::Idle {
        return false;
    }
    let (u, v) = components(dx, dy, d);
    if u <= 0 {
        return false;
    }
    assert(-0x1_0000_0000 <= v <= 0x1_0000_0000);
    assert(u <= 0x1_0000_0000);
    let w = abs_i64(v) as i128;
    let uu = u as i128;
    assert(0 <= w * HYSTERESIS_TAN_DEN <= 0x1_0000_0000 * HYSTERESIS_TAN_DEN) by (nonlinear_arith)
        requires
            0 <= w <= 0x1_0000_0000,
    ;
    assert(0 <= HYSTERESIS_TAN_NUM * uu <= HYSTERESIS_TAN_NUM * 0x1_0000_0000) by (nonlinear_arith)
        requires
            0 <= uu <= 0x1_0000_0000,
    ;
    w * HYSTERESIS_TAN_DEN <= HYSTERESIS_TAN_NUM * uu
}

impl MouseDirection {
    /// Direction of a relative movement, without hysteresis.
    pub fn from_delta(dx: i32, dy: i32) -> (r: MouseDirection)
        ensures
            r == judge(dx as int, dy as int, None),
            r == sector_of(dx as int, dy as int),
    {
        Self::from_delta_with_previous(dx, dy, None)
    }

    /// Direction of a relative movement, keeping the previous direction while
    /// the movement stays inside its hysteresis cone.
    pub fn from_delta_with_previous(dx: i32, dy: i32, previous: Option<MouseDirection>) -> (r: MouseDirection)
        ensures
            r == judge(dx as int, dy as int, previous),
    {
        if dx == 0 && dy == 0 {
            return MouseDirection::Idle;
        }
        if let Some(p) = previous {
            if p != MouseDirection::Idle && in_hysteresis(dx, dy, p) {
                return p;
            }
        }
        if in_sector(dx, dy, MouseDirection::Right) {
            MouseDirection::Right
        } else if in_sector(dx, dy, MouseDirection::DownRight) {
            MouseDirection::DownRight
        } else if in_sector(dx, dy, MouseDirection::Down) {
            MouseDirection::Down
        } else if in_sector(dx, dy, MouseDirection::DownLeft) {
            MouseDirection::DownLeft
        } else if in_sector(dx, dy, MouseDirection::Left) {
            MouseDirection::Left
        } else if in_sector(dx, dy, MouseDirection::UpLeft) {
            MouseDirection::UpLeft
        } else if in_sector(dx, dy, MouseDirection::Up) {
            MouseDirection::Up
        } else if in_sector(dx, dy, MouseDirection::UpRight) {
            MouseDirection::UpRight
        } else {
            MouseDirection::Idle
        }
    }

    /// Protocol name of the direction (snake_case).
    pub fn as_str(&self) -> (r: &'static str)
        ensures
            r@ == direction_name(*self),
    {
        match self {
            MouseDirection::Up => "up",
            MouseDirection::Down => "down",
            MouseDirection::Left => "left",
            MouseDirection::Right => "right",
            MouseDirection::UpLeft => "up_left",
            MouseDirection::UpRight => "up_right",
            MouseDirection::DownLeft => "down_left",
            MouseDirection::DownRight => "down_right",
            MouseDirection::Idle => "idle",
        }
    }
}

/// Event produced by a motion sample.
#[derive(Debug, Clone, Copy, PartialEq, Eq, Structural)]
pub enum MouseMotionEvent {
    /// The judged direction changed; carries the delta of this sample.
    DirectionChanged { dx: i32, dy: i32, direction: MouseDirection },
    /// The pointer stopped (sent once when entering the idle state).
    Idle,
}

/// The motion-sampling part of [`MouseState`].
pub struct MotionTrack {
    pub last_sample_x: i32,
    pub last_sample_y: i32,
    pub last_observed_x: i32,
    pub last_observed_y: i32,
    pub has_sample: bool,
    pub last_judged_direction: Option<MouseDirection>,
}

/// The track before any sample was seen.
pub open spec fn initial_track() -> MotionTrack {
    MotionTrack {
        last_sample_x: 0,
        last_sample_y: 0,
        last_observed_x: 0,
        last_observed_y: 0,
        has_sample: false,
        last_judged_direction: None,
    }
}

/// Enter the idle state: report `Idle` unless idle was already reported.
pub open spec fn enter_idle_step(t: MotionTrack) -> (MotionTrack, Option<MouseMotionEvent>) {
    if t.last_judged_direction == Some(MouseDirection::Idle) {
        (t, None)
    } else {
        (MotionTrack { last_judged_direction: Some(MouseDirection::Idle), ..t }, Some(MouseMotionEvent::Idle))
    }
}

/// One motion sample at `(x, y)`:
/// - the first sample only sets the baseline;
/// - no displacement from the last judged sample enters idle;
/// - a displacement shorter than 4 pixels is accumulated while the pointer
///   keeps moving, and enters idle (re-basing the sample) once it stops;
/// - otherwise the direction is judged against the previous one and reported
///   only when it differs.
pub open spec fn motion_step(t: MotionTrack, x: i32, y: i32) -> (MotionTrack, Option<MouseMotionEvent>) {
    if !t.has_sample {
        (
            MotionTrack {
                last_sample_x: x,
                last_sample_y: y,
                last_observed_x: x,
                last_observed_y: y,
                has_sample: true,
                ..t
            },
            None,
        )
    } else {
        let moved = x != t.last_observed_x || y != t.last_observed_y;
        let t1 = MotionTrack { last_observed_x: x, last_observed_y: y, ..t };
        let dx = x - t.last_sample_x;
        let dy = y - t.last_sample_y;
        if dx == 0 && dy == 0 {
            enter_idle_step(t1)
        } else if dx * dx + dy * dy < DIRECTION_MIN_DISTANCE_SQUARED {
            if moved {
                (t1, None)
            } else {
                enter_idle_step(MotionTrack { last_sample_x: x, last_sample_y: y, ..t1 })
            }
        } else {
            let d = judge(dx, dy, t.last_judged_direction);
            let t2 = MotionTrack { last_sample_x: x, last_sample_y: y, ..t1 };
            if t.last_judged_direction == Some(d) {
                (t2, None)
            } else {
                (
                    MotionTrack { last_judged_direction: Some(d), ..t2 },
                    Some(MouseMotionEvent::DirectionChanged { dx: dx as i32, dy: dy as i32, direction: d }),
                )
            }
        }
    }
}

/// The sample can be processed without overflow: a first sample always can;
/// after it, both displacements from the last judged sample must fit in
/// `i32` and must not both be `i32::MIN`.
pub open spec fn sample_in_range(t: MotionTrack, x: i32, y: i32) -> bool {
    let dx = x - t.last_sample_x;
    let dy = y - t.last_sample_y;
    t.has_sample ==> {
        &&& i32::MIN <= dx <= i32::MAX
        &&& i32::MIN <= dy <= i32::MAX
        &&& !(dx == i32::MIN && dy == i32::MIN)
    }
}

/// Mouse state: button states plus the motion-sampling track.
pub struct MouseState {
    /// Recorded button states (`true`: pressed).
    pub buttons: HashMap<u8, bool>,
    /// Last sample used for direction judgement (pixels).
    pub last_sample_x: i32,
    pub last_sample_y: i32,
    /// Last raw position observed (pixels).
    pub last_observed_x: i32,
    pub last_observed_y: i32,
    /// Whether a first sample has been seen.
    pub has_sample: bool,
    /// Last direction judged and reported.
    pub last_judged_direction: Option<MouseDirection>,
}

/// Whether `button` counts as pressed in `buttons` (unknown buttons are up).
pub open spec fn button_down(buttons: Map<u8, bool>, button: u8) -> bool {
    buttons.contains_key(button) && buttons[button]
}

/// Button map after applying a button event: changed only by a real transition.
pub open spec fn after_button_event(buttons: Map<u8, bool>, button: u8, pressed: bool) -> Map<u8, bool> {
    if button_down(buttons, button) != pressed { buttons.insert(button, pressed) } else { buttons }
}

/// Repeat filter for buttons: a button event applied twice changes nothing
/// the second time (and so is not broadcast again).
pub proof fn lemma_repeated_button_event_is_dropped(buttons: Map<u8, bool>, button: u8, pressed: bool)
    ensures
        button_down(after_button_event(buttons, button, pressed), button) == pressed,
        after_button_event(after_button_event(buttons, button, pressed), button, pressed) == after_button_event(buttons, button, pressed),
{
}

impl MouseState {
    /// Recorded button states.
    pub open spec fn buttons(&self) -> Map<u8, bool> {
        self.buttons@
    }

    /// The motion-sampling fields.
    pub open spec fn track(&self) -> MotionTrack {
        MotionTrack {
            last_sample_x: self.last_sample_x,
            last_sample_y: self.last_sample_y,
            last_observed_x: self.last_observed_x,
            last_observed_y: self.last_observed_y,
            has_sample: self.has_sample,
            last_judged_direction: self.last_judged_direction,
        }
    }

    /// A state with no sample, no direction and no recorded button.
    pub fn new() -> (s: Self)
        ensures
            s.track() == initial_track(),
            s.buttons() == Map::<u8, bool>::empty(),
    {
        MouseState {
            buttons: HashMap::new(),
            last_sample_x: 0,
            last_sample_y: 0,
            last_observed_x: 0,
            last_observed_y: 0,
            has_sample: false,
            last_judged_direction: None,
        }
    }

    /// Records the state of one button.
    pub fn update_button(&mut self, button: u8, pressed: bool)
        ensures
            final(self).buttons() == old(self).buttons().insert(button, pressed),
            final(self).track() == old(self).track(),
    {
        self.buttons.insert(button, pressed);
    }

    /// Whether the button is down (unknown buttons are up).
    pub fn is_pressed(&self, button: u8) -> (r: bool)
        ensures
            r == button_down(self.buttons(), button),
    {
        match self.buttons.get(&button) {
            Some(p) => *p,
            None => false,
        }
    }

    /// Applies one captured button event and says whether it changes the
    /// recorded state (and so has to be broadcast); a repeated event is
    /// dropped without touching the state.
    pub fn apply_button_event(&mut self, button: u8, pressed: bool) -> (changed: bool)
        ensures
            changed == (button_down(old(self).buttons(), button) != pressed),
            final(self).buttons() == after_button_event(old(self).buttons(), button, pressed),
            final(self).track() == old(self).track(),
    {
        if self.is_pressed(button) == pressed {
            false
        } else {
            self.update_button(button, pressed);
            true
        }
    }

    /// Processes one position sample and returns the event to send, if any
    /// (see [`motion_step`]).
    pub fn process_sample(&mut self, x: i32, y: i32) -> (r: Option<MouseMotionEvent>)
        requires
            sample_in_range(old(self).track(), x, y),
        ensures
            (final(self).track(), r) == motion_step(old(self).track(), x, y),
            final(self).buttons() == old(self).buttons(),
    {
        if !self.has_sample {
            self.last_sample_x = x;
            self.last_sample_y = y;
            self.last_observed_x = x;
            self.last_observed_y = y;
            self.has_sample = true;
            return None;
        }
        let moved_since_last_observed = x != self.last_observed_x || y != self.last_observed_y;
        self.last_observed_x = x;
        self.last_observed_y = y;

        let dx = x - self.last_sample_x;
        let dy = y - self.last_sample_y;
        if dx == 0 && dy == 0 {
            return self.enter_idle();
        }
        if movement_distance_squared(dx, dy) < DIRECTION_MIN_DISTANCE_SQUARED {
            if moved_since_last_observed {
                return None;
            }
            self.last_sample_x = x;
            self.last_sample_y = y;
            return self.enter_idle();
        }
        let direction = MouseDirection::from_delta_with_previous(dx, dy, self.last_judged_direction);
        self.last_sample_x = x;
        self.last_sample_y = y;
        if self.last_judged_direction == Some(direction) {
            None
        } else {
            self.last_judged_direction = Some(direction);
            Some(MouseMotionEvent::DirectionChanged { dx, dy, direction })
        }
    }

    fn enter_idle(&mut self) -> (r: Option<MouseMotionEvent>)
        ensures
            (final(self).track(), r) == enter_idle_step(old(self).track()),
            final(self).buttons() == old(self).buttons(),
    {
        if self.last_judged_direction == Some(MouseDirection::Idle) {
            return None;
        }
        self.last_judged_direction = Some(MouseDirection::Idle);
        Some(MouseMotionEvent::Idle)
    }

    /// Whether a sample at `(x, y)` can be processed (see [`sample_in_range`]).
    pub fn sample_fits(&self, x: i32, y: i32) -> (r: bool)
        ensures
            r == sample_in_range(self.track(), x, y),
    {
        if !self.has_sample {
            return true;
        }
        let dx = x as i64 - self.last_sample_x as i64;
        let dy = y as i64 - self.last_sample_y as i64;
        let min = i32::MIN as i64;
        let max = i32::MAX as i64;
        min <= dx && dx <= max && min <= dy && dy <= max && !(dx == min && dy == min)
    }

    /// Resets the state to what [`MouseState::new`] builds.
    pub fn clear(&mut self)
        ensures
            final(self).track() == initial_track(),
            final(self).buttons() == Map::<u8, bool>::empty(),
    {
        self.buttons.clear();
        self.last_sample_x = 0;
        self.last_sample_y = 0;
        self.last_observed_x = 0;
        self.last_observed_y = 0;
        self.has_sample = false;
        self.last_judged_direction = None;
    }
}

impl Default for MouseState {
    fn default() -> (s: Self)
        ensures
            s.track() == initial_track(),
            s.buttons() == Map::<u8, bool>::empty(),
    {
        Self::new()
    }
}

/// Squared length of a delta.
fn movement_distance_squared(dx: i32, dy: i32) -> (r: i64)
    requires
        !(dx == i32::MIN && dy == i32::MIN),
    ensures
        r == dx * dx + dy * dy,
{
    let x = dx as i64;
    let y = dy as i64;
    assert(0 <= x * x <= 0x4000_0000_0000_0000) by (nonlinear_arith)
        requires
            -0x8000_0000 <= x <= 0x7fff_ffff,
    ;
    assert(0 <= y * y <= 0x4000_0000_0000_0000) by (nonlinear_arith)
        requires
            -0x8000_0000 <= y <= 0x7fff_ffff,
    ;
    assert(x * x + y * y < 0x8000_0000_0000_0000) by (nonlinear_arith)
        requires
            -0x8000_0000 <= x <= 0x7fff_ffff,
            -0x8000_0000 <= y <= 0x7fff_ffff,
            !(x == -0x8000_0000 && y == -0x8000_0000),
    ;
    x * x + y * y
}

/// The first sample only establishes the baseline and reports nothing.
pub proof fn lemma_first_sample_is_baseline(t: MotionTrack, x: i32, y: i32)
    requires
        !t.has_sample,
    ensures
        motion_step(t, x, y).1 is None,
        motion_step(t, x, y).0.has_sample,
        motion_step(t, x, y).0.last_sample_x == x && motion_step(t, x, y).0.last_sample_y == y,
        motion_step(t, x, y).0.last_judged_direction == t.last_judged_direction,
{
}

/// Events are reported only on change: a reported direction differs from
/// the previously judged one and becomes the judged one, it is never `Idle`;
/// `Idle` is reported only when not already idle; and a sample that reports
/// nothing leaves the judged direction unchanged.
pub proof fn lemma_events_only_on_change(t: MotionTrack, x: i32, y: i32)
    ensures
        ({
            let (t2, e) = motion_step(t, x, y);
            &&& (e matches Some(MouseMotionEvent::DirectionChanged { direction, .. }) ==> {
                &&& t.last_judged_direction != Some(direction)
                &&& t2.last_judged_direction == Some(direction)
                &&& direction != MouseDirection::Idle
            })
            &&& (e == Some(MouseMotionEvent::Idle) ==> {
                &&& t.last_judged_direction != Some(MouseDirection::Idle)
                &&& t2.last_judged_direction == Some(MouseDirection::Idle)
            })
            &&& (e is None ==> t2.last_judged_direction == t.last_judged_direction)
        }),
{
    if t.has_sample {
        let dx = x - t.last_sample_x;
        let dy = y - t.last_sample_y;
        if !(dx == 0 && dy == 0) {
            lemma_exactly_one_sector(dx, dy);
        }
    }
}

/// A sample reports something exactly when the judged direction changes,
/// and it reports `Idle` exactly when the judged direction becomes idle.
pub proof fn lemma_event_iff_direction_changes(t: MotionTrack, x: i32, y: i32)
    ensures
        ({
            let (t2, e) = motion_step(t, x, y);
            &&& (e is Some <==> t2.last_judged_direction != t.last_judged_direction)
            &&& (e == Some(MouseMotionEvent::Idle) <==> (t.last_judged_direction != Some(MouseDirection::Idle)
                && t2.last_judged_direction == Some(MouseDirection::Idle)))
        }),
{
    lemma_events_only_on_change(t, x, y);
}

/// How far the last observed position is from the last judged sample, squared.
pub open spec fn accumulated_move(t: MotionTrack) -> int {
    (t.last_observed_x - t.last_sample_x) * (t.last_observed_x - t.last_sample_x) + (t.last_observed_y
        - t.last_sample_y) * (t.last_observed_y - t.last_sample_y)
}

/// After any sample the pointer is where that sample put it, and a move
/// still waiting to be judged is always shorter than the judging distance
/// (4 pixels).
pub proof fn lemma_pending_move_is_short(t: MotionTrack, x: i32, y: i32)
    ensures
        motion_step(t, x, y).0.has_sample,
        motion_step(t, x, y).0.last_observed_x == x,
        motion_step(t, x, y).0.last_observed_y == y,
        accumulated_move(motion_step(t, x, y).0) < DIRECTION_MIN_DISTANCE_SQUARED,
{
    let t1 = motion_step(t, x, y).0;
    if t1.last_sample_x == x && t1.last_sample_y == y {
        let (a, b) = (t1.last_observed_x - t1.last_sample_x, t1.last_observed_y - t1.last_sample_y);
        assert(a == 0 && b == 0);
        assert(a * a + b * b == 0) by (nonlinear_arith)
            requires
                a == 0 && b == 0,
        ;
    }
}

/// A pointer that stays put settles into idle within two sampling ticks:
/// after two samples at the same position the judged direction is `Idle`,
/// `Idle` was reported exactly once on the way unless it already was the
/// judged direction (and never twice), and every further sample at that
/// position reports nothing and changes nothing. Each tick of
/// [`MouseEventProcessor::on_tick`] takes one such sample, and captured
/// events in between leave the track as it is.
pub proof fn lemma_still_pointer_settles(t: MotionTrack, x: i32, y: i32)
    requires
        sample_in_range(t, x, y),
    ensures
        ({
            let (t1, e1) = motion_step(t, x, y);
            let (t2, e2) = motion_step(t1, x, y);
            &&& sample_in_range(t1, x, y)
            &&& t2.last_judged_direction == Some(MouseDirection::Idle)
            &&& !(e1 == Some(MouseMotionEvent::Idle) && e2 == Some(MouseMotionEvent::Idle))
            &&& (t.last_judged_direction != Some(MouseDirection::Idle) ==> e1 == Some(MouseMotionEvent::Idle)
                || e2 == Some(MouseMotionEvent::Idle))
            &&& sample_in_range(t2, x, y)
            &&& motion_step(t2, x, y) == (t2, Option::<MouseMotionEvent>::None)
        }),
{
    let (t1, e1) = motion_step(t, x, y);
    lemma_events_only_on_change(t, x, y);
    lemma_events_only_on_change(t1, x, y);
    let (t2, e2) = motion_step(t1, x, y);
    assert(t2.last_sample_x == x && t2.last_sample_y == y);
    assert(t2.last_observed_x == x && t2.last_observed_y == y);
}

/// Jitter is never judged: a sample less than 4 pixels away from the last
/// judged sample reports no direction; at most it reports the entry into
/// idle, when the pointer has stopped or is back on the last judged sample.
pub proof fn lemma_short_moves_are_not_judged(t: MotionTrack, x: i32, y: i32)
    requires
        t.has_sample,
        (x - t.last_sample_x) * (x - t.last_sample_x) + (y - t.last_sample_y) * (y - t.last_sample_y)
            < DIRECTION_MIN_DISTANCE_SQUARED,
    ensures
        !(motion_step(t, x, y).1 matches Some(MouseMotionEvent::DirectionChanged { .. })),
        motion_step(t, x, y).1 == Some(MouseMotionEvent::Idle) ==> (x == t.last_observed_x && y == t.last_observed_y)
            || (x == t.last_sample_x && y == t.last_sample_y),
{
}

/// Idle is reported once: repeating the sample that reported `Idle`
/// reports nothing.
pub proof fn lemma_idle_reported_once(t: MotionTrack, x: i32, y: i32)
    requires
        motion_step(t, x, y).1 == Some(MouseMotionEvent::Idle),
    ensures
        motion_step(motion_step(t, x, y).0, x, y).1 is None,
{
}

/// Continued movement in the judged direction is not reported again: a
/// long-enough delta that stays inside the judged direction's sector
/// produces no event.
pub proof fn lemma_same_direction_not_repeated(t: MotionTrack, x: i32, y: i32, d: MouseDirection)
    requires
        t.has_sample,
        t.last_judged_direction == Some(d),
        within_sector(x - t.last_sample_x, y - t.last_sample_y, d),
        (x - t.last_sample_x) * (x - t.last_sample_x) + (y - t.last_sample_y) * (y - t.last_sample_y)
            >= DIRECTION_MIN_DISTANCE_SQUARED,
    ensures
        motion_step(t, x, y).1 is None,
{
    lemma_sector_within_hysteresis(x - t.last_sample_x, y - t.last_sample_y, d);
}

/// Dispatcher of captured mouse events: remembers the latest pointer
/// position for the periodic motion sampling and decides what to broadcast.
pub struct MouseEventProcessor {
    pub latest_position: Option<(i32, i32)>,
}

/// Broadcast for a captured event given the button state before it.
pub open spec fn event_broadcast(buttons: Map<u8, bool>, event: MouseEvent) -> Option<BroadcastEvent> {
    match event {
        MouseEvent::Move { .. } => None,
        MouseEvent::Button { button, pressed, x, y } => if button_down(buttons, button) != pressed {
            Some(BroadcastEvent::MouseButton { button, pressed, x, y })
        } else {
            None
        },
        MouseEvent::Wheel { delta, x, y } => Some(BroadcastEvent::MouseWheel { delta, x, y }),
    }
}

/// Position carried by a captured event.
pub open spec fn event_position(event: MouseEvent) -> (i32, i32) {
    match event {
        MouseEvent::Move { x, y } => (x, y),
        MouseEvent::Button { x, y, .. } => (x, y),
        MouseEvent::Wheel { x, y, .. } => (x, y),
    }
}

impl MouseEventProcessor {
    /// A dispatcher that has seen no position yet.
    pub fn new() -> (r: Self)
        ensures
            r.latest_position is None,
    {
        MouseEventProcessor { latest_position: None }
    }

    /// Handles one captured event: every event updates the latest position;
    /// a button event is broadcast only when it changes the button's state,
    /// a wheel event is always broadcast, a move is left to the sampler.
    pub fn on_event(&mut self, state: &mut MouseState, event: MouseEvent) -> (r: Option<BroadcastEvent>)
        ensures
            final(self).latest_position == Some(event_position(event)),
            r == event_broadcast(old(state).buttons(), event),
            final(state).track() == old(state).track(),
            final(state).buttons() == (match event {
                MouseEvent::Button { button, pressed, .. } => after_button_event(old(state).buttons(), button, pressed),
                _ => old(state).buttons(),
            }),
    {
        match event {
            MouseEvent::Move { x, y } => {
                self.latest_position = Some((x, y));
                None
            },
            MouseEvent::Button { button, pressed, x, y } => {
                self.latest_position = Some((x, y));
                if state.apply_button_event(button, pressed) {
                    Some(BroadcastEvent::MouseButton { button, pressed, x, y })
                } else {
                    None
                }
            },
            MouseEvent::Wheel { delta, x, y } => {
                self.latest_position = Some((x, y));
                Some(BroadcastEvent::MouseWheel { delta, x, y })
            },
        }
    }

    /// Handles a sampling tick: the latest position, if any, is processed as
    /// a motion sample and its motion event, if any, is broadcast.
    pub fn on_tick(&mut self, state: &mut MouseState) -> (r: Option<BroadcastEvent>)
        requires
            old(self).latest_position matches Some((x, y)) ==> sample_in_range(old(state).track(), x, y),
        ensures
            final(self).latest_position == old(self).latest_position,
            final(state).buttons() == old(state).buttons(),
            match old(self).latest_position {
                None => r is None && final(state).track() == old(state).track(),
                Some((x, y)) => {
                    let (t, e) = motion_step(old(state).track(), x, y);
                    &&& final(state).track() == t
                    &&& r == (match e {
                        Some(m) => Some(crate::websocket_server::motion_broadcast(m)),
                        None => None,
                    })
                },
            },
    {
        match self.latest_position {
            None => None,
            Some((x, y)) => match state.process_sample(x, y) {
                Some(m) => Some(BroadcastEvent::from_motion(m)),
                None => None,
            },
        }
    }
}

} // verus!
