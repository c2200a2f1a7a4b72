//! Keyboard capture: decoding of low-level keyboard hook messages.

use crate::state::keyboard_state::{after_key_event, key_down, KeyboardState};
use crate::text::decimal_digits;
use crate::websocket_server::BroadcastEvent;
use vstd::prelude::*;

verus! {

/// Hook code under which a low-level hook must process the message.
pub const HC_ACTION: i32 = 0;
/// Window message: a key went down.
pub const WM_KEYDOWN: u32 = 0x0100;
/// Window message: a key went up.
pub const WM_KEYUP: u32 = 0x0101;
/// Window message: a key went down while Alt is held.
pub const WM_SYSKEYDOWN: u32 = 0x0104;
/// Window message: a key went up while Alt is held.
pub const WM_SYSKEYUP: u32 = 0x0105;

/// A key transition captured by the platform hook.
#[derive(Debug, Clone, Copy, PartialEq, Eq, Structural)]
pub struct KeyboardEvent {
    pub keycode: u16,
    pub pressed: bool,
}

/// Pressed state carried by a keyboard message, if it is a key transition.
pub open spec fn message_pressed_state(message: u32) -> Option<bool> {
    if message == WM_KEYDOWN || message == WM_SYSKEYDOWN {
        Some(true)
    } else if message == WM_KEYUP || message == WM_SYSKEYUP {
        Some(false)
    } else {
        None
    }
}

/// Key-down messages (0x0100, and 0x0104 while Alt is held) report a press,
/// key-up messages (0x0101 and 0x0105) a release, and every other message
/// is no key transition.
pub proof fn lemma_key_messages(message: u32)
    ensures
        message_pressed_state(0x0100) == Some(true),
        message_pressed_state(0x0104) == Some(true),
        message_pressed_state(0x0101) == Some(false),
        message_pressed_state(0x0105) == Some(false),
        !(message == 0x0100 || message == 0x0101 || message == 0x0104 || message == 0x0105)
            ==> message_pressed_state(message) is None,
{
}

/// Maps a keyboard window message to a pressed (`Some(true)`) or released
/// (`Some(false)`) state; other messages are ignored (`None`).
pub fn keyboard_message_pressed_state(message: u32) -> (r: Option<bool>)
    ensures
        r == message_pressed_state(message),
{
    if message == WM_KEYDOWN || message == WM_SYSKEYDOWN {
        Some(true)
    } else if message == WM_KEYUP || message == WM_SYSKEYUP {
        Some(false)
    } else {
        None
    }
}

/// Decodes one call of the low-level keyboard hook: the hook code, the
/// message and the virtual-key code of the event record. Only `HC_ACTION`
/// calls carrying a key transition produce an event; the virtual-key code is
/// truncated to its low 16 bits.
pub fn decode_keyboard_hook(code: i32, message: u32, vk_code: u32) -> (r: Option<KeyboardEvent>)
    ensures
        r == (if code == HC_ACTION && message_pressed_state(message) is Some {
            Some(KeyboardEvent { keycode: (vk_code % 0x10000) as u16, pressed: message_pressed_state(message)->0 })
        } else {
            None
        }),
{
    if code != HC_ACTION {
        return None;
    }
    match keyboard_message_pressed_state(message) {
        Some(pressed) => Some(KeyboardEvent { keycode: (vk_code % 0x10000) as u16, pressed }),
        None => None,
    }
}

/// Applies a captured key event to the keyboard state and returns the
/// broadcast it causes: only real transitions are broadcast, auto-repeated
/// presses and duplicate releases are dropped.
pub fn process_key_event(state: &mut KeyboardState, event: KeyboardEvent) -> (r: Option<BroadcastEvent>)
    ensures
        r == (if key_down(old(state)@, event.keycode) != event.pressed {
            Some(BroadcastEvent::Key { keycode: event.keycode, pressed: event.pressed })
        } else {
            None
        }),
        final(state)@ == after_key_event(old(state)@, event.keycode, event.pressed),
{
    if state.apply_key_event(event.keycode, event.pressed) {
        Some(BroadcastEvent::Key { keycode: event.keycode, pressed: event.pressed })
    } else {
        None
    }
}

/// Readable name of a virtual-key code, for the keys that have one.
pub open spec fn named_key(keycode: u16) -> Option<Seq<char>> {
    if keycode == 8 {
        Some("Backspace"@)
    } else if keycode == 9 {
        Some("Tab"@)
    } else if keycode == 13 {
        Some("Enter"@)
    } else if keycode == 16 || keycode == 160 || keycode == 161 {
        Some("Shift"@)
    } else if keycode == 17 || keycode == 162 || keycode == 163 {
        Some("Ctrl"@)
    } else if keycode == 18 || keycode == 164 || keycode == 165 {
        Some("Alt"@)
    } else if keycode == 20 {
        Some("CapsLock"@)
    } else if keycode == 27 {
        Some("Escape"@)
    } else if keycode == 32 {
        Some("Space"@)
    } else if keycode == 33 {
        Some("PageUp"@)
    } else if keycode == 34 {
        Some("PageDown"@)
    } else if keycode == 35 {
        Some("End"@)
    } else if keycode == 36 {
        Some("Home"@)
    } else if keycode == 37 {
        Some("Left"@)
    } else if keycode == 38 {
        Some("Up"@)
    } else if keycode == 39 {
        Some("Right"@)
    } else if keycode == 40 {
        Some("Down"@)
    } else if keycode == 45 {
        Some("Insert"@)
    } else if keycode == 46 {
        Some("Delete"@)
    } else if keycode == 91 || keycode == 92 {
        Some("Win"@)
    } else {
        None
    }
}

/// Readable name of a key: a letter (`A`..`Z`) or digit (`0`..`9`) key is
/// named by its character, `F1`..`F12` by their labels, the keys of
/// [`named_key`] by their names, and any other key by `VK_` and its code.
pub open spec fn key_name_text(keycode: u16) -> Seq<char> {
    if 65 <= keycode <= 90 {
        "ABCDEFGHIJKLMNOPQRSTUVWXYZ"@.subrange(keycode - 65, keycode - 64)
    } else if 48 <= keycode <= 57 {
        "0123456789"@.subrange(keycode - 48, keycode - 47)
    } else if 112 <= keycode <= 123 {
        "F"@ + decimal_digits((keycode - 111) as nat)
    } else if named_key(keycode) is Some {
        named_key(keycode)->0
    } else {
        "VK_"@ + decimal_digits(keycode as nat)
    }
}

fn named_key_text(keycode: u16) -> (r: Option<&'static str>)
    ensures
        match (r, named_key(keycode)) {
            (Some(a), Some(b)) => a@ == b,
            (None, None) => true,
            _ => false,
        },
{
    if keycode == 8 {
        Some("Backspace")
    } else if keycode == 9 {
        Some("Tab")
    } else if keycode == 13 {
        Some("Enter")
    } else if keycode == 16 || keycode == 160 || keycode == 161 {
        Some("Shift")
    } else if keycode == 17 || keycode == 162 || keycode == 163 {
        Some("Ctrl")
    } else if keycode == 18 || keycode == 164 || keycode == 165 {
        Some("Alt")
    } else if keycode == 20 {
        Some("CapsLock")
    } else if keycode == 27 {
        Some("Escape")
    } else if keycode == 32 {
        Some("Space")
    } else if keycode == 33 {
        Some("PageUp")
    } else if keycode == 34 {
        Some("PageDown")
    } else if keycode == 35 {
        Some("End")
    } else if keycode == 36 {
        Some("Home")
    } else if keycode == 37 {
        Some("Left")
    } else if keycode == 38 {
        Some("Up")
    } else if keycode == 39 {
        Some("Right")
    } else if keycode == 40 {
        Some("Down")
    } else if keycode == 45 {
        Some("Insert")
    } else if keycode == 46 {
        Some("Delete")
    } else if keycode == 91 || keycode == 92 {
        Some("Win")
    } else {
        None
    }
}

/// The readable name of a key (see [`key_name_text`]).
pub fn key_name(keycode: u16) -> (r: String)
    ensures
        r@ == key_name_text(keycode),
{
    if 65 <= keycode && keycode <= 90 {
        let letters = "ABCDEFGHIJKLMNOPQRSTUVWXYZ";
        proof {
            reveal_strlit("ABCDEFGHIJKLMNOPQRSTUVWXYZ");
        }
        return crate::text::substring(letters, (keycode - 65) as usize, (keycode - 64) as usize);
    }
    if 48 <= keycode && keycode <= 57 {
        let digits = "0123456789";
        proof {
            reveal_strlit("0123456789");
        }
        return crate::text::substring(digits, (keycode - 48) as usize, (keycode - 47) as usize);
    }
    if 112 <= keycode && keycode <= 123 {
        let mut name = String::from_str("F");
        crate::text::push_decimal_u64(&mut name, (keycode - 111) as u64);
        return name;
    }
    match named_key_text(keycode) {
        Some(n) => String::from_str(n),
        None => {
            let mut name = String::from_str("VK_");
            crate::text::push_decimal_u64(&mut name, keycode as u64);
            name
        },
    }
}

/// Which modifier keys are held: each flag is set when either of its keys
/// (the generic code or a left/right code) is down.
#[derive(Debug, Clone, Copy, PartialEq, Eq, Structural)]
pub struct ModifierKeys {
    pub shift: bool,
    pub ctrl: bool,
    pub alt: bool,
    pub win: bool,
}

/// Modifier keys held in the key map `keys`.
pub open spec fn modifiers_held(keys: Map<u16, bool>) -> ModifierKeys {
    ModifierKeys {
        shift: key_down(keys, 16) || key_down(keys, 160) || key_down(keys, 161),
        ctrl: key_down(keys, 17) || key_down(keys, 162) || key_down(keys, 163),
        alt: key_down(keys, 18) || key_down(keys, 164) || key_down(keys, 165),
        win: key_down(keys, 91) || key_down(keys, 92),
    }
}

/// Names of the held modifiers, in the order Shift, Ctrl, Alt, Win.
pub open spec fn modifier_names(m: ModifierKeys) -> Seq<Seq<char>> {
    (if m.shift { seq!["Shift"@] } else { seq![] }) + (if m.ctrl { seq!["Ctrl"@] } else { seq![] }) + (if m.alt {
        seq!["Alt"@]
    } else {
        seq![]
    }) + (if m.win { seq!["Win"@] } else { seq![] })
}

/// The modifier keys currently held in a keyboard state.
pub fn held_modifiers(state: &KeyboardState) -> (r: ModifierKeys)
    ensures
        r == modifiers_held(state@),
{
    ModifierKeys {
        shift: state.is_pressed(16) || state.is_pressed(160) || state.is_pressed(161),
        ctrl: state.is_pressed(17) || state.is_pressed(162) || state.is_pressed(163),
        alt: state.is_pressed(18) || state.is_pressed(164) || state.is_pressed(165),
        win: state.is_pressed(91) || state.is_pressed(92),
    }
}

/// The modifier flags report the modifier keys and nothing else: Shift is
/// held exactly when key 16, 160 or 161 is down, Ctrl when 17, 162 or 163,
/// Alt when 18, 164 or 165, and Win when 91 or 92; pressing or releasing
/// any other key leaves the flags unchanged; and each held modifier is
/// listed by its name, in the order Shift, Ctrl, Alt, Win.
pub proof fn lemma_modifiers_report_modifier_keys(keys: Map<u16, bool>, other: u16, pressed: bool)
    ensures
        modifiers_held(keys).shift <==> (key_down(keys, 16) || key_down(keys, 160) || key_down(keys, 161)),
        modifiers_held(keys).ctrl <==> (key_down(keys, 17) || key_down(keys, 162) || key_down(keys, 163)),
        modifiers_held(keys).alt <==> (key_down(keys, 18) || key_down(keys, 164) || key_down(keys, 165)),
        modifiers_held(keys).win <==> (key_down(keys, 91) || key_down(keys, 92)),
        !(other == 16 || other == 160 || other == 161 || other == 17 || other == 162 || other == 163 || other == 18
            || other == 164 || other == 165 || other == 91 || other == 92) ==> modifiers_held(
            keys.insert(other, pressed),
        ) == modifiers_held(keys),
        modifier_names(ModifierKeys { shift: true, ctrl: false, alt: false, win: false }) == seq!["Shift"@],
        modifier_names(ModifierKeys { shift: false, ctrl: true, alt: false, win: false }) == seq!["Ctrl"@],
        modifier_names(ModifierKeys { shift: false, ctrl: false, alt: true, win: false }) == seq!["Alt"@],
        modifier_names(ModifierKeys { shift: false, ctrl: false, alt: false, win: true }) == seq!["Win"@],
        modifier_names(ModifierKeys { shift: false, ctrl: false, alt: false, win: false }).len() == 0,
        modifier_names(ModifierKeys { shift: true, ctrl: true, alt: true, win: true }) == seq![
            "Shift"@,
            "Ctrl"@,
            "Alt"@,
            "Win"@,
        ],
{
    assert(modifier_names(ModifierKeys { shift: true, ctrl: false, alt: false, win: false }) =~= seq!["Shift"@]);
    assert(modifier_names(ModifierKeys { shift: false, ctrl: true, alt: false, win: false }) =~= seq!["Ctrl"@]);
    assert(modifier_names(ModifierKeys { shift: false, ctrl: false, alt: true, win: false }) =~= seq!["Alt"@]);
    assert(modifier_names(ModifierKeys { shift: false, ctrl: false, alt: false, win: true }) =~= seq!["Win"@]);
    assert(modifier_names(ModifierKeys { shift: true, ctrl: true, alt: true, win: true }) =~= seq![
        "Shift"@,
        "Ctrl"@,
        "Alt"@,
        "Win"@,
    ]);
}

/// Keys are named by their labels: letter keys (65..90) by their capital
/// letter, digit keys (48..57) by their digit, function keys (112..123) by
/// `F1`..`F12`, and the named keys by the label printed on them.
pub proof fn lemma_key_names_are_labels(keycode: u16)
    ensures
        65 <= keycode <= 90 ==> key_name_text(keycode) == seq![((keycode - 65 + 'A' as int) as u32) as char],
        48 <= keycode <= 57 ==> key_name_text(keycode) == seq![((keycode - 48 + '0' as int) as u32) as char],
        112 <= keycode <= 123 ==> key_name_text(keycode) == seq!['F'] + decimal_digits((keycode - 111) as nat),
        key_name_text(8) == "Backspace"@,
        key_name_text(9) == "Tab"@,
        key_name_text(13) == "Enter"@,
        key_name_text(16) == "Shift"@ && key_name_text(160) == "Shift"@ && key_name_text(161) == "Shift"@,
        key_name_text(17) == "Ctrl"@ && key_name_text(162) == "Ctrl"@ && key_name_text(163) == "Ctrl"@,
        key_name_text(18) == "Alt"@ && key_name_text(164) == "Alt"@ && key_name_text(165) == "Alt"@,
        key_name_text(20) == "CapsLock"@,
        key_name_text(27) == "Escape"@,
        key_name_text(32) == "Space"@,
        key_name_text(33) == "PageUp"@,
        key_name_text(34) == "PageDown"@,
        key_name_text(35) == "End"@,
        key_name_text(36) == "Home"@,
        key_name_text(37) == "Left"@,
        key_name_text(38) == "Up"@,
        key_name_text(39) == "Right"@,
        key_name_text(40) == "Down"@,
        key_name_text(45) == "Insert"@,
        key_name_text(46) == "Delete"@,
        key_name_text(91) == "Win"@ && key_name_text(92) == "Win"@,
{
    reveal_strlit("ABCDEFGHIJKLMNOPQRSTUVWXYZ");
    reveal_strlit("0123456789");
    reveal_strlit("F");
    if 65 <= keycode <= 90 {
        let s = "ABCDEFGHIJKLMNOPQRSTUVWXYZ"@;
        assert(s.subrange(keycode - 65, keycode - 64) =~= seq![s[keycode - 65]]);
    }
    if 48 <= keycode <= 57 {
        let s = "0123456789"@;
        assert(s.subrange(keycode - 48, keycode - 47) =~= seq![s[keycode - 48]]);
    }
}

impl ModifierKeys {
    /// No modifier held.
    pub fn none() -> (r: Self)
        ensures
            !r.shift && !r.ctrl && !r.alt && !r.win,
    {
        ModifierKeys { shift: false, ctrl: false, alt: false, win: false }
    }
}

} // verus!
