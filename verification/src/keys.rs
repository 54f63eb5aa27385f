//! Keys and their scan codes.

use vstd::prelude::*;

verus! {

/// A key by its place on the keyboard. `Other` stands for every key without a
/// scan code here.
#[derive(Debug, Clone, Copy, PartialEq, Eq, Structural)]
pub enum KeyCode {
    KeyA,
    KeyB,
    KeyC,
    KeyD,
    KeyE,
    KeyF,
    KeyG,
    KeyH,
    KeyI,
    KeyJ,
    KeyK,
    KeyL,
    KeyM,
    KeyN,
    KeyO,
    KeyP,
    KeyQ,
    KeyR,
    KeyS,
    KeyT,
    KeyU,
    KeyV,
    KeyW,
    KeyX,
    KeyY,
    KeyZ,
    Digit0,
    Digit1,
    Digit2,
    Digit3,
    Digit4,
    Digit5,
    Digit6,
    Digit7,
    Digit8,
    Digit9,
    Space,
    Enter,
    Tab,
    Backspace,
    ArrowUp,
    ArrowDown,
    ArrowLeft,
    ArrowRight,
    ShiftLeft,
    ShiftRight,
    ControlLeft,
    AltLeft,
    Escape,
    Other,
}

/// The scan code of a key in set 1.
pub open spec fn set1_scancode(code: KeyCode) -> Option<u16> {
    match code {
        KeyCode::KeyA => Some(0x1e),
        KeyCode::KeyB => Some(0x30),
        KeyCode::KeyC => Some(0x2e),
        KeyCode::KeyD => Some(0x20),
        KeyCode::KeyE => Some(0x12),
        KeyCode::KeyF => Some(0x21),
        KeyCode::KeyG => Some(0x22),
        KeyCode::KeyH => Some(0x23),
        KeyCode::KeyI => Some(0x17),
        KeyCode::KeyJ => Some(0x24),
        KeyCode::KeyK => Some(0x25),
        KeyCode::KeyL => Some(0x26),
        KeyCode::KeyM => Some(0x32),
        KeyCode::KeyN => Some(0x31),
        KeyCode::KeyO => Some(0x18),
        KeyCode::KeyP => Some(0x19),
        KeyCode::KeyQ => Some(0x10),
        KeyCode::KeyR => Some(0x13),
        KeyCode::KeyS => Some(0x1f),
        KeyCode::KeyT => Some(0x14),
        KeyCode::KeyU => Some(0x16),
        KeyCode::KeyV => Some(0x2f),
        KeyCode::KeyW => Some(0x11),
        KeyCode::KeyX => Some(0x2d),
        KeyCode::KeyY => Some(0x15),
        KeyCode::KeyZ => Some(0x2c),
        KeyCode::Digit0 => Some(0x0b),
        KeyCode::Digit1 => Some(0x02),
        KeyCode::Digit2 => Some(0x03),
        KeyCode::Digit3 => Some(0x04),
        KeyCode::Digit4 => Some(0x05),
        KeyCode::Digit5 => Some(0x06),
        KeyCode::Digit6 => Some(0x07),
        KeyCode::Digit7 => Some(0x08),
        KeyCode::Digit8 => Some(0x09),
        KeyCode::Digit9 => Some(0x0a),
        KeyCode::Space => Some(0x39),
        KeyCode::Enter => Some(0x1c),
        KeyCode::Tab => Some(0x0f),
        KeyCode::Backspace => Some(0x0e),
        KeyCode::ArrowUp => Some(0x48),
        KeyCode::ArrowDown => Some(0x50),
        KeyCode::ArrowLeft => Some(0x4b),
        KeyCode::ArrowRight => Some(0x4d),
        KeyCode::ShiftLeft => Some(0x2a),
        KeyCode::ShiftRight => Some(0x36),
        KeyCode::ControlLeft => Some(0x1d),
        KeyCode::AltLeft => Some(0x38),
        KeyCode::Escape => Some(0x01),
        KeyCode::Other => None,
    }
}

/// The scan code that stands for a key when it is forwarded.
pub fn keycode_to_set1_scancode(code: KeyCode) -> (scan_code: Option<u16>)
    ensures
        scan_code == set1_scancode(code),
{
    Some(
        match code {
            KeyCode::KeyA => 0x1e,
            KeyCode::KeyB => 0x30,
            KeyCode::KeyC => 0x2e,
            KeyCode::KeyD => 0x20,
            KeyCode::KeyE => 0x12,
            KeyCode::KeyF => 0x21,
            KeyCode::KeyG => 0x22,
            KeyCode::KeyH => 0x23,
            KeyCode::KeyI => 0x17,
            KeyCode::KeyJ => 0x24,
            KeyCode::KeyK => 0x25,
            KeyCode::KeyL => 0x26,
            KeyCode::KeyM => 0x32,
            KeyCode::KeyN => 0x31,
            KeyCode::KeyO => 0x18,
            KeyCode::KeyP => 0x19,
            KeyCode::KeyQ => 0x10,
            KeyCode::KeyR => 0x13,
            KeyCode::KeyS => 0x1f,
            KeyCode::KeyT => 0x14,
            KeyCode::KeyU => 0x16,
            KeyCode::KeyV => 0x2f,
            KeyCode::KeyW => 0x11,
            KeyCode::KeyX => 0x2d,
            KeyCode::KeyY => 0x15,
            KeyCode::KeyZ => 0x2c,
            KeyCode::Digit0 => 0x0b,
            KeyCode::Digit1 => 0x02,
            KeyCode::Digit2 => 0x03,
            KeyCode::Digit3 => 0x04,
            KeyCode::Digit4 => 0x05,
            KeyCode::Digit5 => 0x06,
            KeyCode::Digit6 => 0x07,
            KeyCode::Digit7 => 0x08,
            KeyCode::Digit8 => 0x09,
            KeyCode::Digit9 => 0x0a,
            KeyCode::Space => 0x39,
            KeyCode::Enter => 0x1c,
            KeyCode::Tab => 0x0f,
            KeyCode::Backspace => 0x0e,
            KeyCode::ArrowUp => 0x48,
            KeyCode::ArrowDown => 0x50,
            KeyCode::ArrowLeft => 0x4b,
            KeyCode::ArrowRight => 0x4d,
            KeyCode::ShiftLeft => 0x2a,
            KeyCode::ShiftRight => 0x36,
            KeyCode::ControlLeft => 0x1d,
            KeyCode::AltLeft => 0x38,
            KeyCode::Escape => 0x01,
            KeyCode::Other => return None,
        },
    )
}

/// No two keys share a scan code.
pub proof fn law_scan_codes_tell_keys_apart(a: KeyCode, b: KeyCode)
    requires
        set1_scancode(a) is Some,
        set1_scancode(a) == set1_scancode(b),
    ensures
        a == b,
{
}

/// A scan code is a make code: its top bit, which marks the release of a key,
/// is clear, and it is not zero.
pub proof fn law_scan_codes_are_make_codes(code: KeyCode)
    requires
        set1_scancode(code) is Some,
    ensures
        0 < set1_scancode(code)->0 < 0x80,
{
}

} // verus!
