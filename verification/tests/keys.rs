use desktop_environment::keys::{keycode_to_set1_scancode, KeyCode};

const SCAN_CODES: [(KeyCode, u16); 49] = [
    (KeyCode::KeyA, 0x1e),
    (KeyCode::KeyB, 0x30),
    (KeyCode::KeyC, 0x2e),
    (KeyCode::KeyD, 0x20),
    (KeyCode::KeyE, 0x12),
    (KeyCode::KeyF, 0x21),
    (KeyCode::KeyG, 0x22),
    (KeyCode::KeyH, 0x23),
    (KeyCode::KeyI, 0x17),
    (KeyCode::KeyJ, 0x24),
    (KeyCode::KeyK, 0x25),
    (KeyCode::KeyL, 0x26),
    (KeyCode::KeyM, 0x32),
    (KeyCode::KeyN, 0x31),
    (KeyCode::KeyO, 0x18),
    (KeyCode::KeyP, 0x19),
    (KeyCode::KeyQ, 0x10),
    (KeyCode::KeyR, 0x13),
    (KeyCode::KeyS, 0x1f),
    (KeyCode::KeyT, 0x14),
    (KeyCode::KeyU, 0x16),
    (KeyCode::KeyV, 0x2f),
    (KeyCode::KeyW, 0x11),
    (KeyCode::KeyX, 0x2d),
    (KeyCode::KeyY, 0x15),
    (KeyCode::KeyZ, 0x2c),
    (KeyCode::Digit0, 0x0b),
    (KeyCode::Digit1, 0x02),
    (KeyCode::Digit2, 0x03),
    (KeyCode::Digit3, 0x04),
    (KeyCode::Digit4, 0x05),
    (KeyCode::Digit5, 0x06),
    (KeyCode::Digit6, 0x07),
    (KeyCode::Digit7, 0x08),
    (KeyCode::Digit8, 0x09),
    (KeyCode::Digit9, 0x0a),
    (KeyCode::Space, 0x39),
    (KeyCode::Enter, 0x1c),
    (KeyCode::Tab, 0x0f),
    (KeyCode::Backspace, 0x0e),
    (KeyCode::ArrowUp, 0x48),
    (KeyCode::ArrowDown, 0x50),
    (KeyCode::ArrowLeft, 0x4b),
    (KeyCode::ArrowRight, 0x4d),
    (KeyCode::ShiftLeft, 0x2a),
    (KeyCode::ShiftRight, 0x36),
    (KeyCode::ControlLeft, 0x1d),
    (KeyCode::AltLeft, 0x38),
    (KeyCode::Escape, 0x01),
];

#[test]
fn keys_have_their_scan_codes() {
    for (key, scan_code) in SCAN_CODES {
        assert_eq!(keycode_to_set1_scancode(key), Some(scan_code));
    }
    assert_eq!(keycode_to_set1_scancode(KeyCode::Other), None);
}

#[test]
fn scan_codes_tell_keys_apart_and_are_make_codes() {
    for (i, (_, scan_code)) in SCAN_CODES.iter().enumerate() {
        assert!(0 < *scan_code && *scan_code < 0x80);
        for (_, other) in &SCAN_CODES[..i] {
            assert_ne!(scan_code, other);
        }
    }
}
