use kvm_rs::keys::{code_to_key, key_to_code, CaptureKey as Key, Platform};
use std::collections::HashSet;

/// Every key of the canonical table, in the order it is documented.
/// `Unknown(n)` is not among them: its codes are ignored by the client.
fn canonical_keys() -> Vec<Key> {
    vec![
        Key::Escape,
        Key::Num1,
        Key::Num2,
        Key::Num3,
        Key::Num4,
        Key::Num5,
        Key::Num6,
        Key::Num7,
        Key::Num8,
        Key::Num9,
        Key::Num0,
        Key::Minus,
        Key::Equal,
        Key::Backspace,
        Key::Tab,
        Key::KeyQ,
        Key::KeyW,
        Key::KeyE,
        Key::KeyR,
        Key::KeyT,
        Key::KeyY,
        Key::KeyU,
        Key::KeyI,
        Key::KeyO,
        Key::KeyP,
        Key::LeftBracket,
        Key::RightBracket,
        Key::Return,
        Key::ControlLeft,
        Key::KeyA,
        Key::KeyS,
        Key::KeyD,
        Key::KeyF,
        Key::KeyG,
        Key::KeyH,
        Key::KeyJ,
        Key::KeyK,
        Key::KeyL,
        Key::SemiColon,
        Key::Quote,
        Key::BackQuote,
        Key::ShiftLeft,
        Key::BackSlash,
        Key::KeyZ,
        Key::KeyX,
        Key::KeyC,
        Key::KeyV,
        Key::KeyB,
        Key::KeyN,
        Key::KeyM,
        Key::Comma,
        Key::Dot,
        Key::Slash,
        Key::ShiftRight,
        Key::KpMultiply,
        Key::Alt,
        Key::Space,
        Key::CapsLock,
        Key::F1,
        Key::F2,
        Key::F3,
        Key::F4,
        Key::F5,
        Key::F6,
        Key::F7,
        Key::F8,
        Key::F9,
        Key::F10,
        Key::NumLock,
        Key::ScrollLock,
        Key::Kp7,
        Key::Kp8,
        Key::Kp9,
        Key::KpMinus,
        Key::Kp4,
        Key::Kp5,
        Key::Kp6,
        Key::KpPlus,
        Key::Kp1,
        Key::Kp2,
        Key::Kp3,
        Key::Kp0,
        Key::KpDelete,
        Key::IntlBackslash,
        Key::F11,
        Key::F12,
        Key::KpReturn,
        Key::ControlRight,
        Key::KpDivide,
        Key::PrintScreen,
        Key::AltGr,
        Key::Home,
        Key::UpArrow,
        Key::PageUp,
        Key::LeftArrow,
        Key::RightArrow,
        Key::End,
        Key::DownArrow,
        Key::PageDown,
        Key::Insert,
        Key::Delete,
        Key::Pause,
        Key::MetaLeft,
        Key::MetaRight,
        Key::Function,
    ]
}

#[test]
fn test_canonical_keys_map_to_unique_nonzero_codes() {
    let mut seen = HashSet::new();
    for key in canonical_keys() {
        let code = key_to_code(key);
        assert_ne!(code, 0, "{:?} mapped to 0", key);
        assert!(seen.insert(code), "duplicate code {} for {:?} (already used)", code, key);
    }
}

#[test]
fn test_unknown_key_code() {
    assert_eq!(key_to_code(Key::Unknown(5)), 0x10005);
    assert_eq!(key_to_code(Key::Unknown(0)), 0x10000);
}

#[test]
fn test_specific_canonical_codes() {
    assert_eq!(key_to_code(Key::Escape), 1);
    assert_eq!(key_to_code(Key::KpMultiply), 55);
    assert_eq!(key_to_code(Key::NumLock), 69);
    assert_eq!(key_to_code(Key::ScrollLock), 70);
    assert_eq!(key_to_code(Key::KpDelete), 83);
    assert_eq!(key_to_code(Key::IntlBackslash), 86);
    assert_eq!(key_to_code(Key::KpReturn), 96);
    assert_eq!(key_to_code(Key::ControlRight), 97);
    assert_eq!(key_to_code(Key::KpDivide), 98);
    assert_eq!(key_to_code(Key::PrintScreen), 99);
    assert_eq!(key_to_code(Key::AltGr), 100);
    assert_eq!(key_to_code(Key::Pause), 119);
    assert_eq!(key_to_code(Key::Function), 464);
}

#[test]
fn every_canonical_key_round_trips_to_some_client_key() {
    for platform in [Platform::Windows, Platform::MacOs, Platform::Linux] {
        for key in canonical_keys() {
            let code = key_to_code(key);
            assert_ne!(code, 0, "{key:?} should have a nonzero canonical code");
            let mapped = code_to_key(code, platform);
            assert!(
                mapped.is_some(),
                "{key:?} -> code {code} should map back to a client key on {platform:?}"
            );
        }
    }
}

#[test]
fn canonical_codes_are_unique() {
    let mut seen = HashSet::new();
    for key in canonical_keys() {
        let code = key_to_code(key);
        assert!(seen.insert(code), "duplicate canonical code {code} for {key:?}");
    }
}

#[test]
fn unknown_key_code_is_ignored_by_the_client() {
    let code = key_to_code(Key::Unknown(5));
    assert_eq!(code, 0x1_0005);
    assert_eq!(code_to_key(code, Platform::Linux), None);
}

#[test]
fn known_codes_map_to_a_key() {
    for code in [1u32, 14, 28, 42, 57, 96, 97, 110, 464] {
        assert!(code_to_key(code, Platform::Linux).is_some(), "code {code} should map");
    }
}

#[test]
fn unknown_high_codes_are_ignored() {
    assert_eq!(code_to_key(0x1_0005, Platform::Linux), None);
    assert_eq!(code_to_key(0x1_FFFF, Platform::Linux), None);
}

#[test]
fn truly_unmapped_low_code_is_none() {
    assert_eq!(code_to_key(9999, Platform::Linux), None);
}

