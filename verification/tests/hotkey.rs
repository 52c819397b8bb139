use kvm_rs::hotkey::{parse_hotkey, HotkeyError};
use kvm_rs::keys::CaptureKey as Key;
use kvm_rs::server_config::HotkeyConfig;

#[test]
fn test_parse_valid_simple() {
    let chord = parse_hotkey("Ctrl+Alt+F").unwrap();
    assert!(chord.ctrl);
    assert!(chord.alt);
    assert!(!chord.shift);
    assert!(!chord.meta);
    assert_eq!(chord.key, Key::KeyF);
}

#[test]
fn test_parse_case_insensitive_and_whitespace() {
    let chord = parse_hotkey(" cTrL + sHiFt +  k ").unwrap();
    assert!(chord.ctrl);
    assert!(chord.shift);
    assert!(!chord.alt);
    assert_eq!(chord.key, Key::KeyK);
}

#[test]
fn test_parse_function_key_and_meta_alias() {
    let chord = parse_hotkey("Super+F5").unwrap();
    assert!(chord.meta);
    assert_eq!(chord.key, Key::F5);
}

#[test]
fn test_parse_digit_key() {
    let chord = parse_hotkey("Ctrl+3").unwrap();
    assert_eq!(chord.key, Key::Num3);
}

#[test]
fn test_parse_named_key() {
    let chord = parse_hotkey("Ctrl+Alt+Escape").unwrap();
    assert_eq!(chord.key, Key::Escape);
}

#[test]
fn test_parse_unknown_key_fails() {
    let err = parse_hotkey("Ctrl+Alt+NotAKey").unwrap_err();
    assert!(err.message().contains("unknown key code"));
}

#[test]
fn test_parse_duplicate_key_fails() {
    let err = parse_hotkey("F+K").unwrap_err();
    assert!(err.message().contains("multiple key codes"));
}

#[test]
fn test_parse_no_key_fails() {
    let err = parse_hotkey("Ctrl+Alt").unwrap_err();
    assert!(err.message().contains("no key code found"));
}

#[test]
fn test_parse_empty_fails() {
    assert!(parse_hotkey("").is_err());
    assert!(parse_hotkey("   ").is_err());
}

#[test]
fn test_parse_default_config_hotkeys() {
    // Both defaults from HotkeyConfig::default() must parse.
    let defaults = HotkeyConfig::default();
    assert!(parse_hotkey(&defaults.toggle_forward).is_ok());
    assert!(parse_hotkey(&defaults.show_panel).is_ok());
    assert!(parse_hotkey("Ctrl+Alt+F").is_ok());
    assert!(parse_hotkey("Ctrl+Alt+K").is_ok());
}

#[test]
fn hotkey_errors_carry_their_input() {
    assert!(matches!(parse_hotkey(" + "), Err(HotkeyError::Empty)));
    match parse_hotkey("Ctrl+Alt") {
        Err(HotkeyError::NoKey(s)) => assert_eq!(s, "Ctrl+Alt"),
        other => panic!("unexpected {:?}", other),
    }
    match parse_hotkey("Ctrl+Bogus") {
        Err(e @ HotkeyError::UnknownKey(_)) => {
            assert_eq!(e.message(), "unknown key code: bogus")
        }
        other => panic!("unexpected {:?}", other),
    }
    assert_eq!(HotkeyError::Empty.message(), "empty hotkey string");
}

#[test]
fn parsing_ignores_order_case_and_spacing() {
    let a = parse_hotkey("Ctrl+Alt+F").unwrap();
    assert_eq!(parse_hotkey("Alt+ctrl+f").unwrap(), a);
    assert_eq!(parse_hotkey("  f + ALT +   Control ").unwrap(), a);
    assert!(parse_hotkey("Ctrl+F+G").is_err());
    assert!(parse_hotkey("G+F+ctrl").is_err());
    assert!(parse_hotkey("Ctrl+Alt").is_err());
    assert!(parse_hotkey("alt+CTRL").is_err());
}
