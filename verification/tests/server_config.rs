use kvm_rs::clock::Timestamp;
use kvm_rs::server_config::{Config, HotkeyConfig, Socks5Settings};

#[test]
fn test_missing_file_returns_default() {
    let cfg = Config::default_with(None, "/downloads/kvm-transfers".to_string());
    assert_eq!(cfg.bind_address, "0.0.0.0");
    assert_eq!(cfg.server_name, "KVM-Server");
    assert_eq!(cfg.max_file_size, 0);
    assert!(cfg.pairing_pin.is_none());
    assert_eq!(cfg.hotkey.toggle_forward, "Ctrl+Alt+F");
    assert_eq!(cfg.hotkey.show_panel, "Ctrl+Alt+K");
    assert!(!cfg.socks5.allow_anonymous);
    assert!(cfg.clipboard_sync);
    assert!(!cfg.auto_forward);
    assert_eq!(cfg.file_transfer_port, 4001);
    assert_eq!(cfg.transfer_dir, "/downloads/kvm-transfers");
    let named = Config::default_with(Some("host-7".to_string()), String::new());
    assert_eq!(named.server_name, "host-7");
}

#[test]
fn pairing_and_revoking_devices() {
    let mut cfg = Config::default_with(None, String::new());
    cfg.add_paired_device("abc123".to_string(), "My Laptop".to_string());
    assert!(cfg.is_paired("abc123"));
    assert!(!cfg.is_paired("abc12"));
    cfg.add_paired_device_at("abc123".to_string(), "Renamed".to_string(), Timestamp { secs: 5, nanos: 1 });
    assert_eq!(cfg.paired_devices.len(), 1);
    assert_eq!(cfg.paired_devices[0].name, "Renamed");
    assert!(cfg.remove_paired_device("abc123"));
    assert!(!cfg.remove_paired_device("abc123"));
    assert!(!cfg.is_paired("abc123"));
}

#[test]
fn settings_defaults() {
    let h = HotkeyConfig::default();
    assert_eq!((h.toggle_forward.as_str(), h.show_panel.as_str()), ("Ctrl+Alt+F", "Ctrl+Alt+K"));
    let s = Socks5Settings::default();
    assert!(s.port.is_none() && s.username.is_none() && s.password.is_none() && !s.allow_anonymous);
}
