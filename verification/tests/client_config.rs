use sha2::Digest;
use kvm_rs::client_config::{hex_decode, hex_encode, Config, KnownServer};
use kvm_rs::clock::Timestamp;

#[test]
fn missing_file_loads_default() {
    let config = Config::default();
    assert!(config.client_secret.is_empty());
    assert!(config.known_servers.is_empty());
    assert!(config.last_server.is_none());
    assert!(!config.auto_connect);
}

#[test]
fn ensure_client_secret_is_generated_once_and_stable() {
    let mut config = Config::default();
    assert!(config.ensure_client_secret());
    let secret = config.client_secret.clone();
    let fp = config.client_fingerprint();
    assert!(!config.ensure_client_secret(), "second call should not regenerate");
    assert_eq!(config.client_secret, secret);
    assert_eq!(config.client_fingerprint(), fp);
    assert_eq!(fp.len(), 64, "sha256 hex digest should be 64 chars");
    assert_eq!(secret.len(), 64);
    assert!(secret.chars().all(|c| c.is_ascii_hexdigit() && !c.is_ascii_uppercase()));
}

#[test]
fn client_fingerprint_does_not_panic_on_multibyte_secret() {
    let config = Config { client_secret: "a\u{e9}b".to_string(), ..Config::default() };
    let fp = config.client_fingerprint();
    assert_eq!(fp.len(), 64, "should fall back to an empty-byte hash, not panic");
    // The fallback hashes no bytes at all.
    assert_eq!(fp, "e3b0c44298fc1c149afbf4c8996fb92427ae41e4649b934ca495991b7852b855");
}

#[test]
fn hex_decode_rejects_non_hex_without_panicking() {
    assert_eq!(hex_decode("gg"), None);
    assert_eq!(hex_decode("a"), None); // odd length
    assert_eq!(hex_decode(""), Some(Vec::new()));
    assert_eq!(hex_decode("ab"), Some(vec![0xab]));
    assert_eq!(hex_decode("AB"), Some(vec![0xab]));
}

#[test]
fn hex_round_trips() {
    let bytes: Vec<u8> = (0..=255u8).collect();
    let text = hex_encode(&bytes);
    assert_eq!(&text[..6], "000102");
    assert_eq!(&text[text.len() - 2..], "ff");
    assert_eq!(hex_decode(&text), Some(bytes));
}

#[test]
fn secret_from_given_bytes_and_its_fingerprint() {
    let mut config = Config::default();
    assert!(config.ensure_client_secret_with(&[0x11u8; 32]));
    assert_eq!(config.client_secret, "11".repeat(32));
    let expected = hex_encode(&sha2::Sha256::digest([0x11u8; 32]));
    assert_eq!(config.client_fingerprint(), expected);
}

#[test]
fn forget_server_removes_it() {
    let mut config = Config::default();
    config.add_known_server("srv".into(), "10.0.0.1:4000".into(), "AA".into());
    assert!(config.forget_server("10.0.0.1:4000"));
    assert!(!config.forget_server("10.0.0.1:4000"));
    assert!(config.list_known_servers().is_empty());
}

#[test]
fn known_servers_round_trip_through_add_and_lookup() {
    let mut config = Config::default();
    config.add_known_server("srv".into(), "127.0.0.1:4000".into(), "AB:CD".into());
    assert_eq!(config.known_fingerprint("127.0.0.1:4000").as_deref(), Some("AB:CD"));
    assert_eq!(config.last_server.as_deref(), Some("127.0.0.1:4000"));
    config.add_known_server_alias("srv".into(), "127.0.0.1:4001".into(), "AB:CD".into());
    assert_eq!(config.last_server.as_deref(), Some("127.0.0.1:4000"));
    assert_eq!(config.known_fingerprint("127.0.0.1:4001").as_deref(), Some("AB:CD"));
    config.add_known_server("srv2".into(), "127.0.0.1:4000".into(), "EF".into());
    assert_eq!(config.known_servers.len(), 2);
    assert_eq!(config.known_fingerprint("127.0.0.1:4000").as_deref(), Some("EF"));
    assert_eq!(config.known_fingerprint("10.9.9.9:1"), None);
}

#[test]
fn known_servers_list_newest_first() {
    let mut config = Config::default();
    let at = |secs| Timestamp { secs, nanos: 0 };
    config.add_known_server_at("a".into(), "a:1".into(), "1".into(), at(10));
    config.add_known_server_at("b".into(), "b:1".into(), "2".into(), at(30));
    config.add_known_server_at("c".into(), "c:1".into(), "3".into(), at(20));
    config.add_known_server_alias_at("d".into(), "d:1".into(), "4".into(), at(30));
    let names: Vec<String> = config.list_known_servers().into_iter().map(|s| s.name).collect();
    assert_eq!(names, vec!["b", "d", "c", "a"]);
}

#[test]
fn default_known_server_is_empty() {
    let s = KnownServer::default();
    assert!(s.name.is_empty() && s.address.is_empty() && s.fingerprint.is_empty());
}
