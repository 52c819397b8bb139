use kvm_rs::addr::AddrError;
use kvm_rs::client_config::Config as ClientConfig;
use kvm_rs::client_session::{
    explicit_server_address, fresh_pair_request, plan_connection, ConnectOptions,
};
use kvm_rs::file_send::fresh_file_pair_request;
use kvm_rs::protocol::{pairing_proof, Envelope};
use kvm_rs::server_config::Socks5Settings;
use kvm_rs::server_session::{choose_pairing_pin, pairing_pin};
use kvm_rs::socks5::{plan_socks5, Socks5Launch};

#[test]
fn explicit_address_appends_port_only_when_missing() {
    assert_eq!(explicit_server_address("192.168.1.5", 4000), "192.168.1.5:4000");
    assert_eq!(explicit_server_address("host:5000", 4000), "host:5000");
    assert_eq!(explicit_server_address("[::1]", 4000), "[::1]");
    assert_eq!(explicit_server_address("", 7), ":7");
}

#[test]
fn plan_uses_stored_pin_for_normalized_address() {
    let mut config = ClientConfig::default();
    config.add_known_server("srv".to_string(), "10.0.0.2:4000".to_string(), "AA:BB".to_string());
    let plan = plan_connection("10.0.0.2", &config, &ConnectOptions::default()).unwrap();
    assert_eq!(plan.host, "10.0.0.2");
    assert_eq!(plan.port, 4000);
    assert_eq!(plan.address, "10.0.0.2:4000");
    assert_eq!(plan.required_fingerprint.as_deref(), Some("AA:BB"));
    assert!(!plan.first_use);

    let trust = ConnectOptions { pin: None, trust_new_cert: true, expected_fingerprint: None };
    let plan = plan_connection("10.0.0.2:4000", &config, &trust).unwrap();
    assert_eq!(plan.required_fingerprint, None);
    assert!(plan.first_use);

    let exact = ConnectOptions { pin: None, trust_new_cert: true, expected_fingerprint: Some("cc:dd".to_string()) };
    let plan = plan_connection("[::1]:9", &config, &exact).unwrap();
    assert_eq!(plan.address, "[::1]:9");
    assert_eq!(plan.required_fingerprint.as_deref(), Some("CC:DD"));
}

#[test]
fn plan_reports_address_errors() {
    let config = ClientConfig::default();
    assert!(matches!(plan_connection("", &config, &ConnectOptions::default()), Err(AddrError::Empty)));
    assert!(matches!(plan_connection("h:notaport", &config, &ConnectOptions::default()), Err(AddrError::InvalidPort(_, _))));
}

fn settings(port: Option<u16>, user: Option<&str>, pass: Option<&str>, anon: bool) -> Socks5Settings {
    Socks5Settings {
        port,
        username: user.map(|s| s.to_string()),
        password: pass.map(|s| s.to_string()),
        allow_anonymous: anon,
    }
}

#[test]
fn socks5_disabled_without_port() {
    assert!(matches!(plan_socks5(None, None, None, None, false, &settings(None, None, None, false)), Socks5Launch::Disabled));
}

#[test]
fn socks5_refuses_to_start_without_credentials() {
    let r = plan_socks5(Some(1080), Some("u".to_string()), None, None, false, &settings(None, None, None, false));
    assert!(matches!(r, Socks5Launch::MissingCredentials));
}

#[test]
fn socks5_precedence_args_then_env_then_config() {
    let cfg = settings(Some(1080), Some("cfguser"), Some("cfgpass"), false);
    match plan_socks5(None, None, None, Some("envpass".to_string()), false, &cfg) {
        Socks5Launch::Start { port, config } => {
            assert_eq!(port, 1080);
            assert_eq!(config.username.as_deref(), Some("cfguser"));
            assert_eq!(config.password.as_deref(), Some("envpass"));
            assert!(!config.allow_anonymous);
        }
        other => panic!("unexpected {:?}", other),
    }
    match plan_socks5(Some(2000), Some("a".to_string()), Some("b".to_string()), Some("envpass".to_string()), false, &cfg) {
        Socks5Launch::Start { port, config } => {
            assert_eq!(port, 2000);
            assert_eq!(config.username.as_deref(), Some("a"));
            assert_eq!(config.password.as_deref(), Some("b"));
        }
        other => panic!("unexpected {:?}", other),
    }
    match plan_socks5(Some(2000), None, None, None, true, &settings(None, None, None, false)) {
        Socks5Launch::Start { config, .. } => {
            assert!(config.allow_anonymous);
            assert_eq!(config.username, None);
        }
        other => panic!("unexpected {:?}", other),
    }
}

#[test]
fn pin_precedence_and_zero_padding() {
    assert_eq!(choose_pairing_pin(Some("1".to_string()), Some("2".to_string()), Some("3".to_string()), 5), "1");
    assert_eq!(choose_pairing_pin(None, Some("2".to_string()), Some("3".to_string()), 5), "2");
    assert_eq!(choose_pairing_pin(None, None, Some("3".to_string()), 5), "3");
    assert_eq!(choose_pairing_pin(None, None, None, 42), "000042");
    assert_eq!(choose_pairing_pin(None, None, None, 999999), "999999");
    assert_eq!(choose_pairing_pin(None, None, None, 0), "000000");
}

#[test]
fn random_pin_has_six_digits() {
    let pin = pairing_pin(None, None, None);
    assert_eq!(pin.len(), 6);
    assert!(pin.chars().all(|c| c.is_ascii_digit()));
    assert_eq!(pairing_pin(Some("abc".to_string()), None, None), "abc");
}

#[test]
fn fresh_pair_requests_carry_a_matching_proof() {
    match fresh_pair_request("4321", "FP".to_string()) {
        Envelope::PairRequest { nonce, fingerprint, proof } => {
            assert_eq!(fingerprint, "FP");
            assert_eq!(proof, pairing_proof("4321", &nonce, "FP"));
        }
        other => panic!("unexpected {:?}", other),
    }
    let mut config = ClientConfig::default();
    config.ensure_client_secret();
    match fresh_file_pair_request(&config) {
        Envelope::PairRequest { nonce, fingerprint, proof } => {
            assert_eq!(fingerprint, config.client_fingerprint());
            assert_eq!(proof, pairing_proof("", &nonce, &fingerprint));
        }
        other => panic!("unexpected {:?}", other),
    }
}
