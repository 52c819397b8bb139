use kvm_rs::client_config::Config;
use kvm_rs::client_session::{
    after_attempt, client_hello, command_envelope, next_backoff, on_hello_reply, on_pair_reply,
    on_server_message, pair_request, pin_policy, record_connection, resolve_pin,
    server_unresponsive, tls_failure_is_fatal, ClientAction, Command, ConnectError,
    AttemptOutcome, ConnectOptions,
};
use kvm_rs::protocol::{pairing_proof, Envelope, Event, PROTOCOL_VERSION};

#[test]
fn client_sends_a_proof_matching_the_configured_pin() {
    let mut config = Config::default();
    config.ensure_client_secret();
    let fp = config.client_fingerprint();
    let pin = resolve_pin(Some("424242".to_string()), Some("999999".to_string()));
    assert_eq!(pin, "424242");
    match pair_request(&pin, [9u8; 16], fp.clone()) {
        Envelope::PairRequest { nonce, fingerprint, proof } => {
            assert_eq!(nonce, [9u8; 16]);
            assert_eq!(fingerprint, fp);
            assert_eq!(proof, pairing_proof("424242", &[9u8; 16], &fp));
        }
        other => panic!("unexpected {:?}", other),
    }
    assert_eq!(resolve_pin(None, Some("999999".to_string())), "999999");
    assert_eq!(resolve_pin(None, None), "");
}

#[test]
fn wrong_pin_rejection_is_reported_as_fatal() {
    match on_pair_reply(Envelope::PairReject { reason: "pairing PIN required or incorrect".to_string() }) {
        Err(ConnectError::Fatal(f)) => assert_eq!(
            f.message(),
            "pairing rejected: pairing PIN required or incorrect (pass --pin <code>, or set KVM_PAIRING_PIN)"
        ),
        other => panic!("unexpected {:?}", other),
    }
    match on_pair_reply(Envelope::PairReject { reason: "too many failed pairing attempts; try again later".to_string() }) {
        Err(ConnectError::Fatal(f)) => {
            assert_eq!(f.0, "pairing rejected: too many failed pairing attempts; try again later")
        }
        other => panic!("unexpected {:?}", other),
    }
    assert!(on_pair_reply(Envelope::PairAccept).is_ok());
    match on_pair_reply(Envelope::Goodbye) {
        Err(ConnectError::Unexpected { context, reply }) => {
            assert_eq!(context, "unexpected pairing response");
            assert!(matches!(reply, Envelope::Goodbye));
        }
        other => panic!("unexpected {:?}", other),
    }
    match on_hello_reply(Envelope::PairAccept) {
        Err(ConnectError::Unexpected { context, reply }) => {
            assert_eq!(context, "unexpected response");
            assert!(matches!(reply, Envelope::PairAccept));
        }
        other => panic!("unexpected {:?}", other),
    }
}

#[test]
fn protocol_version_mismatch_is_reported_as_fatal() {
    let msg = "protocol version mismatch: server=0.2.0, client=9.9.9";
    match on_hello_reply(Envelope::Error(msg.to_string())) {
        Err(ConnectError::Fatal(f)) => assert_eq!(f.0, msg),
        other => panic!("unexpected {:?}", other),
    }
    match on_hello_reply(Envelope::Error("VERSION too old".to_string())) {
        Err(ConnectError::Fatal(_)) => {}
        other => panic!("unexpected {:?}", other),
    }
    match on_hello_reply(Envelope::Error("expected Hello".to_string())) {
        Err(ConnectError::Failed(t)) => assert_eq!(t, "server error: expected Hello"),
        other => panic!("unexpected {:?}", other),
    }
    match on_hello_reply(Envelope::HelloAck { file_transfer_port: 4001, server_name: "srv".to_string() }) {
        Ok((port, name)) => assert_eq!((port, name.as_str()), (4001, "srv")),
        other => panic!("unexpected {:?}", other),
    }
}

#[test]
fn connect_pins_fingerprint_under_both_control_and_file_ports() {
    let mut config = Config::default();
    record_connection(&mut config, "192.168.1.5", 4000, 4001, "srv".to_string(), "AA:BB".to_string());
    assert_eq!(config.known_fingerprint("192.168.1.5:4000").as_deref(), Some("AA:BB"));
    assert_eq!(config.known_fingerprint("192.168.1.5:4001").as_deref(), Some("AA:BB"));
    assert_eq!(config.last_server.as_deref(), Some("192.168.1.5:4000"));

    let mut config = Config::default();
    record_connection(&mut config, "::1", 4000, 4000, "srv".to_string(), "CC".to_string());
    assert_eq!(config.known_servers.len(), 1);
    assert_eq!(config.known_fingerprint("[::1]:4000").as_deref(), Some("CC"));
}

#[test]
fn pinning_policy_follows_the_options() {
    let opts = ConnectOptions::default();
    let (req, first) = pin_policy(&opts, Some("AA".to_string()));
    assert_eq!(req.as_deref(), Some("AA"));
    assert!(!first);
    let (req, first) = pin_policy(&opts, None);
    assert!(req.is_none() && first);
    let trust = ConnectOptions { trust_new_cert: true, ..ConnectOptions::default() };
    let (req, first) = pin_policy(&trust, Some("AA".to_string()));
    assert!(req.is_none() && first);
    let exact = ConnectOptions { expected_fingerprint: Some("ab:cd".to_string()), trust_new_cert: true, ..ConnectOptions::default() };
    let (req, _) = pin_policy(&exact, Some("AA".to_string()));
    assert_eq!(req.as_deref(), Some("AB:CD"));
    assert!(tls_failure_is_fatal("invalid peer certificate: Other(server certificate fingerprint mismatch: expected A)"));
    assert!(!tls_failure_is_fatal("connection reset"));
}

#[test]
fn hello_names_this_client_and_protocol() {
    match client_hello(None) {
        Envelope::Hello { name, version, caps } => {
            assert_eq!(name, "kvm-client");
            assert_eq!(version, PROTOCOL_VERSION);
            assert!(caps.clipboard && caps.file_transfer && !caps.internet_share);
        }
        other => panic!("unexpected {:?}", other),
    }
}

#[test]
fn release_all_from_server_releases_everything() {
    assert!(matches!(on_server_message(Envelope::Input(Event::ReleaseAll)), ClientAction::ReleaseAll));
}

#[test]
fn server_messages_become_actions() {
    assert!(matches!(
        on_server_message(Envelope::Input(Event::MouseDelta { dx: 1, dy: -1 })),
        ClientAction::Inject(Event::MouseDelta { dx: 1, dy: -1 })
    ));
    match on_server_message(Envelope::ClipboardSet { text: "héllo".to_string() }) {
        ClientAction::ApplyClipboard { text, bytes } => {
            assert_eq!(text, "héllo");
            assert_eq!(bytes, 6);
        }
        other => panic!("unexpected {:?}", other),
    }
    assert!(matches!(
        on_server_message(Envelope::ToggleForward(false)),
        ClientAction::Forwarding { on: false, release_first: true }
    ));
    assert!(matches!(
        on_server_message(Envelope::ToggleForward(true)),
        ClientAction::Forwarding { on: true, release_first: false }
    ));
    assert!(matches!(on_server_message(Envelope::Ping(3)), ClientAction::Reply(Envelope::Pong(3))));
    assert!(matches!(on_server_message(Envelope::Pong(3)), ClientAction::RoundTrip(3)));
    assert!(matches!(on_server_message(Envelope::Goodbye), ClientAction::Close));
    assert!(matches!(on_server_message(Envelope::Error("x".to_string())), ClientAction::ReportError(_)));
    assert!(matches!(on_server_message(Envelope::PairAccept), ClientAction::Ignore));
    assert!(matches!(command_envelope(Command::ToggleForward(true)), Envelope::ToggleForward(true)));
    assert!(matches!(command_envelope(Command::SendClipboard("t".to_string())), Envelope::ClipboardSet { .. }));
}

#[test]
fn keepalive_and_backoff() {
    assert!(!server_unresponsive(0, 20_000_000_000));
    assert!(server_unresponsive(0, 20_000_000_001));
    let mut b = 1000;
    let mut seen = Vec::new();
    for _ in 0..7 {
        b = next_backoff(b);
        seen.push(b);
    }
    assert_eq!(seen, vec![2000, 4000, 8000, 16000, 30000, 30000, 30000]);
}

#[test]
fn reconnect_decisions_follow_the_outcome() {
    // A session that ran and ended starts over at the initial delay.
    assert_eq!(after_attempt(AttemptOutcome::SessionEnded, false, 8000), Some((1000, 2000)));
    // A failed attempt waits the current delay and doubles it, up to the cap.
    assert_eq!(after_attempt(AttemptOutcome::Failed, false, 4000), Some((4000, 8000)));
    assert_eq!(after_attempt(AttemptOutcome::Failed, false, 20000), Some((20000, 30000)));
    assert_eq!(after_attempt(AttemptOutcome::Failed, false, 30000), Some((30000, 30000)));
    // A fatal failure or a cancellation stops the loop.
    assert_eq!(after_attempt(AttemptOutcome::Fatal, false, 1000), None);
    assert_eq!(after_attempt(AttemptOutcome::SessionEnded, true, 1000), None);
    assert_eq!(after_attempt(AttemptOutcome::Failed, true, 1000), None);
}
