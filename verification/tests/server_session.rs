use kvm_rs::protocol::{pairing_proof, Caps, Envelope, Event, PROTOCOL_VERSION};
use kvm_rs::rate_limit::{is_rate_limited, PeerIp, RateLimiter};
use kvm_rs::server_config::Config;
use kvm_rs::server_session::{
    check_hello, client_timed_out, decide_pairing, forwarding_on_register, forwarding_on_unregister,
    hello_ack, on_client_message, redact_fingerprint, HandshakeError, PairingOutcome, ServerAction,
    MAX_CLIPBOARD_BYTES,
};

const PIN: &str = "123456";

fn peer() -> PeerIp {
    PeerIp::V4(0x0A00_0002)
}

fn hello(version: &str) -> Envelope {
    Envelope::Hello { name: "laptop".to_string(), version: version.to_string(), caps: Caps::default() }
}

fn pair_request(fp: &str, proof: [u8; 32]) -> Envelope {
    Envelope::PairRequest { nonce: [3u8; 16], fingerprint: fp.to_string(), proof }
}

fn fresh() -> (RateLimiter, Config) {
    (RateLimiter::new(), Config::default_with(Some("srv".to_string()), String::new()))
}

#[test]
fn hello_with_this_version_is_accepted() {
    assert_eq!(check_hello(hello(PROTOCOL_VERSION)).unwrap(), "laptop");
    match hello_ack(4001, "srv".to_string()) {
        Envelope::HelloAck { file_transfer_port, server_name } => {
            assert_eq!((file_transfer_port, server_name.as_str()), (4001, "srv"))
        }
        other => panic!("unexpected {:?}", other),
    }
}

#[test]
fn test_protocol_version_mismatch_sends_error() {
    match check_hello(hello("0.1.0")) {
        Err((Envelope::Error(text), HandshakeError::VersionMismatch(v))) => {
            assert_eq!(text, "protocol version mismatch: server=0.2.0, client=0.1.0");
            assert_eq!(v, "0.1.0");
        }
        other => panic!("unexpected {:?}", other),
    }
    match check_hello(Envelope::Ping(1)) {
        Err((Envelope::Error(text), HandshakeError::ExpectedHello)) => assert_eq!(text, "expected Hello"),
        other => panic!("unexpected {:?}", other),
    }
}

#[test]
fn test_correct_pin_pairs_and_persists_to_config() {
    let (mut limiter, mut config) = fresh();
    let proof = pairing_proof(PIN, &[3u8; 16], "fp-1");
    let out = decide_pairing(pair_request("fp-1", proof), &mut limiter, &mut config, peer(), 10, PIN, "laptop".to_string());
    match out {
        PairingOutcome::Paired { fingerprint, newly_paired } => {
            assert_eq!(fingerprint, "fp-1");
            assert!(newly_paired);
        }
        other => panic!("unexpected {:?}", other),
    }
    assert!(config.is_paired("fp-1"));
    assert_eq!(config.paired_devices[0].name, "laptop");
}

#[test]
fn test_wrong_pin_is_rejected() {
    let (mut limiter, mut config) = fresh();
    let proof = pairing_proof("000000", &[3u8; 16], "fp-1");
    let out = decide_pairing(pair_request("fp-1", proof), &mut limiter, &mut config, peer(), 10, PIN, "laptop".to_string());
    match out {
        PairingOutcome::Refused { reply: Envelope::PairReject { reason }, error: HandshakeError::PairingRejected(fp) } => {
            assert_eq!(reason, "pairing PIN required or incorrect");
            assert_eq!(fp, "fp-1");
        }
        other => panic!("unexpected {:?}", other),
    }
    assert!(!config.is_paired("fp-1"));
}

#[test]
fn test_already_paired_ignores_garbage_proof() {
    let (mut limiter, mut config) = fresh();
    config.add_paired_device("fp-1".to_string(), "laptop".to_string());
    let out = decide_pairing(pair_request("fp-1", [0xEE; 32]), &mut limiter, &mut config, peer(), 10, PIN, "x".to_string());
    assert!(matches!(out, PairingOutcome::Paired { newly_paired: false, .. }));
    assert_eq!(config.paired_devices.len(), 1);
}

#[test]
fn five_wrong_pins_lock_the_peer_out() {
    let (mut limiter, mut config) = fresh();
    for i in 0..5u64 {
        let out = decide_pairing(pair_request("fp", [0; 32]), &mut limiter, &mut config, peer(), 100 + i, PIN, "x".to_string());
        assert!(matches!(out, PairingOutcome::Refused { error: HandshakeError::PairingRejected(_), .. }));
    }
    assert!(is_rate_limited(&limiter, peer(), 200));
    // Even the right proof is refused now.
    let proof = pairing_proof(PIN, &[3u8; 16], "fp");
    match decide_pairing(pair_request("fp", proof), &mut limiter, &mut config, peer(), 200, PIN, "x".to_string()) {
        PairingOutcome::Refused { reply: Envelope::PairReject { reason }, error: HandshakeError::RateLimited } => {
            assert_eq!(reason, "too many failed pairing attempts; try again later")
        }
        other => panic!("unexpected {:?}", other),
    }
    // Another peer is unaffected.
    let other = PeerIp::V6(1);
    assert!(matches!(
        decide_pairing(pair_request("fp", proof), &mut limiter, &mut config, other, 200, PIN, "x".to_string()),
        PairingOutcome::Paired { newly_paired: true, .. }
    ));
    // The block lifts after ten minutes.
    assert!(!is_rate_limited(&limiter, peer(), 104 + 600_000_000_000));
}

#[test]
fn non_pair_request_is_refused() {
    let (mut limiter, mut config) = fresh();
    match decide_pairing(Envelope::Goodbye, &mut limiter, &mut config, peer(), 1, PIN, "x".to_string()) {
        PairingOutcome::Refused { reply: Envelope::Error(text), error: HandshakeError::ExpectedPairRequest } => {
            assert_eq!(text, "expected PairRequest")
        }
        other => panic!("unexpected {:?}", other),
    }
}

#[test]
fn test_toggle_forward_from_client_flips_shared_flag() {
    match on_client_message(Envelope::ToggleForward(true), false, true) {
        ServerAction::SetForwarding { on, broadcast } => {
            assert!(on);
            assert_eq!(broadcast.len(), 1);
            assert!(matches!(broadcast[0], Envelope::ToggleForward(true)));
        }
        other => panic!("unexpected {:?}", other),
    }
    match on_client_message(Envelope::ToggleForward(false), true, true) {
        ServerAction::SetForwarding { on, broadcast } => {
            assert!(!on);
            assert!(matches!(broadcast[0], Envelope::Input(Event::ReleaseAll)));
            assert!(matches!(broadcast[1], Envelope::ToggleForward(false)));
        }
        other => panic!("unexpected {:?}", other),
    }
    assert!(matches!(on_client_message(Envelope::ToggleForward(true), true, true), ServerAction::Ignore));
}

#[test]
fn client_messages_are_answered() {
    assert!(matches!(on_client_message(Envelope::Goodbye, false, true), ServerAction::Close));
    assert!(matches!(on_client_message(Envelope::Ping(77), false, true), ServerAction::Reply(Envelope::Pong(77))));
    assert!(matches!(on_client_message(Envelope::Pong(5), false, true), ServerAction::RoundTrip(5)));
    match on_client_message(Envelope::ClipboardSet { text: "hi".to_string() }, false, true) {
        ServerAction::ApplyClipboard(t) => assert_eq!(t, "hi"),
        other => panic!("unexpected {:?}", other),
    }
    assert!(matches!(
        on_client_message(Envelope::ClipboardSet { text: "hi".to_string() }, false, false),
        ServerAction::Ignore
    ));
    let big = "é".repeat(MAX_CLIPBOARD_BYTES / 2 + 1);
    assert!(matches!(on_client_message(Envelope::ClipboardSet { text: big }, false, true), ServerAction::Ignore));
    assert!(matches!(on_client_message(Envelope::PairAccept, false, true), ServerAction::Ignore));
}

#[test]
fn auto_forward_follows_first_and_last_client() {
    assert_eq!(forwarding_on_register(true, true, false), (true, true));
    assert_eq!(forwarding_on_register(true, true, true), (true, false));
    assert_eq!(forwarding_on_register(false, true, false), (false, false));
    assert_eq!(forwarding_on_register(true, false, false), (false, false));
    assert!(!forwarding_on_unregister(true, true, true));
    assert!(forwarding_on_unregister(false, true, true));
    assert!(forwarding_on_unregister(true, false, true));
}

#[test]
fn silent_clients_time_out() {
    // A client silent for more than 15 s is dropped; one heard from
    // recently is not.
    assert!(!client_timed_out(0, 15_000_000_000));
    assert!(client_timed_out(0, 15_000_000_001));
    assert!(!client_timed_out(10, 5));
}

#[test]
fn fingerprints_are_redacted_in_logs() {
    assert_eq!(redact_fingerprint("0123456789abcdef"), "0123456789a...");
    assert_eq!(redact_fingerprint("short"), "short...");
    assert_eq!(redact_fingerprint(""), "...");
}
