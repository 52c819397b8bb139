use kvm_rs::rate_limit::{is_rate_limited, record_pairing_failure, PeerIp, RateLimiter};
use kvm_rs::socks5::{
    constant_time_eq, Socks5Config, Socks5Error, Socks5Negotiation, Socks5Step, Socks5Target,
};

fn test_ip() -> PeerIp {
    PeerIp::V4(0x7f00_0001)
}

/// Drives a negotiation over the client's bytes, as the server's I/O loop
/// does; returns the replies written and the final step.
fn run(config: Option<Socks5Config>, limiter: &mut RateLimiter, client: &[u8]) -> (Vec<u8>, Socks5Step) {
    let mut neg = Socks5Negotiation::new(&config);
    let mut written = Vec::new();
    let mut pos = 0;
    loop {
        let n = neg.expected_len();
        assert!(pos + n <= client.len(), "negotiation wanted more bytes than the client sent");
        let step = neg.feed(&client[pos..pos + n], limiter, test_ip(), 1_000);
        pos += n;
        match step {
            Socks5Step::Continue { reply, .. } => written.extend_from_slice(&reply),
            Socks5Step::Fail { reply, error } => {
                written.extend_from_slice(&reply);
                return (written, Socks5Step::Fail { reply: Vec::new(), error });
            }
            done => return (written, done),
        }
    }
}

fn user_pass_config() -> Socks5Config {
    Socks5Config {
        username: Some("user".to_string()),
        password: Some("pass".to_string()),
        ..Socks5Config::default()
    }
}

fn target_text(step: &Socks5Step) -> String {
    match step {
        Socks5Step::Done(t) => t.host_port_text().unwrap(),
        other => panic!("expected a target, got {:?}", other),
    }
}

#[test]
fn test_negotiate_no_auth() {
    let mut limiter = RateLimiter::new();
    let mut client = vec![0x05, 0x01, 0x00];
    client.extend_from_slice(&[0x05, 0x01, 0x00, 0x01, 127, 0, 0, 1, 0, 80]);
    let (written, step) = run(None, &mut limiter, &client);
    assert_eq!(written, vec![0x05, 0x00]);
    assert_eq!(target_text(&step), "127.0.0.1:80");
}

#[test]
fn test_negotiate_auth_success() {
    let mut limiter = RateLimiter::new();
    let mut client = vec![0x05, 0x02, 0x00, 0x02];
    client.extend_from_slice(&[0x01, 4]);
    client.extend_from_slice(b"user");
    client.push(4);
    client.extend_from_slice(b"pass");
    client.extend_from_slice(&[0x05, 0x01, 0x00, 0x01, 127, 0, 0, 1, 0, 80]);
    let (written, step) = run(Some(user_pass_config()), &mut limiter, &client);
    assert_eq!(written, vec![0x05, 0x02, 0x01, 0x00]);
    assert_eq!(target_text(&step), "127.0.0.1:80");
}

#[test]
fn test_negotiate_rejects_anonymous_when_not_allowed_and_unconfigured() {
    let mut limiter = RateLimiter::new();
    let config = Socks5Config { username: None, password: None, ..Socks5Config::default() };
    let (_, step) = run(Some(config), &mut limiter, &[0x05, 0x01, 0x00]);
    assert!(matches!(step, Socks5Step::Fail { error: Socks5Error::CredentialsNotConfigured, .. }));
}

#[test]
fn test_constant_time_eq() {
    assert!(constant_time_eq(b"secret", b"secret"));
    assert!(!constant_time_eq(b"secret", b"secre1"));
    assert!(!constant_time_eq(b"secret", b"short"));
    assert!(!constant_time_eq(b"", b"nonempty"));
    assert!(constant_time_eq(b"", b""));
}

#[test]
fn test_negotiate_rejects_rate_limited_peer() {
    let mut limiter = RateLimiter::new();
    // Five prior failures from this address, as with the pairing limiter.
    for _ in 0..5 {
        record_pairing_failure(&mut limiter, test_ip(), 500);
    }
    assert!(is_rate_limited(&limiter, test_ip(), 1_000));
    let (written, step) = run(Some(user_pass_config()), &mut limiter, &[0x05, 0x01, 0x00]);
    assert_eq!(written, vec![0x05, 0xFF]);
    assert!(
        matches!(step, Socks5Step::Fail { error: Socks5Error::RateLimited, .. }),
        "a rate-limited peer must be rejected before it can even attempt credentials"
    );
}

#[test]
fn wrong_credentials_fail_and_count_against_the_peer() {
    let mut limiter = RateLimiter::new();
    let mut client = vec![0x05, 0x01, 0x02, 0x01, 4];
    client.extend_from_slice(b"user");
    client.push(5);
    client.extend_from_slice(b"wrong");
    for attempt in 0..5 {
        assert!(!is_rate_limited(&limiter, test_ip(), 1_000), "attempt {attempt}");
        let (written, step) = run(Some(user_pass_config()), &mut limiter, &client);
        assert_eq!(written, vec![0x05, 0x02, 0x01, 0x01]);
        assert!(matches!(step, Socks5Step::Fail { error: Socks5Error::AuthenticationFailed, .. }));
    }
    assert!(is_rate_limited(&limiter, test_ip(), 1_000));
}

#[test]
fn anonymous_socks_rejected_by_default() {
    let mut limiter = RateLimiter::new();
    // The client offers only "no authentication".
    let (written, step) = run(Some(user_pass_config()), &mut limiter, &[0x05, 0x01, 0x00]);
    assert_eq!(written, vec![0x05, 0xFF]);
    assert!(matches!(step, Socks5Step::Fail { error: Socks5Error::NoAcceptableMethod, .. }));
}

#[test]
fn protocol_errors_get_their_replies() {
    let mut limiter = RateLimiter::new();
    let (written, step) = run(None, &mut limiter, &[0x04, 0x01]);
    assert!(written.is_empty());
    assert!(matches!(step, Socks5Step::Fail { error: Socks5Error::UnsupportedVersion(4), .. }));

    let (written, step) = run(None, &mut limiter, &[0x05, 0x01, 0x00, 0x05, 0x02, 0x00, 0x01]);
    assert_eq!(written, vec![0x05, 0x00, 0x05, 0x07, 0x00, 0x01, 0, 0, 0, 0, 0, 0]);
    assert!(matches!(step, Socks5Step::Fail { error: Socks5Error::UnsupportedCommand, .. }));

    let (written, step) = run(None, &mut limiter, &[0x05, 0x01, 0x00, 0x05, 0x01, 0x00, 0x09]);
    assert_eq!(written, vec![0x05, 0x00, 0x05, 0x08, 0x00, 0x01, 0, 0, 0, 0, 0, 0]);
    assert!(matches!(step, Socks5Step::Fail { error: Socks5Error::UnsupportedAddressType(9), .. }));

    let mut client = vec![0x05, 0x01, 0x02, 0x02];
    client.extend_from_slice(&[0; 16]);
    let (written, step) = run(Some(user_pass_config()), &mut limiter, &client);
    assert_eq!(written, vec![0x05, 0x02, 0x01, 0x01]);
    assert!(matches!(step, Socks5Step::Fail { error: Socks5Error::UnsupportedAuthVersion(2), .. }));
}

#[test]
fn domain_and_ipv6_targets() {
    let mut limiter = RateLimiter::new();
    let mut client = vec![0x05, 0x01, 0x00, 0x05, 0x01, 0x00, 0x03, 11];
    client.extend_from_slice(b"example.com");
    client.extend_from_slice(&[0x01, 0xBB]);
    let (_, step) = run(None, &mut limiter, &client);
    assert_eq!(target_text(&step), "example.com:443");

    let mut client = vec![0x05, 0x01, 0x00, 0x05, 0x01, 0x00, 0x03, 2, 0xFF, 0xFE, 0, 80];
    let (_, step) = run(None, &mut limiter, &client);
    assert!(matches!(step, Socks5Step::Fail { error: Socks5Error::InvalidDomain, .. }));

    client = vec![0x05, 0x01, 0x00, 0x05, 0x01, 0x00, 0x04];
    let mut v6 = [0u8; 16];
    v6[15] = 1;
    client.extend_from_slice(&v6);
    client.extend_from_slice(&[0x1F, 0x90]);
    let (_, step) = run(None, &mut limiter, &client);
    match step {
        Socks5Step::Done(Socks5Target::V6 { octets, port }) => {
            assert_eq!(octets, v6);
            assert_eq!(port, 8080);
        }
        other => panic!("unexpected {:?}", other),
    }
}
