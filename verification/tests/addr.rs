use kvm_rs::addr::{format_host_port, parse_host_port, AddrError};

#[test]
fn bare_host_uses_default_port() {
    assert_eq!(
        parse_host_port("example.com", 4000).unwrap(),
        ("example.com".to_string(), 4000)
    );
}

#[test]
fn host_colon_port() {
    assert_eq!(
        parse_host_port("example.com:4100", 4000).unwrap(),
        ("example.com".to_string(), 4100)
    );
}

#[test]
fn bracketed_v6_with_port() {
    assert_eq!(
        parse_host_port("[::1]:4100", 4000).unwrap(),
        ("::1".to_string(), 4100)
    );
}

#[test]
fn bracketed_v6_without_port() {
    assert_eq!(
        parse_host_port("[fe80::1]", 4000).unwrap(),
        ("fe80::1".to_string(), 4000)
    );
}

#[test]
fn bare_v6_uses_default_port() {
    assert_eq!(
        parse_host_port("fe80::1:2:3", 4000).unwrap(),
        ("fe80::1:2:3".to_string(), 4000)
    );
}

#[test]
fn empty_address_is_error() {
    assert!(parse_host_port("", 4000).is_err());
}

#[test]
fn empty_host_before_colon_is_error() {
    assert!(parse_host_port(":4000", 4000).is_err());
}

#[test]
fn invalid_port_is_error() {
    assert!(parse_host_port("example.com:notaport", 4000).is_err());
}

#[test]
fn missing_closing_bracket_is_error() {
    assert!(parse_host_port("[::1", 4000).is_err());
}

#[test]
fn format_round_trips_v4_and_v6() {
    assert_eq!(format_host_port("example.com", 4000), "example.com:4000");
    assert_eq!(format_host_port("::1", 4000), "[::1]:4000");
    let (h, p) = parse_host_port(&format_host_port("::1", 4000), 0).unwrap();
    assert_eq!((h.as_str(), p), ("::1", 4000));
}

#[test]
fn surrounding_whitespace_is_ignored() {
    assert_eq!(
        parse_host_port("  10.0.0.2:4001 \t", 4000).unwrap(),
        ("10.0.0.2".to_string(), 4001)
    );
}

#[test]
fn port_accepts_plus_sign_and_rejects_overflow() {
    assert_eq!(
        parse_host_port("h:+80", 1).unwrap(),
        ("h".to_string(), 80)
    );
    assert_eq!(
        parse_host_port("h:65535", 1).unwrap(),
        ("h".to_string(), 65535)
    );
    assert!(matches!(
        parse_host_port("h:65536", 1),
        Err(AddrError::InvalidPort(_, _))
    ));
    assert!(matches!(parse_host_port("h:", 1), Err(AddrError::InvalidPort(_, _))));
    assert!(matches!(parse_host_port("h:-1", 1), Err(AddrError::InvalidPort(_, _))));
}

#[test]
fn each_address_error_has_its_message() {
    assert_eq!(parse_host_port("   ", 1).unwrap_err().message(), "empty address");
    assert_eq!(
        parse_host_port("[::1", 1).unwrap_err().message(),
        "invalid address '[::1': missing closing ']'"
    );
    assert_eq!(
        parse_host_port("[]:80", 1).unwrap_err().message(),
        "invalid address '[]:80': empty host"
    );
    assert_eq!(
        parse_host_port(":80", 1).unwrap_err().message(),
        "invalid address ':80': empty host"
    );
    assert_eq!(
        parse_host_port("[::1]x", 1).unwrap_err().message(),
        "invalid address '[::1]x': unexpected trailing characters"
    );
    assert_eq!(
        parse_host_port("[::1]:abc", 1).unwrap_err().message(),
        "invalid port in '[::1]:abc': 'abc'"
    );
}

#[test]
fn format_then_parse_gives_host_and_port_back() {
    for (host, port) in [("example.com", 1u16), ("10.1.2.3", 65535), ("fe80::1", 4000), ("::", 0)] {
        let text = format_host_port(host, port);
        assert_eq!(parse_host_port(&text, 7).unwrap(), (host.to_string(), port));
    }
}
