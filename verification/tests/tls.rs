use kvm_rs::tls::{fingerprint_der, CertPin};

fn self_signed_der(name: &str) -> Vec<u8> {
    let cert = rcgen::generate_simple_self_signed(vec![name.to_string()]).unwrap();
    cert.serialize_der().unwrap()
}

#[test]
fn test_fingerprint_der_is_deterministic_and_formatted() {
    let der = self_signed_der("localhost");
    let fp1 = fingerprint_der(&der);
    let fp2 = fingerprint_der(&der);
    assert_eq!(fp1, fp2);
    // Uppercase colon-separated hex pairs, 32 bytes -> 32*2 hex chars + 31 colons.
    assert_eq!(fp1.len(), 32 * 2 + 31);
    assert!(fp1.chars().all(|c| c.is_ascii_hexdigit() || c == ':'));
    assert_eq!(fp1, fp1.to_uppercase());
}

#[test]
fn test_fingerprint_der_differs_for_different_certs() {
    let der_a = self_signed_der("a.local");
    let der_b = self_signed_der("b.local");
    assert_ne!(fingerprint_der(&der_a), fingerprint_der(&der_b));
}

#[test]
fn fingerprint_of_known_bytes() {
    // SHA-256 of no bytes.
    assert_eq!(
        fingerprint_der(&[]),
        "E3:B0:C4:42:98:FC:1C:14:9A:FB:F4:C8:99:6F:B9:24:27:AE:41:E4:64:9B:93:4C:A4:95:99:1B:78:52:B8:55"
    );
}

#[test]
fn first_use_accepts_and_records_fingerprint() {
    let der = self_signed_der("kvm-server");
    let pin = CertPin::new(None);
    let (fp, verdict) = pin.check(&der);
    assert!(verdict.is_ok());
    assert_eq!(fp, fingerprint_der(&der));
    assert!(fp.contains(':'));
}

#[test]
fn matching_fingerprint_is_accepted() {
    let der = self_signed_der("kvm-server");
    let expected = fingerprint_der(&der);
    let pin = CertPin::new(Some(expected.to_lowercase()));
    let (_, verdict) = pin.check(&der);
    assert!(verdict.is_ok(), "case-insensitive match should be accepted");
}

#[test]
fn mismatched_fingerprint_is_rejected() {
    let der = self_signed_der("kvm-server");
    let zero = "00:00:00:00:00:00:00:00:00:00:00:00:00:00:00:00:00:00:00:00:00:00:00:00:00:00:00:00:00:00:00:00";
    let pin = CertPin::new(Some(zero.to_string()));
    let (fp, verdict) = pin.check(&der);
    let msg = verdict.unwrap_err();
    assert!(msg.contains("fingerprint mismatch"));
    assert_eq!(
        msg,
        format!(
            "server certificate fingerprint mismatch: expected {zero}, got {fp}. \
             Pass --trust-new-cert to trust the new certificate, or verify --fingerprint."
        )
    );
}
