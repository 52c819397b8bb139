use sha2::Digest;
use kvm_rs::protocol::{
    frame_length, frame_payload, pairing_proof, proof_matches, Caps, ProtocolError,
    MAX_ENVELOPE_SIZE,
};

#[test]
fn test_pairing_proof_is_deterministic_and_pin_sensitive() {
    let nonce = [7u8; 16];
    let a = pairing_proof("123456", &nonce, "fp");
    let b = pairing_proof("123456", &nonce, "fp");
    let c = pairing_proof("654321", &nonce, "fp");
    let d = pairing_proof("123456", &[8u8; 16], "fp");
    let e = pairing_proof("123456", &nonce, "other");
    assert!(proof_matches(&a, &b));
    assert!(!proof_matches(&a, &c));
    assert!(!proof_matches(&a, &d));
    assert!(!proof_matches(&a, &e));
}

#[test]
fn pairing_proof_is_sha256_of_pin_nonce_fingerprint() {
    // SHA-256 of "1" 0x00 [0;16] 0x00 "f", as computed independently.
    let mut msg = Vec::new();
    msg.extend_from_slice(b"1");
    msg.push(0);
    msg.extend_from_slice(&[0u8; 16]);
    msg.push(0);
    msg.extend_from_slice(b"f");
    let expected: [u8; 32] = sha2::Sha256::digest(&msg).into();
    assert_eq!(pairing_proof("1", &[0u8; 16], "f"), expected);
    assert_ne!(pairing_proof("1", &[0u8; 16], "f"), [0u8; 32]);
}

#[test]
fn test_serialize_oversized_envelope_rejected() {
    let data = vec![b'x'; MAX_ENVELOPE_SIZE + 1];
    assert_eq!(frame_payload(&data), Err(ProtocolError::InvalidMessage));
}

#[test]
fn test_read_envelope_oversized_limit() {
    // A length prefix of 15 MiB (above the 10 MiB limit) is refused.
    let oversized_len: u32 = 15 * 1024 * 1024;
    assert_eq!(frame_length(&oversized_len.to_be_bytes()), Err(ProtocolError::InvalidMessage));
}

#[test]
fn frames_carry_a_big_endian_length_prefix() {
    let framed = frame_payload(b"hello").unwrap();
    assert_eq!(framed, vec![0, 0, 0, 5, b'h', b'e', b'l', b'l', b'o']);
    let header: [u8; 4] = [framed[0], framed[1], framed[2], framed[3]];
    assert_eq!(frame_length(&header), Ok(5));
    assert_eq!(frame_length(&[0, 0xA0, 0, 0]), Ok(0xA0_0000));
    assert_eq!(frame_length(&[0, 0xA0, 0, 1]), Err(ProtocolError::InvalidMessage));
    let exact = vec![0u8; MAX_ENVELOPE_SIZE];
    let framed = frame_payload(&exact).unwrap();
    assert_eq!(framed.len(), MAX_ENVELOPE_SIZE + 4);
    assert_eq!(&framed[..4], &(MAX_ENVELOPE_SIZE as u32).to_be_bytes());
}

#[test]
fn default_caps_offer_clipboard_and_files_only() {
    let caps = Caps::default();
    assert!(caps.clipboard && caps.file_transfer && !caps.internet_share);
}
