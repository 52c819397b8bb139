use kvm_rs::file_receive::{
    candidate_name, check_file_channel_pairing, first_free_name, sanitize_component, sanitize_file_name, FileReceiver,
    FileTransferError, OfferDecision,
};
use kvm_rs::crypto::Sha256Stream;
use kvm_rs::file_send::file_offer;
use kvm_rs::protocol::Envelope;
use kvm_rs::server_config::Config;

#[test]
fn test_sanitize_file_name_rejects_traversal_and_empty() {
    assert_eq!(sanitize_file_name("../../etc/passwd"), "passwd");
    assert_eq!(sanitize_file_name(""), "received_file");
    assert_eq!(sanitize_file_name("."), "received_file");
    assert_eq!(sanitize_file_name(".."), "received_file");
    assert_eq!(sanitize_file_name("a\0b"), "received_file");
    assert_eq!(sanitize_file_name("normal.txt"), "normal.txt");
}

#[test]
fn test_path_traversal_sanitization() {
    let malicious_paths = vec![
        "../../../../etc/passwd",
        "C:\\Windows\\System32\\cmd.exe",
        "..\\..\\sensitive_data.txt",
        "nested/dir/target.zip",
    ];

    for path in malicious_paths {
        let safe_name = sanitize_file_name(path);

        assert!(!safe_name.contains('/'));
        assert!(!safe_name.contains('\\'));
        assert!(!safe_name.contains(".."));
    }
}

#[test]
fn sanitize_trims_and_keeps_the_last_component() {
    assert_eq!(sanitize_file_name("dir/  report.pdf  "), "report.pdf");
    assert_eq!(sanitize_file_name("C:\\Users\\me\\notes.txt"), "notes.txt");
    assert_eq!(sanitize_file_name("dir/"), "dir");
    assert_eq!(sanitize_file_name("a/.."), "received_file");
    assert_eq!(sanitize_file_name("bell\u{7}.txt"), "received_file");
    assert_eq!(sanitize_file_name("csi\u{9b}x"), "received_file");
    assert_eq!(sanitize_file_name("   "), "received_file");
}

#[test]
fn sanitize_keeps_a_colon_inside_a_component() {
    assert_eq!(sanitize_file_name("note:1.txt"), "note:1.txt");
    assert_eq!(sanitize_file_name("a/b:c.txt"), "b:c.txt");
    assert_eq!(sanitize_file_name("dir\\12:30 log.txt"), "12:30 log.txt");
}

#[test]
fn unique_names_number_before_the_extension() {
    assert_eq!(candidate_name("file.txt", 0), "file.txt");
    assert_eq!(candidate_name("file.txt", 1), "file (1).txt");
    assert_eq!(candidate_name("file.txt", 2), "file (2).txt");
    assert_eq!(candidate_name("README", 1), "README (1)");
    assert_eq!(candidate_name("archive.tar.gz", 12), "archive.tar (12).gz");
    assert_eq!(candidate_name(".bashrc", 1), ".bashrc (1)");
    assert_eq!(candidate_name("trailing.", 3), "trailing (3).");
}

#[test]
fn candidate_names_are_all_different() {
    let mut seen = std::collections::HashSet::new();
    for i in 0..200u64 {
        assert!(seen.insert(candidate_name("a (1).txt", i)));
    }
}

fn offer(size: u64, name: &str) -> Envelope {
    Envelope::FileOffer { id: 42, name: name.to_string(), size, sha256: [7u8; 32] }
}

fn accept(decision: Result<OfferDecision, FileTransferError>) -> FileReceiver {
    match decision {
        Ok(OfferDecision::Accept(r)) => r,
        other => panic!("expected the offer to be accepted, got {:?}", other),
    }
}

#[test]
fn oversize_offers_are_rejected_and_zero_means_unlimited() {
    match FileReceiver::from_offer(offer(101, "big.bin"), 100) {
        Ok(OfferDecision::Reject(Envelope::FileReject { id, reason })) => {
            assert_eq!(id, 42);
            assert_eq!(reason, "file exceeds maximum allowed size");
        }
        other => panic!("unexpected {:?}", other),
    }
    let r = accept(FileReceiver::from_offer(offer(u64::MAX, "../big.bin"), 0));
    assert_eq!(r.name(), "big.bin");
    assert!(matches!(
        FileReceiver::from_offer(Envelope::Goodbye, 0),
        Err(FileTransferError::ExpectedFileOffer)
    ));
}

#[test]
fn partial_downloads_resume_only_when_shorter() {
    let mut r = accept(FileReceiver::from_offer(offer(100, "f"), 0));
    let (reply, append) = r.start(Some(40));
    assert!(append);
    assert!(matches!(reply, Envelope::FileAccept { id: 42, start_offset: 40 }));
    assert_eq!(r.remaining(), 60);

    let mut r = accept(FileReceiver::from_offer(offer(100, "f"), 0));
    let (reply, append) = r.start(Some(100));
    assert!(!append);
    assert!(matches!(reply, Envelope::FileAccept { id: 42, start_offset: 0 }));

    let mut r = accept(FileReceiver::from_offer(offer(100, "f"), 0));
    let (_, append) = r.start(None);
    assert!(!append);
    assert_eq!(r.remaining(), 100);
}

fn stream_of(parts: &[&[u8]]) -> Sha256Stream {
    let mut s = Sha256Stream::new();
    for p in parts {
        s.update(p);
    }
    s
}

#[test]
fn a_file_is_kept_only_when_complete_and_matching() {
    let content = b"0123456789";
    let digest: [u8; 32] = <sha2::Sha256 as sha2::Digest>::digest(content).into();
    let offered = Envelope::FileOffer { id: 42, name: "f".to_string(), size: 10, sha256: digest };
    let mut r = accept(FileReceiver::from_offer(offered, 0));
    r.start(None);
    r.record(4);
    assert!(!r.is_complete());
    let (reply, keep) = r.finish(stream_of(&[&content[..4]]));
    assert!(!keep);
    assert!(matches!(reply, Envelope::FileReject { id: 42, ref reason } if reason == "transfer incomplete"));

    r.record(6);
    assert!(r.is_complete());
    let (reply, keep) = r.finish(stream_of(&[&b"0123456780"[..]]));
    assert!(!keep);
    assert!(matches!(reply, Envelope::FileReject { id: 42, ref reason } if reason == "Checksum mismatch"));

    let (reply, keep) = r.finish(stream_of(&[&b"0123"[..], &b"456"[..], &b"789"[..]]));
    assert!(keep);
    assert!(matches!(reply, Envelope::FileComplete { id: 42 }));
}

#[test]
fn streamed_digest_is_that_of_the_concatenated_bytes() {
    let whole: [u8; 32] = <sha2::Sha256 as sha2::Digest>::digest(b"hello, world").into();
    assert_eq!(stream_of(&[&b"hello"[..], &b", "[..], &b"world"[..]]).finalize(), whole);
    assert_eq!(stream_of(&[&b"hello, world"[..]]).finalize(), whole);
    let empty: [u8; 32] = <sha2::Sha256 as sha2::Digest>::digest(b"").into();
    assert_eq!(Sha256Stream::new().finalize(), empty);
}

#[test]
fn file_offer_carries_the_digest_of_the_content() {
    let expected: [u8; 32] = <sha2::Sha256 as sha2::Digest>::digest(b"abc").into();
    match file_offer(7, "a.txt".to_string(), 3, stream_of(&[&b"a"[..], &b"bc"[..]])) {
        Envelope::FileOffer { id, name, size, sha256 } => {
            assert_eq!(id, 7);
            assert_eq!(name, "a.txt");
            assert_eq!(size, 3);
            assert_eq!(sha256, expected);
        }
        other => panic!("unexpected {:?}", other),
    }
}

#[test]
fn only_paired_devices_may_use_the_file_channel() {
    let mut config = Config::default_with(None, "/tmp".to_string());
    config.add_paired_device("fp-ok".to_string(), "laptop".to_string());
    let req = |fp: &str| Envelope::PairRequest { nonce: [0; 16], fingerprint: fp.to_string(), proof: [0; 32] };
    assert_eq!(check_file_channel_pairing(req("fp-ok"), &config).unwrap(), "fp-ok");
    match check_file_channel_pairing(req("stranger"), &config) {
        Err((Envelope::PairReject { reason }, FileTransferError::Unpaired(fp))) => {
            assert_eq!(reason, "device not paired; pair over the control channel first");
            assert_eq!(fp, "stranger");
        }
        other => panic!("unexpected {:?}", other),
    }
    match check_file_channel_pairing(Envelope::Ping(1), &config) {
        Err((Envelope::Error(text), FileTransferError::ExpectedPairRequest)) => {
            assert_eq!(text, "expected PairRequest")
        }
        other => panic!("unexpected {:?}", other),
    }
}

#[test]
fn sanitize_component_trims_or_falls_back() {
    assert_eq!(sanitize_component(Some("  notes.txt\t".to_string())), "notes.txt");
    assert_eq!(sanitize_component(None), "received_file");
    assert_eq!(sanitize_component(Some("..".to_string())), "received_file");
    assert_eq!(sanitize_component(Some(" . ".to_string())), "received_file");
    assert_eq!(sanitize_component(Some("bell\u{7}".to_string())), "received_file");
    assert_eq!(sanitize_component(Some("report.pdf".to_string())), "report.pdf");
}

#[test]
fn sanitize_reduces_windows_style_paths() {
    assert_eq!(sanitize_file_name("..\\..\\windows\\system32\\evil.dll"), "evil.dll");
    assert_eq!(sanitize_file_name("C:/Users/x/doc.txt"), "doc.txt");
    assert_eq!(sanitize_file_name("dir/"), "dir");
}

#[test]
fn first_free_name_skips_every_taken_candidate() {
    let none: Vec<String> = Vec::new();
    assert_eq!(first_free_name("file.txt", &none), "file.txt");
    let one = vec!["file.txt".to_string(), "file.txt.part".to_string()];
    assert_eq!(first_free_name("file.txt", &one), "file (1).txt");
    let two = vec!["file (1).txt".to_string(), "file.txt".to_string()];
    assert_eq!(first_free_name("file.txt", &two), "file (2).txt");
    let gap = vec!["file.txt".to_string(), "file (2).txt".to_string()];
    assert_eq!(first_free_name("file.txt", &gap), "file (1).txt");
    let readme = vec!["README".to_string()];
    assert_eq!(first_free_name("README", &readme), "README (1)");
}
