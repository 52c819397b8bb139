use kvm_rs::rate_limit::{is_rate_limited, record_pairing_failure, PeerIp, RateLimiter, RATE_LIMIT_WINDOW_NS};

#[test]
fn five_failures_within_the_window_block_for_the_window() {
    let ip = PeerIp::V4(1);
    let mut l = RateLimiter::new();
    let base = 1_000_000_000u64;
    for i in 0..4u64 {
        record_pairing_failure(&mut l, ip, base + i);
        assert!(!is_rate_limited(&l, ip, base + i));
    }
    record_pairing_failure(&mut l, ip, base + 4);
    assert!(is_rate_limited(&l, ip, base + 4));
    assert!(is_rate_limited(&l, ip, base + 4 + RATE_LIMIT_WINDOW_NS - 1));
    assert!(!is_rate_limited(&l, ip, base + 4 + RATE_LIMIT_WINDOW_NS));
    assert!(!is_rate_limited(&l, PeerIp::V6(1), base + 4));
}

#[test]
fn old_failures_expire() {
    let ip = PeerIp::V6(7);
    let mut l = RateLimiter::new();
    for i in 0..4u64 {
        record_pairing_failure(&mut l, ip, i);
    }
    // Ten minutes later the earlier failures no longer count.
    record_pairing_failure(&mut l, ip, RATE_LIMIT_WINDOW_NS + 10);
    assert!(!is_rate_limited(&l, ip, RATE_LIMIT_WINDOW_NS + 10));
}
