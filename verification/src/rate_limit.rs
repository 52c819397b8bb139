//! Per-peer lockout after repeated failed credential attempts (pairing PINs
//! on the control channel, passwords on the SOCKS5 proxy): five failures
//! within ten minutes block the peer for ten minutes.
//!
//! Times are monotonic nanoseconds supplied by the caller.

use crate::assoc::{
    assoc_map, keys_unique, lemma_assoc_absent, lemma_assoc_index, lemma_assoc_push,
    lemma_assoc_set,
};
use vstd::prelude::*;

verus! {

/// How long a failure counts, and how long a block lasts (600 s).
pub const RATE_LIMIT_WINDOW_NS: u64 = 600000000000;

/// How many failures within the window trigger a block.
pub const RATE_LIMIT_MAX_FAILURES: usize = 5;

/// A peer's IP address: an IPv4 address as its 32-bit value, an IPv6
/// address as its 128-bit value.
#[derive(Clone, Copy, Debug, PartialEq, Eq, Structural)]
pub enum PeerIp {
    V4(u32),
    V6(u128),
}

/// The failures recorded for one peer and the end of its block, if any.
#[derive(Debug)]
pub struct RateLimitEntry {
    pub failures: Vec<u64>,
    pub blocked_until: Option<u64>,
}

/// The mathematical content of a `RateLimitEntry`.
pub struct LimitState {
    pub failures: Seq<u64>,
    pub blocked_until: Option<u64>,
}

impl RateLimitEntry {
    pub open spec fn state(&self) -> LimitState {
        LimitState { failures: self.failures@, blocked_until: self.blocked_until }
    }
}

impl Default for RateLimitEntry {
    fn default() -> (e: Self)
        ensures
            e.state() == fresh_state(),
    {
        RateLimitEntry { failures: Vec::new(), blocked_until: None }
    }
}

/// No failure, no block.
pub open spec fn fresh_state() -> LimitState {
    LimitState { failures: Seq::empty(), blocked_until: None }
}

/// A failure at `t` still counts at `now` (time elapsed saturates at zero,
/// as `Instant::duration_since` does).
pub open spec fn within_window(t: u64, now: u64) -> bool {
    (if now >= t {
        now - t
    } else {
        0
    }) < RATE_LIMIT_WINDOW_NS
}

/// The failures of `s` that still count at `now`, in their order.
pub open spec fn recent(s: Seq<u64>, now: u64) -> Seq<u64>
    decreases s.len(),
{
    if s.len() == 0 {
        s
    } else {
        let r = recent(s.drop_last(), now);
        if within_window(s.last(), now) {
            r.push(s.last())
        } else {
            r
        }
    }
}

/// A peer's state after one more failure at `now`: stale failures are
/// dropped, this one is added, and reaching the limit blocks the peer for
/// one window from now.
pub open spec fn after_failure(e: LimitState, now: u64) -> LimitState {
    let f = recent(e.failures, now).push(now);
    LimitState {
        failures: f,
        blocked_until: if f.len() >= RATE_LIMIT_MAX_FAILURES {
            Some((now + RATE_LIMIT_WINDOW_NS) as u64)
        } else {
            e.blocked_until
        },
    }
}

/// Whether `ip` is blocked at `now`.
pub open spec fn spec_is_rate_limited(m: Map<PeerIp, LimitState>, ip: PeerIp, now: u64) -> bool {
    m.contains_key(ip) && (m[ip].blocked_until matches Some(until) && now < until)
}

/// The limiter after a failure of `ip` at `now`.
pub open spec fn spec_record_failure(m: Map<PeerIp, LimitState>, ip: PeerIp, now: u64) -> Map<
    PeerIp,
    LimitState,
> {
    m.insert(
        ip,
        after_failure(
            if m.contains_key(ip) {
                m[ip]
            } else {
                fresh_state()
            },
            now,
        ),
    )
}

/// The lockout state of every peer seen so far.
pub struct RateLimiter {
    entries: Vec<(PeerIp, RateLimitEntry)>,
}

impl RateLimiter {
    pub closed spec fn pairs(&self) -> Seq<(PeerIp, LimitState)> {
        self.entries@.map_values(|p: (PeerIp, RateLimitEntry)| (p.0, p.1.state()))
    }

    pub closed spec fn wf(&self) -> bool {
        keys_unique(self.pairs())
    }

    pub closed spec fn view(&self) -> Map<PeerIp, LimitState> {
        assoc_map(self.pairs())
    }

    /// A limiter that has seen no failure.
    pub fn new() -> (r: Self)
        ensures
            r.wf(),
            r.view() == Map::<PeerIp, LimitState>::empty(),
    {
        let r = RateLimiter { entries: Vec::new() };
        proof {
            assert(r.pairs() =~= Seq::<(PeerIp, LimitState)>::empty());
        }
        r
    }

    fn position(&self, ip: PeerIp) -> (r: Option<usize>)
        ensures
            r matches Some(i) ==> i < self.pairs().len() && self.pairs()[i as int].0 == ip,
            r is None ==> forall|i: int| 0 <= i < self.pairs().len() ==> self.pairs()[i].0 != ip,
    {
        let mut i: usize = 0;
        while i < self.entries.len()
            invariant
                i <= self.entries@.len(),
                self.pairs().len() == self.entries@.len(),
                forall|j: int| 0 <= j < i ==> self.pairs()[j].0 != ip,
            decreases self.entries@.len() - i,
        {
            if self.entries[i].0 == ip {
                return Some(i);
            }
            i = i + 1;
        }
        None
    }
}

/// Whether `ip` is blocked at `now`.
pub fn is_rate_limited(map: &RateLimiter, ip: PeerIp, now: u64) -> (r: bool)
    requires
        map.wf(),
    ensures
        r == spec_is_rate_limited(map.view(), ip, now),
{
    match map.position(ip) {
        Some(i) => {
            proof {
                lemma_assoc_index(map.pairs(), i as int);
            }
            match map.entries[i].1.blocked_until {
                Some(until) => now < until,
                None => false,
            }
        },
        None => {
            proof {
                lemma_assoc_absent(map.pairs(), ip);
            }
            false
        },
    }
}

/// The failures of `failures` that still count at `now`.
fn recent_failures(failures: &Vec<u64>, now: u64) -> (r: Vec<u64>)
    ensures
        r@ == recent(failures@, now),
{
    let mut r: Vec<u64> = Vec::new();
    let mut i: usize = 0;
    while i < failures.len()
        invariant
            i <= failures@.len(),
            r@ == recent(failures@.take(i as int), now),
        decreases failures@.len() - i,
    {
        let t = failures[i];
        proof {
            assert(failures@.take(i + 1).drop_last() =~= failures@.take(i as int));
            assert(failures@.take(i + 1).last() == t);
        }
        let elapsed = if now >= t {
            now - t
        } else {
            0
        };
        if elapsed < RATE_LIMIT_WINDOW_NS {
            r.push(t);
        }
        i = i + 1;
    }
    proof {
        assert(failures@.take(failures@.len() as int) =~= failures@);
    }
    r
}

/// Records a failed attempt by `ip` at `now`. `now` is at most one window
/// short of the clock's end, where the block's end still fits.
pub fn record_pairing_failure(map: &mut RateLimiter, ip: PeerIp, now: u64)
    requires
        old(map).wf(),
        now <= u64::MAX - RATE_LIMIT_WINDOW_NS,
    ensures
        final(map).wf(),
        final(map).view() == spec_record_failure(old(map).view(), ip, now),
{
    let ghost old_pairs = map.pairs();
    match map.position(ip) {
        Some(i) => {
            proof {
                lemma_assoc_index(old_pairs, i as int);
            }
            let mut failures = recent_failures(&map.entries[i].1.failures, now);
            failures.push(now);
            let blocked_until = if failures.len() >= RATE_LIMIT_MAX_FAILURES {
                Some(now + RATE_LIMIT_WINDOW_NS)
            } else {
                map.entries[i].1.blocked_until
            };
            let entry = RateLimitEntry { failures, blocked_until };
            proof {
                assert(entry.state() == after_failure(old_pairs[i as int].1, now));
                lemma_assoc_set(old_pairs, i as int, entry.state());
            }
            map.entries.set(i, (ip, entry));
            proof {
                assert(map.pairs() =~= old_pairs.update(i as int, (ip, entry.state())));
            }
        },
        None => {
            proof {
                lemma_assoc_absent(old_pairs, ip);
            }
            let mut failures: Vec<u64> = Vec::new();
            failures.push(now);
            let blocked_until = if failures.len() >= RATE_LIMIT_MAX_FAILURES {
                Some(now + RATE_LIMIT_WINDOW_NS)
            } else {
                None
            };
            let entry = RateLimitEntry { failures, blocked_until };
            proof {
                assert(recent(Seq::<u64>::empty(), now) == Seq::<u64>::empty());
                assert(entry.state() == after_failure(fresh_state(), now));
                lemma_assoc_push(old_pairs, ip, entry.state());
            }
            map.entries.push((ip, entry));
            proof {
                assert(map.pairs() =~= old_pairs.push((ip, entry.state())));
            }
        },
    }
}

// --- Laws --------------------------------------------------------------------

/// The limiter after failures of `ip` at each time of `times`, in order.
pub open spec fn after_failures(m: Map<PeerIp, LimitState>, ip: PeerIp, times: Seq<u64>) -> Map<
    PeerIp,
    LimitState,
>
    decreases times.len(),
{
    if times.len() == 0 {
        m
    } else {
        spec_record_failure(after_failures(m, ip, times.drop_last()), ip, times.last())
    }
}

proof fn lemma_recent_keeps_suffix(a: Seq<u64>, b: Seq<u64>, now: u64)
    requires
        forall|j: int| 0 <= j < b.len() ==> within_window(#[trigger] b[j], now),
    ensures
        recent(a + b, now) == recent(a, now) + b,
    decreases b.len(),
{
    if b.len() == 0 {
        assert(a + b =~= a);
        assert(recent(a, now) + b =~= recent(a, now));
    } else {
        let b2 = b.drop_last();
        assert forall|j: int| 0 <= j < b2.len() implies within_window(#[trigger] b2[j], now) by {
            assert(b2[j] == b[j]);
        }
        lemma_recent_keeps_suffix(a, b2, now);
        assert((a + b).drop_last() =~= a + b2);
        assert((a + b).last() == b.last());
        assert(within_window(b[b.len() - 1], now));
        assert(recent(a, now) + b2.push(b.last()) =~= recent(a, now) + b);
        assert(b2.push(b.last()) =~= b);
    }
}

proof fn lemma_failures_end_with(m: Map<PeerIp, LimitState>, ip: PeerIp, times: Seq<u64>, k: int)
    requires
        0 < k <= times.len(),
        forall|a: int, b: int| 0 <= a <= b < times.len() ==> times[a] <= times[b],
        times.len() > 0 ==> times[times.len() - 1] - times[0] < RATE_LIMIT_WINDOW_NS,
    ensures
        after_failures(m, ip, times.take(k)).contains_key(ip),
        ({
            let f = after_failures(m, ip, times.take(k))[ip].failures;
            f.len() >= k && f.subrange(f.len() - k, f.len() as int) == times.take(k)
        }),
    decreases k,
{
    let tk = times.take(k);
    assert(tk.drop_last() =~= times.take(k - 1));
    assert(tk.last() == times[k - 1]);
    let prev = after_failures(m, ip, times.take(k - 1));
    let now = times[k - 1];
    let e = if prev.contains_key(ip) {
        prev[ip]
    } else {
        fresh_state()
    };
    if k == 1 {
        let f = recent(e.failures, now).push(now);
        assert(f.subrange(f.len() - 1, f.len() as int) =~= tk);
    } else {
        lemma_failures_end_with(m, ip, times, k - 1);
        let pf = prev[ip].failures;
        let p = pf.subrange(0, pf.len() - (k - 1));
        let suffix = times.take(k - 1);
        assert(pf =~= p + suffix);
        assert forall|j: int| 0 <= j < suffix.len() implies within_window(#[trigger] suffix[j], now) by {
            assert(suffix[j] == times[j]);
            assert(times[j] <= now);
            assert(times[times.len() - 1] - times[0] < RATE_LIMIT_WINDOW_NS);
            assert(times[0] <= times[j]);
            assert(now <= times[times.len() - 1]);
        }
        lemma_recent_keeps_suffix(p, suffix, now);
        let f = recent(pf, now).push(now);
        assert(f =~= recent(p, now) + suffix.push(now));
        assert(suffix.push(now) =~= tk);
        assert(f.subrange(f.len() - k, f.len() as int) =~= tk);
    }
}

/// Five failures by one peer within one window block it for a full window
/// from the fifth failure on.
pub proof fn lemma_five_failures_block(
    m: Map<PeerIp, LimitState>,
    ip: PeerIp,
    times: Seq<u64>,
    now: u64,
)
    requires
        times.len() == RATE_LIMIT_MAX_FAILURES,
        forall|a: int, b: int| 0 <= a <= b < times.len() ==> times[a] <= times[b],
        times[times.len() - 1] - times[0] < RATE_LIMIT_WINDOW_NS,
        times[times.len() - 1] <= u64::MAX - RATE_LIMIT_WINDOW_NS,
        times[times.len() - 1] <= now < times[times.len() - 1] + RATE_LIMIT_WINDOW_NS,
    ensures
        spec_is_rate_limited(after_failures(m, ip, times), ip, now),
{
    lemma_failures_end_with(m, ip, times, times.len() as int);
    assert(times.take(times.len() as int) =~= times);
    let last = times[times.len() - 1];
    assert(times.drop_last().push(last) =~= times);
    assert(after_failures(m, ip, times)[ip].blocked_until == Some((last + RATE_LIMIT_WINDOW_NS) as u64));
}

/// A failure of one peer changes nothing for another.
pub proof fn lemma_failure_is_per_peer(
    m: Map<PeerIp, LimitState>,
    ip: PeerIp,
    other: PeerIp,
    now: u64,
    t: u64,
)
    requires
        ip != other,
    ensures
        spec_is_rate_limited(spec_record_failure(m, ip, now), other, t) == spec_is_rate_limited(
            m,
            other,
            t,
        ),
{
}

} // verus!
