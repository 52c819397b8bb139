//! The decisions of one control-channel connection on the server: the
//! `Hello` check, pairing (PIN proof, already-paired devices, rate limiting),
//! the reaction to each message of a paired client, and the auto-forward
//! rule when clients come and go. The caller performs the I/O.

use crate::protocol::{pairing_proof, proof_matches, spec_pairing_proof, Envelope, Event, PROTOCOL_VERSION};
use crate::rate_limit::{
    is_rate_limited, record_pairing_failure, spec_is_rate_limited, spec_record_failure, PeerIp,
    RateLimiter, RATE_LIMIT_WINDOW_NS,
};
use crate::server_config::Config;
use crate::text::{chars_of, decimal, push_char, push_decimal, str_eq, string_of_range};
use vstd::prelude::*;
use vstd::string::StringExecFns;
use vstd::utf8::encode_utf8;

verus! {

/// Clipboard payloads larger than this (in UTF-8 bytes) are ignored.
pub const MAX_CLIPBOARD_BYTES: usize = 1048576;

/// A paired client silent for longer than this (15 s) is dropped.
pub const CLIENT_IDLE_TIMEOUT_NS: u64 = 15000000000;

/// Why the server ended a connection during the handshake.
#[derive(Clone, Debug, PartialEq, Eq)]
pub enum HandshakeError {
    /// The client speaks another protocol version (carried here).
    VersionMismatch(String),
    /// The first message was not a `Hello`.
    ExpectedHello,
    /// The peer has failed too often recently.
    RateLimited,
    /// The proof did not match the PIN, for this fingerprint.
    PairingRejected(String),
    /// The second message was not a `PairRequest`.
    ExpectedPairRequest,
}

/// The text of the `Error` reply to a client with protocol `version`.
pub open spec fn version_mismatch_text(version: Seq<char>) -> Seq<char> {
    "protocol version mismatch: server="@ + PROTOCOL_VERSION@ + ", client="@ + version
}

/// Checks the client's first message. A `Hello` with this protocol's
/// version gives the client's name; anything else gives the reply to send
/// before closing, and the reason.
pub fn check_hello(hello: Envelope) -> (r: Result<String, (Envelope, HandshakeError)>)
    ensures
        match hello {
            Envelope::Hello { name, version, .. } => if version@ == PROTOCOL_VERSION@ {
                r matches Ok(n) && n@ == name@
            } else {
                r matches Err((Envelope::Error(text), HandshakeError::VersionMismatch(v))) && text@
                    == version_mismatch_text(version@) && v@ == version@
            },
            _ => r matches Err((Envelope::Error(text), HandshakeError::ExpectedHello)) && text@
                == "expected Hello"@,
        },
{
    match hello {
        Envelope::Hello { name, version, caps: _ } => {
            if str_eq(version.as_str(), PROTOCOL_VERSION) {
                Ok(name)
            } else {
                let mut text = String::from_str("protocol version mismatch: server=");
                text.append(PROTOCOL_VERSION);
                text.append(", client=");
                text.append(version.as_str());
                Err((Envelope::Error(text), HandshakeError::VersionMismatch(version)))
            }
        },
        _ => Err((Envelope::Error(String::from_str("expected Hello")), HandshakeError::ExpectedHello)),
    }
}

/// The reply to an accepted `Hello`.
pub fn hello_ack(file_transfer_port: u16, server_name: String) -> (e: Envelope)
    ensures
        e matches Envelope::HelloAck { file_transfer_port: p, server_name: n } && p
            == file_transfer_port && n@ == server_name@,
{
    Envelope::HelloAck { file_transfer_port, server_name }
}

/// How a `PairRequest` was answered.
#[derive(Debug)]
pub enum PairingOutcome {
    /// Accept the device; `newly_paired` when it was added to the config
    /// just now (the caller then saves the config).
    Paired { fingerprint: String, newly_paired: bool },
    /// Send `reply` and close the connection.
    Refused { reply: Envelope, error: HandshakeError },
}

/// Answers the client's second message.
///
/// A `PairRequest` from a rate-limited peer is refused before its proof is
/// looked at. A device that is already paired is accepted whatever its
/// proof. Otherwise the proof must equal `pairing_proof(pin, nonce,
/// fingerprint)`: then the device is paired under `client_name`; if not,
/// the failure counts against the peer.
pub fn decide_pairing(
    request: Envelope,
    limiter: &mut RateLimiter,
    config: &mut Config,
    peer: PeerIp,
    now: u64,
    pin: &str,
    client_name: String,
) -> (out: PairingOutcome)
    requires
        old(limiter).wf(),
        old(config).wf(),
        now <= u64::MAX - RATE_LIMIT_WINDOW_NS,
    ensures
        final(limiter).wf(),
        final(config).wf(),
        final(config).same_settings(old(config)),
        match request {
            Envelope::PairRequest { nonce, fingerprint, proof } => {
                if spec_is_rate_limited(old(limiter).view(), peer, now) {
                    &&& out matches PairingOutcome::Refused { reply: Envelope::PairReject { reason }, error: HandshakeError::RateLimited }
                        && reason@ == "too many failed pairing attempts; try again later"@
                    &&& final(limiter).view() == old(limiter).view()
                    &&& final(config).devices() == old(config).devices()
                } else if old(config).devices().contains_key(fingerprint@) {
                    &&& out matches PairingOutcome::Paired { fingerprint: f, newly_paired } && f@
                        == fingerprint@ && !newly_paired
                    &&& final(limiter).view() == old(limiter).view()
                    &&& final(config).devices() == old(config).devices()
                } else if proof@ == spec_pairing_proof(pin@, nonce@, fingerprint@) {
                    &&& out matches PairingOutcome::Paired { fingerprint: f, newly_paired } && f@
                        == fingerprint@ && newly_paired
                    &&& final(limiter).view() == old(limiter).view()
                    &&& final(config).devices().dom() == old(config).devices().dom().insert(fingerprint@)
                    &&& final(config).devices()[fingerprint@].name == client_name@
                    &&& forall|f: Seq<char>|
                        f != fingerprint@ && old(config).devices().contains_key(f)
                            ==> #[trigger] final(config).devices()[f] == old(config).devices()[f]
                } else {
                    &&& out matches PairingOutcome::Refused { reply: Envelope::PairReject { reason }, error: HandshakeError::PairingRejected(f) }
                        && reason@ == "pairing PIN required or incorrect"@ && f@ == fingerprint@
                    &&& final(limiter).view() == spec_record_failure(old(limiter).view(), peer, now)
                    &&& final(config).devices() == old(config).devices()
                }
            },
            _ => {
                &&& out matches PairingOutcome::Refused { reply: Envelope::Error(text), error: HandshakeError::ExpectedPairRequest }
                    && text@ == "expected PairRequest"@
                &&& final(limiter).view() == old(limiter).view()
                &&& final(config).devices() == old(config).devices()
            },
        },
{
    match request {
        Envelope::PairRequest { nonce, fingerprint, proof } => {
            if is_rate_limited(limiter, peer, now) {
                return PairingOutcome::Refused {
                    reply: Envelope::PairReject {
                        reason: String::from_str("too many failed pairing attempts; try again later"),
                    },
                    error: HandshakeError::RateLimited,
                };
            }
            if config.is_paired(fingerprint.as_str()) {
                return PairingOutcome::Paired { fingerprint, newly_paired: false };
            }
            let expected = pairing_proof(pin, &nonce, fingerprint.as_str());
            if proof_matches(&expected, &proof) {
                let kept = copy_string(&fingerprint);
                config.add_paired_device(fingerprint, client_name);
                PairingOutcome::Paired { fingerprint: kept, newly_paired: true }
            } else {
                record_pairing_failure(limiter, peer, now);
                PairingOutcome::Refused {
                    reply: Envelope::PairReject {
                        reason: String::from_str("pairing PIN required or incorrect"),
                    },
                    error: HandshakeError::PairingRejected(fingerprint),
                }
            }
        },
        _ => PairingOutcome::Refused {
            reply: Envelope::Error(String::from_str("expected PairRequest")),
            error: HandshakeError::ExpectedPairRequest,
        },
    }
}

/// A copy of `s` with the same characters.
pub fn copy_string(s: &String) -> (c: String)
    ensures
        c@ == s@,
{
    let mut c = String::new();
    c.append(s.as_str());
    c
}

// --- The pairing PIN ---------------------------------------------------------

/// `n` in decimal, padded with leading zeros to six digits.
pub open spec fn six_digits(n: nat) -> Seq<char> {
    let d = decimal(n);
    if d.len() >= 6 {
        d
    } else {
        Seq::new((6 - d.len()) as nat, |i: int| '0') + d
    }
}

/// The PIN new devices must present: the command line's, else the
/// environment's, else the configured one, else `random` as six digits.
pub fn choose_pairing_pin(
    from_args: Option<String>,
    from_env: Option<String>,
    from_config: Option<String>,
    random: u32,
) -> (pin: String)
    ensures
        pin@ == match from_args {
            Some(p) => p@,
            None => match from_env {
                Some(p) => p@,
                None => match from_config {
                    Some(p) => p@,
                    None => six_digits(random as nat),
                },
            },
        },
{
    match from_args {
        Some(p) => p,
        None => match from_env {
            Some(p) => p,
            None => match from_config {
                Some(p) => p,
                None => {
                    let mut digits = String::new();
                    push_decimal(&mut digits, random as u64);
                    let n = chars_of(digits.as_str()).len();
                    let mut pin = String::new();
                    let mut k: usize = n;
                    while k < 6
                        invariant
                            n == decimal(random as nat).len(),
                            n <= k <= 6 || (k == n && n > 6),
                            pin@ == Seq::new((k - n) as nat, |i: int| '0'),
                        decreases 6 - k,
                    {
                        push_char(&mut pin, '0');
                        proof {
                            assert(pin@ =~= Seq::new((k + 1 - n) as nat, |i: int| '0'));
                        }
                        k = k + 1;
                    }
                    pin.append(digits.as_str());
                    proof {
                        if n >= 6 {
                            assert(pin@ =~= six_digits(random as nat));
                        } else {
                            assert(pin@ =~= six_digits(random as nat));
                        }
                    }
                    pin
                },
            },
        },
    }
}

/// Calls `rand::Rng::gen_range(&mut thread_rng(), 0..bound)`. Trusted: the
/// number is below `bound`, which is not zero (so the range is not empty).
#[verifier::external_body]
fn random_below(bound: u32) -> (n: u32)
    requires
        bound > 0,
    ensures
        n < bound,
{
    rand::Rng::gen_range(&mut rand::thread_rng(), 0..bound)
}

/// The PIN new devices must present, generating a random six-digit one when
/// none is given.
pub fn pairing_pin(from_args: Option<String>, from_env: Option<String>, from_config: Option<String>) -> (pin: String)
    ensures
        match from_args {
            Some(p) => pin@ == p@,
            None => match from_env {
                Some(p) => pin@ == p@,
                None => match from_config {
                    Some(p) => pin@ == p@,
                    None => exists|n: nat| n < 1000000 && pin@ == #[trigger] six_digits(n),
                },
            },
        },
        (from_args is None && from_env is None && from_config is None) ==> pin@.len() == 6,
{
    let random = if from_args.is_none() && from_env.is_none() && from_config.is_none() {
        random_below(1000000)
    } else {
        0
    };
    let pin = choose_pairing_pin(from_args, from_env, from_config, random);
    proof {
        if from_args is None && from_env is None && from_config is None {
            lemma_six_digits_length(random as nat);
        }
    }
    pin
}

/// Ten to the power `k`.
pub open spec fn pow10(k: nat) -> nat
    decreases k,
{
    if k == 0 {
        1
    } else {
        10 * pow10((k - 1) as nat)
    }
}

/// A number below `10^k` has at most `k` digits.
proof fn lemma_decimal_length(n: nat, k: nat)
    requires
        k >= 1,
        n < pow10(k),
    ensures
        decimal(n).len() <= k,
    decreases k,
{
    if n >= 10 {
        if k == 1 {
            assert(pow10(1) == 10 * pow10(0));
        }
        assert(pow10(k) == 10 * pow10((k - 1) as nat));
        lemma_decimal_length(n / 10, (k - 1) as nat);
    }
}

/// A generated PIN always has six digits.
pub proof fn lemma_six_digits_length(n: nat)
    requires
        n < 1000000,
    ensures
        six_digits(n).len() == 6,
{
    assert(pow10(0) == 1);
    assert(pow10(1) == 10);
    assert(pow10(2) == 100);
    assert(pow10(3) == 1000);
    assert(pow10(4) == 10000);
    assert(pow10(5) == 100000);
    assert(pow10(6) == 1000000);
    lemma_decimal_length(n, 6);
}

// --- Forwarding --------------------------------------------------------------

/// What every paired client is told when forwarding becomes `on`: when it
/// goes off, first to release everything held, so nothing stays stuck.
pub open spec fn spec_toggle_broadcasts(on: bool) -> Seq<Envelope> {
    if on {
        seq![Envelope::ToggleForward(true)]
    } else {
        seq![Envelope::Input(Event::ReleaseAll), Envelope::ToggleForward(false)]
    }
}

/// The envelopes to broadcast when forwarding becomes `on`.
pub fn toggle_broadcasts(on: bool) -> (v: Vec<Envelope>)
    ensures
        v@ == spec_toggle_broadcasts(on),
{
    let mut v: Vec<Envelope> = Vec::new();
    if !on {
        v.push(Envelope::Input(Event::ReleaseAll));
    }
    v.push(Envelope::ToggleForward(on));
    proof {
        assert(v@ =~= spec_toggle_broadcasts(on));
    }
    v
}

/// Forwarding after a client registered: with `auto_forward`, the first
/// client switches it on. The flag says whether that client must be told.
pub fn forwarding_on_register(is_first_client: bool, auto_forward: bool, forwarding: bool) -> (r: (
    bool,
    bool,
))
    ensures
        r.0 == (forwarding || (is_first_client && auto_forward)),
        r.1 == (is_first_client && auto_forward && !forwarding),
{
    if is_first_client && auto_forward && !forwarding {
        (true, true)
    } else {
        (forwarding, false)
    }
}

/// Forwarding after a client left: with `auto_forward`, the last client
/// leaving switches it off.
pub fn forwarding_on_unregister(now_empty: bool, auto_forward: bool, forwarding: bool) -> (r: bool)
    ensures
        r == (forwarding && !(now_empty && auto_forward)),
{
    if now_empty && auto_forward {
        false
    } else {
        forwarding
    }
}

// --- Messages from a paired client --------------------------------------------

/// What to do with one message from a paired client.
#[derive(Debug)]
pub enum ServerAction {
    /// The client said goodbye: end the connection.
    Close,
    /// Send this envelope back to the client.
    Reply(Envelope),
    /// A keepalive answer carrying the time the ping was sent.
    RoundTrip(u64),
    /// Store this forwarding state and broadcast these envelopes.
    SetForwarding { on: bool, broadcast: Vec<Envelope> },
    /// Put this text on the local clipboard.
    ApplyClipboard(String),
    /// Nothing to do.
    Ignore,
}

/// Decides the reaction to one message of a paired client, given whether
/// forwarding is on and whether clipboard sync is enabled.
pub fn on_client_message(message: Envelope, forwarding: bool, clipboard_sync: bool) -> (a: ServerAction)
    ensures
        match message {
            Envelope::Goodbye => a is Close,
            Envelope::Ping(ts) => a matches ServerAction::Reply(Envelope::Pong(t)) && t == ts,
            Envelope::Pong(ts) => a matches ServerAction::RoundTrip(t) && t == ts,
            Envelope::ToggleForward(desired) => if desired != forwarding {
                a matches ServerAction::SetForwarding { on, broadcast } && on == desired
                    && broadcast@ == spec_toggle_broadcasts(desired)
            } else {
                a is Ignore
            },
            Envelope::ClipboardSet { text } => if clipboard_sync && encode_utf8(text@).len()
                <= MAX_CLIPBOARD_BYTES {
                a matches ServerAction::ApplyClipboard(t) && t@ == text@
            } else {
                a is Ignore
            },
            _ => a is Ignore,
        },
{
    match message {
        Envelope::Goodbye => ServerAction::Close,
        Envelope::Ping(ts) => ServerAction::Reply(Envelope::Pong(ts)),
        Envelope::Pong(ts) => ServerAction::RoundTrip(ts),
        Envelope::ToggleForward(desired) => {
            if desired != forwarding {
                ServerAction::SetForwarding { on: desired, broadcast: toggle_broadcasts(desired) }
            } else {
                ServerAction::Ignore
            }
        },
        Envelope::ClipboardSet { text } => {
            if clipboard_sync && text.as_str().as_bytes().len() <= MAX_CLIPBOARD_BYTES {
                ServerAction::ApplyClipboard(text)
            } else {
                ServerAction::Ignore
            }
        },
        _ => ServerAction::Ignore,
    }
}

/// Whether a client last heard from at `last_seen` has been silent too long
/// at `now` (nanoseconds; time never runs backwards here, so an earlier
/// `now` counts as no time elapsed).
pub fn client_timed_out(last_seen: u64, now: u64) -> (r: bool)
    ensures
        r == (now >= last_seen && now - last_seen > CLIENT_IDLE_TIMEOUT_NS),
{
    now >= last_seen && now - last_seen > CLIENT_IDLE_TIMEOUT_NS
}

// --- Logging ---------------------------------------------------------------

/// At most the first 11 characters of `s`, then `...`.
pub open spec fn spec_redact_fingerprint(s: Seq<char>) -> Seq<char> {
    (if s.len() <= 11 {
        s
    } else {
        s.take(11)
    }) + "..."@
}

/// Shortens a fingerprint for logs that others may read: the first 11
/// characters stay, the rest becomes `...`.
pub fn redact_fingerprint(fingerprint: &str) -> (r: String)
    ensures
        r@ == spec_redact_fingerprint(fingerprint@),
{
    let chars = chars_of(fingerprint);
    let n: usize = if chars.len() <= 11 {
        chars.len()
    } else {
        11
    };
    let mut r = string_of_range(chars.as_slice(), 0, n);
    r.append("...");
    proof {
        if chars@.len() <= 11 {
            assert(chars@.subrange(0, n as int) =~= fingerprint@);
        } else {
            assert(chars@.subrange(0, n as int) =~= fingerprint@.take(11));
        }
    }
    r
}

// --- Laws ------------------------------------------------------------------

/// Switching forwarding off always tells clients to release everything
/// before anything else; switching it on never does.
pub proof fn lemma_off_releases_first(on: bool)
    ensures
        !on ==> spec_toggle_broadcasts(on)[0] == Envelope::Input(Event::ReleaseAll),
        on ==> !spec_toggle_broadcasts(on).contains(Envelope::Input(Event::ReleaseAll)),
        spec_toggle_broadcasts(on).last() == Envelope::ToggleForward(on),
{
    if on {
        assert forall|i: int| 0 <= i < spec_toggle_broadcasts(on).len() implies spec_toggle_broadcasts(
            on,
        )[i] != Envelope::Input(Event::ReleaseAll) by {}
    }
}

} // verus!
