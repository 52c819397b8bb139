//! The decisions of the client's control-channel connection: which
//! certificate to trust, the `Hello` / pairing exchange and which failures
//! are fatal, what each message from the server asks for, keepalive and
//! reconnect backoff. The caller performs the I/O.

use crate::addr::{
    format_host_port, parse_host_port, spec_format_host_port, spec_parse_host_port, AddrError,
};
use crate::client_config::Config;
use crate::protocol::{
    pairing_proof, spec_pairing_proof, Caps, Envelope, Event, DEFAULT_CONTROL_PORT, PROTOCOL_VERSION,
};
use crate::crypto::random_16;
use crate::server_session::copy_string;
use crate::text::{
    chars_of, contains_char, contains_chars, contains_seq, decimal, push_char, push_decimal, str_eq,
    all_ascii, ascii_upper, lower_name, to_lowercase, to_uppercase, upper_name,
};
use vstd::prelude::*;
use vstd::string::StringExecFns;

verus! {

/// How a connection attempt is to be trusted and authenticated.
#[derive(Debug)]
pub struct ConnectOptions {
    /// Pairing PIN; otherwise `KVM_PAIRING_PIN`, otherwise empty (enough
    /// only for an already paired client).
    pub pin: Option<String>,
    /// Accept and pin whatever certificate the server presents now.
    pub trust_new_cert: bool,
    /// Require exactly this fingerprint (overrides both the stored pin and
    /// `trust_new_cert`).
    pub expected_fingerprint: Option<String>,
}

impl Default for ConnectOptions {
    fn default() -> (o: Self)
        ensures
            o.pin is None,
            !o.trust_new_cert,
            o.expected_fingerprint is None,
    {
        ConnectOptions { pin: None, trust_new_cert: false, expected_fingerprint: None }
    }
}

/// What a running session reports to its observer.
#[derive(Debug)]
pub enum SessionEvent {
    Connected { server_name: String, fingerprint: String },
    Disconnected { reason: String },
    ForwardingChanged(bool),
    ClipboardReceived { bytes: usize },
    Latency { ms: u64 },
    Error(String),
}

/// A connection failure that must not be retried: the protocol version
/// does not match, the PIN was rejected, or the certificate is not the
/// pinned one.
#[derive(Debug)]
pub struct FatalConnectError(pub String);

impl FatalConnectError {
    /// The text of the error.
    pub fn message(&self) -> (m: String)
        ensures
            m@ == self.0@,
    {
        copy_string(&self.0)
    }
}

/// Why connecting failed.
#[derive(Debug)]
pub enum ConnectError {
    /// Do not retry.
    Fatal(FatalConnectError),
    /// May be retried.
    Failed(String),
    /// The server answered with a message that makes no sense here; may be
    /// retried. The text is `context`, a colon and the message's debug form.
    Unexpected { context: String, reply: Envelope },
}

// --- Certificate pinning ---------------------------------------------------------

/// The fingerprint a connection requires (`None`: accept any and pin it),
/// and whether it is a first use to report.
pub open spec fn spec_pin_policy(
    expected: Option<Seq<char>>,
    trust_new_cert: bool,
    stored: Option<Seq<char>>,
) -> (Option<Seq<char>>, bool) {
    let required = match expected {
        Some(fp) => Some(upper_name(fp)),
        None => if trust_new_cert {
            None
        } else {
            stored
        },
    };
    (required, stored is None || trust_new_cert)
}

pub open spec fn opt_view(o: Option<String>) -> Option<Seq<char>> {
    match o {
        Some(s) => Some(s@),
        None => None,
    }
}

/// Decides which certificate to trust for a connection whose address has
/// `stored` pinned (if any).
pub fn pin_policy(opts: &ConnectOptions, stored: Option<String>) -> (r: (Option<String>, bool))
    ensures
        (opt_view(r.0), r.1) == spec_pin_policy(
            opt_view(opts.expected_fingerprint),
            opts.trust_new_cert,
            opt_view(stored),
        ),
{
    let first_use = stored.is_none() || opts.trust_new_cert;
    let required = match &opts.expected_fingerprint {
        Some(fp) => Some(to_uppercase(fp.as_str())),
        None => if opts.trust_new_cert {
            None
        } else {
            stored
        },
    };
    (required, first_use)
}

/// A fingerprint given explicitly is the one required, uppercased, whatever
/// is pinned and whether or not a new certificate is trusted (so a server
/// whose certificate changed can be verified with it). Without one, trusting
/// a new certificate requires none, and otherwise the pinned fingerprint is
/// required. The connection counts as a first use exactly when nothing was
/// pinned or a new certificate is trusted.
pub proof fn lemma_pin_policy_requires_the_given_fingerprint(
    expected: Option<Seq<char>>,
    trust_new_cert: bool,
    stored: Option<Seq<char>>,
)
    ensures
        expected is Some ==> spec_pin_policy(expected, trust_new_cert, stored).0 == Some(
            upper_name(expected.unwrap()),
        ),
        expected is Some && all_ascii(expected.unwrap()) ==> spec_pin_policy(
            expected,
            trust_new_cert,
            stored,
        ).0 == Some(expected.unwrap().map_values(|c: char| ascii_upper(c))),
        expected is None && trust_new_cert ==> spec_pin_policy(expected, trust_new_cert, stored).0 is None,
        expected is None && !trust_new_cert ==> spec_pin_policy(expected, trust_new_cert, stored).0
            == stored,
        spec_pin_policy(expected, trust_new_cert, stored).1 == (stored is None || trust_new_cert),
{
}

/// A TLS failure is fatal when it is the pinning refusing the certificate.
pub fn tls_failure_is_fatal(message: &str) -> (r: bool)
    ensures
        r == contains_seq(message@, "fingerprint mismatch"@),
{
    let m = chars_of(message);
    let needle = chars_of("fingerprint mismatch");
    contains_chars(m.as_slice(), needle.as_slice())
}

/// What connecting to an address needs to know before it starts.
#[derive(Debug)]
pub struct ConnectPlan {
    pub host: String,
    pub port: u16,
    /// The normalised `host:port` the server is known under.
    pub address: String,
    /// The fingerprint the certificate must have (`None`: pin whatever comes).
    pub required_fingerprint: Option<String>,
    /// Whether the fingerprint seen will be pinned for the first time.
    pub first_use: bool,
}

/// Plans a connection to `addr` (default port 4000): where to connect,
/// under which address the server is known, and which certificate to trust.
pub fn plan_connection(addr: &str, config: &Config, opts: &ConnectOptions) -> (r: Result<
    ConnectPlan,
    AddrError,
>)
    requires
        config.wf(),
    ensures
        match spec_parse_host_port(addr@, DEFAULT_CONTROL_PORT) {
            Err(e) => r matches Err(e2) && e2.view_of() == e,
            Ok((host, port)) => r matches Ok(plan) && plan.host@ == host && plan.port == port
                && plan.address@ == spec_format_host_port(host, port) && ({
                let key = spec_format_host_port(host, port);
                let stored = if config.servers().contains_key(key) {
                    Some(config.servers()[key].fingerprint)
                } else {
                    None
                };
                (opt_view(plan.required_fingerprint), plan.first_use) == spec_pin_policy(
                    opt_view(opts.expected_fingerprint),
                    opts.trust_new_cert,
                    stored,
                )
            }),
        },
{
    match parse_host_port(addr, DEFAULT_CONTROL_PORT) {
        Err(e) => Err(e),
        Ok((host, port)) => {
            let address = format_host_port(host.as_str(), port);
            let stored = config.known_fingerprint(address.as_str());
            let (required_fingerprint, first_use) = pin_policy(opts, stored);
            Ok(ConnectPlan { host, port, address, required_fingerprint, first_use })
        },
    }
}

/// The address to connect to when one was given on the command line: as
/// given when it has a colon or starts with `[`, else with `port` added.
pub fn explicit_server_address(server: &str, port: u16) -> (a: String)
    ensures
        a@ == if server@.contains(':') || (server@.len() > 0 && server@[0] == '[') {
            server@
        } else {
            server@ + seq![':'] + decimal(port as nat)
        },
{
    let v = chars_of(server);
    let mut a = String::new();
    a.append(server);
    if contains_char(v.as_slice(), ':') || (v.len() > 0 && v[0] == '[') {
        return a;
    }
    push_char(&mut a, ':');
    push_decimal(&mut a, port as u64);
    a
}

// --- Handshake -------------------------------------------------------------

/// The client's `Hello`, under the machine's host name when it has a
/// readable one.
pub fn client_hello(host_name: Option<String>) -> (e: Envelope)
    ensures
        e matches Envelope::Hello { name, version, caps } && name@ == match host_name {
            Some(h) => h@,
            None => "kvm-client"@,
        } && version@ == PROTOCOL_VERSION@ && caps.clipboard && caps.file_transfer
            && !caps.internet_share,
{
    let name = match host_name {
        Some(h) => h,
        None => String::from_str("kvm-client"),
    };
    Envelope::Hello { name, version: String::from_str(PROTOCOL_VERSION), caps: Caps::default() }
}

/// The text of a failure the caller reports for a server `Error`.
pub open spec fn server_error_text(msg: Seq<char>) -> Seq<char> {
    "server error: "@ + msg
}

/// Reads the server's answer to `Hello`: its file-transfer port and name,
/// or the failure. An `Error` that mentions the version (in any case) is
/// fatal.
pub fn on_hello_reply(reply: Envelope) -> (r: Result<(u16, String), ConnectError>)
    ensures
        match reply {
            Envelope::HelloAck { file_transfer_port, server_name } => r matches Ok((p, n)) && p
                == file_transfer_port && n@ == server_name@,
            Envelope::Error(msg) => if contains_seq(lower_name(msg@), "version"@) {
                r matches Err(ConnectError::Fatal(f)) && f.0@ == msg@
            } else {
                r matches Err(ConnectError::Failed(t)) && t@ == server_error_text(msg@)
            },
            _ => r matches Err(ConnectError::Unexpected { context, reply: e }) && context@
                == "unexpected response"@ && e == reply,
        },
{
    match reply {
        Envelope::HelloAck { file_transfer_port, server_name } => Ok((file_transfer_port, server_name)),
        Envelope::Error(msg) => {
            let lower = to_lowercase(msg.as_str());
            let lv = chars_of(lower.as_str());
            let needle = chars_of("version");
            if contains_chars(lv.as_slice(), needle.as_slice()) {
                Err(ConnectError::Fatal(FatalConnectError(msg)))
            } else {
                let mut t = String::from_str("server error: ");
                t.append(msg.as_str());
                Err(ConnectError::Failed(t))
            }
        },
        other => Err(
            ConnectError::Unexpected { context: String::from_str("unexpected response"), reply: other },
        ),
    }
}

/// The PIN to pair with: the one given, else the environment's, else none.
pub fn resolve_pin(given: Option<String>, from_env: Option<String>) -> (pin: String)
    ensures
        pin@ == match given {
            Some(p) => p@,
            None => match from_env {
                Some(p) => p@,
                None => Seq::empty(),
            },
        },
{
    match given {
        Some(p) => p,
        None => match from_env {
            Some(p) => p,
            None => String::new(),
        },
    }
}

/// The `PairRequest` proving knowledge of `pin` for `nonce` and this
/// client's `fingerprint`.
pub fn pair_request(pin: &str, nonce: [u8; 16], fingerprint: String) -> (e: Envelope)
    ensures
        e matches Envelope::PairRequest { nonce: n, fingerprint: f, proof } && n == nonce && f@
            == fingerprint@ && proof@ == spec_pairing_proof(pin@, nonce@, fingerprint@),
{
    let proof = pairing_proof(pin, &nonce, fingerprint.as_str());
    Envelope::PairRequest { nonce, fingerprint, proof }
}

/// A pairing request under a fresh random nonce.
pub fn fresh_pair_request(pin: &str, fingerprint: String) -> (e: Envelope)
    ensures
        e matches Envelope::PairRequest { nonce, fingerprint: f, proof } && f@ == fingerprint@
            && proof@ == spec_pairing_proof(pin@, nonce@, fingerprint@),
{
    pair_request(pin, random_16(), fingerprint)
}

/// The text of a rejected pairing: the server's reason, with a hint when
/// the reason mentions the PIN.
pub open spec fn pair_reject_text(reason: Seq<char>) -> Seq<char> {
    if contains_seq(lower_name(reason), "pin"@) {
        "pairing rejected: "@ + reason + " (pass --pin <code>, or set KVM_PAIRING_PIN)"@
    } else {
        "pairing rejected: "@ + reason
    }
}

/// Reads the server's answer to `PairRequest`. A rejection is fatal.
pub fn on_pair_reply(reply: Envelope) -> (r: Result<(), ConnectError>)
    ensures
        match reply {
            Envelope::PairAccept => r is Ok,
            Envelope::PairReject { reason } => r matches Err(ConnectError::Fatal(f)) && f.0@
                == pair_reject_text(reason@),
            _ => r matches Err(ConnectError::Unexpected { context, reply: e }) && context@
                == "unexpected pairing response"@ && e == reply,
        },
{
    match reply {
        Envelope::PairAccept => Ok(()),
        Envelope::PairReject { reason } => {
            let mut msg = String::from_str("pairing rejected: ");
            msg.append(reason.as_str());
            let lower = to_lowercase(reason.as_str());
            let lv = chars_of(lower.as_str());
            let needle = chars_of("pin");
            if contains_chars(lv.as_slice(), needle.as_slice()) {
                msg.append(" (pass --pin <code>, or set KVM_PAIRING_PIN)");
            }
            Err(ConnectError::Fatal(FatalConnectError(msg)))
        },
        other => Err(
            ConnectError::Unexpected {
                context: String::from_str("unexpected pairing response"),
                reply: other,
            },
        ),
    }
}

/// Records a successful connection to `host:port`: the server is known
/// under its control address (which becomes the last server) and, with the
/// same fingerprint, under its file-transfer address, so the file channel
/// finds the pin too.
pub fn record_connection(
    config: &mut Config,
    host: &str,
    port: u16,
    file_transfer_port: u16,
    server_name: String,
    fingerprint: String,
)
    requires
        old(config).wf(),
    ensures
        final(config).wf(),
        final(config).last_server matches Some(l) && l@ == spec_format_host_port(host@, port),
        final(config).servers().contains_key(spec_format_host_port(host@, port)),
        final(config).servers()[spec_format_host_port(host@, port)].fingerprint == fingerprint@,
        final(config).servers()[spec_format_host_port(host@, port)].name == server_name@,
        final(config).servers()[spec_format_host_port(host@, port)].address == spec_format_host_port(
            host@,
            port,
        ),
        final(config).servers()[spec_format_host_port(host@, file_transfer_port)].name == server_name@,
        final(config).servers()[spec_format_host_port(host@, file_transfer_port)].address
            == spec_format_host_port(host@, file_transfer_port),
        final(config).servers().contains_key(spec_format_host_port(host@, file_transfer_port)),
        final(config).servers()[spec_format_host_port(host@, file_transfer_port)].fingerprint
            == fingerprint@,
        forall|a: Seq<char>|
            a != spec_format_host_port(host@, port) && a != spec_format_host_port(host@, file_transfer_port)
                && old(config).servers().contains_key(a) ==> #[trigger] final(config).servers()[a]
                == old(config).servers()[a],
        final(config).client_secret == old(config).client_secret,
{
    let control = format_host_port(host, port);
    let file_addr = format_host_port(host, file_transfer_port);
    let name2 = copy_string(&server_name);
    let fp2 = copy_string(&fingerprint);
    let same = str_eq(file_addr.as_str(), control.as_str());
    config.add_known_server(server_name, control, fingerprint);
    if !same {
        config.add_known_server_alias(name2, file_addr, fp2);
    }
}

// --- The running session ---------------------------------------------------

/// A request made through the session's controller.
#[derive(Debug)]
pub enum Command {
    ToggleForward(bool),
    SendClipboard(String),
}

/// The envelope a command becomes.
pub fn command_envelope(cmd: Command) -> (e: Envelope)
    ensures
        match cmd {
            Command::ToggleForward(on) => e == Envelope::ToggleForward(on),
            Command::SendClipboard(text) => e matches Envelope::ClipboardSet { text: t } && t@
                == text@,
        },
{
    match cmd {
        Command::ToggleForward(on) => Envelope::ToggleForward(on),
        Command::SendClipboard(text) => Envelope::ClipboardSet { text },
    }
}

/// What to do with one message from the server.
#[derive(Debug)]
pub enum ClientAction {
    /// Release every key and button held.
    ReleaseAll,
    /// Inject this event.
    Inject(Event),
    /// Put this text on the clipboard and report its size in bytes.
    ApplyClipboard { text: String, bytes: usize },
    /// Forwarding changed; when it went off, release everything first.
    Forwarding { on: bool, release_first: bool },
    /// Send this envelope back.
    Reply(Envelope),
    /// A keepalive answer carrying the time its ping was sent.
    RoundTrip(u64),
    /// The server said goodbye: end the session.
    Close,
    /// Report this error text.
    ReportError(String),
    /// Nothing to do.
    Ignore,
}

/// Decides the reaction to one message from the server.
pub fn on_server_message(message: Envelope) -> (a: ClientAction)
    ensures
        match message {
            Envelope::Input(ev) => if ev is ReleaseAll {
                a is ReleaseAll
            } else {
                a matches ClientAction::Inject(e) && e == ev
            },
            Envelope::ClipboardSet { text } => a matches ClientAction::ApplyClipboard { text: t, bytes }
                && t@ == text@ && bytes == vstd::utf8::encode_utf8(text@).len() as usize,
            Envelope::ToggleForward(on) => a matches ClientAction::Forwarding { on: o, release_first }
                && o == on && release_first == !on,
            Envelope::Ping(ts) => a matches ClientAction::Reply(Envelope::Pong(t)) && t == ts,
            Envelope::Pong(ts) => a matches ClientAction::RoundTrip(t) && t == ts,
            Envelope::Goodbye => a is Close,
            Envelope::Error(msg) => a matches ClientAction::ReportError(m) && m@ == msg@,
            _ => a is Ignore,
        },
{
    match message {
        Envelope::Input(Event::ReleaseAll) => ClientAction::ReleaseAll,
        Envelope::Input(ev) => ClientAction::Inject(ev),
        Envelope::ClipboardSet { text } => {
            let bytes = text.as_str().len();
            ClientAction::ApplyClipboard { text, bytes }
        },
        Envelope::ToggleForward(on) => ClientAction::Forwarding { on, release_first: !on },
        Envelope::Ping(ts) => ClientAction::Reply(Envelope::Pong(ts)),
        Envelope::Pong(ts) => ClientAction::RoundTrip(ts),
        Envelope::Goodbye => ClientAction::Close,
        Envelope::Error(msg) => ClientAction::ReportError(msg),
        _ => ClientAction::Ignore,
    }
}

/// A server silent for longer than this (20 s) is given up on.
pub const SERVER_DEAD_AFTER_NS: u64 = 20000000000;

/// Whether the server, last heard from at `last_received`, counts as gone
/// at `now` (nanoseconds).
pub fn server_unresponsive(last_received: u64, now: u64) -> (r: bool)
    ensures
        r == (now >= last_received && now - last_received > SERVER_DEAD_AFTER_NS),
{
    now >= last_received && now - last_received > SERVER_DEAD_AFTER_NS
}

/// The first reconnect delay, and the longest (milliseconds).
pub const INITIAL_BACKOFF_MS: u64 = 1000;

pub const MAX_BACKOFF_MS: u64 = 30000;

/// The delay after `backoff`: doubled, at most `MAX_BACKOFF_MS`.
pub fn next_backoff(backoff: u64) -> (r: u64)
    ensures
        r == if 2 * backoff < MAX_BACKOFF_MS {
            2 * backoff
        } else {
            MAX_BACKOFF_MS as int
        },
{
    if backoff < MAX_BACKOFF_MS / 2 {
        backoff * 2
    } else {
        MAX_BACKOFF_MS
    }
}

/// The delay after `backoff`, as `next_backoff` computes it.
pub open spec fn spec_next_backoff(backoff: u64) -> u64 {
    if 2 * backoff < MAX_BACKOFF_MS {
        (2 * backoff) as u64
    } else {
        MAX_BACKOFF_MS
    }
}

/// How one turn of the reconnect loop ended.
#[derive(Clone, Copy, Debug, PartialEq, Eq, Structural)]
pub enum AttemptOutcome {
    /// Connected; the session ran and has ended.
    SessionEnded,
    /// Connecting failed in a way that may be retried.
    Failed,
    /// Connecting failed fatally: a version mismatch, a rejected PIN or a
    /// certificate that is not the pinned one.
    Fatal,
}

/// What the reconnect loop does after a turn: stop (`None`) when the
/// failure was fatal or the user cancelled; otherwise wait `delay` ms and
/// try again, with `next` as the delay after that. A session that ran
/// restarts the delays from the initial one; a failure keeps the current
/// delay.
pub fn after_attempt(outcome: AttemptOutcome, cancelled: bool, backoff: u64) -> (r: Option<(u64, u64)>)
    ensures
        r == if cancelled || outcome == AttemptOutcome::Fatal {
            None
        } else {
            let delay = if outcome == AttemptOutcome::SessionEnded {
                INITIAL_BACKOFF_MS
            } else {
                backoff
            };
            Some((delay, spec_next_backoff(delay)))
        },
{
    if cancelled || outcome == AttemptOutcome::Fatal {
        return None;
    }
    let delay = if outcome == AttemptOutcome::SessionEnded {
        INITIAL_BACKOFF_MS
    } else {
        backoff
    };
    Some((delay, next_backoff(delay)))
}

/// Starting from the initial delay, the delay stays between one and thirty
/// seconds however many attempts fail.
pub proof fn lemma_backoff_bounded(backoff: u64)
    requires
        INITIAL_BACKOFF_MS <= backoff <= MAX_BACKOFF_MS,
    ensures
        ({
            let n = if 2 * backoff < MAX_BACKOFF_MS {
                2 * backoff
            } else {
                MAX_BACKOFF_MS as int
            };
            INITIAL_BACKOFF_MS <= n <= MAX_BACKOFF_MS && n >= backoff
        }),
{
}

} // verus!
