//! The SOCKS5 proxy's negotiation (RFC 1928, with RFC 1929 username and
//! password authentication), as a state machine: the caller reads exactly
//! the number of bytes asked for, feeds them in, writes the reply it gets
//! back, and goes on until the target address comes out or the negotiation
//! fails.
//!
//! Anonymous access is opt-in: with a configuration that does not allow it,
//! the target is only ever reached after the configured username and
//! password were presented, and failed attempts count towards the same
//! per-peer lockout as pairing PINs.

use crate::rate_limit::{
    is_rate_limited, record_pairing_failure, spec_is_rate_limited, spec_record_failure, PeerIp,
    RateLimiter, RATE_LIMIT_WINDOW_NS,
};
use crate::server_config::Socks5Settings;
use crate::text::{decimal, push_char, push_decimal};
use core::time::Duration;
use vstd::prelude::*;
use vstd::string::StringExecFns;
use vstd::utf8::{decode_utf8, valid_utf8};

verus! {

pub const SOCKS5_VERSION: u8 = 0x05;
pub const AUTH_NO_AUTH: u8 = 0x00;
pub const AUTH_USER_PASS: u8 = 0x02;
pub const CMD_CONNECT: u8 = 0x01;
pub const ATYP_IPV4: u8 = 0x01;
pub const ATYP_DOMAIN: u8 = 0x03;
pub const ATYP_IPV6: u8 = 0x04;

/// The duration of `secs` whole seconds, as `Duration::from_secs` builds it.
pub uninterp spec fn duration_from_secs(secs: u64) -> Duration;

/// Gives `Duration::from_secs` a place in verified code. Trusted: the
/// duration depends on `secs` alone (the function only stores it).
pub assume_specification[ core::time::Duration::from_secs ](secs: u64) -> (d: Duration)
    ensures
        d == duration_from_secs(secs),
;

/// The proxy's settings.
#[derive(Debug)]
pub struct Socks5Config {
    pub username: Option<String>,
    pub password: Option<String>,
    pub idle_timeout: Duration,
    /// When false (the default), clients must authenticate: an anonymous
    /// proxy is an open relay to the whole network and must be opted into.
    pub allow_anonymous: bool,
}

impl Default for Socks5Config {
    fn default() -> (c: Self)
        ensures
            c.username is None,
            c.password is None,
            c.idle_timeout == duration_from_secs(300),
            !c.allow_anonymous,
    {
        Socks5Config {
            username: None,
            password: None,
            idle_timeout: Duration::from_secs(300),
            allow_anonymous: false,
        }
    }
}

/// Whether and how the proxy starts.
#[derive(Debug)]
pub enum Socks5Launch {
    /// No port configured.
    Disabled,
    /// Authentication is required but a username or password is missing.
    MissingCredentials,
    /// Listen on `port` with this configuration.
    Start { port: u16, config: Socks5Config },
}

fn first_of(a: Option<String>, b: Option<String>) -> (r: Option<String>)
    ensures
        match a {
            Some(x) => r matches Some(y) && y@ == x@,
            None => match b {
                Some(x) => r matches Some(y) && y@ == x@,
                None => r is None,
            },
        },
{
    match a {
        Some(x) => Some(x),
        None => b,
    }
}

pub open spec fn first_view(a: Option<String>, b: Option<String>) -> Option<Seq<char>> {
    match a {
        Some(x) => Some(x@),
        None => match b {
            Some(x) => Some(x@),
            None => None,
        },
    }
}

/// Decides the proxy's settings from the command line (`args_*`), the
/// environment's password and the configuration file, in that order of
/// precedence; anonymous access is allowed when either allows it.
pub fn plan_socks5(
    args_port: Option<u16>,
    args_user: Option<String>,
    args_pass: Option<String>,
    env_pass: Option<String>,
    args_allow_anonymous: bool,
    settings: &Socks5Settings,
) -> (r: Socks5Launch)
    ensures
        ({
            let port = match args_port {
                Some(p) => Some(p),
                None => settings.port,
            };
            let user = first_view(args_user, settings.username);
            let pass = match args_pass {
                Some(p) => Some(p@),
                None => first_view(env_pass, settings.password),
            };
            let allow = args_allow_anonymous || settings.allow_anonymous;
            match port {
                None => r is Disabled,
                Some(p) => if !allow && (user is None || pass is None) {
                    r is MissingCredentials
                } else {
                    r matches Socks5Launch::Start { port: q, config } && q == p
                        && config.allow_anonymous == allow && config.idle_timeout
                        == duration_from_secs(300) && match config.username {
                        Some(u) => user == Some(u@),
                        None => user is None,
                    } && match config.password {
                        Some(w) => pass == Some(w@),
                        None => pass is None,
                    }
                },
            }
        }),
{
    let username = first_of(args_user, copy_opt(&settings.username));
    let password = first_of(args_pass, first_of(env_pass, copy_opt(&settings.password)));
    let allow_anonymous = args_allow_anonymous || settings.allow_anonymous;
    let port = match args_port {
        Some(p) => p,
        None => match settings.port {
            Some(p) => p,
            None => return Socks5Launch::Disabled,
        },
    };
    if !allow_anonymous && (username.is_none() || password.is_none()) {
        return Socks5Launch::MissingCredentials;
    }
    Socks5Launch::Start {
        port,
        config: Socks5Config {
            username,
            password,
            idle_timeout: Duration::from_secs(300),
            allow_anonymous,
        },
    }
}

fn copy_opt(s: &Option<String>) -> (c: Option<String>)
    ensures
        match s {
            Some(t) => c matches Some(u) && u@ == t@,
            None => c is None,
        },
{
    match s {
        Some(t) => Some(crate::server_session::copy_string(t)),
        None => None,
    }
}

/// Byte comparison whose time depends only on the lengths: once they match,
/// every byte is compared and the differences gathered into one value.
pub fn constant_time_eq(a: &[u8], b: &[u8]) -> (same: bool)
    ensures
        same == (a@ == b@),
{
    if a.len() != b.len() {
        return false;
    }
    let n = a.len();
    let mut diff: u8 = 0;
    let mut i: usize = 0;
    while i < n
        invariant
            n == a@.len(),
            n == b@.len(),
            i <= n,
            (diff == 0) == (forall|j: int| 0 <= j < i ==> a@[j] == b@[j]),
        decreases n - i,
    {
        let x = a[i];
        let y = b[i];
        assert((diff | (x ^ y)) == 0u8 <==> (diff == 0u8 && x == y)) by (bit_vector);
        diff = diff | (x ^ y);
        i = i + 1;
    }
    proof {
        if diff == 0 {
            assert(a@ =~= b@);
        }
    }
    diff == 0
}

/// Where the client asked to be connected.
#[derive(Clone, Debug)]
pub enum Socks5Target {
    V4 { octets: [u8; 4], port: u16 },
    Domain { name: String, port: u16 },
    V6 { octets: [u8; 16], port: u16 },
}

/// The mathematical content of a `Socks5Target`.
pub enum TargetView {
    V4 { octets: Seq<u8>, port: u16 },
    Domain { name: Seq<char>, port: u16 },
    V6 { octets: Seq<u8>, port: u16 },
}

impl Socks5Target {
    pub open spec fn view_of(&self) -> TargetView {
        match self {
            Socks5Target::V4 { octets, port } => TargetView::V4 { octets: octets@, port: *port },
            Socks5Target::Domain { name, port } => TargetView::Domain { name: name@, port: *port },
            Socks5Target::V6 { octets, port } => TargetView::V6 { octets: octets@, port: *port },
        }
    }
}

/// `a.b.c.d:port`.
pub open spec fn ipv4_address_text(octets: Seq<u8>, port: u16) -> Seq<char> {
    decimal(octets[0] as nat) + seq!['.'] + decimal(octets[1] as nat) + seq!['.'] + decimal(
        octets[2] as nat,
    ) + seq!['.'] + decimal(octets[3] as nat) + seq![':'] + decimal(port as nat)
}

impl Socks5Target {
    /// The `host:port` text to connect to, for an IPv4 address or a domain
    /// name. An IPv6 target is written by the caller (`[address]:port`).
    pub fn host_port_text(&self) -> (r: Option<String>)
        ensures
            match self.view_of() {
                TargetView::V4 { octets, port } => r matches Some(s) && s@ == ipv4_address_text(
                    octets,
                    port,
                ),
                TargetView::Domain { name, port } => r matches Some(s) && s@ == name + seq![':']
                    + decimal(port as nat),
                TargetView::V6 { .. } => r is None,
            },
    {
        match self {
            Socks5Target::V4 { octets, port } => {
                let mut s = String::new();
                push_decimal(&mut s, octets[0] as u64);
                push_char(&mut s, '.');
                push_decimal(&mut s, octets[1] as u64);
                push_char(&mut s, '.');
                push_decimal(&mut s, octets[2] as u64);
                push_char(&mut s, '.');
                push_decimal(&mut s, octets[3] as u64);
                push_char(&mut s, ':');
                push_decimal(&mut s, *port as u64);
                proof {
                    assert(s@ =~= ipv4_address_text(octets@, *port));
                }
                Some(s)
            },
            Socks5Target::Domain { name, port } => {
                let mut s = String::new();
                s.append(name.as_str());
                push_char(&mut s, ':');
                push_decimal(&mut s, *port as u64);
                proof {
                    assert(s@ =~= name@ + seq![':'] + decimal(*port as nat));
                }
                Some(s)
            },
            Socks5Target::V6 { .. } => None,
        }
    }
}

/// Why a negotiation failed.
#[derive(Clone, Copy, Debug, PartialEq, Eq, Structural)]
pub enum Socks5Error {
    /// The greeting named another protocol version.
    UnsupportedVersion(u8),
    /// The peer failed to authenticate too often recently.
    RateLimited,
    /// Authentication is required but no username and password are set.
    CredentialsNotConfigured,
    /// The client offers no method the proxy accepts.
    NoAcceptableMethod,
    /// The authentication sub-negotiation named another version.
    UnsupportedAuthVersion(u8),
    /// Wrong username or password.
    AuthenticationFailed,
    /// Another version in the request, or a command other than CONNECT.
    UnsupportedCommand,
    /// An address type other than IPv4, domain name or IPv6.
    UnsupportedAddressType(u8),
    /// The domain name is not UTF-8.
    InvalidDomain,
}

/// Where a negotiation stands: what the next bytes it reads will be.
#[derive(Clone, Copy, Debug, PartialEq, Eq, Structural)]
pub enum Socks5Phase {
    Greeting,
    Methods,
    AuthVersion,
    UserLength,
    User,
    PasswordLength,
    Password,
    Request,
    Ipv4Target,
    DomainLength,
    DomainTarget,
    Ipv6Target,
    Finished,
}

/// The mathematical content of a negotiation.
pub struct NegotiationModel {
    pub phase: Socks5Phase,
    /// How many bytes the next read must supply.
    pub expect: nat,
    pub requires_auth: bool,
    pub has_credentials: bool,
    pub expected_user: Seq<u8>,
    pub expected_pass: Seq<u8>,
    pub user: Seq<u8>,
    /// The configured username and password were presented.
    pub authenticated: bool,
}

/// What the caller does next.
#[derive(Debug)]
pub enum Socks5Step {
    /// Write `reply` (when not empty) and flush, then read exactly `read`
    /// bytes and feed them in.
    Continue { reply: Vec<u8>, read: usize },
    /// Negotiation done: connect to this target.
    Done(Socks5Target),
    /// Write `reply` (when not empty) and give up.
    Fail { reply: Vec<u8>, error: Socks5Error },
}

/// The mathematical content of a `Socks5Step`.
pub enum StepView {
    Continue { reply: Seq<u8>, read: nat },
    Done(TargetView),
    Fail { reply: Seq<u8>, error: Socks5Error },
}

impl Socks5Step {
    pub open spec fn view_of(&self) -> StepView {
        match self {
            Socks5Step::Continue { reply, read } => StepView::Continue {
                reply: reply@,
                read: *read as nat,
            },
            Socks5Step::Done(t) => StepView::Done(t.view_of()),
            Socks5Step::Fail { reply, error } => StepView::Fail { reply: reply@, error: *error },
        }
    }
}

/// The reply refusing every offered method.
pub open spec fn no_method_reply() -> Seq<u8> {
    seq![SOCKS5_VERSION, 0xFFu8]
}

/// A request reply with code `rep` and an empty IPv4 address.
pub open spec fn request_reply(rep: u8) -> Seq<u8> {
    seq![SOCKS5_VERSION, rep, 0u8, ATYP_IPV4, 0u8, 0u8, 0u8, 0u8, 0u8, 0u8]
}

/// A big-endian port.
pub open spec fn be_port(hi: u8, lo: u8) -> u16 {
    (hi * 256 + lo) as u16
}

/// Moves to `phase`, expecting `read` bytes, and says so.
pub open spec fn go(m: NegotiationModel, phase: Socks5Phase, reply: Seq<u8>, read: nat) -> (
    NegotiationModel,
    StepView,
) {
    (NegotiationModel { phase, expect: read, ..m }, StepView::Continue { reply, read })
}

/// Ends the negotiation with `error`.
pub open spec fn fail(m: NegotiationModel, reply: Seq<u8>, error: Socks5Error) -> (
    NegotiationModel,
    StepView,
) {
    (NegotiationModel { phase: Socks5Phase::Finished, expect: 0, ..m }, StepView::Fail { reply, error })
}

/// Ends the negotiation with the target.
pub open spec fn done(m: NegotiationModel, target: TargetView) -> (NegotiationModel, StepView) {
    (NegotiationModel { phase: Socks5Phase::Finished, expect: 0, ..m }, StepView::Done(target))
}

/// One step of the negotiation on the bytes `data` (as many as it asked
/// for); `limited` is whether the peer is rate-limited right now.
pub open spec fn spec_feed(m: NegotiationModel, data: Seq<u8>, limited: bool) -> (
    NegotiationModel,
    StepView,
) {
    match m.phase {
        Socks5Phase::Greeting => if data[0] != SOCKS5_VERSION {
            fail(m, Seq::empty(), Socks5Error::UnsupportedVersion(data[0]))
        } else {
            go(m, Socks5Phase::Methods, Seq::empty(), data[1] as nat)
        },
        Socks5Phase::Methods => if m.requires_auth && limited {
            fail(m, no_method_reply(), Socks5Error::RateLimited)
        } else if m.requires_auth {
            if !m.has_credentials {
                fail(m, Seq::empty(), Socks5Error::CredentialsNotConfigured)
            } else if !data.contains(AUTH_USER_PASS) {
                fail(m, no_method_reply(), Socks5Error::NoAcceptableMethod)
            } else {
                go(m, Socks5Phase::AuthVersion, seq![SOCKS5_VERSION, AUTH_USER_PASS], 1)
            }
        } else if !data.contains(AUTH_NO_AUTH) {
            fail(m, no_method_reply(), Socks5Error::NoAcceptableMethod)
        } else {
            go(m, Socks5Phase::Request, seq![SOCKS5_VERSION, AUTH_NO_AUTH], 4)
        },
        Socks5Phase::AuthVersion => if data[0] != 0x01 {
            fail(m, seq![0x01u8, 0x01u8], Socks5Error::UnsupportedAuthVersion(data[0]))
        } else {
            go(m, Socks5Phase::UserLength, Seq::empty(), 1)
        },
        Socks5Phase::UserLength => go(m, Socks5Phase::User, Seq::empty(), data[0] as nat),
        Socks5Phase::User => go(
            NegotiationModel { user: data, ..m },
            Socks5Phase::PasswordLength,
            Seq::empty(),
            1,
        ),
        Socks5Phase::PasswordLength => go(m, Socks5Phase::Password, Seq::empty(), data[0] as nat),
        Socks5Phase::Password => if m.user == m.expected_user && data == m.expected_pass {
            go(
                NegotiationModel { authenticated: true, ..m },
                Socks5Phase::Request,
                seq![0x01u8, 0x00u8],
                4,
            )
        } else {
            fail(m, seq![0x01u8, 0x01u8], Socks5Error::AuthenticationFailed)
        },
        Socks5Phase::Request => if data[0] != SOCKS5_VERSION || data[1] != CMD_CONNECT {
            fail(m, request_reply(0x07), Socks5Error::UnsupportedCommand)
        } else if data[3] == ATYP_IPV4 {
            go(m, Socks5Phase::Ipv4Target, Seq::empty(), 6)
        } else if data[3] == ATYP_DOMAIN {
            go(m, Socks5Phase::DomainLength, Seq::empty(), 1)
        } else if data[3] == ATYP_IPV6 {
            go(m, Socks5Phase::Ipv6Target, Seq::empty(), 18)
        } else {
            fail(m, request_reply(0x08), Socks5Error::UnsupportedAddressType(data[3]))
        },
        Socks5Phase::Ipv4Target => done(
            m,
            TargetView::V4 { octets: data.take(4), port: be_port(data[4], data[5]) },
        ),
        Socks5Phase::DomainLength => go(m, Socks5Phase::DomainTarget, Seq::empty(), (data[0] + 2) as nat),
        Socks5Phase::DomainTarget => {
            let n = data.len() - 2;
            if valid_utf8(data.take(n)) {
                done(
                    m,
                    TargetView::Domain {
                        name: decode_utf8(data.take(n)),
                        port: be_port(data[n], data[n + 1]),
                    },
                )
            } else {
                fail(m, Seq::empty(), Socks5Error::InvalidDomain)
            }
        },
        Socks5Phase::Ipv6Target => done(
            m,
            TargetView::V6 { octets: data.take(16), port: be_port(data[16], data[17]) },
        ),
        Socks5Phase::Finished => (m, StepView::Fail { reply: Seq::empty(), error: Socks5Error::InvalidDomain }),
    }
}

/// The step presents wrong credentials (and so counts as a failure).
pub open spec fn failed_auth(m: NegotiationModel, data: Seq<u8>) -> bool {
    m.phase == Socks5Phase::Password && !(m.user == m.expected_user && data == m.expected_pass)
}

/// Calls `std::str::from_utf8` on `bytes` and copies the text out. Trusted:
/// the result is present exactly when the bytes are valid UTF-8, and is
/// then the characters they encode.
#[verifier::external_body]
fn utf8_text(bytes: &[u8]) -> (r: Option<String>)
    ensures
        r is Some == valid_utf8(bytes@),
        r matches Some(s) ==> s@ == decode_utf8(bytes@),
{
    std::str::from_utf8(bytes).ok().map(|s| s.to_string())
}

fn copy_range(data: &[u8], from: usize, to: usize) -> (v: Vec<u8>)
    requires
        from <= to <= data@.len(),
    ensures
        v@ == data@.subrange(from as int, to as int),
{
    let mut v: Vec<u8> = Vec::new();
    let mut i: usize = from;
    while i < to
        invariant
            from <= i <= to <= data@.len(),
            v@ == data@.subrange(from as int, i as int),
        decreases to - i,
    {
        v.push(data[i]);
        proof {
            assert(data@.subrange(from as int, i as int).push(data@[i as int]) =~= data@.subrange(
                from as int,
                i + 1,
            ));
        }
        i = i + 1;
    }
    v
}

fn contains_byte(data: &[u8], b: u8) -> (r: bool)
    ensures
        r == data@.contains(b),
{
    let mut i: usize = 0;
    while i < data.len()
        invariant
            i <= data@.len(),
            forall|j: int| 0 <= j < i ==> data@[j] != b,
        decreases data@.len() - i,
    {
        if data[i] == b {
            assert(data@[i as int] == b);
            return true;
        }
        i = i + 1;
    }
    false
}

fn string_bytes(s: &Option<String>) -> (v: Vec<u8>)
    ensures
        v@ == match s {
            Some(t) => vstd::utf8::encode_utf8(t@),
            None => Seq::empty(),
        },
{
    match s {
        Some(t) => {
            let b = t.as_str().as_bytes();
            copy_range(b, 0, b.len())
        },
        None => Vec::new(),
    }
}

/// One SOCKS5 negotiation in progress.
pub struct Socks5Negotiation {
    phase: Socks5Phase,
    expect: usize,
    requires_auth: bool,
    has_credentials: bool,
    expected_user: Vec<u8>,
    expected_pass: Vec<u8>,
    user: Vec<u8>,
    authenticated: bool,
}

/// After authentication (when required) every phase but the last knows the
/// client authenticated, and only the configured credentials authenticate.
pub open spec fn negotiation_inv(m: NegotiationModel) -> bool {
    &&& m.requires_auth && (m.phase == Socks5Phase::Request || m.phase == Socks5Phase::Ipv4Target
        || m.phase == Socks5Phase::DomainLength || m.phase == Socks5Phase::DomainTarget || m.phase
        == Socks5Phase::Ipv6Target) ==> m.authenticated
    &&& m.authenticated ==> m.requires_auth && m.has_credentials
    &&& m.phase == Socks5Phase::Greeting ==> m.expect == 2
    &&& m.phase == Socks5Phase::AuthVersion || m.phase == Socks5Phase::UserLength || m.phase
        == Socks5Phase::PasswordLength || m.phase == Socks5Phase::DomainLength ==> m.expect == 1
    &&& m.phase == Socks5Phase::Request ==> m.expect == 4
    &&& m.phase == Socks5Phase::Ipv4Target ==> m.expect == 6
    &&& m.phase == Socks5Phase::Ipv6Target ==> m.expect == 18
    &&& m.phase == Socks5Phase::DomainTarget ==> m.expect >= 2
    &&& (m.phase == Socks5Phase::AuthVersion || m.phase == Socks5Phase::UserLength || m.phase
        == Socks5Phase::User || m.phase == Socks5Phase::PasswordLength || m.phase
        == Socks5Phase::Password) ==> m.requires_auth && m.has_credentials
}

impl Socks5Negotiation {
    pub closed spec fn model(&self) -> NegotiationModel {
        NegotiationModel {
            phase: self.phase,
            expect: self.expect as nat,
            requires_auth: self.requires_auth,
            has_credentials: self.has_credentials,
            expected_user: self.expected_user@,
            expected_pass: self.expected_pass@,
            user: self.user@,
            authenticated: self.authenticated,
        }
    }

    pub open spec fn wf(&self) -> bool {
        negotiation_inv(self.model())
    }

    /// A new negotiation under `config`. Without a configuration (used
    /// only by internal tests) anonymous access is allowed.
    pub fn new(config: &Option<Socks5Config>) -> (n: Self)
        ensures
            n.wf(),
            n.model().phase == Socks5Phase::Greeting,
            n.model().expect == 2,
            !n.model().authenticated,
            n.model().requires_auth == match config {
                Some(c) => !c.allow_anonymous,
                None => false,
            },
            n.model().has_credentials == (config matches Some(c) && c.username is Some
                && c.password is Some),
            config matches Some(c) ==> n.model().expected_user == match c.username {
                Some(u) => vstd::utf8::encode_utf8(u@),
                None => Seq::empty(),
            } && n.model().expected_pass == match c.password {
                Some(p) => vstd::utf8::encode_utf8(p@),
                None => Seq::empty(),
            },
    {
        let (requires_auth, has_credentials, expected_user, expected_pass) = match config {
            Some(c) => (
                !c.allow_anonymous,
                c.username.is_some() && c.password.is_some(),
                string_bytes(&c.username),
                string_bytes(&c.password),
            ),
            None => (false, false, Vec::new(), Vec::new()),
        };
        Socks5Negotiation {
            phase: Socks5Phase::Greeting,
            expect: 2,
            requires_auth,
            has_credentials,
            expected_user,
            expected_pass,
            user: Vec::new(),
            authenticated: false,
        }
    }

    /// How many bytes to read before the next `feed`.
    pub fn expected_len(&self) -> (n: usize)
        ensures
            n == self.model().expect,
    {
        self.expect
    }

    /// Whether the negotiation has ended.
    pub fn is_finished(&self) -> (b: bool)
        ensures
            b == (self.model().phase == Socks5Phase::Finished),
    {
        self.phase == Socks5Phase::Finished
    }

    fn go(&mut self, phase: Socks5Phase, reply: Vec<u8>, read: usize) -> (s: Socks5Step)
        ensures
            final(self).model() == (NegotiationModel { phase, expect: read as nat, ..old(self).model() }),
            s.view_of() == (StepView::Continue { reply: reply@, read: read as nat }),
    {
        self.phase = phase;
        self.expect = read;
        Socks5Step::Continue { reply, read }
    }

    fn fail(&mut self, reply: Vec<u8>, error: Socks5Error) -> (s: Socks5Step)
        ensures
            final(self).model() == (NegotiationModel {
                phase: Socks5Phase::Finished,
                expect: 0,
                ..old(self).model()
            }),
            s.view_of() == (StepView::Fail { reply: reply@, error }),
    {
        self.phase = Socks5Phase::Finished;
        self.expect = 0;
        Socks5Step::Fail { reply, error }
    }

    fn done(&mut self, target: Socks5Target) -> (s: Socks5Step)
        ensures
            final(self).model() == (NegotiationModel {
                phase: Socks5Phase::Finished,
                expect: 0,
                ..old(self).model()
            }),
            s.view_of() == StepView::Done(target.view_of()),
    {
        self.phase = Socks5Phase::Finished;
        self.expect = 0;
        Socks5Step::Done(target)
    }

    /// Feeds the bytes the negotiation asked for, read from `peer`'s
    /// connection at time `now`. The lockout state is consulted before any
    /// method is accepted, and a wrong username or password counts as a
    /// failure of the peer.
    pub fn feed(&mut self, data: &[u8], limiter: &mut RateLimiter, peer: PeerIp, now: u64) -> (step:
        Socks5Step)
        requires
            old(self).wf(),
            old(self).model().phase != Socks5Phase::Finished,
            data@.len() == old(self).model().expect,
            old(limiter).wf(),
            now <= u64::MAX - RATE_LIMIT_WINDOW_NS,
        ensures
            final(self).wf(),
            final(limiter).wf(),
            (final(self).model(), step.view_of()) == spec_feed(
                old(self).model(),
                data@,
                spec_is_rate_limited(old(limiter).view(), peer, now),
            ),
            final(limiter).view() == if failed_auth(old(self).model(), data@) {
                spec_record_failure(old(limiter).view(), peer, now)
            } else {
                old(limiter).view()
            },
            step is Done ==> !old(self).model().requires_auth || old(self).model().authenticated,
    {
        let ghost m = self.model();
        let ghost limited = spec_is_rate_limited(limiter.view(), peer, now);
        match self.phase {
            Socks5Phase::Greeting => {
                if data[0] != SOCKS5_VERSION {
                    self.fail(Vec::new(), Socks5Error::UnsupportedVersion(data[0]))
                } else {
                    let n = data[1] as usize;
                    self.go(Socks5Phase::Methods, Vec::new(), n)
                }
            },
            Socks5Phase::Methods => {
                if self.requires_auth && is_rate_limited(limiter, peer, now) {
                    let reply = vec![SOCKS5_VERSION, 0xFFu8];
                    proof {
                        assert(reply@ =~= no_method_reply());
                    }
                    return self.fail(reply, Socks5Error::RateLimited);
                }
                proof {
                    assert(!(m.requires_auth && limited));
                }
                if self.requires_auth {
                    if !self.has_credentials {
                        self.fail(Vec::new(), Socks5Error::CredentialsNotConfigured)
                    } else if !contains_byte(data, AUTH_USER_PASS) {
                        let reply = vec![SOCKS5_VERSION, 0xFFu8];
                        proof {
                            assert(reply@ =~= no_method_reply());
                        }
                        self.fail(reply, Socks5Error::NoAcceptableMethod)
                    } else {
                        let reply = vec![SOCKS5_VERSION, AUTH_USER_PASS];
                        proof {
                            assert(reply@ =~= seq![SOCKS5_VERSION, AUTH_USER_PASS]);
                        }
                        self.go(Socks5Phase::AuthVersion, reply, 1)
                    }
                } else if !contains_byte(data, AUTH_NO_AUTH) {
                    let reply = vec![SOCKS5_VERSION, 0xFFu8];
                    proof {
                        assert(reply@ =~= no_method_reply());
                    }
                    self.fail(reply, Socks5Error::NoAcceptableMethod)
                } else {
                    let reply = vec![SOCKS5_VERSION, AUTH_NO_AUTH];
                    proof {
                        assert(reply@ =~= seq![SOCKS5_VERSION, AUTH_NO_AUTH]);
                    }
                    self.go(Socks5Phase::Request, reply, 4)
                }
            },
            Socks5Phase::AuthVersion => {
                if data[0] != 0x01 {
                    let reply = vec![0x01u8, 0x01u8];
                    proof {
                        assert(reply@ =~= seq![0x01u8, 0x01u8]);
                    }
                    self.fail(reply, Socks5Error::UnsupportedAuthVersion(data[0]))
                } else {
                    self.go(Socks5Phase::UserLength, Vec::new(), 1)
                }
            },
            Socks5Phase::UserLength => {
                let n = data[0] as usize;
                self.go(Socks5Phase::User, Vec::new(), n)
            },
            Socks5Phase::User => {
                self.user = copy_range(data, 0, data.len());
                proof {
                    assert(data@.subrange(0, data@.len() as int) =~= data@);
                }
                self.go(Socks5Phase::PasswordLength, Vec::new(), 1)
            },
            Socks5Phase::PasswordLength => {
                let n = data[0] as usize;
                self.go(Socks5Phase::Password, Vec::new(), n)
            },
            Socks5Phase::Password => {
                // Both comparisons run before either result is looked at, so
                // timing shows neither which field was wrong nor how much of a
                // guess was right.
                let user_ok = constant_time_eq(self.user.as_slice(), self.expected_user.as_slice());
                let pass_ok = constant_time_eq(data, self.expected_pass.as_slice());
                if user_ok && pass_ok {
                    self.authenticated = true;
                    let reply = vec![0x01u8, 0x00u8];
                    proof {
                        assert(reply@ =~= seq![0x01u8, 0x00u8]);
                    }
                    self.go(Socks5Phase::Request, reply, 4)
                } else {
                    record_pairing_failure(limiter, peer, now);
                    let reply = vec![0x01u8, 0x01u8];
                    proof {
                        assert(reply@ =~= seq![0x01u8, 0x01u8]);
                    }
                    self.fail(reply, Socks5Error::AuthenticationFailed)
                }
            },
            Socks5Phase::Request => {
                if data[0] != SOCKS5_VERSION || data[1] != CMD_CONNECT {
                    let reply = vec![SOCKS5_VERSION, 0x07u8, 0x00u8, ATYP_IPV4, 0u8, 0u8, 0u8, 0u8, 0u8, 0u8];
                    proof {
                        assert(reply@ =~= request_reply(0x07));
                    }
                    self.fail(reply, Socks5Error::UnsupportedCommand)
                } else if data[3] == ATYP_IPV4 {
                    self.go(Socks5Phase::Ipv4Target, Vec::new(), 6)
                } else if data[3] == ATYP_DOMAIN {
                    self.go(Socks5Phase::DomainLength, Vec::new(), 1)
                } else if data[3] == ATYP_IPV6 {
                    self.go(Socks5Phase::Ipv6Target, Vec::new(), 18)
                } else {
                    let reply = vec![SOCKS5_VERSION, 0x08u8, 0x00u8, ATYP_IPV4, 0u8, 0u8, 0u8, 0u8, 0u8, 0u8];
                    proof {
                        assert(reply@ =~= request_reply(0x08));
                    }
                    self.fail(reply, Socks5Error::UnsupportedAddressType(data[3]))
                }
            },
            Socks5Phase::Ipv4Target => {
                let octets: [u8; 4] = [data[0], data[1], data[2], data[3]];
                let port = (data[4] as u16) * 256 + (data[5] as u16);
                proof {
                    assert(octets@ =~= data@.take(4));
                }
                self.done(Socks5Target::V4 { octets, port })
            },
            Socks5Phase::DomainLength => {
                let n = data[0] as usize + 2;
                self.go(Socks5Phase::DomainTarget, Vec::new(), n)
            },
            Socks5Phase::DomainTarget => {
                let n = data.len() - 2;
                let name_bytes = copy_range(data, 0, n);
                proof {
                    assert(name_bytes@ =~= data@.take(n as int));
                }
                match utf8_text(name_bytes.as_slice()) {
                    Some(name) => {
                        let port = (data[n] as u16) * 256 + (data[n + 1] as u16);
                        self.done(Socks5Target::Domain { name, port })
                    },
                    None => self.fail(Vec::new(), Socks5Error::InvalidDomain),
                }
            },
            Socks5Phase::Ipv6Target => {
                let octets: [u8; 16] = [
                    data[0],
                    data[1],
                    data[2],
                    data[3],
                    data[4],
                    data[5],
                    data[6],
                    data[7],
                    data[8],
                    data[9],
                    data[10],
                    data[11],
                    data[12],
                    data[13],
                    data[14],
                    data[15],
                ];
                let port = (data[16] as u16) * 256 + (data[17] as u16);
                proof {
                    assert(octets@ =~= data@.take(16));
                }
                self.done(Socks5Target::V6 { octets, port })
            },
            Socks5Phase::Finished => {
                self.fail(Vec::new(), Socks5Error::InvalidDomain)
            },
        }
    }
}

// --- Laws ------------------------------------------------------------------

/// Every phase keeps the negotiation's invariant: in particular, when
/// authentication is required, the phases that lead to a target are only
/// reached with the configured credentials.
pub proof fn lemma_feed_keeps_invariant(m: NegotiationModel, data: Seq<u8>, limited: bool)
    requires
        negotiation_inv(m),
        m.phase != Socks5Phase::Finished,
        data.len() == m.expect,
    ensures
        negotiation_inv(spec_feed(m, data, limited).0),
        spec_feed(m, data, limited).1 is Done ==> !m.requires_auth || m.authenticated,
        spec_feed(m, data, limited).0.authenticated && !m.authenticated ==> (m.phase
            == Socks5Phase::Password && m.user == m.expected_user && data == m.expected_pass),
{
}

/// The target comes from the request's address bytes: an IPv4 target is
/// the first four bytes with the port in the next two, big-endian; an IPv6
/// target the first sixteen with the port in the next two; a domain
/// target's port is the last two bytes, big-endian.
pub proof fn lemma_target_read_from_request(m: NegotiationModel, data: Seq<u8>, limited: bool)
    requires
        negotiation_inv(m),
        data.len() == m.expect,
    ensures
        m.phase == Socks5Phase::Ipv4Target ==> (spec_feed(m, data, limited).1 matches StepView::Done(
            TargetView::V4 { octets, port },
        ) && octets == data.take(4) && port as int == data[4] as int * 256 + data[5] as int),
        m.phase == Socks5Phase::Ipv6Target ==> (spec_feed(m, data, limited).1 matches StepView::Done(
            TargetView::V6 { octets, port },
        ) && octets == data.take(16) && port as int == data[16] as int * 256 + data[17] as int),
        m.phase == Socks5Phase::DomainTarget && spec_feed(m, data, limited).1 is Done ==> (spec_feed(
            m,
            data,
            limited,
        ).1 matches StepView::Done(TargetView::Domain { port, .. }) && port as int == data[data.len()
            - 2] as int * 256 + data[data.len() - 1] as int),
{
}

/// A rate-limited peer is turned away when it offers its methods, before
/// it can present any credentials, whenever authentication is required.
pub proof fn lemma_rate_limited_peer_never_authenticates(m: NegotiationModel, data: Seq<u8>)
    requires
        m.phase == Socks5Phase::Methods,
        m.requires_auth,
    ensures
        spec_feed(m, data, true).1 == (StepView::Fail {
            reply: no_method_reply(),
            error: Socks5Error::RateLimited,
        }),
        spec_feed(m, data, true).0.phase == Socks5Phase::Finished,
{
}

} // verus!
