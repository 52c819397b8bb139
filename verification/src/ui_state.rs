//! The control panel's view of its one connection: which connection
//! attempt currently owns the panel (a generation number that every new
//! attempt and every disconnect advances), the session installed by it, and
//! the status shown to the user. An attempt that was overtaken never
//! installs its session or changes the status.

use crate::client_session::SessionEvent;
use crate::protocol::PROTOCOL_VERSION;
use crate::server_session::copy_string;
use vstd::prelude::*;
use vstd::string::StringExecFns;

verus! {

/// What the panel knows of the installed session.
#[derive(Debug)]
pub struct ActiveSessionInfo {
    pub address: String,
    pub server_name: String,
    pub fingerprint: String,
    pub file_port: u16,
    pub host: String,
}

/// The status shown to the user.
#[derive(Debug)]
pub struct KvmStatus {
    pub connected: bool,
    pub address: Option<String>,
    pub server_name: Option<String>,
    pub fingerprint: Option<String>,
    pub forwarding_active: bool,
    pub last_error: Option<String>,
    pub latency_ms: Option<u64>,
    pub version: String,
}

/// The panel's state.
pub struct UiState {
    generation: u64,
    session: Option<ActiveSessionInfo>,
    forwarding_active: bool,
    last_error: Option<String>,
    latency_ms: Option<u64>,
}

/// The mathematical content of an `ActiveSessionInfo`.
pub struct SessionView {
    pub address: Seq<char>,
    pub server_name: Seq<char>,
    pub fingerprint: Seq<char>,
    pub file_port: u16,
    pub host: Seq<char>,
}

impl ActiveSessionInfo {
    pub open spec fn view_of(&self) -> SessionView {
        SessionView {
            address: self.address@,
            server_name: self.server_name@,
            fingerprint: self.fingerprint@,
            file_port: self.file_port,
            host: self.host@,
        }
    }
}

/// The mathematical content of a `UiState`.
pub struct UiView {
    pub generation: u64,
    pub session: Option<SessionView>,
    pub forwarding_active: bool,
    pub last_error: Option<Seq<char>>,
    pub latency_ms: Option<u64>,
}

fn copy_opt(s: &Option<String>) -> (c: Option<String>)
    ensures
        match s {
            Some(t) => c matches Some(u) && u@ == t@,
            None => c is None,
        },
{
    match s {
        Some(t) => Some(copy_string(t)),
        None => None,
    }
}

/// The generation after `g` (wrapping around, as an atomic counter does).
pub open spec fn next_generation(g: u64) -> u64 {
    if g == u64::MAX {
        0
    } else {
        (g + 1) as u64
    }
}

impl UiState {
    pub closed spec fn view(&self) -> UiView {
        UiView {
            generation: self.generation,
            session: match self.session {
                Some(a) => Some(a.view_of()),
                None => None,
            },
            forwarding_active: self.forwarding_active,
            last_error: match self.last_error {
                Some(e) => Some(e@),
                None => None,
            },
            latency_ms: self.latency_ms,
        }
    }

    /// Nothing connected, generation zero.
    pub fn new() -> (s: Self)
        ensures
            s.view() == (UiView {
                generation: 0,
                session: None,
                forwarding_active: false,
                last_error: None,
                latency_ms: None,
            }),
    {
        UiState { generation: 0, session: None, forwarding_active: false, last_error: None, latency_ms: None }
    }

    /// Starts a new generation, dropping the installed session (the caller
    /// cancels it when the flag says there was one). Returns the new
    /// generation, which the caller's attempt owns.
    pub fn reset_session(&mut self) -> (r: (u64, bool))
        ensures
            r.0 == final(self).view().generation,
            final(self).view().generation == next_generation(old(self).view().generation),
            r.1 == old(self).view().session is Some,
            final(self).view().session is None,
            !final(self).view().forwarding_active,
            final(self).view().last_error == old(self).view().last_error,
            final(self).view().latency_ms == old(self).view().latency_ms,
    {
        self.generation = self.generation.wrapping_add(1);
        let had = self.session.is_some();
        self.session = None;
        self.forwarding_active = false;
        (self.generation, had)
    }

    /// Disconnects: a new generation, and no error or latency shown.
    pub fn disconnect(&mut self) -> (had_session: bool)
        ensures
            had_session == old(self).view().session is Some,
            final(self).view() == (UiView {
                generation: next_generation(old(self).view().generation),
                session: None,
                forwarding_active: false,
                last_error: None,
                latency_ms: None,
            }),
    {
        let (_, had) = self.reset_session();
        self.last_error = None;
        self.latency_ms = None;
        had
    }

    /// Installs the session of the attempt of generation `my_gen`, unless a
    /// newer attempt or a disconnect overtook it; says whether it did (if
    /// not, the caller tears the session down).
    pub fn install_active_session(&mut self, my_gen: u64, info: ActiveSessionInfo) -> (installed: bool)
        ensures
            installed == (my_gen == old(self).view().generation),
            installed ==> final(self).view() == (UiView { session: Some(info.view_of()), ..old(self).view() }),
            !installed ==> final(self).view() == old(self).view(),
    {
        if self.generation != my_gen {
            return false;
        }
        self.session = Some(info);
        true
    }

    /// Applies an event of the session of generation `my_gen`; says whether
    /// that session still owns the panel (if not, its events stop being
    /// forwarded).
    pub fn apply_event(&mut self, my_gen: u64, event: &SessionEvent) -> (current: bool)
        ensures
            current == (my_gen == old(self).view().generation),
            !current ==> final(self).view() == old(self).view(),
            current ==> final(self).view() == match event {
                SessionEvent::ForwardingChanged(on) => UiView { forwarding_active: *on, ..old(self).view() },
                SessionEvent::Latency { ms } => UiView { latency_ms: Some(*ms), ..old(self).view() },
                SessionEvent::Error(msg) => UiView { last_error: Some(msg@), ..old(self).view() },
                SessionEvent::Disconnected { reason } => UiView {
                    last_error: Some(reason@),
                    ..old(self).view()
                },
                _ => old(self).view(),
            },
    {
        if self.generation != my_gen {
            return false;
        }
        match event {
            SessionEvent::ForwardingChanged(on) => {
                self.forwarding_active = *on;
            },
            SessionEvent::Latency { ms } => {
                self.latency_ms = Some(*ms);
            },
            SessionEvent::Error(msg) => {
                self.last_error = Some(copy_string(msg));
            },
            SessionEvent::Disconnected { reason } => {
                self.last_error = Some(copy_string(reason));
            },
            _ => {},
        }
        true
    }

    /// Records a failed reconnect of generation `my_gen`; says whether that
    /// attempt still owns the panel (if not, it stops retrying).
    pub fn record_reconnect_error(&mut self, my_gen: u64, message: String) -> (current: bool)
        ensures
            current == (my_gen == old(self).view().generation),
            current ==> final(self).view() == (UiView { last_error: Some(message@), ..old(self).view() }),
            !current ==> final(self).view() == old(self).view(),
    {
        if self.generation != my_gen {
            return false;
        }
        self.last_error = Some(message);
        true
    }

    /// The session of generation `my_gen` ended for good: when it still owns
    /// the panel, nothing is connected any more.
    pub fn session_finished(&mut self, my_gen: u64)
        ensures
            my_gen == old(self).view().generation ==> final(self).view() == (UiView {
                session: None,
                forwarding_active: false,
                ..old(self).view()
            }),
            my_gen != old(self).view().generation ==> final(self).view() == old(self).view(),
    {
        if self.generation == my_gen {
            self.session = None;
            self.forwarding_active = false;
        }
    }

    /// The forwarding state a toggle asks for: the opposite of the current
    /// one, when connected.
    pub fn toggle_target(&self) -> (r: Result<bool, String>)
        ensures
            self.view().session is Some ==> r == Ok::<bool, String>(!self.view().forwarding_active),
            self.view().session is None ==> (r matches Err(m) && m@ == "not connected to a server"@),
    {
        match &self.session {
            Some(_) => Ok(!self.forwarding_active),
            None => Err(String::from_str("not connected to a server")),
        }
    }

    /// Where files go: the installed session's host, file port and pinned
    /// fingerprint.
    pub fn file_target(&self) -> (r: Result<(String, u16, String), String>)
        ensures
            match self.view().session {
                Some(v) => r matches Ok((host, port, fp)) && host@ == v.host && port == v.file_port
                    && fp@ == v.fingerprint,
                None => r matches Err(m) && m@ == "not connected to a server"@,
            },
    {
        match &self.session {
            Some(s) => Ok((copy_string(&s.host), s.file_port, copy_string(&s.fingerprint))),
            None => Err(String::from_str("not connected to a server")),
        }
    }

    /// The status to show.
    pub fn status(&self) -> (s: KvmStatus)
        ensures
            s.connected == self.view().session is Some,
            s.forwarding_active == self.view().forwarding_active,
            s.latency_ms == self.view().latency_ms,
            s.version@ == PROTOCOL_VERSION@,
            match self.view().session {
                Some(v) => (s.address matches Some(a) && a@ == v.address) && (s.server_name matches Some(n)
                    && n@ == v.server_name) && (s.fingerprint matches Some(f) && f@ == v.fingerprint),
                None => s.address is None && s.server_name is None && s.fingerprint is None,
            },
            match s.last_error {
                Some(e) => self.view().last_error == Some(e@),
                None => self.view().last_error is None,
            },
    {
        let (connected, address, server_name, fingerprint) = match &self.session {
            Some(a) => (
                true,
                Some(copy_string(&a.address)),
                Some(copy_string(&a.server_name)),
                Some(copy_string(&a.fingerprint)),
            ),
            None => (false, None, None, None),
        };
        KvmStatus {
            connected,
            address,
            server_name,
            fingerprint,
            forwarding_active: self.forwarding_active,
            last_error: copy_opt(&self.last_error),
            latency_ms: self.latency_ms,
            version: String::from_str(PROTOCOL_VERSION),
        }
    }
}

/// An attempt overtaken by a newer one or by a disconnect never installs
/// its session: after a reset, only the new generation can install.
pub proof fn lemma_overtaken_attempt_never_installs(old_gen: u64, my_gen: u64)
    requires
        old_gen < u64::MAX,
        my_gen <= old_gen,
    ensures
        my_gen != next_generation(old_gen),
{
}

} // verus!
