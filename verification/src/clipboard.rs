//! Clipboard sync without echo: each side remembers the last text it put on
//! or sent from its clipboard, so a value received from the peer is never
//! sent straight back.

use crate::server_session::MAX_CLIPBOARD_BYTES;
use crate::text::str_eq;
use vstd::prelude::*;
use vstd::string::StringExecFns;
use vstd::utf8::encode_utf8;

verus! {

/// `text` is small enough to sync.
pub open spec fn syncable(text: Seq<char>) -> bool {
    encode_utf8(text).len() <= MAX_CLIPBOARD_BYTES
}

fn fits(text: &String) -> (r: bool)
    ensures
        r == syncable(text@),
{
    text.as_str().as_bytes().len() <= MAX_CLIPBOARD_BYTES
}

fn copy_of(s: &String) -> (c: String)
    ensures
        c@ == s@,
{
    let mut c = String::new();
    c.append(s.as_str());
    c
}

// --- The server's watcher ----------------------------------------------------

/// Whether the server applies `text` from a client, and what it then
/// remembers.
pub open spec fn server_remote(last: Seq<char>, text: Seq<char>) -> (bool, Seq<char>) {
    if text != last && syncable(text) {
        (true, text)
    } else {
        (false, last)
    }
}

/// Whether the server broadcasts its clipboard `current`, and what it then
/// remembers.
pub open spec fn server_local(last: Seq<char>, current: Seq<char>) -> (bool, Seq<char>) {
    if current != last && current.len() > 0 && syncable(current) {
        (true, current)
    } else {
        (false, last)
    }
}

/// The server's memory of the last clipboard text it saw or set.
pub struct ServerClipboard {
    last_seen: String,
}

impl ServerClipboard {
    pub closed spec fn last(&self) -> Seq<char> {
        self.last_seen@
    }

    /// Starts from the clipboard's current text (empty if unreadable).
    pub fn new(initial: String) -> (c: Self)
        ensures
            c.last() == initial@,
    {
        ServerClipboard { last_seen: initial }
    }

    /// A client sent `text`: whether to put it on the local clipboard.
    pub fn on_remote(&mut self, text: &String) -> (apply: bool)
        ensures
            (apply, final(self).last()) == server_remote(old(self).last(), text@),
    {
        if !str_eq(text.as_str(), self.last_seen.as_str()) && fits(text) {
            self.last_seen = copy_of(text);
            true
        } else {
            false
        }
    }

    /// The local clipboard holds `current`: whether to broadcast it.
    pub fn on_local(&mut self, current: &String) -> (send: bool)
        ensures
            (send, final(self).last()) == server_local(old(self).last(), current@),
    {
        if !str_eq(current.as_str(), self.last_seen.as_str()) && !current.as_str().is_empty()
            && fits(current) {
            self.last_seen = copy_of(current);
            true
        } else {
            false
        }
    }
}

// --- The client's watcher ----------------------------------------------------

/// What the client remembers after trying to put `text` from the server on
/// its clipboard (`set_ok` when that worked).
pub open spec fn client_remote(last: Option<Seq<char>>, text: Seq<char>, set_ok: bool) -> Option<
    Seq<char>,
> {
    if set_ok {
        Some(text)
    } else {
        last
    }
}

/// Whether the client sends its clipboard `current`, and what it then
/// remembers.
pub open spec fn client_local(last: Option<Seq<char>>, current: Seq<char>) -> (bool, Option<
    Seq<char>,
>) {
    if current.len() > 0 && syncable(current) && last != Some(current) {
        (true, Some(current))
    } else {
        (false, last)
    }
}

/// The client's memory of the last clipboard text it set or sent.
pub struct ClientClipboard {
    last_seen: Option<String>,
}

impl ClientClipboard {
    pub closed spec fn last(&self) -> Option<Seq<char>> {
        match self.last_seen {
            Some(s) => Some(s@),
            None => None,
        }
    }

    /// Nothing seen yet.
    pub fn new() -> (c: Self)
        ensures
            c.last() is None,
    {
        ClientClipboard { last_seen: None }
    }

    /// The server's `text` was put on the clipboard (`set_ok`) or not.
    pub fn on_remote(&mut self, text: &String, set_ok: bool)
        ensures
            final(self).last() == client_remote(old(self).last(), text@, set_ok),
    {
        if set_ok {
            self.last_seen = Some(copy_of(text));
        }
    }

    /// The local clipboard holds `current`: whether to send it.
    pub fn on_local(&mut self, current: &String) -> (send: bool)
        ensures
            (send, final(self).last()) == client_local(old(self).last(), current@),
    {
        let same = match &self.last_seen {
            Some(s) => str_eq(s.as_str(), current.as_str()),
            None => false,
        };
        if !current.as_str().is_empty() && fits(current) && !same {
            self.last_seen = Some(copy_of(current));
            true
        } else {
            false
        }
    }
}

// --- Laws ------------------------------------------------------------------

/// Whatever the server does with a client's text, it never broadcasts that
/// same text back on its next look at the clipboard.
pub proof fn lemma_server_never_echoes(last: Seq<char>, text: Seq<char>)
    ensures
        !server_local(server_remote(last, text).1, text).0,
{
}

/// Text that the client put on its clipboard from the server is not sent
/// back to the server.
pub proof fn lemma_client_never_echoes(last: Option<Seq<char>>, text: Seq<char>)
    ensures
        !client_local(client_remote(last, text, true), text).0,
{
}

} // verus!
