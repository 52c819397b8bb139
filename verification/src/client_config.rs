//! The client's configuration: its stable identity (a random secret whose
//! SHA-256 is the fingerprint the server pairs) and the servers it knows,
//! with the certificate fingerprint pinned for each address.

use crate::assoc::{
    assoc_map, keys_unique, lemma_assoc_absent, lemma_assoc_index, lemma_assoc_push,
    lemma_assoc_remove, lemma_assoc_set,
};
use crate::clock::{utc_now, Timestamp};
use crate::crypto::{random_32, sha256, sha256_digest};
use crate::server_session::copy_string;
use crate::text::{push_char, str_eq};
use vstd::prelude::*;
use vstd::seq_lib::to_multiset_build;
use vstd::seq_lib::to_multiset_insert;
use vstd::utf8::{encode_utf8, is_ascii_chars, is_ascii_chars_encode_utf8};

verus! {

// --- Hex ---------------------------------------------------------------------

/// The lowercase hex digit for `d < 16`.
pub open spec fn hex_digit(d: int) -> char {
    if d < 10 {
        ('0' as int + d) as char
    } else {
        ('a' as int + (d - 10)) as char
    }
}

/// Two lowercase hex digits per byte.
pub open spec fn spec_hex_encode(bytes: Seq<u8>) -> Seq<char> {
    Seq::new(
        2 * bytes.len(),
        |k: int|
            if k % 2 == 0 {
                hex_digit((bytes[k / 2] / 16) as int)
            } else {
                hex_digit((bytes[k / 2] % 16) as int)
            },
    )
}

/// The value of one ASCII hex digit of either case.
pub open spec fn hex_value(b: u8) -> Option<u8> {
    if 48 <= b && b <= 57 {
        Some((b - 48) as u8)
    } else if 97 <= b && b <= 102 {
        Some((b - 87) as u8)
    } else if 65 <= b && b <= 70 {
        Some((b - 55) as u8)
    } else {
        None
    }
}

/// Every pair of `bytes` is two hex digits.
pub open spec fn hex_pairs_valid(bytes: Seq<u8>) -> bool {
    forall|k: int|
        0 <= k < bytes.len() / 2 ==> hex_value(#[trigger] bytes[2 * k]) is Some && hex_value(
            bytes[2 * k + 1],
        ) is Some
}

/// The bytes that hex text (taken as its raw bytes) spells: `None` for an
/// odd length or a byte that is not a hex digit.
pub open spec fn spec_hex_decode(bytes: Seq<u8>) -> Option<Seq<u8>> {
    if bytes.len() % 2 != 0 || !hex_pairs_valid(bytes) {
        None
    } else {
        Some(
            Seq::new(
                bytes.len() / 2,
                |k: int|
                    (hex_value(bytes[2 * k])->0 * 16 + hex_value(bytes[2 * k + 1])->0) as u8,
            ),
        )
    }
}

fn hex_digit_char(d: u8) -> (c: char)
    requires
        d < 16,
    ensures
        c == hex_digit(d as int),
{
    let table: [char; 16] = [
        '0',
        '1',
        '2',
        '3',
        '4',
        '5',
        '6',
        '7',
        '8',
        '9',
        'a',
        'b',
        'c',
        'd',
        'e',
        'f',
    ];
    table[d as usize]
}

/// Lowercase hex, two digits per byte.
pub fn hex_encode(bytes: &[u8]) -> (s: String)
    ensures
        s@ == spec_hex_encode(bytes@),
{
    let mut s = String::new();
    let mut i: usize = 0;
    while i < bytes.len()
        invariant
            i <= bytes@.len(),
            s@ == spec_hex_encode(bytes@.take(i as int)),
        decreases bytes@.len() - i,
    {
        let b = bytes[i];
        push_char(&mut s, hex_digit_char(b / 16));
        push_char(&mut s, hex_digit_char(b % 16));
        proof {
            let t = bytes@.take(i + 1);
            assert(s@ =~= spec_hex_encode(t)) by {
                assert forall|k: int| 0 <= k < 2 * t.len() implies s@[k] == spec_hex_encode(t)[k] by {
                    if k < 2 * i {
                        assert(t[k / 2] == bytes@.take(i as int)[k / 2]);
                    }
                }
            }
        }
        i = i + 1;
    }
    proof {
        assert(bytes@.take(bytes@.len() as int) =~= bytes@);
    }
    s
}

fn hex_value_of(b: u8) -> (r: Option<u8>)
    ensures
        r == hex_value(b),
{
    if 48 <= b && b <= 57 {
        Some(b - 48)
    } else if 97 <= b && b <= 102 {
        Some(b - 87)
    } else if 65 <= b && b <= 70 {
        Some(b - 55)
    } else {
        None
    }
}

/// Decodes hex text, looking at its raw bytes (so text with multi-byte
/// characters simply fails to decode).
pub fn hex_decode(s: &str) -> (r: Option<Vec<u8>>)
    ensures
        match r {
            Some(v) => spec_hex_decode(encode_utf8(s@)) == Some(v@),
            None => spec_hex_decode(encode_utf8(s@)) is None,
        },
{
    let bytes = s.as_bytes();
    let n = bytes.len();
    if n % 2 != 0 {
        return None;
    }
    let mut out: Vec<u8> = Vec::new();
    let mut k: usize = 0;
    while k < n / 2
        invariant
            n == bytes@.len(),
            bytes@ == encode_utf8(s@),
            n % 2 == 0,
            k <= n / 2,
            out@.len() == k,
            forall|j: int|
                0 <= j < k ==> hex_value(#[trigger] bytes@[2 * j]) is Some && hex_value(
                    bytes@[2 * j + 1],
                ) is Some,
            forall|j: int|
                0 <= j < k ==> #[trigger] out@[j] == (hex_value(bytes@[2 * j])->0 * 16
                    + hex_value(bytes@[2 * j + 1])->0) as u8,
        decreases n / 2 - k,
    {
        let hi = hex_value_of(bytes[2 * k]);
        let lo = hex_value_of(bytes[2 * k + 1]);
        match (hi, lo) {
            (Some(h), Some(l)) => {
                out.push(h * 16 + l);
            },
            _ => {
                proof {
                    assert(!hex_pairs_valid(bytes@)) by {
                        assert(0 <= k < bytes@.len() / 2);
                    }
                }
                return None;
            },
        }
        k = k + 1;
    }
    proof {
        assert(hex_pairs_valid(bytes@));
        let expected = Seq::new(
            bytes@.len() / 2,
            |j: int|
                (hex_value(bytes@[2 * j])->0 * 16 + hex_value(bytes@[2 * j + 1])->0) as u8,
        );
        assert(out@ =~= expected);
    }
    Some(out)
}

proof fn lemma_hex_digit_value(d: int)
    requires
        0 <= d < 16,
    ensures
        '\0' <= hex_digit(d) <= '\u{7f}',
        hex_value(hex_digit(d) as u8) == Some(d as u8),
{
    if d < 10 {
        assert(hex_digit(d) as u8 == 48 + d);
    } else {
        assert(hex_digit(d) as u8 == 97 + (d - 10));
    }
}

/// Hex-encoding bytes and decoding the text gives the bytes back.
pub proof fn lemma_hex_round_trip(bytes: Seq<u8>)
    ensures
        spec_hex_decode(encode_utf8(spec_hex_encode(bytes))) == Some(bytes),
        spec_hex_encode(bytes).len() == 2 * bytes.len(),
{
    let t = spec_hex_encode(bytes);
    assert forall|k: int| 0 <= k < t.len() implies '\0' <= #[trigger] t[k] <= '\u{7f}' by {
        if k % 2 == 0 {
            lemma_hex_digit_value((bytes[k / 2] / 16) as int);
        } else {
            lemma_hex_digit_value((bytes[k / 2] % 16) as int);
        }
    }
    assert(is_ascii_chars(t));
    is_ascii_chars_encode_utf8(t);
    let e = encode_utf8(t);
    assert(e.len() == 2 * bytes.len());
    assert forall|k: int| 0 <= k < e.len() / 2 implies hex_value(#[trigger] e[2 * k]) == Some(
        (bytes[k] / 16) as u8,
    ) && hex_value(e[2 * k + 1]) == Some((bytes[k] % 16) as u8) by {
        assert(t[2 * k] as u8 == e[2 * k]);
        assert(t[2 * k + 1] as u8 == e[2 * k + 1]);
        assert((2 * k) / 2 == k);
        assert((2 * k + 1) / 2 == k);
        assert((2 * k) % 2 == 0);
        assert((2 * k + 1) % 2 == 1);
        lemma_hex_digit_value((bytes[k] / 16) as int);
        lemma_hex_digit_value((bytes[k] % 16) as int);
    }
    assert(hex_pairs_valid(e));
    let d = spec_hex_decode(e)->0;
    assert forall|k: int| 0 <= k < bytes.len() implies d[k] == bytes[k] by {
        assert(hex_value(e[2 * k]) == Some((bytes[k] / 16) as u8));
        assert((bytes[k] / 16) * 16 + bytes[k] % 16 == bytes[k]);
    }
    assert(d =~= bytes);
}

// --- Known servers -----------------------------------------------------------

/// A server this client connected to, under the address it was reached at.
#[derive(Debug)]
pub struct KnownServer {
    pub name: String,
    pub address: String,
    pub fingerprint: String,
    pub last_connected: Timestamp,
}

/// The mathematical content of a `KnownServer`.
pub struct ServerView {
    pub name: Seq<char>,
    pub address: Seq<char>,
    pub fingerprint: Seq<char>,
    pub last_connected: Timestamp,
}

impl KnownServer {
    pub open spec fn view_of(&self) -> ServerView {
        ServerView {
            name: self.name@,
            address: self.address@,
            fingerprint: self.fingerprint@,
            last_connected: self.last_connected,
        }
    }

    /// A copy with the same content.
    pub fn copy(&self) -> (c: KnownServer)
        ensures
            c.view_of() == self.view_of(),
    {
        KnownServer {
            name: copy_string(&self.name),
            address: copy_string(&self.address),
            fingerprint: copy_string(&self.fingerprint),
            last_connected: self.last_connected,
        }
    }
}

impl Default for KnownServer {
    /// Empty strings, connected now.
    fn default() -> (s: Self)
        ensures
            s.name@.len() == 0,
            s.address@.len() == 0,
            s.fingerprint@.len() == 0,
    {
        KnownServer {
            name: String::new(),
            address: String::new(),
            fingerprint: String::new(),
            last_connected: utc_now(),
        }
    }
}

/// The client's configuration. Known servers are kept one per address
/// (`wf`).
#[derive(Debug)]
pub struct Config {
    /// The last server connected to (`host:port`, IPv6 bracketed).
    pub last_server: Option<String>,
    pub known_servers: Vec<KnownServer>,
    /// Reserved for the UI.
    pub auto_connect: bool,
    /// 32 random bytes, hex-encoded; empty until first generated.
    pub client_secret: String,
}

impl Default for Config {
    fn default() -> (c: Self)
        ensures
            c.wf(),
            c.last_server is None,
            c.servers() == Map::<Seq<char>, ServerView>::empty(),
            !c.auto_connect,
            c.client_secret@.len() == 0,
    {
        let c = Config {
            last_server: None,
            known_servers: Vec::new(),
            auto_connect: false,
            client_secret: String::new(),
        };
        proof {
            assert(c.server_pairs() =~= Seq::<(Seq<char>, ServerView)>::empty());
        }
        c
    }
}

/// The fingerprint of a client whose secret is the text `secret`: the
/// lowercase hex SHA-256 of the bytes the secret spells (of no bytes when
/// it spells none).
pub open spec fn spec_client_fingerprint(secret: Seq<char>) -> Seq<char> {
    spec_hex_encode(
        sha256_digest(
            match spec_hex_decode(encode_utf8(secret)) {
                Some(b) => b,
                None => Seq::empty(),
            },
        ),
    )
}

/// Servers sorted from the most recently connected on.
pub open spec fn newest_first(s: Seq<ServerView>) -> bool {
    forall|i: int, j: int|
        0 <= i < j < s.len() ==> !(#[trigger] s[i]).last_connected.spec_before(
            (#[trigger] s[j]).last_connected,
        )
}

impl Config {
    pub open spec fn server_pairs(&self) -> Seq<(Seq<char>, ServerView)> {
        self.known_servers@.map_values(|s: KnownServer| (s.address@, s.view_of()))
    }

    /// No address is known twice.
    pub open spec fn wf(&self) -> bool {
        keys_unique(self.server_pairs())
    }

    /// The known servers by address.
    pub open spec fn servers(&self) -> Map<Seq<char>, ServerView> {
        assoc_map(self.server_pairs())
    }

    /// Generates the secret from `bytes` if there is none yet; says whether
    /// it did (the caller then saves the configuration).
    pub fn ensure_client_secret_with(&mut self, bytes: &[u8; 32]) -> (generated: bool)
        ensures
            generated == (old(self).client_secret@.len() == 0),
            final(self).client_secret@ == if generated {
                spec_hex_encode(bytes@)
            } else {
                old(self).client_secret@
            },
            final(self).last_server == old(self).last_server,
            final(self).known_servers@ == old(self).known_servers@,
            final(self).auto_connect == old(self).auto_connect,
    {
        if self.client_secret.as_str().is_empty() {
            self.client_secret = hex_encode(bytes);
            true
        } else {
            false
        }
    }

    /// Generates the secret from 32 random bytes if there is none yet; says
    /// whether it did.
    pub fn ensure_client_secret(&mut self) -> (generated: bool)
        ensures
            generated == (old(self).client_secret@.len() == 0),
            generated ==> exists|b: Seq<u8>| b.len() == 32 && final(self).client_secret@ == spec_hex_encode(b),
            !generated ==> final(self).client_secret@ == old(self).client_secret@,
            final(self).last_server == old(self).last_server,
            final(self).known_servers@ == old(self).known_servers@,
            final(self).auto_connect == old(self).auto_connect,
    {
        let bytes = random_32();
        self.ensure_client_secret_with(&bytes)
    }

    /// This client's fingerprint: lowercase hex SHA-256 of the secret's
    /// bytes (an empty or unreadable secret hashes no bytes).
    pub fn client_fingerprint(&self) -> (fp: String)
        ensures
            fp@ == spec_client_fingerprint(self.client_secret@),
            fp@.len() == 64,
    {
        let bytes = match hex_decode(self.client_secret.as_str()) {
            Some(b) => b,
            None => Vec::new(),
        };
        let digest = sha256(bytes.as_slice());
        hex_encode(&digest)
    }

    fn position(&self, address: &str) -> (r: Option<usize>)
        ensures
            r matches Some(i) ==> i < self.server_pairs().len() && self.server_pairs()[i as int].0
                == address@,
            r is None ==> forall|i: int|
                0 <= i < self.server_pairs().len() ==> self.server_pairs()[i].0 != address@,
    {
        let mut i: usize = 0;
        while i < self.known_servers.len()
            invariant
                i <= self.known_servers@.len(),
                self.server_pairs().len() == self.known_servers@.len(),
                forall|j: int| 0 <= j < i ==> self.server_pairs()[j].0 != address@,
            decreases self.known_servers@.len() - i,
        {
            if str_eq(self.known_servers[i].address.as_str(), address) {
                return Some(i);
            }
            i = i + 1;
        }
        None
    }

    fn put_server(&mut self, server: KnownServer)
        requires
            old(self).wf(),
        ensures
            final(self).wf(),
            final(self).servers() == old(self).servers().insert(server.address@, server.view_of()),
            final(self).last_server == old(self).last_server,
            final(self).client_secret == old(self).client_secret,
            final(self).auto_connect == old(self).auto_connect,
    {
        let ghost old_pairs = self.server_pairs();
        let ghost sv = server.view_of();
        match self.position(server.address.as_str()) {
            Some(i) => {
                proof {
                    lemma_assoc_set(old_pairs, i as int, sv);
                }
                self.known_servers.set(i, server);
                proof {
                    assert(self.server_pairs() =~= old_pairs.update(i as int, (sv.address, sv)));
                }
            },
            None => {
                proof {
                    lemma_assoc_push(old_pairs, sv.address, sv);
                }
                self.known_servers.push(server);
                proof {
                    assert(self.server_pairs() =~= old_pairs.push((sv.address, sv)));
                }
            },
        }
    }

    /// Records a successful connection to `address`, as of `at`: it becomes
    /// the last server, and its entry is (re)written.
    pub fn add_known_server_at(&mut self, name: String, address: String, fingerprint: String, at: Timestamp)
        requires
            old(self).wf(),
        ensures
            final(self).wf(),
            final(self).last_server matches Some(l) && l@ == address@,
            final(self).servers() == old(self).servers().insert(
                address@,
                ServerView { name: name@, address: address@, fingerprint: fingerprint@, last_connected: at },
            ),
            final(self).client_secret == old(self).client_secret,
            final(self).auto_connect == old(self).auto_connect,
    {
        self.last_server = Some(copy_string(&address));
        self.put_server(KnownServer { name, address, fingerprint, last_connected: at });
    }

    /// Records a successful connection to `address`, stamped now.
    pub fn add_known_server(&mut self, name: String, address: String, fingerprint: String)
        requires
            old(self).wf(),
        ensures
            final(self).wf(),
            final(self).last_server matches Some(l) && l@ == address@,
            final(self).servers().dom() == old(self).servers().dom().insert(address@),
            final(self).servers()[address@].name == name@,
            final(self).servers()[address@].address == address@,
            final(self).servers()[address@].fingerprint == fingerprint@,
            forall|a: Seq<char>|
                a != address@ && old(self).servers().contains_key(a) ==> #[trigger] final(self).servers()[a]
                    == old(self).servers()[a],
            final(self).client_secret == old(self).client_secret,
            final(self).auto_connect == old(self).auto_connect,
    {
        let now = utc_now();
        self.add_known_server_at(name, address, fingerprint, now);
    }

    /// Records the same server's fingerprint under another address (such
    /// as its file-transfer port) as of `at`, leaving `last_server` alone.
    pub fn add_known_server_alias_at(&mut self, name: String, address: String, fingerprint: String, at: Timestamp)
        requires
            old(self).wf(),
        ensures
            final(self).wf(),
            final(self).last_server == old(self).last_server,
            final(self).servers() == old(self).servers().insert(
                address@,
                ServerView { name: name@, address: address@, fingerprint: fingerprint@, last_connected: at },
            ),
            final(self).client_secret == old(self).client_secret,
            final(self).auto_connect == old(self).auto_connect,
    {
        self.put_server(KnownServer { name, address, fingerprint, last_connected: at });
    }

    /// Records the same server's fingerprint under another address, stamped
    /// now, leaving `last_server` alone.
    pub fn add_known_server_alias(&mut self, name: String, address: String, fingerprint: String)
        requires
            old(self).wf(),
        ensures
            final(self).wf(),
            final(self).last_server == old(self).last_server,
            final(self).servers().dom() == old(self).servers().dom().insert(address@),
            final(self).servers()[address@].name == name@,
            final(self).servers()[address@].address == address@,
            final(self).servers()[address@].fingerprint == fingerprint@,
            forall|a: Seq<char>|
                a != address@ && old(self).servers().contains_key(a) ==> #[trigger] final(self).servers()[a]
                    == old(self).servers()[a],
            final(self).client_secret == old(self).client_secret,
            final(self).auto_connect == old(self).auto_connect,
    {
        let now = utc_now();
        self.add_known_server_alias_at(name, address, fingerprint, now);
    }

    /// The fingerprint pinned for `address`, if it is known.
    pub fn known_fingerprint(&self, address: &str) -> (r: Option<String>)
        requires
            self.wf(),
        ensures
            match r {
                Some(f) => self.servers().contains_key(address@) && f@ == self.servers()[address@].fingerprint,
                None => !self.servers().contains_key(address@),
            },
    {
        match self.position(address) {
            Some(i) => {
                proof {
                    lemma_assoc_index(self.server_pairs(), i as int);
                }
                Some(copy_string(&self.known_servers[i].fingerprint))
            },
            None => {
                proof {
                    lemma_assoc_absent(self.server_pairs(), address@);
                }
                None
            },
        }
    }

    /// The known servers, most recently connected first (ties keep their
    /// stored order).
    pub fn list_known_servers(&self) -> (v: Vec<KnownServer>)
        ensures
            v@.map_values(|s: KnownServer| s.view_of()).to_multiset()
                == self.known_servers@.map_values(|s: KnownServer| s.view_of()).to_multiset(),
            newest_first(v@.map_values(|s: KnownServer| s.view_of())),
    {
        let ghost stored = self.known_servers@.map_values(|s: KnownServer| s.view_of());
        let mut out: Vec<KnownServer> = Vec::new();
        proof {
            assert(out@.map_values(|s: KnownServer| s.view_of()) =~= stored.take(0));
        }
        let mut i: usize = 0;
        while i < self.known_servers.len()
            invariant
                i <= self.known_servers@.len(),
                stored == self.known_servers@.map_values(|s: KnownServer| s.view_of()),
                out@.map_values(|s: KnownServer| s.view_of()).to_multiset() == stored.take(
                    i as int,
                ).to_multiset(),
                newest_first(out@.map_values(|s: KnownServer| s.view_of())),
            decreases self.known_servers@.len() - i,
        {
            let item = self.known_servers[i].copy();
            let ghost before = out@.map_values(|s: KnownServer| s.view_of());
            // The first position holding an older server.
            let mut p: usize = 0;
            while p < out.len() && !out[p].last_connected.before(&item.last_connected)
                invariant
                    p <= out@.len(),
                    before == out@.map_values(|s: KnownServer| s.view_of()),
                    forall|q: int| 0 <= q < p ==> !(#[trigger] before[q]).last_connected.spec_before(
                        item.last_connected,
                    ),
                decreases out@.len() - p,
            {
                p = p + 1;
            }
            let ghost x = item.view_of();
            out.insert(p, item);
            proof {
                let after = out@.map_values(|s: KnownServer| s.view_of());
                assert(after =~= before.insert(p as int, x));
                to_multiset_insert(before, p as int, x);
                assert(stored.take(i + 1) =~= stored.take(i as int).push(stored[i as int]));
                to_multiset_build(stored.take(i as int), stored[i as int]);
                assert(stored[i as int] == x);
                assert forall|a: int, b: int| 0 <= a < b < after.len() implies !(
                #[trigger] after[a]).last_connected.spec_before((#[trigger] after[b]).last_connected) by {
                    if b < p {
                        assert(after[a] == before[a] && after[b] == before[b]);
                    } else if b == p {
                        assert(after[a] == before[a]);
                    } else if a == p {
                        assert(after[b] == before[b - 1]);
                        if b - 1 > p {
                            assert(before[p as int] == after[p + 1]);
                        }
                        assert(before[p as int].last_connected.spec_before(x.last_connected));
                    } else if a < p {
                        assert(after[a] == before[a] && after[b] == before[b - 1]);
                    } else {
                        assert(after[a] == before[a - 1] && after[b] == before[b - 1]);
                    }
                }
            }
            i = i + 1;
        }
        proof {
            assert(stored.take(stored.len() as int) =~= stored);
        }
        out
    }

    /// Forgets the server at `address`; says whether it was known.
    pub fn forget_server(&mut self, address: &str) -> (removed: bool)
        requires
            old(self).wf(),
        ensures
            final(self).wf(),
            removed == old(self).servers().contains_key(address@),
            final(self).servers() == old(self).servers().remove(address@),
            final(self).last_server == old(self).last_server,
            final(self).client_secret == old(self).client_secret,
    {
        let ghost old_pairs = self.server_pairs();
        match self.position(address) {
            Some(i) => {
                proof {
                    lemma_assoc_index(old_pairs, i as int);
                    lemma_assoc_remove(old_pairs, i as int);
                }
                self.known_servers.remove(i);
                proof {
                    assert(self.server_pairs() =~= old_pairs.remove(i as int));
                }
                true
            },
            None => {
                proof {
                    lemma_assoc_absent(old_pairs, address@);
                    assert(old(self).servers().remove(address@) =~= old(self).servers());
                }
                false
            },
        }
    }
}

/// What a connection records is what the pin lookup gives back: an address
/// recorded with an entry is known with that entry's fingerprint, a
/// forgotten address is unknown, and every other address keeps what it had.
pub proof fn lemma_record_then_lookup(
    servers: Map<Seq<char>, ServerView>,
    address: Seq<char>,
    entry: ServerView,
    other: Seq<char>,
)
    requires
        other != address,
    ensures
        servers.insert(address, entry).contains_key(address),
        servers.insert(address, entry)[address].fingerprint == entry.fingerprint,
        !servers.remove(address).contains_key(address),
        servers.insert(address, entry).contains_key(other) == servers.contains_key(other),
        servers.remove(address).contains_key(other) == servers.contains_key(other),
        servers.contains_key(other) ==> servers.insert(address, entry)[other] == servers[other]
            && servers.remove(address)[other] == servers[other],
{
}

} // verus!
