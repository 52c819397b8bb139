//! The server's side of a file transfer: the pairing check on the file
//! channel, the offer (name sanitising, size limit, resuming a partial
//! download), counting the bytes in, and the verdict once they are all in.
//! The caller does the socket and disk I/O.

use crate::crypto::{sha256_digest, Sha256Stream};
use crate::protocol::{proof_matches, Envelope};
use crate::server_config::Config;
use crate::text::{
    chars_of, contains_seq, decimal, occurs_at, split_on, is_whitespace, lemma_decimal_parses, push_char, push_decimal,
    string_of, string_of_range, trim, trim_chars, digits_value,
};
use vstd::prelude::*;
use vstd::string::StringExecFns;

verus! {

// --- File names -----------------------------------------------------------------

/// A piece of a `/`-separated path that names something: not empty and
/// not `.`.
pub open spec fn is_named_piece(p: Seq<char>) -> bool {
    p.len() > 0 && p != "."@
}

/// The final component of a path whose only separator is `/`: the last of
/// its pieces that names something, or none when there is no such piece or
/// the last one is `..`.
pub open spec fn last_named_piece(path: Seq<char>) -> Option<Seq<char>> {
    let parts = split_on(path, '/').filter(|p: Seq<char>| is_named_piece(p));
    if parts.len() == 0 || parts.last() == ".."@ {
        None
    } else {
        Some(parts.last())
    }
}

/// A path that every platform reads the same way: no backslash, no drive
/// prefix (an ASCII letter and `:` at the start, which Windows reads as a
/// drive), and not starting with `//` (which Windows reads as a network
/// share or a verbatim or device path). A `:` anywhere else is an ordinary
/// character of a component to `Path::file_name`.
pub open spec fn plain_path(path: Seq<char>) -> bool {
    &&& !path.contains('\\')
    &&& !(path.len() >= 2 && (('a' <= path[0] && path[0] <= 'z') || ('A' <= path[0] && path[0] <= 'Z'))
        && path[1] == ':')
    &&& !(path.len() >= 2 && path[0] == '/' && path[1] == '/')
}

/// The text of an optional string.
pub open spec fn opt_text(o: Option<String>) -> Option<Seq<char>> {
    match o {
        Some(s) => Some(s@),
        None => None,
    }
}

/// Calls `Path::file_name` on `path` (and `OsStr::to_str`, which succeeds
/// on text that came from a `&str`). How a path is read depends on the
/// platform (Windows also splits off drive and UNC prefixes). Trusted, on
/// every platform: the empty path has no final component; a final component
/// is a piece of the path that holds no `/`; and a plain path's final
/// component is its last named piece.
#[verifier::external_body]
fn file_name_of(path: &str) -> (r: Option<String>)
    ensures
        path@.len() == 0 ==> r is None,
        r matches Some(s) ==> !s@.contains('/') && contains_seq(path@, s@),
        plain_path(path@) ==> opt_text(r) == last_named_piece(path@),
{
    std::path::Path::new(path).file_name().and_then(|n| n.to_str()).map(|s| s.to_string())
}

/// A control character (Unicode general category Cc), as
/// `char::is_control` tests.
pub open spec fn is_control(c: char) -> bool {
    c <= '\u{1f}' || ('\u{7f}' <= c && c <= '\u{9f}')
}

/// The name a received file is stored under when its offered name is
/// unusable.
pub open spec fn fallback_file_name() -> Seq<char> {
    "received_file"@
}

/// `name` with every backslash read as a path separator.
pub open spec fn slashed(name: Seq<char>) -> Seq<char> {
    name.map_values(|c: char| if c == '\\' { '/' } else { c })
}

fn slash_backslashes(name: &str) -> (r: String)
    ensures
        r@ == slashed(name@),
{
    let v = chars_of(name);
    let mut r = String::new();
    let mut i: usize = 0;
    while i < v.len()
        invariant
            i <= v@.len(),
            v@ == name@,
            r@ == slashed(v@.take(i as int)),
        decreases v@.len() - i,
    {
        let c = if v[i] == '\\' {
            '/'
        } else {
            v[i]
        };
        push_char(&mut r, c);
        proof {
            assert(slashed(v@.take(i + 1)) =~= slashed(v@.take(i as int)).push(c));
        }
        i = i + 1;
    }
    proof {
        assert(v@.take(v@.len() as int) =~= v@);
    }
    r
}

/// Some character of `s` is a control character.
pub open spec fn has_control(s: Seq<char>) -> bool {
    exists|i: int| 0 <= i < s.len() && is_control(#[trigger] s[i])
}

/// A name that cannot be used as it is.
pub open spec fn is_bad_name(c: Seq<char>) -> bool {
    c.len() == 0 || c == "."@ || c == ".."@ || has_control(c)
}

/// The stored name for a final component (empty when there is none): the
/// component trimmed, or the fallback when that is empty, `.`, `..` or holds
/// a control character.
pub open spec fn spec_sanitize_component(last: Seq<char>) -> Seq<char> {
    let candidate = trim(last);
    if is_bad_name(candidate) {
        fallback_file_name()
    } else {
        candidate
    }
}

/// A name that is safe to create in the transfer directory: not empty, `.`
/// or `..`, and without a separator of either kind or a control character.
pub open spec fn is_safe_file_name(r: Seq<char>) -> bool {
    &&& r.len() > 0
    &&& r != "."@
    &&& r != ".."@
    &&& !r.contains('/')
    &&& !r.contains('\\')
    &&& !has_control(r)
}

/// `stored` is what `offered` may be stored under: a safe name that is the
/// fallback or a piece of the offered name, and the fallback for an empty
/// offered name.
pub open spec fn sanitized(offered: Seq<char>, stored: Seq<char>) -> bool {
    &&& is_safe_file_name(stored)
    &&& stored == fallback_file_name() || contains_seq(offered, stored)
    &&& offered.len() == 0 ==> stored == fallback_file_name()
}

/// The stored name for an offered name whose reading is plain once
/// backslashes count as separators: its last named piece, sanitised.
pub open spec fn spec_sanitize_plain(name: Seq<char>) -> Seq<char> {
    spec_sanitize_component(
        match last_named_piece(slashed(name)) {
            Some(p) => p,
            None => Seq::empty(),
        },
    )
}

fn is_control_char(c: char) -> (r: bool)
    ensures
        r == is_control(c),
{
    c <= '\u{1f}' || ('\u{7f}' <= c && c <= '\u{9f}')
}

fn any_control(v: &[char]) -> (r: bool)
    ensures
        r == has_control(v@),
{
    let mut i: usize = 0;
    while i < v.len()
        invariant
            i <= v@.len(),
            forall|j: int| 0 <= j < i ==> !is_control(#[trigger] v@[j]),
        decreases v@.len() - i,
    {
        if is_control_char(v[i]) {
            assert(is_control(v@[i as int]));
            return true;
        }
        i = i + 1;
    }
    false
}

/// The stored name for the final component that `Path::file_name` found
/// (`None` when it found none).
pub fn sanitize_component(last: Option<String>) -> (r: String)
    ensures
        r@ == spec_sanitize_component(
            match last {
                Some(s) => s@,
                None => Seq::empty(),
            },
        ),
        (last matches Some(s) ==> !s@.contains('/') && !s@.contains('\\')) ==> is_safe_file_name(r@),
{
    let v = match last {
        Some(s) => chars_of(s.as_str()),
        None => Vec::new(),
    };
    proof {
        if v@.len() == 0 {
            assert(v@ =~= Seq::<char>::empty());
        }
        if !v@.contains('/') && !v@.contains('\\') {
            lemma_sanitized_name_is_safe(v@);
        }
    }
    let c = trim_chars(v.as_slice());
    let dot: Vec<char> = vec!['.'];
    let dotdot: Vec<char> = vec!['.', '.'];
    proof {
        reveal_strlit(".");
        reveal_strlit("..");
        assert(dot@ =~= "."@);
        assert(dotdot@ =~= ".."@);
    }
    let bad = c.len() == 0 || crate::text::chars_eq(c.as_slice(), dot.as_slice())
        || crate::text::chars_eq(c.as_slice(), dotdot.as_slice()) || any_control(c.as_slice());
    if bad {
        String::from_str("received_file")
    } else {
        string_of(c.as_slice())
    }
}

/// Reduces `name` to a bare, safe file name: its final component, with
/// backslashes read as separators on every platform (so that Windows-style
/// paths are reduced too), trimmed; or the fallback `received_file`.
pub fn sanitize_file_name(name: &str) -> (r: String)
    ensures
        sanitized(name@, r@),
        plain_path(slashed(name@)) ==> r@ == spec_sanitize_plain(name@),
{
    let path = slash_backslashes(name);
    let last = file_name_of(path.as_str());
    proof {
        if last is Some {
            lemma_piece_has_no_backslash(path@, last->0@);
        }
    }
    let ghost last_view = if last is Some {
        last->0@
    } else {
        Seq::<char>::empty()
    };
    let r = sanitize_component(last);
    proof {
        reveal_strlit("received_file");
        if r@ != fallback_file_name() {
            lemma_trim_is_part(last_view);
            let (a, b) = trim_bounds(last_view);
            assert(contains_seq(last_view, r@)) by {
                assert(occurs_at(last_view, r@, a));
            }
            lemma_piece_of_piece(path@, last_view, r@);
            lemma_unslashed_piece(name@, r@);
        }
        if name@.len() == 0 {
            assert(path@.len() == 0);
        }
    }
    r
}

/// The last position of `c` in `s`.
pub open spec fn last_index_of(s: Seq<char>, c: char) -> Option<int>
    decreases s.len(),
{
    if s.len() == 0 {
        None
    } else if s.last() == c {
        Some(s.len() - 1)
    } else {
        last_index_of(s.drop_last(), c)
    }
}

/// The stem and extension of a bare file name, as `Path::file_stem` and
/// `Path::extension` split it: at the last `.`, unless there is none or it
/// is the first character.
pub open spec fn split_extension(name: Seq<char>) -> (Seq<char>, Option<Seq<char>>) {
    match last_index_of(name, '.') {
        Some(k) => if k == 0 {
            (name, None)
        } else {
            (name.take(k), Some(name.skip(k + 1)))
        },
        None => (name, None),
    }
}

/// The `attempt`-th name tried for storing `name`: the name itself, then
/// `stem (1).ext`, `stem (2).ext`, ... (without `.ext` when it has none).
pub open spec fn spec_candidate_name(name: Seq<char>, attempt: u64) -> Seq<char> {
    if attempt == 0 {
        name
    } else {
        let (stem, ext) = split_extension(name);
        let numbered = stem + " ("@ + decimal(attempt as nat) + ")"@;
        match ext {
            Some(e) => numbered + "."@ + e,
            None => numbered,
        }
    }
}

fn last_dot(v: &[char]) -> (r: Option<usize>)
    ensures
        r matches Some(k) ==> last_index_of(v@, '.') == Some(k as int) && k < v@.len(),
        r is None ==> last_index_of(v@, '.') is None,
{
    let mut i: usize = v.len();
    proof {
        assert(v@.take(v@.len() as int) =~= v@);
    }
    while i > 0
        invariant
            i <= v@.len(),
            last_index_of(v@, '.') == last_index_of(v@.take(i as int), '.'),
        decreases i,
    {
        proof {
            assert(v@.take(i as int).drop_last() =~= v@.take(i - 1));
            assert(v@.take(i as int).last() == v@[i - 1]);
        }
        if v[i - 1] == '.' {
            return Some(i - 1);
        }
        i = i - 1;
    }
    None
}

/// The name to try at `attempt` when storing a file offered as `name`
/// (already sanitised); the caller takes the first one that does not exist
/// yet, so an existing file is never overwritten.
pub fn candidate_name(name: &str, attempt: u64) -> (r: String)
    ensures
        r@ == spec_candidate_name(name@, attempt),
{
    let mut r = String::new();
    if attempt == 0 {
        r.append(name);
        return r;
    }
    let v = chars_of(name);
    let n = v.len();
    let dot = last_dot(v.as_slice());
    let (stem_end, ext_start): (usize, usize) = match dot {
        Some(k) => if k == 0 {
            (v.len(), v.len())
        } else {
            (k, k + 1)
        },
        None => (v.len(), v.len()),
    };
    let stem = string_of_range(v.as_slice(), 0, stem_end);
    r.append(stem.as_str());
    r.append(" (");
    push_decimal(&mut r, attempt);
    r.append(")");
    proof {
        reveal_strlit(" (");
        reveal_strlit(")");
        reveal_strlit(".");
    }
    let has_ext = match dot {
        Some(k) => k != 0,
        None => false,
    };
    if has_ext {
        let ext = string_of_range(v.as_slice(), ext_start, v.len());
        push_char(&mut r, '.');
        r.append(ext.as_str());
        proof {
            assert(v@.subrange(0, stem_end as int) =~= v@.take(stem_end as int));
            assert(v@.subrange(ext_start as int, v@.len() as int) =~= v@.skip(ext_start as int));
            assert(r@ =~= spec_candidate_name(name@, attempt));
        }
    } else {
        proof {
            assert(v@.subrange(0, stem_end as int) =~= v@);
            assert(r@ =~= spec_candidate_name(name@, attempt));
        }
    }
    r
}

// --- The transfer --------------------------------------------------------------

/// Why the server ended a file transfer.
#[derive(Clone, Debug, PartialEq, Eq)]
pub enum FileTransferError {
    /// The second message was not a `PairRequest`.
    ExpectedPairRequest,
    /// The fingerprint is not a paired device.
    Unpaired(String),
    /// The message after pairing was not a `FileOffer`.
    ExpectedFileOffer,
}

/// Checks the first message on the file channel: only an already paired
/// device may send files (its proof is not looked at; the channel is TLS
/// already). On refusal, the reply to send before closing.
pub fn check_file_channel_pairing(request: Envelope, config: &Config) -> (r: Result<
    String,
    (Envelope, FileTransferError),
>)
    requires
        config.wf(),
    ensures
        match request {
            Envelope::PairRequest { fingerprint, .. } => if config.devices().contains_key(
                fingerprint@,
            ) {
                r matches Ok(f) && f@ == fingerprint@
            } else {
                r matches Err((Envelope::PairReject { reason }, FileTransferError::Unpaired(f)))
                    && reason@ == "device not paired; pair over the control channel first"@ && f@
                    == fingerprint@
            },
            _ => r matches Err((Envelope::Error(text), FileTransferError::ExpectedPairRequest))
                && text@ == "expected PairRequest"@,
        },
{
    match request {
        Envelope::PairRequest { nonce: _, fingerprint, proof: _ } => {
            if config.is_paired(fingerprint.as_str()) {
                Ok(fingerprint)
            } else {
                Err(
                    (
                        Envelope::PairReject {
                            reason: String::from_str(
                                "device not paired; pair over the control channel first",
                            ),
                        },
                        FileTransferError::Unpaired(fingerprint),
                    ),
                )
            }
        },
        _ => Err(
            (Envelope::Error(String::from_str("expected PairRequest")), FileTransferError::ExpectedPairRequest),
        ),
    }
}

/// A file being received.
#[derive(Debug)]
pub struct FileReceiver {
    id: u128,
    name: String,
    size: u64,
    sha256: [u8; 32],
    received: u64,
}

/// The mathematical content of a `FileReceiver`.
pub struct ReceiverView {
    pub id: u128,
    pub name: Seq<char>,
    pub size: u64,
    pub sha256: Seq<u8>,
    pub received: u64,
}

/// What to do with an offer.
#[derive(Debug)]
pub enum OfferDecision {
    /// Receive the file.
    Accept(FileReceiver),
    /// Send this reply; the transfer is over.
    Reject(Envelope),
}

/// Whether `size` bytes exceed the limit (0 means unlimited).
pub open spec fn too_large(size: u64, max_file_size: u64) -> bool {
    max_file_size != 0 && size > max_file_size
}

impl FileReceiver {
    pub closed spec fn view(&self) -> ReceiverView {
        ReceiverView {
            id: self.id,
            name: self.name@,
            size: self.size,
            sha256: self.sha256@,
            received: self.received,
        }
    }

    pub open spec fn wf(&self) -> bool {
        self.view().received <= self.view().size
    }

    /// Decides on the message that should be a `FileOffer`, under the
    /// configured size limit. The offered name is sanitised.
    pub fn from_offer(offer: Envelope, max_file_size: u64) -> (r: Result<
        OfferDecision,
        FileTransferError,
    >)
        ensures
            match offer {
                Envelope::FileOffer { id, name, size, sha256 } => if too_large(size, max_file_size) {
                    r matches Ok(OfferDecision::Reject(Envelope::FileReject { id: i, reason })) && i
                        == id && reason@ == "file exceeds maximum allowed size"@
                } else {
                    r matches Ok(OfferDecision::Accept(fr)) && fr.wf() && fr.view() == (
                    ReceiverView {
                        id,
                        name: fr.view().name,
                        size,
                        sha256: sha256@,
                        received: 0,
                    }) && sanitized(name@, fr.view().name) && (plain_path(slashed(name@))
                        ==> fr.view().name == spec_sanitize_plain(name@))
                },
                _ => r == Err::<OfferDecision, FileTransferError>(
                    FileTransferError::ExpectedFileOffer,
                ),
            },
    {
        match offer {
            Envelope::FileOffer { id, name, size, sha256 } => {
                if max_file_size != 0 && size > max_file_size {
                    Ok(
                        OfferDecision::Reject(
                            Envelope::FileReject {
                                id,
                                reason: String::from_str("file exceeds maximum allowed size"),
                            },
                        ),
                    )
                } else {
                    let safe = sanitize_file_name(name.as_str());
                    Ok(OfferDecision::Accept(FileReceiver { id, name: safe, size, sha256, received: 0 }))
                }
            },
            _ => Err(FileTransferError::ExpectedFileOffer),
        }
    }

    /// The sanitised name the file is stored under.
    pub fn name(&self) -> (n: &String)
        ensures
            n@ == self.view().name,
    {
        &self.name
    }

    /// The announced size.
    pub fn size(&self) -> (s: u64)
        ensures
            s == self.view().size,
    {
        self.size
    }

    /// Where to start, given the size of a partial download left from an
    /// earlier attempt (if any): a shorter partial file is resumed (opened
    /// for appending), anything else is started over. Returns the
    /// `FileAccept` reply and whether to append.
    pub fn start(&mut self, partial_size: Option<u64>) -> (r: (Envelope, bool))
        requires
            old(self).wf(),
            old(self).view().received == 0,
        ensures
            final(self).wf(),
            ({
                let resume = partial_size matches Some(p) && p < old(self).view().size;
                let offset: u64 = if resume {
                    partial_size->0
                } else {
                    0
                };
                &&& final(self).view() == (ReceiverView { received: offset, ..old(self).view() })
                &&& r.0 == (Envelope::FileAccept { id: old(self).view().id, start_offset: offset })
                &&& r.1 == resume
            }),
    {
        let (offset, append) = match partial_size {
            Some(p) => if p < self.size {
                (p, true)
            } else {
                (0u64, false)
            },
            None => (0u64, false),
        };
        self.received = offset;
        (Envelope::FileAccept { id: self.id, start_offset: offset }, append)
    }

    /// How many bytes are still to come.
    pub fn remaining(&self) -> (n: u64)
        requires
            self.wf(),
        ensures
            n == self.view().size - self.view().received,
    {
        self.size - self.received
    }

    /// `n` more bytes arrived (the caller never reads past the announced
    /// size).
    pub fn record(&mut self, n: u64)
        requires
            old(self).wf(),
            n <= old(self).view().size - old(self).view().received,
        ensures
            final(self).wf(),
            final(self).view() == (ReceiverView {
                received: (old(self).view().received + n) as u64,
                ..old(self).view()
            }),
    {
        self.received = self.received + n;
    }

    /// Whether every announced byte has arrived.
    pub fn is_complete(&self) -> (b: bool)
        ensures
            b == (self.view().received >= self.view().size),
    {
        self.received >= self.size
    }

    /// The verdict once the transfer ended, given the stored file's bytes
    /// absorbed into `stored` in order: the file is kept only when every
    /// byte arrived and their SHA-256 is the one offered.
    pub fn finish(&self, stored: Sha256Stream) -> (r: (Envelope, bool))
        ensures
            self.view().received != self.view().size ==> !r.1 && (r.0 matches Envelope::FileReject {
                id,
                reason,
            } && id == self.view().id && reason@ == "transfer incomplete"@),
            self.view().received == self.view().size && sha256_digest(stored.absorbed())
                == self.view().sha256 ==> r.1 && r.0 == (Envelope::FileComplete { id: self.view().id }),
            self.view().received == self.view().size && sha256_digest(stored.absorbed())
                != self.view().sha256 ==> !r.1 && (r.0 matches Envelope::FileReject { id, reason }
                && id == self.view().id && reason@ == "Checksum mismatch"@),
    {
        if self.received != self.size {
            return (
                Envelope::FileReject { id: self.id, reason: String::from_str("transfer incomplete") },
                false,
            );
        }
        let digest = stored.finalize();
        if proof_matches(&digest, &self.sha256) {
            (Envelope::FileComplete { id: self.id }, true)
        } else {
            (Envelope::FileReject { id: self.id, reason: String::from_str("Checksum mismatch") }, false)
        }
    }
}

// --- Choosing a free name ---------------------------------------------------------

/// The texts of a list of names.
pub open spec fn name_texts(names: Seq<String>) -> Seq<Seq<char>> {
    names.map_values(|t: String| t@)
}

fn is_taken(taken: &Vec<String>, c: &String) -> (r: bool)
    ensures
        r == name_texts(taken@).contains(c@),
{
    let mut i: usize = 0;
    while i < taken.len()
        invariant
            i <= taken@.len(),
            forall|j: int| 0 <= j < i ==> name_texts(taken@)[j] != c@,
        decreases taken@.len() - i,
    {
        if crate::text::str_eq(taken[i].as_str(), c.as_str()) {
            assert(name_texts(taken@)[i as int] == c@);
            return true;
        }
        i = i + 1;
    }
    proof {
        if name_texts(taken@).contains(c@) {
            let j = choose|j: int| 0 <= j < name_texts(taken@).len() && name_texts(taken@)[j] == c@;
            assert(name_texts(taken@)[j] == c@);
        }
    }
    false
}

/// The name to store a file offered as `name` (already sanitised) under,
/// given the names already present: the first candidate (`name`,
/// `name (1)`, `name (2)`, ... numbered before the extension) that is not
/// taken, so an existing file is never overwritten.
pub fn first_free_name(name: &str, taken: &Vec<String>) -> (r: String)
    requires
        taken@.len() < u64::MAX,
    ensures
        exists|a: u64|
            r@ == spec_candidate_name(name@, a) && forall|i: u64|
                i < a ==> name_texts(taken@).contains(#[trigger] spec_candidate_name(name@, i)),
        !name_texts(taken@).contains(r@),
{
    let mut attempt: u64 = 0;
    loop
        invariant
            attempt <= taken@.len(),
            taken@.len() < u64::MAX,
            forall|i: u64|
                i < attempt ==> name_texts(taken@).contains(#[trigger] spec_candidate_name(name@, i)),
        decreases taken@.len() - attempt,
    {
        let c = candidate_name(name, attempt);
        if !is_taken(taken, &c) {
            return c;
        }
        proof {
            assert forall|i: u64| i < attempt + 1 implies name_texts(taken@).contains(
                #[trigger] spec_candidate_name(name@, i),
            ) by {
                if i == attempt {
                    assert(c@ == spec_candidate_name(name@, i));
                }
            }
            lemma_taken_bound(name@, name_texts(taken@), attempt as int + 1);
        }
        attempt = attempt + 1;
    }
}

/// The candidates are all different, so a list that holds the first `a` of
/// them has at least `a` entries.
proof fn lemma_taken_bound(name: Seq<char>, taken: Seq<Seq<char>>, a: int)
    requires
        0 <= a <= u64::MAX,
        forall|i: u64| i < a ==> taken.contains(#[trigger] spec_candidate_name(name, i)),
    ensures
        a <= taken.len(),
{
    let x = vstd::set_lib::set_int_range(0, a);
    vstd::set_lib::lemma_int_range(0, a);
    let f = |i: int| spec_candidate_name(name, i as u64);
    assert(vstd::relations::injective_on(f, x)) by {
        assert forall|i: int, j: int| x.contains(i) && x.contains(j) && f(i) == f(j) implies i == j by {
            if i != j {
                lemma_candidates_differ(name, i as u64, j as u64);
            }
        }
    }
    let y = x.map(f);
    vstd::set_lib::lemma_map_size(x, y, f);
    assert(y.subset_of(taken.to_set())) by {
        assert forall|v: Seq<char>| y.contains(v) implies taken.to_set().contains(v) by {
            let i = choose|i: int| x.contains(i) && f(i) == v;
            assert(taken.contains(spec_candidate_name(name, i as u64)));
        }
    }
    vstd::seq_lib::seq_to_set_is_finite(taken);
    vstd::set_lib::lemma_len_subset(y, taken.to_set());
    taken.lemma_cardinality_of_set();
}

// --- Laws ------------------------------------------------------------------

proof fn lemma_piece_has_no_backslash(path: Seq<char>, piece: Seq<char>)
    requires
        !path.contains('\\'),
        contains_seq(path, piece),
    ensures
        !piece.contains('\\'),
{
    if piece.contains('\\') {
        let i = choose|i: int| 0 <= i < piece.len() && piece[i] == '\\';
        let k = choose|k: int| crate::text::occurs_at(path, piece, k);
        assert(path.subrange(k, k + piece.len())[i] == path[k + i]);
        assert(path[k + i] == '\\');
    }
}

/// What sanitising keeps of a final component `last` without separators is
/// never empty, `.`, `..`, nor holds a separator or a control character.
/// A piece of a piece of `a` is a piece of `a`.
proof fn lemma_piece_of_piece(a: Seq<char>, b: Seq<char>, c: Seq<char>)
    requires
        contains_seq(a, b),
        contains_seq(b, c),
    ensures
        contains_seq(a, c),
{
    let i = choose|i: int| occurs_at(a, b, i);
    let j = choose|j: int| occurs_at(b, c, j);
    assert(a.subrange(i + j, i + j + c.len()) =~= b.subrange(j, j + c.len()));
    assert(occurs_at(a, c, i + j));
}

/// A piece of `slashed(name)` without `/` is a piece of `name`.
proof fn lemma_unslashed_piece(name: Seq<char>, piece: Seq<char>)
    requires
        contains_seq(slashed(name), piece),
        !piece.contains('/'),
    ensures
        contains_seq(name, piece),
{
    let k = choose|k: int| occurs_at(slashed(name), piece, k);
    assert forall|i: int| 0 <= i < piece.len() implies name[k + i] == piece[i] by {
        assert(slashed(name).subrange(k, k + piece.len())[i] == slashed(name)[k + i]);
        if name[k + i] == '\\' {
            assert(piece[i] == '/');
            assert(piece.contains('/'));
        }
    }
    assert(name.subrange(k, k + piece.len()) =~= piece);
    assert(occurs_at(name, piece, k));
}

proof fn lemma_sanitized_name_is_safe(last: Seq<char>)
    requires
        !last.contains('/'),
        !last.contains('\\'),
    ensures
        ({
            let candidate = trim(last);
            let r = if is_bad_name(candidate) {
                fallback_file_name()
            } else {
                candidate
            };
            &&& r.len() > 0
            &&& r != "."@
            &&& r != ".."@
            &&& !r.contains('/')
            &&& !r.contains('\\')
            &&& !has_control(r)
        }),
{
    reveal_strlit("received_file");
    reveal_strlit(".");
    reveal_strlit("..");
    let candidate = trim(last);
    if !is_bad_name(candidate) {
        lemma_trim_is_part(last);
        let (a, _b) = trim_bounds(last);
        if candidate.contains('/') {
            let i = choose|i: int| 0 <= i < candidate.len() && candidate[i] == '/';
            assert(candidate[i] == last[a + i]);
        }
        if candidate.contains('\\') {
            let i = choose|i: int| 0 <= i < candidate.len() && candidate[i] == '\\';
            assert(candidate[i] == last[a + i]);
        }
    } else {
        let r = fallback_file_name();
        assert(!has_control(r)) by {
            assert forall|i: int| 0 <= i < r.len() implies !is_control(#[trigger] r[i]) by {}
        }
        assert(!r.contains('/')) by {
            assert forall|i: int| 0 <= i < r.len() implies r[i] != '/' by {}
        }
        assert(!r.contains('\\')) by {
            assert forall|i: int| 0 <= i < r.len() implies r[i] != '\\' by {}
        }
    }
}

/// Where `trim` cuts `s`: the result is `s[a..b]`.
pub open spec fn trim_bounds(s: Seq<char>) -> (int, int) {
    choose|ab: (int, int)| 0 <= ab.0 <= ab.1 <= s.len() && trim(s) == s.subrange(ab.0, ab.1)
}

proof fn lemma_trim_start_part(s: Seq<char>)
    ensures
        exists|a: int| 0 <= a <= s.len() && crate::text::trim_start(s) == s.subrange(a, s.len() as int),
    decreases s.len(),
{
    if s.len() > 0 && is_whitespace(s[0]) {
        lemma_trim_start_part(s.drop_first());
        let a = choose|a: int| 0 <= a <= s.drop_first().len() && crate::text::trim_start(s.drop_first())
            == s.drop_first().subrange(a, s.drop_first().len() as int);
        assert(s.drop_first().subrange(a, s.drop_first().len() as int) =~= s.subrange(a + 1, s.len() as int));
    } else {
        assert(s.subrange(0, s.len() as int) =~= s);
    }
}

proof fn lemma_trim_end_part(s: Seq<char>)
    ensures
        exists|b: int| 0 <= b <= s.len() && crate::text::trim_end(s) == s.subrange(0, b),
    decreases s.len(),
{
    if s.len() > 0 && is_whitespace(s.last()) {
        lemma_trim_end_part(s.drop_last());
        let b = choose|b: int| 0 <= b <= s.drop_last().len() && crate::text::trim_end(s.drop_last())
            == s.drop_last().subrange(0, b);
        assert(s.drop_last().subrange(0, b) =~= s.subrange(0, b));
    } else {
        assert(s.subrange(0, s.len() as int) =~= s);
    }
}

/// `trim` only cuts characters off the ends.
proof fn lemma_trim_is_part(s: Seq<char>)
    ensures
        0 <= trim_bounds(s).0 <= trim_bounds(s).1 <= s.len(),
        trim(s) == s.subrange(trim_bounds(s).0, trim_bounds(s).1),
{
    lemma_trim_start_part(s);
    let a = choose|a: int| 0 <= a <= s.len() && crate::text::trim_start(s) == s.subrange(a, s.len() as int);
    let t = s.subrange(a, s.len() as int);
    lemma_trim_end_part(t);
    let b = choose|b: int| 0 <= b <= t.len() && crate::text::trim_end(t) == t.subrange(0, b);
    assert(t.subrange(0, b) =~= s.subrange(a, a + b));
    let ab = (a, a + b);
    assert(0 <= ab.0 <= ab.1 <= s.len() && trim(s) == s.subrange(ab.0, ab.1));
}

proof fn lemma_last_index(s: Seq<char>, c: char)
    ensures
        last_index_of(s, c) matches Some(k) ==> 0 <= k < s.len() && s[k] == c,
    decreases s.len(),
{
    if s.len() > 0 && s.last() != c {
        lemma_last_index(s.drop_last(), c);
    }
}

/// The name splits back into its stem and extension.
proof fn lemma_split_rejoins(name: Seq<char>)
    ensures
        ({
            let (stem, ext) = split_extension(name);
            name == match ext {
                Some(e) => stem + "."@ + e,
                None => stem,
            }
        }),
{
    reveal_strlit(".");
    lemma_last_index(name, '.');
    if let Some(k) = last_index_of(name, '.') {
        if k != 0 {
            assert(name =~= name.take(k) + "."@ + name.skip(k + 1));
        }
    }
}

/// The candidate names for different attempts are different, so trying
/// them in turn always reaches one that no existing file has.
pub proof fn lemma_candidates_differ(name: Seq<char>, i: u64, j: u64)
    requires
        i != j,
    ensures
        spec_candidate_name(name, i) != spec_candidate_name(name, j),
{
    reveal_strlit(" (");
    reveal_strlit(")");
    reveal_strlit(".");
    lemma_split_rejoins(name);
    let (stem, ext) = split_extension(name);
    let tail = match ext {
        Some(e) => "."@ + e,
        None => Seq::<char>::empty(),
    };
    assert(name =~= stem + tail);
    assert forall|n: u64| n != 0 implies #[trigger] spec_candidate_name(name, n) == stem + " ("@
        + decimal(n as nat) + ")"@ + tail by {
        match ext {
            Some(e) => {
                assert(spec_candidate_name(name, n) =~= stem + " ("@ + decimal(n as nat) + ")"@ + tail);
            },
            None => {
                assert(spec_candidate_name(name, n) =~= stem + " ("@ + decimal(n as nat) + ")"@ + tail);
            },
        }
    }
    if i == 0 || j == 0 {
        let n = if i == 0 {
            j
        } else {
            i
        };
        lemma_decimal_parses(n as nat);
        assert(spec_candidate_name(name, n).len() > name.len());
    } else {
        let ci = spec_candidate_name(name, i);
        let cj = spec_candidate_name(name, j);
        lemma_decimal_parses(i as nat);
        lemma_decimal_parses(j as nat);
        if ci == cj {
            let di = decimal(i as nat);
            let dj = decimal(j as nat);
            let lo: int = stem.len() as int + 2;
            assert(ci.len() == stem.len() + 2 + di.len() + 1 + tail.len());
            assert(cj.len() == stem.len() + 2 + dj.len() + 1 + tail.len());
            assert(ci.subrange(lo, lo + di.len() as int) =~= di);
            assert(cj.subrange(lo, lo + dj.len() as int) =~= dj);
            assert(digits_value(di) == digits_value(dj));
        }
    }
}

} // verus!
