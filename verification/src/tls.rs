//! Certificate fingerprints and pinning. The server's certificate is
//! self-signed, so trust works as in SSH: the client remembers a server's
//! fingerprint the first time and refuses a different one later, unless told
//! otherwise.

use crate::crypto::{sha256, sha256_digest};
use crate::text::{ascii_lower, push_char, to_uppercase, upper_name};
use vstd::prelude::*;
use vstd::string::StringExecFns;

verus! {

/// The uppercase hex digit for `d < 16`.
pub open spec fn upper_hex_digit(d: int) -> char {
    if d < 10 {
        ('0' as int + d) as char
    } else {
        ('A' as int + (d - 10)) as char
    }
}

/// Bytes as uppercase hex pairs joined by colons (`AB:CD:...`).
pub open spec fn colon_hex(bytes: Seq<u8>) -> Seq<char> {
    Seq::new(
        if bytes.len() == 0 {
            0
        } else {
            (3 * bytes.len() - 1) as nat
        },
        |k: int|
            if k % 3 == 2 {
                ':'
            } else if k % 3 == 0 {
                upper_hex_digit((bytes[k / 3] / 16) as int)
            } else {
                upper_hex_digit((bytes[k / 3] % 16) as int)
            },
    )
}

/// The fingerprint of a DER-encoded certificate: its SHA-256 as
/// colon-separated uppercase hex pairs.
pub open spec fn spec_fingerprint(der: Seq<u8>) -> Seq<char> {
    colon_hex(sha256_digest(der))
}

fn upper_hex_char(d: u8) -> (c: char)
    requires
        d < 16,
    ensures
        c == upper_hex_digit(d as int),
{
    let table: [char; 16] = [
        '0',
        '1',
        '2',
        '3',
        '4',
        '5',
        '6',
        '7',
        '8',
        '9',
        'A',
        'B',
        'C',
        'D',
        'E',
        'F',
    ];
    table[d as usize]
}

/// Bytes as colon-separated uppercase hex pairs.
pub fn colon_hex_of(bytes: &[u8]) -> (s: String)
    ensures
        s@ == colon_hex(bytes@),
{
    let mut s = String::new();
    let mut i: usize = 0;
    while i < bytes.len()
        invariant
            i <= bytes@.len(),
            s@ == colon_hex(bytes@.take(i as int)),
        decreases bytes@.len() - i,
    {
        let ghost before = s@;
        if i > 0 {
            push_char(&mut s, ':');
        }
        let b = bytes[i];
        push_char(&mut s, upper_hex_char(b / 16));
        push_char(&mut s, upper_hex_char(b % 16));
        proof {
            let t = bytes@.take(i + 1);
            assert(s@ =~= colon_hex(t)) by {
                assert forall|k: int| 0 <= k < s@.len() implies s@[k] == colon_hex(t)[k] by {
                    if i > 0 && k < 3 * i - 1 {
                        assert(t[k / 3] == bytes@.take(i as int)[k / 3]);
                    }
                }
            }
        }
        i = i + 1;
    }
    proof {
        assert(bytes@.take(bytes@.len() as int) =~= bytes@);
    }
    s
}

/// The SHA-256 fingerprint of a DER-encoded certificate, as uppercase
/// colon-separated hex pairs, the form servers print and clients pin.
pub fn fingerprint_der(der: &[u8]) -> (fp: String)
    ensures
        fp@ == spec_fingerprint(der@),
        fp@.len() == 95,
{
    let digest = sha256(der);
    colon_hex_of(&digest)
}

/// Equal but for the case of ASCII letters.
pub open spec fn eq_ignore_ascii_case(a: Seq<char>, b: Seq<char>) -> bool {
    a.len() == b.len() && forall|i: int| 0 <= i < a.len() ==> ascii_lower(a[i]) == ascii_lower(b[i])
}

pub(crate) fn ascii_lower_char(c: char) -> (r: char)
    ensures
        r == ascii_lower(c),
{
    if 'A' <= c && c <= 'Z' {
        let b = (c as u32) as u8;
        let r = (b + 32) as char;
        assert(r as int == c as int + 32);
        r
    } else {
        c
    }
}

/// Whether `a` and `b` are equal but for the case of ASCII letters.
pub fn equal_ignoring_ascii_case(a: &str, b: &str) -> (r: bool)
    ensures
        r == eq_ignore_ascii_case(a@, b@),
{
    let av = crate::text::chars_of(a);
    let bv = crate::text::chars_of(b);
    if av.len() != bv.len() {
        return false;
    }
    let mut i: usize = 0;
    while i < av.len()
        invariant
            i <= av@.len(),
            av@ == a@,
            bv@ == b@,
            av@.len() == bv@.len(),
            forall|j: int| 0 <= j < i ==> ascii_lower(a@[j]) == ascii_lower(b@[j]),
        decreases av@.len() - i,
    {
        if ascii_lower_char(av[i]) != ascii_lower_char(bv[i]) {
            return false;
        }
        i = i + 1;
    }
    true
}

/// The pinning decision for one connection.
pub struct CertPin {
    required: Option<String>,
}

/// What a certificate check decided.
pub open spec fn pin_accepts(required: Option<Seq<char>>, observed: Seq<char>) -> bool {
    match required {
        Some(expected) => eq_ignore_ascii_case(expected, observed),
        None => true,
    }
}

/// The message of a refused certificate.
pub open spec fn mismatch_text(expected: Seq<char>, got: Seq<char>) -> Seq<char> {
    "server certificate fingerprint mismatch: expected "@ + expected + ", got "@ + got
        + ". Pass --trust-new-cert to trust the new certificate, or verify --fingerprint."@
}

impl CertPin {
    /// The required fingerprint (uppercased), if any.
    pub closed spec fn required(&self) -> Option<Seq<char>> {
        match self.required {
            Some(s) => Some(s@),
            None => None,
        }
    }

    /// Pins `required` (compared case-insensitively), or accepts any
    /// certificate when it is `None` (first use, or trusting a new one).
    pub fn new(required: Option<String>) -> (p: Self)
        ensures
            p.required() == match required {
                Some(r) => Some(upper_name(r@)),
                None => None,
            },
    {
        let required = match required {
            Some(r) => Some(to_uppercase(r.as_str())),
            None => None,
        };
        CertPin { required }
    }

    /// Checks the certificate `der` presented by the server. Returns its
    /// fingerprint (always recorded, so the caller can pin it), and whether
    /// it is accepted, with the message of a refusal.
    pub fn check(&self, der: &[u8]) -> (r: (String, Result<(), String>))
        ensures
            r.0@ == spec_fingerprint(der@),
            r.1 is Ok == pin_accepts(self.required(), spec_fingerprint(der@)),
            r.1 matches Err(m) ==> m@ == mismatch_text(self.required()->0, spec_fingerprint(der@)),
    {
        let fp = fingerprint_der(der);
        match &self.required {
            Some(expected) => {
                if equal_ignoring_ascii_case(expected.as_str(), fp.as_str()) {
                    (fp, Ok(()))
                } else {
                    let mut m = String::from_str("server certificate fingerprint mismatch: expected ");
                    m.append(expected.as_str());
                    m.append(", got ");
                    m.append(fp.as_str());
                    m.append(". Pass --trust-new-cert to trust the new certificate, or verify --fingerprint.");
                    (fp, Err(m))
                }
            },
            None => (fp, Ok(())),
        }
    }
}

/// A pinned fingerprint accepts the certificate it was taken from, in
/// either case.
pub proof fn lemma_pin_accepts_own_fingerprint(der: Seq<u8>)
    ensures
        pin_accepts(Some(spec_fingerprint(der)), spec_fingerprint(der)),
        pin_accepts(None, spec_fingerprint(der)),
{
}

} // verus!
