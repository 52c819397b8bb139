//! Address parsing that understands `host:port`, bare hosts, and both
//! bracketed (`[::1]:4000`) and bare IPv6 literals.

use crate::text::{
    chars_of, contains_char, count_char, count_from, decimal, find_char, find_from,
    is_digit, is_whitespace, lemma_decimal_parses, lemma_skip_without, parse_u16, push_char,
    push_decimal, spec_parse_u16, string_of, string_of_range, trim, trim_chars, trim_end,
    trim_start, without_plus,
};
use vstd::prelude::*;
use vstd::string::StringExecFns;

verus! {

/// Why an address string was refused. Each variant but `Empty` carries the
/// trimmed input; `InvalidPort` also carries the port text.
#[derive(Clone, Debug)]
pub enum AddrError {
    Empty,
    MissingClosingBracket(String),
    EmptyHost(String),
    InvalidPort(String, String),
    TrailingCharacters(String),
}

/// The mathematical content of an `AddrError`.
pub enum AddrErrorView {
    Empty,
    MissingClosingBracket(Seq<char>),
    EmptyHost(Seq<char>),
    InvalidPort(Seq<char>, Seq<char>),
    TrailingCharacters(Seq<char>),
}

impl AddrError {
    pub open spec fn view_of(self) -> AddrErrorView {
        match self {
            AddrError::Empty => AddrErrorView::Empty,
            AddrError::MissingClosingBracket(s) => AddrErrorView::MissingClosingBracket(s@),
            AddrError::EmptyHost(s) => AddrErrorView::EmptyHost(s@),
            AddrError::InvalidPort(s, p) => AddrErrorView::InvalidPort(s@, p@),
            AddrError::TrailingCharacters(s) => AddrErrorView::TrailingCharacters(s@),
        }
    }

    /// The human-readable description of the error.
    pub fn message(&self) -> (m: String)
        ensures
            m@ == match self.view_of() {
                AddrErrorView::Empty => "empty address"@,
                AddrErrorView::MissingClosingBracket(s) => "invalid address '"@ + s
                    + "': missing closing ']'"@,
                AddrErrorView::EmptyHost(s) => "invalid address '"@ + s + "': empty host"@,
                AddrErrorView::InvalidPort(s, p) => "invalid port in '"@ + s + "': '"@ + p + "'"@,
                AddrErrorView::TrailingCharacters(s) => "invalid address '"@ + s
                    + "': unexpected trailing characters"@,
            },
    {
        match self {
            AddrError::Empty => String::from_str("empty address"),
            AddrError::MissingClosingBracket(s) => {
                let mut m = String::from_str("invalid address '");
                m.append(s.as_str());
                m.append("': missing closing ']'");
                m
            },
            AddrError::EmptyHost(s) => {
                let mut m = String::from_str("invalid address '");
                m.append(s.as_str());
                m.append("': empty host");
                m
            },
            AddrError::InvalidPort(s, p) => {
                let mut m = String::from_str("invalid port in '");
                m.append(s.as_str());
                m.append("': '");
                m.append(p.as_str());
                m.append("'");
                m
            },
            AddrError::TrailingCharacters(s) => {
                let mut m = String::from_str("invalid address '");
                m.append(s.as_str());
                m.append("': unexpected trailing characters");
                m
            },
        }
    }
}

/// The result of parsing, with strings taken by their characters.
pub open spec fn addr_result_view(r: Result<(String, u16), AddrError>) -> Result<
    (Seq<char>, u16),
    AddrErrorView,
> {
    match r {
        Ok((h, p)) => Ok((h@, p)),
        Err(e) => Err(e.view_of()),
    }
}

/// The `[host]...` form: `s` starts with `[`.
pub open spec fn spec_parse_bracketed(s: Seq<char>, default_port: u16) -> Result<
    (Seq<char>, u16),
    AddrErrorView,
> {
    let rest = s.drop_first();
    match find_from(rest, ']', 0) {
        None => Err(AddrErrorView::MissingClosingBracket(s)),
        Some(end) => {
            let host = rest.take(end);
            let after = rest.skip(end + 1);
            if host.len() == 0 {
                Err(AddrErrorView::EmptyHost(s))
            } else if after.len() > 0 && after[0] == ':' {
                let p = after.drop_first();
                match spec_parse_u16(p) {
                    Some(port) => Ok((host, port)),
                    None => Err(AddrErrorView::InvalidPort(s, p)),
                }
            } else if after.len() == 0 {
                Ok((host, default_port))
            } else {
                Err(AddrErrorView::TrailingCharacters(s))
            }
        },
    }
}

/// The unbracketed form: no colon means a bare host, one colon splits host
/// from port, more colons make a bare IPv6 literal with the default port.
pub open spec fn spec_parse_plain(s: Seq<char>, default_port: u16) -> Result<
    (Seq<char>, u16),
    AddrErrorView,
> {
    if count_from(s, ':', 0) == 1 {
        match find_from(s, ':', 0) {
            Some(k) => {
                let host = s.take(k);
                let port_str = s.skip(k + 1);
                if host.len() == 0 {
                    Err(AddrErrorView::EmptyHost(s))
                } else {
                    match spec_parse_u16(port_str) {
                        Some(port) => Ok((host, port)),
                        None => Err(AddrErrorView::InvalidPort(s, port_str)),
                    }
                }
            },
            None => Ok((s, default_port)),
        }
    } else {
        Ok((s, default_port))
    }
}

/// What `parse_host_port` gives for the characters `input`.
pub open spec fn spec_parse_host_port(input: Seq<char>, default_port: u16) -> Result<
    (Seq<char>, u16),
    AddrErrorView,
> {
    let s = trim(input);
    if s.len() == 0 {
        Err(AddrErrorView::Empty)
    } else if s[0] == '[' {
        spec_parse_bracketed(s, default_port)
    } else {
        spec_parse_plain(s, default_port)
    }
}

/// Splits `s` into a `(host, port)` pair, using `default_port` when `s`
/// carries no port. Accepts `[v6]:port`, `[v6]` (no port), `host:port`, a
/// bare hostname or IPv4 address, or a bare (unbracketed) IPv6 literal.
/// Surrounding whitespace is ignored.
pub fn parse_host_port(s: &str, default_port: u16) -> (r: Result<(String, u16), AddrError>)
    ensures
        addr_result_view(r) == spec_parse_host_port(s@, default_port),
{
    let all = chars_of(s);
    let t = trim_chars(all.as_slice());
    if t.len() == 0 {
        return Err(AddrError::Empty);
    }
    if t[0] == '[' {
        let tn = t.len();
        let ghost rest = t@.drop_first();
        let mut end: usize = 1;
        while end < tn && t[end] != ']'
            invariant
                1 <= end <= tn,
                tn == t@.len(),
                rest == t@.drop_first(),
                find_from(rest, ']', 0) == find_from(rest, ']', end - 1),
            decreases tn - end,
        {
            end = end + 1;
        }
        if end == tn {
            return Err(AddrError::MissingClosingBracket(string_of(t.as_slice())));
        }
        // `end` is the index in `t` of the first `]`; in `rest` it is `end - 1`.
        if end == 1 {
            return Err(AddrError::EmptyHost(string_of(t.as_slice())));
        }
        let host = string_of_range(t.as_slice(), 1, end);
        proof {
            assert(host@ =~= rest.take(end - 1));
            assert(rest.skip(end as int) =~= t@.skip(end + 1));
        }
        if end + 1 < tn && t[end + 1] == ':' {
            let p = string_of_range(t.as_slice(), end + 2, tn);
            let pv = chars_of(p.as_str());
            proof {
                assert(p@ =~= t@.skip(end + 1).drop_first());
            }
            match parse_u16(pv.as_slice()) {
                Some(port) => Ok((host, port)),
                None => Err(AddrError::InvalidPort(string_of(t.as_slice()), p)),
            }
        } else if end + 1 == tn {
            Ok((host, default_port))
        } else {
            Err(AddrError::TrailingCharacters(string_of(t.as_slice())))
        }
    } else {
        let n = count_char(t.as_slice(), ':');
        if n == 1 {
            proof {
                crate::text::lemma_count_finds(t@, ':', 0);
            }
            match find_char(t.as_slice(), ':') {
                Some(k) => {
                    if k == 0 {
                        return Err(AddrError::EmptyHost(string_of(t.as_slice())));
                    }
                    let host = string_of_range(t.as_slice(), 0, k);
                    let port_str = string_of_range(t.as_slice(), k + 1, t.len());
                    let pv = chars_of(port_str.as_str());
                    proof {
                        assert(host@ =~= t@.take(k as int));
                        assert(port_str@ =~= t@.skip(k + 1));
                    }
                    match parse_u16(pv.as_slice()) {
                        Some(port) => Ok((host, port)),
                        None => Err(AddrError::InvalidPort(string_of(t.as_slice()), port_str)),
                    }
                },
                None => Ok((string_of(t.as_slice()), default_port)),
            }
        } else {
            Ok((string_of(t.as_slice()), default_port))
        }
    }
}

/// `host:port`, with the host bracketed when it holds a colon.
pub open spec fn spec_format_host_port(host: Seq<char>, port: u16) -> Seq<char> {
    if host.contains(':') {
        seq!['['] + host + seq![']', ':'] + decimal(port as nat)
    } else {
        host + seq![':'] + decimal(port as nat)
    }
}

/// Formats `(host, port)` back into a connectable string, bracketing IPv6
/// hosts so the result parses back with `parse_host_port`.
pub fn format_host_port(host: &str, port: u16) -> (r: String)
    ensures
        r@ == spec_format_host_port(host@, port),
{
    let hv = chars_of(host);
    let bracket = contains_char(hv.as_slice(), ':');
    let mut r = String::new();
    if bracket {
        push_char(&mut r, '[');
    }
    r.append(host);
    if bracket {
        push_char(&mut r, ']');
    }
    push_char(&mut r, ':');
    push_decimal(&mut r, port as u64);
    proof {
        if bracket {
            assert(r@ =~= spec_format_host_port(host@, port));
        } else {
            assert(r@ =~= spec_format_host_port(host@, port));
        }
    }
    r
}

proof fn lemma_trim_keeps(s: Seq<char>)
    requires
        s.len() > 0,
        !is_whitespace(s[0]),
        !is_whitespace(s.last()),
    ensures
        trim(s) == s,
{
    assert(trim_start(s) == s);
    assert(trim_end(s) == s);
}

proof fn lemma_port_text_parses(port: u16)
    ensures
        spec_parse_u16(decimal(port as nat)) == Some(port),
        decimal(port as nat).len() > 0,
        !is_whitespace(decimal(port as nat).last()),
        !decimal(port as nat).contains(':'),
{
    let d = decimal(port as nat);
    lemma_decimal_parses(port as nat);
    assert(without_plus(d) == d);
    assert(is_digit(d[d.len() - 1]));
    assert forall|i: int| 0 <= i < d.len() implies d[i] != ':' by {
        assert(is_digit(d[i]));
    }
}

/// Formatting then parsing gives the host and port back, for every host
/// that such a string can carry: a non-empty one, without `]` where it gets
/// brackets, and, where it does not, starting with neither whitespace nor
/// `[`.
pub proof fn lemma_format_then_parse(host: Seq<char>, port: u16, default_port: u16)
    requires
        host.len() > 0,
        host.contains(':') ==> !host.contains(']'),
        !host.contains(':') ==> !is_whitespace(host[0]) && host[0] != '[',
    ensures
        spec_parse_host_port(spec_format_host_port(host, port), default_port) == Ok::<
            (Seq<char>, u16),
            AddrErrorView,
        >((host, port)),
{
    let d = decimal(port as nat);
    lemma_port_text_parses(port);
    let s = spec_format_host_port(host, port);
    if host.contains(':') {
        assert(s =~= seq!['['] + host + seq![']', ':'] + d);
        assert(s.last() == d.last());
        lemma_trim_keeps(s);
        let rest = s.drop_first();
        assert(rest =~= host + seq![']', ':'] + d);
        assert forall|j: int| 0 <= j < host.len() implies rest[j] != ']' by {
            assert(rest[j] == host[j]);
        }
        lemma_skip_without(rest, ']', 0, host.len() as int);
        assert(rest[host.len() as int] == ']');
        assert(rest.take(host.len() as int) =~= host);
        assert(rest.skip(host.len() as int + 1) =~= seq![':'] + d);
        assert((seq![':'] + d).drop_first() =~= d);
    } else {
        assert(s =~= host + seq![':'] + d);
        assert(s.last() == d.last());
        assert(s[0] == host[0]);
        lemma_trim_keeps(s);
        let k = host.len() as int;
        assert forall|j: int| 0 <= j < k implies s[j] != ':' by {
            assert(s[j] == host[j]);
        }
        lemma_skip_without(s, ':', 0, k);
        assert(s[k] == ':');
        assert forall|j: int| k + 1 <= j < s.len() implies s[j] != ':' by {
            assert(s[j] == d[j - k - 1]);
        }
        lemma_skip_without(s, ':', k + 1, s.len() as int);
        assert(count_from(s, ':', s.len() as int) == 0);
        assert(count_from(s, ':', k) == 1 + count_from(s, ':', k + 1));
        assert(s.take(k) =~= host);
        assert(s.skip(k + 1) =~= d);
    }
}

} // verus!
