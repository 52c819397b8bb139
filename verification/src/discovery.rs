//! mDNS discovery: what the server advertises, and how the client turns
//! resolved services into a list of servers (one per service, sorted by
//! name, IPv4 preferred).

use crate::addr::{format_host_port, spec_format_host_port};
use crate::protocol::{Caps, MDNS_SERVICE_TYPE};
use crate::server_session::copy_string;
use crate::text::{chars_of, decimal, push_decimal, str_eq, string_of_range};
use vstd::prelude::*;
use vstd::seq_lib::to_multiset_build;
use vstd::seq_lib::to_multiset_insert;
use vstd::string::StringExecFns;

verus! {

// --- The server's advertisement ---------------------------------------------------

/// The mDNS instance name for a server called `server_name`.
pub fn mdns_instance_name(server_name: &str) -> (n: String)
    ensures
        n@ == server_name@ + "."@ + MDNS_SERVICE_TYPE@,
{
    let mut n = String::new();
    n.append(server_name);
    n.append(".");
    n.append(MDNS_SERVICE_TYPE);
    n
}

/// `true` or `false`.
pub open spec fn bool_text(b: bool) -> Seq<char> {
    if b {
        "true"@
    } else {
        "false"@
    }
}

fn bool_string(b: bool) -> (s: String)
    ensures
        s@ == bool_text(b),
{
    if b {
        String::from_str("true")
    } else {
        String::from_str("false")
    }
}

/// The TXT properties a server advertises: its name, port and the
/// capabilities of `Caps::default()`.
pub fn mdns_properties(server_name: &str, port: u16) -> (props: Vec<(String, String)>)
    ensures
        props@.len() == 5,
        props@[0].0@ == "name"@ && props@[0].1@ == server_name@,
        props@[1].0@ == "port"@ && props@[1].1@ == decimal(port as nat),
        props@[2].0@ == "clipboard"@ && props@[2].1@ == bool_text(true),
        props@[3].0@ == "file_transfer"@ && props@[3].1@ == bool_text(true),
        props@[4].0@ == "internet_share"@ && props@[4].1@ == bool_text(false),
{
    let caps = Caps::default();
    let mut name = String::new();
    name.append(server_name);
    let mut port_text = String::new();
    push_decimal(&mut port_text, port as u64);
    let mut props: Vec<(String, String)> = Vec::new();
    props.push((String::from_str("name"), name));
    props.push((String::from_str("port"), port_text));
    props.push((String::from_str("clipboard"), bool_string(caps.clipboard)));
    props.push((String::from_str("file_transfer"), bool_string(caps.file_transfer)));
    props.push((String::from_str("internet_share"), bool_string(caps.internet_share)));
    props
}

// --- The client's list -----------------------------------------------------------

/// A server found on the network.
#[derive(Debug)]
pub struct DiscoveredServer {
    pub name: String,
    pub host: String,
    pub port: u16,
    /// `host:port`, IPv6 bracketed: ready to connect to.
    pub address: String,
}

/// The mathematical content of a `DiscoveredServer`.
pub struct DiscoveredView {
    pub name: Seq<char>,
    pub host: Seq<char>,
    pub port: u16,
    pub address: Seq<char>,
}

impl DiscoveredServer {
    pub open spec fn view_of(&self) -> DiscoveredView {
        DiscoveredView { name: self.name@, host: self.host@, port: self.port, address: self.address@ }
    }

    /// A copy with the same content.
    pub fn copy(&self) -> (c: DiscoveredServer)
        ensures
            c.view_of() == self.view_of(),
    {
        DiscoveredServer {
            name: copy_string(&self.name),
            host: copy_string(&self.host),
            port: self.port,
            address: copy_string(&self.address),
        }
    }
}

/// `s` without trailing dots.
pub open spec fn trim_dots(s: Seq<char>) -> Seq<char>
    decreases s.len(),
{
    if s.len() > 0 && s.last() == '.' {
        trim_dots(s.drop_last())
    } else {
        s
    }
}

fn trim_trailing_dots(s: &str) -> (r: String)
    ensures
        r@ == trim_dots(s@),
{
    let v = chars_of(s);
    let mut end: usize = v.len();
    proof {
        assert(v@.take(end as int) =~= v@);
    }
    while end > 0 && v[end - 1] == '.'
        invariant
            end <= v@.len(),
            trim_dots(s@) == trim_dots(v@.take(end as int)),
            v@ == s@,
        decreases end,
    {
        proof {
            assert(v@.take(end as int).drop_last() =~= v@.take(end - 1));
        }
        end = end - 1;
    }
    string_of_range(v.as_slice(), 0, end)
}

/// The server a resolved service describes: reached at its first IPv4
/// address (`v4`), else its first address of any kind (`any`), and named by
/// its host name without trailing dots (by the service's full name when
/// that is empty). A service without an address gives none.
pub fn server_from_service(
    fullname: &str,
    hostname: &str,
    port: u16,
    v4: Option<String>,
    any: Option<String>,
) -> (r: Option<DiscoveredServer>)
    ensures
        match (v4, any) {
            (None, None) => r is None,
            _ => r matches Some(d) && ({
                let host = match v4 {
                    Some(h) => h@,
                    None => any->0@,
                };
                let name = if trim_dots(hostname@).len() == 0 {
                    fullname@
                } else {
                    trim_dots(hostname@)
                };
                d.view_of() == (DiscoveredView {
                    name,
                    host,
                    port,
                    address: spec_format_host_port(host, port),
                })
            }),
        },
{
    let host = match v4 {
        Some(h) => h,
        None => match any {
            Some(h) => h,
            None => return None,
        },
    };
    let trimmed = trim_trailing_dots(hostname);
    let name = if trimmed.as_str().is_empty() {
        let mut f = String::new();
        f.append(fullname);
        f
    } else {
        trimmed
    };
    let address = format_host_port(host.as_str(), port);
    Some(DiscoveredServer { name, host, port, address })
}

/// `a` comes before `b`, character by character (a proper prefix first).
pub open spec fn name_less(a: Seq<char>, b: Seq<char>) -> bool
    decreases a.len(),
{
    if a.len() == 0 {
        b.len() > 0
    } else if b.len() == 0 {
        false
    } else if a[0] != b[0] {
        a[0] < b[0]
    } else {
        name_less(a.drop_first(), b.drop_first())
    }
}

proof fn lemma_name_less_irreflexive(a: Seq<char>)
    ensures
        !name_less(a, a),
    decreases a.len(),
{
    if a.len() > 0 {
        lemma_name_less_irreflexive(a.drop_first());
    }
}

proof fn lemma_name_less_transitive(a: Seq<char>, b: Seq<char>, c: Seq<char>)
    requires
        name_less(a, b),
        name_less(b, c),
    ensures
        name_less(a, c),
    decreases a.len(),
{
    if a.len() > 0 && b.len() > 0 && c.len() > 0 && a[0] == b[0] && b[0] == c[0] {
        lemma_name_less_transitive(a.drop_first(), b.drop_first(), c.drop_first());
    }
}

fn names_less(a: &str, b: &str) -> (r: bool)
    ensures
        r == name_less(a@, b@),
{
    let av = chars_of(a);
    let bv = chars_of(b);
    let mut i: usize = 0;
    proof {
        assert(a@.skip(0) =~= a@);
        assert(b@.skip(0) =~= b@);
    }
    while i < av.len() && i < bv.len() && av[i] == bv[i]
        invariant
            i <= av@.len(),
            i <= bv@.len(),
            av@ == a@,
            bv@ == b@,
            name_less(a@, b@) == name_less(a@.skip(i as int), b@.skip(i as int)),
        decreases av@.len() - i,
    {
        proof {
            assert(a@.skip(i as int).drop_first() =~= a@.skip(i + 1));
            assert(b@.skip(i as int).drop_first() =~= b@.skip(i + 1));
        }
        i = i + 1;
    }
    if i == av.len() {
        i < bv.len()
    } else if i == bv.len() {
        false
    } else {
        av[i] < bv[i]
    }
}

/// Sorted by name, ties in any order.
pub open spec fn by_name(s: Seq<DiscoveredView>) -> bool {
    forall|i: int, j: int| 0 <= i < j < s.len() ==> !name_less((#[trigger] s[j]).name, (#[trigger] s[i]).name)
}

/// The services resolved so far, one per full service name.
pub struct ServerCollector {
    found: Vec<(String, DiscoveredServer)>,
}

impl ServerCollector {
    pub closed spec fn pairs(&self) -> Seq<(Seq<char>, DiscoveredView)> {
        self.found@.map_values(|p: (String, DiscoveredServer)| (p.0@, p.1.view_of()))
    }

    pub closed spec fn wf(&self) -> bool {
        crate::assoc::keys_unique(self.pairs())
    }

    /// The servers by full service name.
    pub closed spec fn view(&self) -> Map<Seq<char>, DiscoveredView> {
        crate::assoc::assoc_map(self.pairs())
    }

    /// Nothing found yet.
    pub fn new() -> (c: Self)
        ensures
            c.wf(),
            c.view() == Map::<Seq<char>, DiscoveredView>::empty(),
    {
        let c = ServerCollector { found: Vec::new() };
        proof {
            assert(c.pairs() =~= Seq::<(Seq<char>, DiscoveredView)>::empty());
        }
        c
    }

    fn position(&self, fullname: &str) -> (r: Option<usize>)
        ensures
            r matches Some(i) ==> i < self.pairs().len() && self.pairs()[i as int].0 == fullname@,
            r is None ==> forall|i: int| 0 <= i < self.pairs().len() ==> self.pairs()[i].0 != fullname@,
    {
        let mut i: usize = 0;
        while i < self.found.len()
            invariant
                i <= self.found@.len(),
                self.pairs().len() == self.found@.len(),
                forall|j: int| 0 <= j < i ==> self.pairs()[j].0 != fullname@,
            decreases self.found@.len() - i,
        {
            if str_eq(self.found[i].0.as_str(), fullname) {
                return Some(i);
            }
            i = i + 1;
        }
        None
    }

    /// Records `server` as the service `fullname` (replacing an earlier
    /// resolution of the same service).
    pub fn insert(&mut self, fullname: String, server: DiscoveredServer)
        requires
            old(self).wf(),
        ensures
            final(self).wf(),
            final(self).view() == old(self).view().insert(fullname@, server.view_of()),
    {
        let ghost old_pairs = self.pairs();
        let ghost sv = server.view_of();
        let ghost key = fullname@;
        match self.position(fullname.as_str()) {
            Some(i) => {
                proof {
                    crate::assoc::lemma_assoc_set(old_pairs, i as int, sv);
                }
                self.found.set(i, (fullname, server));
                proof {
                    assert(self.pairs() =~= old_pairs.update(i as int, (key, sv)));
                }
            },
            None => {
                proof {
                    crate::assoc::lemma_assoc_push(old_pairs, key, sv);
                }
                self.found.push((fullname, server));
                proof {
                    assert(self.pairs() =~= old_pairs.push((key, sv)));
                }
            },
        }
    }

    /// The servers found, sorted by name (servers of the same name keep the
    /// order they were found in).
    pub fn sorted_servers(&self) -> (v: Vec<DiscoveredServer>)
        ensures
            v@.map_values(|d: DiscoveredServer| d.view_of()).to_multiset()
                == self.pairs().map_values(|p: (Seq<char>, DiscoveredView)| p.1).to_multiset(),
            by_name(v@.map_values(|d: DiscoveredServer| d.view_of())),
    {
        let ghost stored = self.pairs().map_values(|p: (Seq<char>, DiscoveredView)| p.1);
        let mut out: Vec<DiscoveredServer> = Vec::new();
        proof {
            assert(out@.map_values(|d: DiscoveredServer| d.view_of()) =~= stored.take(0));
        }
        let mut i: usize = 0;
        while i < self.found.len()
            invariant
                i <= self.found@.len(),
                stored == self.pairs().map_values(|p: (Seq<char>, DiscoveredView)| p.1),
                out@.map_values(|d: DiscoveredServer| d.view_of()).to_multiset() == stored.take(
                    i as int,
                ).to_multiset(),
                by_name(out@.map_values(|d: DiscoveredServer| d.view_of())),
            decreases self.found@.len() - i,
        {
            let item = self.found[i].1.copy();
            let ghost before = out@.map_values(|d: DiscoveredServer| d.view_of());
            // The first position holding a name that sorts after this one.
            let mut p: usize = 0;
            while p < out.len() && !names_less(item.name.as_str(), out[p].name.as_str())
                invariant
                    p <= out@.len(),
                    before == out@.map_values(|d: DiscoveredServer| d.view_of()),
                    forall|q: int| 0 <= q < p ==> !name_less(item.name@, (#[trigger] before[q]).name),
                decreases out@.len() - p,
            {
                p = p + 1;
            }
            let ghost x = item.view_of();
            out.insert(p, item);
            proof {
                let after = out@.map_values(|d: DiscoveredServer| d.view_of());
                assert(after =~= before.insert(p as int, x));
                to_multiset_insert(before, p as int, x);
                assert(stored.take(i + 1) =~= stored.take(i as int).push(stored[i as int]));
                to_multiset_build(stored.take(i as int), stored[i as int]);
                assert(stored[i as int] == x);
                assert forall|a: int, b: int| 0 <= a < b < after.len() implies !name_less(
                    (#[trigger] after[b]).name,
                    (#[trigger] after[a]).name,
                ) by {
                    if b < p {
                        assert(after[a] == before[a] && after[b] == before[b]);
                    } else if b == p {
                        assert(after[a] == before[a]);
                    } else if a == p {
                        assert(after[b] == before[b - 1]);
                        assert(name_less(x.name, before[p as int].name));
                        if name_less(before[b - 1].name, x.name) {
                            lemma_name_less_transitive(before[b - 1].name, x.name, before[p as int].name);
                            if b - 1 > p {
                                assert(!name_less(before[b - 1].name, before[p as int].name));
                            } else {
                                lemma_name_less_irreflexive(before[p as int].name);
                            }
                        }
                    } else if a < p {
                        assert(after[a] == before[a] && after[b] == before[b - 1]);
                    } else {
                        assert(after[a] == before[a - 1] && after[b] == before[b - 1]);
                    }
                }
            }
            i = i + 1;
        }
        proof {
            assert(stored.take(stored.len() as int) =~= stored);
        }
        out
    }
}

} // verus!
