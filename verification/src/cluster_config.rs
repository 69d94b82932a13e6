use vstd::prelude::*;

use crate::text::{char_views, chars_of, decimal, decimal_chars, pieces, split_on, text_of};

verus! {

/// Whether `s` is made of ASCII digits only.
pub open spec fn all_digits(s: Seq<char>) -> bool {
    forall|i: int| 0 <= i < s.len() ==> '0' <= #[trigger] s[i] <= '9'
}

/// The value of a string of ASCII digits read in decimal.
pub open spec fn digits_value(s: Seq<char>) -> nat
    decreases s.len(),
{
    if s.len() == 0 {
        0
    } else {
        digits_value(s.drop_last()) * 10 + ((s.last() as int) - ('0' as int)) as nat
    }
}

/// The port that `str::parse::<u16>` reads from `s`: an optional `+`, then one or more
/// ASCII digits whose value is at most 65535; anything else is no port.
pub open spec fn port_number(s: Seq<char>) -> Option<u16> {
    let d = if s.len() > 0 && s[0] == '+' {
        s.drop_first()
    } else {
        s
    };
    if d.len() > 0 && all_digits(d) && digits_value(d) <= 65535 {
        Some(digits_value(d) as u16)
    } else {
        None
    }
}

/// Calls `str::parse::<u16>`, which the documentation describes as reading an optional
/// `+` followed by decimal digits, failing on anything else and on values past 65535.
#[verifier::external_body]
fn parse_port(s: &str) -> (p: Option<u16>)
    ensures
        p == port_number(s@),
{
    s.parse::<u16>().ok()
}

/// Where a node listens and which peers it talks to.
#[derive(Debug)]
pub struct ClusterConfig {
    pub node_id: String,
    pub bind_addr: String,
    pub peers: Vec<(String, String)>,
    pub client_port: u16,
    pub raft_port: u16,
}

/// The identifier and address that one entry of a peer list gives: `id:host:port`,
/// the address being `host:port`. An entry with fewer parts, or with an empty
/// identifier, gives none.
pub open spec fn peer_entry(entry: Seq<char>) -> Option<(Seq<char>, Seq<char>)> {
    let p = pieces(entry, ':');
    if entry.len() > 0 && p.len() >= 3 && p[0].len() > 0 {
        Some((p[0], p[1] + seq![':'] + p[2]))
    } else {
        None
    }
}

/// The peers of a list of entries, in order.
pub open spec fn peer_list(entries: Seq<Seq<char>>) -> Seq<(Seq<char>, Seq<char>)>
    decreases entries.len(),
{
    if entries.len() == 0 {
        Seq::empty()
    } else {
        let rest = peer_list(entries.drop_last());
        match peer_entry(entries.last()) {
            Some(p) => rest.push(p),
            None => rest,
        }
    }
}

/// The peers that a comma-separated peer list names.
pub open spec fn parsed_peers(s: Seq<char>) -> Seq<(Seq<char>, Seq<char>)> {
    peer_list(pieces(s, ','))
}

/// Whether no entry of a peer list holds exactly one colon; such an entry cannot be
/// read.
pub open spec fn peer_list_readable(s: Seq<char>) -> bool {
    forall|i: int|
        0 <= i < pieces(s, ',').len() && pieces(s, ',')[i].len() > 0 ==> pieces(
            #[trigger] pieces(s, ',')[i],
            ':',
        ).len() != 2
}

/// The views of a list of identifier and address pairs.
pub open spec fn pair_views(ps: Seq<(String, String)>) -> Seq<(Seq<char>, Seq<char>)> {
    ps.map_values(|p: (String, String)| (p.0@, p.1@))
}

/// The text `host:port`.
pub open spec fn address(host: Seq<char>, port: u16) -> Seq<char> {
    host + seq![':'] + decimal(port as nat)
}

fn append_chars(a: &mut Vec<char>, b: &Vec<char>)
    ensures
        final(a)@ == old(a)@ + b@,
{
    let mut i: usize = 0;
    while i < b.len()
        invariant
            i <= b@.len(),
            a@ == old(a)@ + b@.take(i as int),
        decreases b@.len() - i,
    {
        a.push(b[i]);
        i = i + 1;
        assert(a@ =~= old(a)@ + b@.take(i as int));
    }
    assert(b@.take(b@.len() as int) =~= b@);
}

/// The peers named by a comma-separated list of `id:host:port` entries, in order.
/// Empty entries, entries without two colons and entries with an empty identifier are
/// skipped.
pub fn parse_peers(list: &str) -> (peers: Vec<(String, String)>)
    requires
        peer_list_readable(list@),
    ensures
        pair_views(peers@) == parsed_peers(list@),
{
    let chars = chars_of(list);
    let entries = split_on(&chars, ',');
    let ghost es = char_views(entries@);
    let mut peers: Vec<(String, String)> = Vec::new();
    let mut i: usize = 0;
    while i < entries.len()
        invariant
            i <= entries@.len(),
            es == char_views(entries@),
            es == pieces(list@, ','),
            peer_list_readable(list@),
            pair_views(peers@) == peer_list(es.take(i as int)),
        decreases entries@.len() - i,
    {
        assert(es.take(i + 1).drop_last() =~= es.take(i as int));
        assert(es.take(i + 1).last() == entries@[i as int]@);
        let entry = &entries[i];
        if entry.len() > 0 {
            assert(es[i as int].len() > 0);
            let parts = split_on(entry, ':');
            assert(char_views(parts@).len() == parts@.len());
            if parts.len() >= 2 {
                assert(pieces(es[i as int], ':').len() != 2);
                let id = text_of(&parts[0]);
                let mut addr: Vec<char> = Vec::new();
                append_chars(&mut addr, &parts[1]);
                addr.push(':');
                append_chars(&mut addr, &parts[2]);
                assert(addr@ =~= parts@[1]@ + seq![':'] + parts@[2]@);
                if parts[0].len() > 0 {
                    let ghost before = peers@;
                    peers.push((id, text_of(&addr)));
                    assert(pair_views(peers@) =~= pair_views(before).push(
                        (parts@[0]@, addr@),
                    ));
                }
            }
        }
        i = i + 1;
    }
    assert(es.take(es.len() as int) =~= es);
    peers
}

impl ClusterConfig {
    /// The configuration read from settings, each given or absent: the node's
    /// identifier (default `node1`), its bind address (default `0.0.0.0`), its client
    /// and Raft ports (`7000` and `7001` when absent or not a port) and its peer list
    /// (default none).
    pub fn from_settings(
        node_id: Option<String>,
        bind_addr: Option<String>,
        client_port: Option<String>,
        raft_port: Option<String>,
        peers: Option<String>,
    ) -> (c: Self)
        requires
            peers matches Some(p) ==> peer_list_readable(p@),
        ensures
            c.node_id@ == (match node_id {
                Some(s) => s@,
                None => "node1"@,
            }),
            c.bind_addr@ == (match bind_addr {
                Some(s) => s@,
                None => "0.0.0.0"@,
            }),
            c.client_port == (match port_number(
                match client_port {
                    Some(s) => s@,
                    None => "7000"@,
                },
            ) {
                Some(p) => p,
                None => 7000,
            }),
            c.raft_port == (match port_number(
                match raft_port {
                    Some(s) => s@,
                    None => "7001"@,
                },
            ) {
                Some(p) => p,
                None => 7001,
            }),
            pair_views(c.peers@) == (match peers {
                Some(s) => parsed_peers(s@),
                None => parsed_peers(Seq::<char>::empty()),
            }),
    {
        let node_id = match node_id {
            Some(s) => s,
            None => "node1".to_owned(),
        };
        let bind_addr = match bind_addr {
            Some(s) => s,
            None => "0.0.0.0".to_owned(),
        };
        let client_text = match client_port {
            Some(s) => s,
            None => "7000".to_owned(),
        };
        let client_port = match parse_port(client_text.as_str()) {
            Some(p) => p,
            None => 7000,
        };
        let raft_text = match raft_port {
            Some(s) => s,
            None => "7001".to_owned(),
        };
        let raft_port = match parse_port(raft_text.as_str()) {
            Some(p) => p,
            None => 7001,
        };
        let peer_text = match peers {
            Some(s) => s,
            None => String::new(),
        };
        proof {
            if peer_text@.len() == 0 {
                assert(pieces(peer_text@, ',') =~= seq![Seq::<char>::empty()]);
            }
        }
        let peers = parse_peers(peer_text.as_str());
        ClusterConfig { node_id, bind_addr, peers, client_port, raft_port }
    }

    /// The three-node cluster used for local testing, seen from `node1`.
    pub fn default_cluster() -> (c: Self)
        ensures
            c.node_id@ == "node1"@,
            c.bind_addr@ == "0.0.0.0"@,
            pair_views(c.peers@) == seq![("node2"@, "node2:7001"@), ("node3"@, "node3:7001"@)],
            c.client_port == 7000,
            c.raft_port == 7001,
    {
        let mut peers: Vec<(String, String)> = Vec::new();
        peers.push(("node2".to_owned(), "node2:7001".to_owned()));
        peers.push(("node3".to_owned(), "node3:7001".to_owned()));
        assert(pair_views(peers@) =~= seq![("node2"@, "node2:7001"@), ("node3"@, "node3:7001"@)]);
        ClusterConfig {
            node_id: "node1".to_owned(),
            bind_addr: "0.0.0.0".to_owned(),
            peers,
            client_port: 7000,
            raft_port: 7001,
        }
    }

    /// The peers' identifiers, in order.
    pub fn peer_ids(&self) -> (ids: Vec<String>)
        ensures
            ids@ == self.peers@.map_values(|p: (String, String)| p.0),
    {
        let mut ids: Vec<String> = Vec::new();
        let mut i: usize = 0;
        while i < self.peers.len()
            invariant
                i <= self.peers@.len(),
                ids@ == self.peers@.take(i as int).map_values(|p: (String, String)| p.0),
            decreases self.peers@.len() - i,
        {
            ids.push(self.peers[i].0.clone());
            i = i + 1;
            assert(ids@ =~= self.peers@.take(i as int).map_values(|p: (String, String)| p.0));
        }
        assert(self.peers@.take(self.peers@.len() as int) =~= self.peers@);
        ids
    }

    /// The peers' addresses, in order.
    pub fn peer_addresses(&self) -> (addrs: Vec<String>)
        ensures
            addrs@ == self.peers@.map_values(|p: (String, String)| p.1),
    {
        let mut addrs: Vec<String> = Vec::new();
        let mut i: usize = 0;
        while i < self.peers.len()
            invariant
                i <= self.peers@.len(),
                addrs@ == self.peers@.take(i as int).map_values(|p: (String, String)| p.1),
            decreases self.peers@.len() - i,
        {
            addrs.push(self.peers[i].1.clone());
            i = i + 1;
            assert(addrs@ =~= self.peers@.take(i as int).map_values(|p: (String, String)| p.1));
        }
        assert(self.peers@.take(self.peers@.len() as int) =~= self.peers@);
        addrs
    }

    fn listen_address(host: &String, port: u16) -> (a: String)
        ensures
            a@ == address(host@, port),
    {
        let mut chars = chars_of(host.as_str());
        chars.push(':');
        let digits = decimal_chars(port as u64);
        append_chars(&mut chars, &digits);
        text_of(&chars)
    }

    /// The address clients connect to: `bind_addr:client_port`.
    pub fn client_addr(&self) -> (a: String)
        ensures
            a@ == address(self.bind_addr@, self.client_port),
    {
        Self::listen_address(&self.bind_addr, self.client_port)
    }

    /// The address peers connect to: `bind_addr:raft_port`.
    pub fn raft_addr(&self) -> (a: String)
        ensures
            a@ == address(self.bind_addr@, self.raft_port),
    {
        Self::listen_address(&self.bind_addr, self.raft_port)
    }
}

impl Clone for ClusterConfig {
    fn clone(&self) -> (c: Self)
        ensures
            c.node_id == self.node_id,
            c.bind_addr == self.bind_addr,
            c.peers@ == self.peers@,
            c.client_port == self.client_port,
            c.raft_port == self.raft_port,
    {
        let mut peers: Vec<(String, String)> = Vec::new();
        let mut i: usize = 0;
        while i < self.peers.len()
            invariant
                i <= self.peers@.len(),
                peers@ == self.peers@.take(i as int),
            decreases self.peers@.len() - i,
        {
            peers.push((self.peers[i].0.clone(), self.peers[i].1.clone()));
            i = i + 1;
            assert(peers@ =~= self.peers@.take(i as int));
        }
        assert(self.peers@.take(self.peers@.len() as int) =~= self.peers@);
        ClusterConfig {
            node_id: self.node_id.clone(),
            bind_addr: self.bind_addr.clone(),
            peers,
            client_port: self.client_port,
            raft_port: self.raft_port,
        }
    }
}

} // verus!
