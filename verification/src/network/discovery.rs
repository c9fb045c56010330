//! The peers found on the local network, kept up to date from discovery events.
//!
//! Each machine announces itself with its id, user and version; the local
//! machine's own announcement is ignored. A peer that goes away is kept in
//! the list but marked offline.

use vstd::prelude::*;
use vstd::utf8::{encode_utf8, is_char_boundary};
use vstd::string::StringSliceAdditionalSpecFns;
use crate::text::{chars_of, concat, concat3, contains_seq, contains_chars, lowercase, replace_char, replace_char_exec, string_from_chars, to_lowercase};

verus! {

/// The service type this application announces and browses.
pub open spec fn service_type() -> Seq<char> {
    "_f1rma._tcp.local."@
}

/// The service type this application announces and browses.
pub fn service_type_text() -> (r: &'static str)
    ensures
        r@ == service_type(),
{
    "_f1rma._tcp.local."
}

/// The instance name this machine announces: its name, `_` and the first
/// eight bytes of its id. The id must hold a character boundary at byte eight
/// (slicing there would panic otherwise).
pub fn instance_name(machine_name: &str, machine_id: &str) -> (r: String)
    requires
        is_char_boundary(machine_id.spec_bytes(), 8),
    ensures
        exists|head: Seq<char>|
            encode_utf8(head) == machine_id.spec_bytes().subrange(0, 8) && r@ == machine_name@ + "_"@ + head,
{
    let (head, _rest) = machine_id.split_at(8);
    let r = concat3(machine_name, "_", head);
    proof {
        assert(encode_utf8(head@) == head.spec_bytes());
    }
    r
}

/// The host name this machine announces: its name in lowercase with spaces
/// as dashes, under `.local.`.
pub fn mdns_host_name(machine_name: &str) -> (r: String)
    ensures
        r@ == replace_char(lowercase(machine_name@), ' ', '-') + ".local."@,
{
    let lower = to_lowercase(machine_name);
    let dashed = replace_char_exec(lower.as_str(), ' ', '-');
    concat(dashed.as_str(), ".local.")
}

/// A machine found on the network.
pub struct Peer {
    /// Display name of the machine.
    pub machine_name: String,
    /// Unique id of the machine.
    pub machine_id: String,
    pub username: String,
    /// IP address.
    pub address: String,
    /// Port of the sharing server.
    pub port: u16,
    /// Version of the application running there.
    pub version: String,
    /// When the peer was last seen, on the caller's clock (milliseconds).
    pub last_seen: Option<u64>,
    /// Whether the peer is answering.
    pub online: bool,
}

impl Clone for Peer {
    fn clone(&self) -> (r: Self)
        ensures
            r == *self,
    {
        Peer {
            machine_name: self.machine_name.clone(),
            machine_id: self.machine_id.clone(),
            username: self.username.clone(),
            address: self.address.clone(),
            port: self.port,
            version: self.version.clone(),
            last_seen: self.last_seen,
            online: self.online,
        }
    }
}

/// A discovery event, as the network reported it.
pub enum DiscoveryEvent {
    /// A service was resolved: its full name, the `machine_id`, `username` and
    /// `version` properties it announced (when present), its first address
    /// (when any) and its port.
    Resolved {
        fullname: String,
        machine_id: Option<String>,
        username: Option<String>,
        version: Option<String>,
        address: Option<String>,
        port: u16,
    },
    /// A service with this full name went away.
    Removed { fullname: String },
    /// Any other event (a search started or stopped, ...): nothing changes.
    Other,
}

/// The text before the first `.` of a full service name (all of it when
/// there is none).
pub open spec fn name_before_dot(s: Seq<char>) -> Seq<char>
    decreases s.len(),
{
    if s.len() == 0 {
        s
    } else if s[0] == '.' {
        Seq::empty()
    } else {
        seq![s[0]] + name_before_dot(s.drop_first())
    }
}

/// An optional text, or the empty text.
pub open spec fn text_or_empty(t: Option<String>) -> Seq<char> {
    match t {
        Some(s) => s@,
        None => Seq::empty(),
    }
}

/// `s` with `p` in place of the peer with the same id, or with `p` added.
pub open spec fn with_peer(s: Seq<Peer>, p: Peer) -> Seq<Peer> {
    if exists|i: int| 0 <= i < s.len() && s[i].machine_id@ == p.machine_id@ {
        s.update(choose|i: int| 0 <= i < s.len() && s[i].machine_id@ == p.machine_id@, p)
    } else {
        s.push(p)
    }
}

/// Peers whose name occurs in `fullname` are marked offline.
pub open spec fn marked_offline(s: Seq<Peer>, fullname: Seq<char>) -> Seq<Peer> {
    s.map_values(
        |q: Peer|
            if contains_seq(fullname, q.machine_name@) {
                Peer { online: false, ..q }
            } else {
                q
            },
    )
}

/// The online peers of `s`, in order.
pub open spec fn online_of(s: Seq<Peer>) -> Seq<Peer>
    decreases s.len(),
{
    if s.len() == 0 {
        s
    } else if s.last().online {
        online_of(s.drop_last()).push(s.last())
    } else {
        online_of(s.drop_last())
    }
}

/// The peer that a resolved event describes (`now` stamps when it was seen).
pub open spec fn resolved_peer(
    fullname: Seq<char>,
    machine_id: Option<String>,
    username: Option<String>,
    version: Option<String>,
    address: Option<String>,
    port: u16,
    now: u64,
    p: Peer,
) -> bool {
    &&& p.machine_name@ == name_before_dot(fullname)
    &&& p.machine_id@ == text_or_empty(machine_id)
    &&& p.username@ == text_or_empty(username)
    &&& p.version@ == text_or_empty(version)
    &&& p.address@ == text_or_empty(address)
    &&& p.port == port
    &&& p.last_seen == Some(now)
    &&& p.online
}

/// The state of discovery: the peers found, by machine id, and whether the
/// service is running.
pub struct DiscoveryState {
    peers: Vec<Peer>,
    is_running: bool,
}

/// The text before the first `.`.
fn before_first_dot(s: &str) -> (r: String)
    ensures
        r@ == name_before_dot(s@),
{
    let cs = chars_of(s);
    let mut out: Vec<char> = Vec::new();
    let mut i: usize = 0;
    proof {
        assert(cs@.subrange(0, cs@.len() as int) =~= cs@);
        assert(out@ + name_before_dot(s@) =~= name_before_dot(s@));
        assert(out@ =~= cs@.subrange(0, 0));
    }
    while i < cs.len() && cs[i] != '.'
        invariant
            cs@ == s@,
            i <= cs@.len(),
            forall|j: int| 0 <= j < i ==> cs@[j] != '.',
            out@ == cs@.subrange(0, i as int),
            name_before_dot(s@) == out@ + name_before_dot(cs@.subrange(i as int, cs@.len() as int)),
        decreases cs@.len() - i,
    {
        proof {
            let rest = cs@.subrange(i as int, cs@.len() as int);
            assert(rest.drop_first() =~= cs@.subrange(i + 1, cs@.len() as int));
            assert(out@.push(cs@[i as int]) =~= cs@.subrange(0, i + 1));
            assert(out@ + (seq![rest[0]] + name_before_dot(rest.drop_first())) =~= out@.push(
                cs@[i as int],
            ) + name_before_dot(rest.drop_first()));
        }
        out.push(cs[i]);
        i = i + 1;
    }
    proof {
        let rest = cs@.subrange(i as int, cs@.len() as int);
        assert(name_before_dot(rest) =~= Seq::<char>::empty());
        assert(out@ + Seq::<char>::empty() =~= out@);
    }
    string_from_chars(&out)
}

fn text_or_default(t: Option<String>) -> (r: String)
    ensures
        r@ == text_or_empty(t),
{
    match t {
        Some(s) => s,
        None => String::new(),
    }
}

impl DiscoveryState {
    #[verifier::type_invariant]
    closed spec fn inv(&self) -> bool {
        forall|i: int, j: int|
            0 <= i < self.peers@.len() && 0 <= j < self.peers@.len() && i != j ==> self.peers@[i].machine_id@
                != self.peers@[j].machine_id@
    }

    /// Whether the discovery service runs.
    pub closed spec fn running(&self) -> bool {
        self.is_running
    }

    /// Whether the discovery service runs.
    pub fn is_running(&self) -> (r: bool)
        ensures
            r == self.running(),
    {
        self.is_running
    }

    /// Records whether the discovery service runs.
    pub fn set_running(&mut self, running: bool)
        ensures
            final(self).running() == running,
            final(self)@ == old(self)@,
    {
        proof {
            use_type_invariant(&*self);
        }
        self.is_running = running;
    }

    /// The known peers, in the order they were first found.
    pub closed spec fn view(&self) -> Seq<Peer> {
        self.peers@
    }

    /// No peer known, service not running.
    pub fn new() -> (s: Self)
        ensures
            s@ == Seq::<Peer>::empty(),
            !s.running(),
    {
        DiscoveryState { peers: Vec::new(), is_running: false }
    }

    /// The peers that are online.
    pub fn online_peers(&self) -> (r: Vec<Peer>)
        ensures
            r@ == online_of(self@),
    {
        let mut r: Vec<Peer> = Vec::new();
        let mut i: usize = 0;
        while i < self.peers.len()
            invariant
                i <= self.peers@.len(),
                r@ == online_of(self.peers@.subrange(0, i as int)),
            decreases self.peers@.len() - i,
        {
            proof {
                assert(self.peers@.subrange(0, i + 1).drop_last() =~= self.peers@.subrange(0, i as int));
            }
            if self.peers[i].online {
                r.push(self.peers[i].clone());
            }
            i = i + 1;
        }
        proof {
            assert(self.peers@.subrange(0, self.peers@.len() as int) =~= self.peers@);
        }
        r
    }

    /// Every known peer.
    pub fn all_peers(&self) -> (r: Vec<Peer>)
        ensures
            r@ == self@,
    {
        let mut r: Vec<Peer> = Vec::new();
        let mut i: usize = 0;
        while i < self.peers.len()
            invariant
                i <= self.peers@.len(),
                r@ == self.peers@.subrange(0, i as int),
            decreases self.peers@.len() - i,
        {
            r.push(self.peers[i].clone());
            i = i + 1;
        }
        proof {
            assert(self.peers@.subrange(0, self.peers@.len() as int) =~= self.peers@);
        }
        r
    }

    /// The number of online peers.
    pub fn peer_count(&self) -> (n: usize)
        ensures
            n == online_of(self@).len(),
    {
        let mut n: usize = 0;
        let mut i: usize = 0;
        while i < self.peers.len()
            invariant
                i <= self.peers@.len(),
                n == online_of(self.peers@.subrange(0, i as int)).len(),
                n <= i,
            decreases self.peers@.len() - i,
        {
            proof {
                assert(self.peers@.subrange(0, i + 1).drop_last() =~= self.peers@.subrange(0, i as int));
            }
            if self.peers[i].online {
                n = n + 1;
            }
            i = i + 1;
        }
        proof {
            assert(self.peers@.subrange(0, self.peers@.len() as int) =~= self.peers@);
        }
        n
    }

    /// Records a peer: it replaces the known peer with the same id, or is added.
    fn put_peer(&mut self, p: Peer)
        ensures
            final(self)@ == with_peer(old(self)@, p),
            final(self).running() == old(self).running(),
    {
        proof {
            use_type_invariant(&*self);
        }
        let mut peers: Vec<Peer> = Vec::new();
        std::mem::swap(&mut peers, &mut self.peers);
        let ghost before = peers@;
        let mut i: usize = 0;
        while i < peers.len()
            invariant
                peers@ == before,
                i <= peers@.len(),
                forall|j: int| 0 <= j < i ==> peers@[j].machine_id@ != p.machine_id@,
            ensures
                peers@ == before,
                i <= peers@.len(),
                forall|j: int| 0 <= j < i ==> peers@[j].machine_id@ != p.machine_id@,
                i == peers@.len() || peers@[i as int].machine_id@ == p.machine_id@,
            decreases peers@.len() - i,
        {
            if crate::paths::same_text(&peers[i].machine_id, &p.machine_id) {
                break;
            }
            i = i + 1;
        }
        if i < peers.len() && crate::paths::same_text(&peers[i].machine_id, &p.machine_id) {
            peers.remove(i);
            peers.insert(i, p);
            proof {
                let k = choose|k: int| 0 <= k < before.len() && before[k].machine_id@ == p.machine_id@;
                if k != i {
                    assert(before[k].machine_id@ != before[i as int].machine_id@);
                }
                assert(peers@ =~= before.update(i as int, p));
            }
        } else {
            proof {
                assert(i == peers@.len());
                assert(!(exists|k: int| 0 <= k < before.len() && before[k].machine_id@ == p.machine_id@));
            }
            peers.push(p);
            proof {
                assert forall|a: int, b: int|
                    0 <= a < peers@.len() && 0 <= b < peers@.len() && a != b implies peers@[a].machine_id@
                    != peers@[b].machine_id@ by {
                    if a < before.len() && b < before.len() {
                        assert(peers@[a] == before[a] && peers@[b] == before[b]);
                    } else if a < before.len() {
                        assert(peers@[a] == before[a]);
                    } else {
                        assert(peers@[b] == before[b]);
                    }
                }
            }
        }
        self.peers = peers;
    }

    /// Applies a discovery event. A resolved service becomes an online peer,
    /// seen at `now`, replacing the one with the same id (the local machine,
    /// `local_machine_id`, is ignored); a removed service marks offline every
    /// peer whose name occurs in its full name.
    pub fn handle_service_event(&mut self, local_machine_id: &str, event: DiscoveryEvent, now: u64)
        ensures
            final(self).running() == old(self).running(),
            match event {
                DiscoveryEvent::Resolved { fullname, machine_id, username, version, address, port } => {
                    if text_or_empty(machine_id) == local_machine_id@ {
                        final(self)@ == old(self)@
                    } else {
                        exists|p: Peer|
                            resolved_peer(
                                fullname@,
                                machine_id,
                                username,
                                version,
                                address,
                                port,
                                now,
                                p,
                            ) && final(self)@ == with_peer(old(self)@, p)
                    }
                },
                DiscoveryEvent::Removed { fullname } => final(self)@ == marked_offline(
                    old(self)@,
                    fullname@,
                ),
                DiscoveryEvent::Other => final(self)@ == old(self)@,
            },
    {
        match event {
            DiscoveryEvent::Resolved { fullname, machine_id, username, version, address, port } => {
                let id = text_or_default(machine_id);
                let local = local_machine_id.to_owned();
                if crate::paths::same_text(&id, &local) {
                    return;
                }
                let p = Peer {
                    machine_name: before_first_dot(fullname.as_str()),
                    machine_id: id,
                    username: text_or_default(username),
                    address: text_or_default(address),
                    port,
                    version: text_or_default(version),
                    last_seen: Some(now),
                    online: true,
                };
                self.put_peer(p);
            },
            DiscoveryEvent::Removed { fullname } => {
                proof {
                    use_type_invariant(&*self);
                }
                let full = chars_of(fullname.as_str());
                let mut peers: Vec<Peer> = Vec::new();
                std::mem::swap(&mut peers, &mut self.peers);
                let ghost before = peers@;
                let mut out: Vec<Peer> = Vec::new();
                let mut i: usize = 0;
                while i < peers.len()
                    invariant
                        peers@ == before,
                        full@ == fullname@,
                        i <= peers@.len(),
                        out@ == marked_offline(before.subrange(0, i as int), fullname@),
                    decreases peers@.len() - i,
                {
                    let q = peers[i].clone();
                    let name = chars_of(q.machine_name.as_str());
                    let hit = contains_chars(&full, &name);
                    let q2 = if hit {
                        Peer { online: false, ..q }
                    } else {
                        q
                    };
                    out.push(q2);
                    proof {
                        assert(out@ =~= marked_offline(before.subrange(0, i + 1), fullname@));
                    }
                    i = i + 1;
                }
                proof {
                    assert(before.subrange(0, before.len() as int) =~= before);
                    assert forall|a: int, b: int|
                        0 <= a < out@.len() && 0 <= b < out@.len() && a != b implies out@[a].machine_id@
                        != out@[b].machine_id@ by {
                        assert(out@[a].machine_id == before[a].machine_id);
                        assert(out@[b].machine_id == before[b].machine_id);
                    }
                }
                self.peers = out;
            },
            DiscoveryEvent::Other => {},
        }
    }
}

impl Default for DiscoveryState {
    fn default() -> (s: Self)
        ensures
            s@ == Seq::<Peer>::empty(),
            !s.running(),
    {
        DiscoveryState::new()
    }
}

/// After a machine is resolved it is listed, online, under its id.
pub proof fn law_resolved_peer_is_online(s: Seq<Peer>, p: Peer)
    requires
        p.online,
    ensures
        online_of(with_peer(s, p)).contains(p),
{
    lemma_online_contains(with_peer(s, p), p);
    if exists|i: int| 0 <= i < s.len() && s[i].machine_id@ == p.machine_id@ {
        let i = choose|i: int| 0 <= i < s.len() && s[i].machine_id@ == p.machine_id@;
        assert(with_peer(s, p)[i] == p);
    } else {
        assert(with_peer(s, p)[s.len() as int] == p);
    }
}

/// An online member of a list is among its online peers.
pub proof fn lemma_online_contains(s: Seq<Peer>, p: Peer)
    requires
        p.online,
    ensures
        s.contains(p) ==> online_of(s).contains(p),
    decreases s.len(),
{
    if s.len() > 0 && s.contains(p) {
        let t = s.drop_last();
        lemma_online_contains(t, p);
        if s.last() == p {
            assert(online_of(s)[online_of(s).len() - 1] == p);
        } else {
            let i = choose|i: int| 0 <= i < s.len() && s[i] == p;
            assert(t[i] == p);
            let j = choose|j: int| 0 <= j < online_of(t).len() && online_of(t)[j] == p;
            if s.last().online {
                assert(online_of(s)[j] == p);
            }
        }
    }
}

/// A peer whose name occurs in a removed service's full name is no longer online.
pub proof fn law_removed_peer_offline(s: Seq<Peer>, fullname: Seq<char>, i: int)
    requires
        0 <= i < s.len(),
        contains_seq(fullname, s[i].machine_name@),
    ensures
        !marked_offline(s, fullname)[i].online,
        marked_offline(s, fullname)[i].machine_id == s[i].machine_id,
{
}

} // verus!
