//! The network panel: the peers found by discovery.

use vstd::prelude::*;
use crate::network::discovery::Peer;
use crate::text::{concat, concat3, decimal, u64_to_decimal};

verus! {

/// Whether discovery runs, as shown.
pub fn running_label(running: bool) -> (r: &'static str)
    ensures
        running ==> r@ == "● Ativo"@,
        !running ==> r@ == "● Inativo"@,
{
    if running {
        "● Ativo"
    } else {
        "● Inativo"
    }
}

/// The count of online machines.
pub fn online_count_label(count: usize) -> (r: String)
    ensures
        r@ == decimal(count as nat) + " computador(es) na rede"@,
{
    concat(u64_to_decimal(count as u64).as_str(), " computador(es) na rede")
}

/// A peer's address and port, as `ADDRESS:PORT`.
pub fn peer_endpoint(peer: &Peer) -> (r: String)
    ensures
        r@ == peer.address@ + ":"@ + decimal(peer.port as nat),
{
    concat3(peer.address.as_str(), ":", u64_to_decimal(peer.port as u64).as_str())
}

/// A peer's version as shown (`vVERSION`), or nothing when unknown.
pub fn peer_version_label(peer: &Peer) -> (r: Option<String>)
    ensures
        peer.version@.len() == 0 ==> r is None,
        peer.version@.len() > 0 ==> (r matches Some(v) && v@ == "v"@ + peer.version@),
{
    if peer.version.as_str().is_empty() {
        None
    } else {
        Some(concat("v", peer.version.as_str()))
    }
}

/// The line of a peer in the peers tooltip: name, user and endpoint.
pub fn peer_hover_line(peer: &Peer) -> (r: String)
    ensures
        r@ == peer.machine_name@ + " ("@ + peer.username@ + ") - "@ + peer.address@ + ":"@ + decimal(peer.port as nat),
{
    let head = concat3(peer.machine_name.as_str(), " (", peer.username.as_str());
    let mid = concat3(head.as_str(), ") - ", peer.address.as_str());
    concat3(mid.as_str(), ":", u64_to_decimal(peer.port as u64).as_str())
}

} // verus!
