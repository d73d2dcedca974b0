//! Addresses for relay reservations.

use crate::foreign::{
    addr_parts, append_component, components, peer_id_bytes, AddrPart, AddrPartView, AppendedPart,
};
use libp2p::{Multiaddr, PeerId};
use vstd::prelude::*;

verus! {

/// Whether some component of an address names a peer.
pub open spec fn has_peer(parts: Seq<AddrPartView>) -> bool {
    exists|i: int| 0 <= i < parts.len() && (#[trigger] parts[i]) is P2p
}

/// The components of the relay circuit address of a relay that listens at
/// `parts`: the relay's address, naming the relay, and the circuit marker.
pub open spec fn relay_parts(parts: Seq<AddrPartView>, relay: Seq<u8>) -> Seq<AddrPartView> {
    let base = if has_peer(parts) {
        parts
    } else {
        parts.push(AddrPartView::P2p(relay))
    };
    base.push(AddrPartView::P2pCircuit)
}

/// Whether some component names a peer.
pub fn names_peer(parts: &Vec<AddrPart>) -> (found: bool)
    ensures
        found == has_peer(parts@.map_values(|part: AddrPart| part@)),
{
    let ghost views = parts@.map_values(|part: AddrPart| part@);
    let mut i: usize = 0;
    while i < parts.len()
        invariant
            i <= parts@.len(),
            views == parts@.map_values(|part: AddrPart| part@),
            forall|j: int| 0 <= j < i ==> !((#[trigger] views[j]) is P2p),
        decreases parts@.len() - i,
    {
        assert(views[i as int] == parts@[i as int]@);
        if let AddrPart::P2p(_) = &parts[i] {
            return true;
        }
        i = i + 1;
    }
    false
}

/// The address to listen on for a reservation at `relay`, which listens at `addr`.
pub fn relay_address(addr: &Multiaddr, relay: PeerId) -> (circuit: Multiaddr)
    ensures
        addr_parts(circuit) == relay_parts(addr_parts(*addr), peer_id_bytes(relay)),
{
    let base = if names_peer(&components(addr)) {
        addr.clone()
    } else {
        append_component(addr.clone(), AppendedPart::P2p(relay))
    };
    append_component(base, AppendedPart::P2pCircuit)
}

/// A relay circuit address keeps the relay's address in front, names a peer
/// and ends with the circuit marker.
pub proof fn relay_address_is_a_circuit(parts: Seq<AddrPartView>, relay: Seq<u8>)
    ensures
        parts.is_prefix_of(relay_parts(parts, relay)),
        has_peer(relay_parts(parts, relay)),
        relay_parts(parts, relay).last() is P2pCircuit,
{
    let circuit = relay_parts(parts, relay);
    assert(parts =~= circuit.subrange(0, parts.len() as int));
    if has_peer(parts) {
        let i = choose|i: int| 0 <= i < parts.len() && (#[trigger] parts[i]) is P2p;
        assert(circuit[i] is P2p);
    } else {
        assert(circuit[parts.len() as int] is P2p);
    }
}

/// An address that names a peer somewhere, at any length, becomes a circuit by
/// the circuit marker alone, and any other by the relay and the marker.
pub proof fn relay_is_named_exactly_once(parts: Seq<AddrPartView>, relay: Seq<u8>)
    ensures
        (exists|i: int| 0 <= i < parts.len() && (#[trigger] parts[i]) is P2p) ==> relay_parts(
            parts,
            relay,
        ) == parts + seq![AddrPartView::P2pCircuit],
        (forall|i: int| 0 <= i < parts.len() ==> !((#[trigger] parts[i]) is P2p)) ==> relay_parts(
            parts,
            relay,
        ) == parts + seq![AddrPartView::P2p(relay), AddrPartView::P2pCircuit],
{
    let circuit = relay_parts(parts, relay);
    if exists|i: int| 0 <= i < parts.len() && (#[trigger] parts[i]) is P2p {
        assert(circuit =~= parts + seq![AddrPartView::P2pCircuit]);
    } else {
        assert(circuit =~= parts + seq![AddrPartView::P2p(relay), AddrPartView::P2pCircuit]);
    }
}

/// Naming the relay first makes no difference to the circuit of an address that
/// names no peer.
pub proof fn naming_the_relay_first_changes_nothing(parts: Seq<AddrPartView>, relay: Seq<u8>)
    requires
        forall|i: int| 0 <= i < parts.len() ==> !((#[trigger] parts[i]) is P2p),
    ensures
        relay_parts(parts.push(AddrPartView::P2p(relay)), relay) == relay_parts(parts, relay),
{
    let named = parts.push(AddrPartView::P2p(relay));
    assert(named[parts.len() as int] is P2p);
    relay_is_named_exactly_once(named, relay);
    relay_is_named_exactly_once(parts, relay);
    assert(relay_parts(named, relay) =~= relay_parts(parts, relay));
}

/// A peer is found among the components exactly where one stands, at any place.
pub proof fn a_peer_component_is_found_anywhere(parts: Seq<AddrPartView>, i: int)
    ensures
        0 <= i < parts.len() && parts[i] is P2p ==> has_peer(parts),
        has_peer(parts) ==> exists|k: int| 0 <= k < parts.len() && (#[trigger] parts[k]) is P2p,
{
}

} // verus!
