//! What holds of the event loop over every event and every run of events.

use crate::data_channel::successor;
use crate::error::Error;
use crate::event::{
    action_has_an_item, for_each, paired_actions, single_actions, tripled_actions, NatStatus,
    NodeEvent, SwarmActionView, SwarmEvent,
};
use crate::foreign::{addr_parts, duration_nanos, peer_id_bytes};
use crate::pending_map::PendingMap;
use crate::runtime::event_loop::{
    address_plan, bootstrap_plan, channels_after, dials, discovery_plan, event_actions,
    listen_step, lists, lists_peer, member_plan, node_event, recorded_for, reservation_plan, state_after, to_dial, with_addresses,
    with_bootstrap_peers, EventLoopView, ListenStep,
};
use crate::runtime::relay::relay_parts;
use libp2p::{Multiaddr, PeerId};
use vstd::prelude::*;

verus! {

/// The state of the event loop after a run of events.
pub open spec fn state_after_all<Cmd, Req, C>(
    state: EventLoopView<Cmd>,
    events: Seq<SwarmEvent<Req, C>>,
) -> EventLoopView<Cmd>
    decreases events.len(),
{
    if events.len() == 0 {
        state
    } else {
        state_after(state_after_all(state, events.drop_last()), events.last())
    }
}

/// How many connections to a peer are up after a run of changes; `true` is one
/// that came up, `false` one that went down.
pub open spec fn connections(changes: Seq<bool>) -> int
    decreases changes.len(),
{
    if changes.len() == 0 {
        0
    } else if changes.last() {
        connections(changes.drop_last()) + 1
    } else {
        connections(changes.drop_last()) - 1
    }
}

/// Whether a run of changes can happen: no connection goes down that is not
/// up, and the network can count them.
pub open spec fn can_happen(changes: Seq<bool>) -> bool {
    forall|i: int| 0 <= i <= changes.len() ==> 0 <= connections(#[trigger] changes.take(i))
        <= u32::MAX
}

/// What the network reports of the last of a run of changes.
pub open spec fn change_report<Req, C>(peer: PeerId, changes: Seq<bool>) -> SwarmEvent<Req, C> {
    let num_established = connections(changes) as u32;
    if changes.last() {
        SwarmEvent::ConnectionEstablished { peer_id: peer, num_established }
    } else {
        SwarmEvent::ConnectionClosed { peer_id: peer, num_established }
    }
}

/// Whether the user, by what was told last, takes the peer to be connected;
/// `ids` holds the pending id that the event loop had at each report.
pub open spec fn told_connected<Req, C>(peer: PeerId, changes: Seq<bool>, ids: Seq<u64>) -> bool
    decreases changes.len(),
{
    if changes.len() == 0 {
        false
    } else {
        match node_event(change_report::<Req, C>(peer, changes), ids[changes.len() - 1]) {
            Some(NodeEvent::PeerConnected { .. }) => true,
            Some(NodeEvent::PeerDisconnected { .. }) => false,
            _ => told_connected::<Req, C>(peer, changes.drop_last(), ids),
        }
    }
}

/// What the user is told of a peer's connections is right at every moment,
/// whatever requests came in between: the peer counts as connected exactly
/// while some connection to it is up.
pub proof fn told_connected_while_connected<Req, C>(
    peer: PeerId,
    changes: Seq<bool>,
    ids: Seq<u64>,
)
    requires
        can_happen(changes),
    ensures
        told_connected::<Req, C>(peer, changes, ids) == (connections(changes) > 0),
    decreases changes.len(),
{
    if changes.len() > 0 {
        let before = changes.drop_last();
        assert forall|i: int| 0 <= i <= before.len() implies 0 <= connections(
            #[trigger] before.take(i),
        ) <= u32::MAX by {
            assert(before.take(i) =~= changes.take(i));
        }
        told_connected_while_connected::<Req, C>(peer, before, ids);
        assert(changes.take(changes.len() as int) =~= changes);
        assert(before.take(before.len() as int) =~= before);
        assert(0 <= connections(before));
        assert(0 <= connections(changes) <= u32::MAX);
    }
}

/// The user is told that a peer is connected only when it was not before, and
/// that it is disconnected only when it was connected.
pub proof fn connection_news_is_news<Req, C>(peer: PeerId, changes: Seq<bool>, ids: Seq<u64>)
    requires
        can_happen(changes),
        changes.len() > 0,
    ensures
        match node_event(change_report::<Req, C>(peer, changes), ids[changes.len() - 1]) {
            Some(NodeEvent::PeerConnected { peer_id }) => peer_id == peer && !told_connected::<
                Req,
                C,
            >(peer, changes.drop_last(), ids),
            Some(NodeEvent::PeerDisconnected { peer_id }) => peer_id == peer && told_connected::<
                Req,
                C,
            >(peer, changes.drop_last(), ids),
            Some(_) => false,
            None => true,
        },
{
    let before = changes.drop_last();
    assert forall|i: int| 0 <= i <= before.len() implies 0 <= connections(
        #[trigger] before.take(i),
    ) <= u32::MAX by {
        assert(before.take(i) =~= changes.take(i));
    }
    told_connected_while_connected::<Req, C>(peer, before, ids);
    assert(changes.take(changes.len() as int) =~= changes);
    assert(0 <= connections(changes) <= u32::MAX);
}

/// The first connection to a peer is told, and no further one, whatever id the
/// next request would get.
pub proof fn the_first_connection_is_told<Req, C>(
    peer_id: PeerId,
    num_established: u32,
    pending_id: u64,
)
    ensures
        num_established == 1 ==> node_event(
            SwarmEvent::<Req, C>::ConnectionEstablished { peer_id, num_established },
            pending_id,
        ) == Some(NodeEvent::<Req>::PeerConnected { peer_id }),
        num_established != 1 ==> node_event(
            SwarmEvent::<Req, C>::ConnectionEstablished { peer_id, num_established },
            pending_id,
        ) is None,
{
}

/// The end of the last connection to a peer is told, and that of no other,
/// whatever id the next request would get.
pub proof fn the_last_disconnection_is_told<Req, C>(
    peer_id: PeerId,
    num_established: u32,
    pending_id: u64,
)
    ensures
        num_established == 0 ==> node_event(
            SwarmEvent::<Req, C>::ConnectionClosed { peer_id, num_established },
            pending_id,
        ) == Some(NodeEvent::<Req>::PeerDisconnected { peer_id }),
        num_established != 0 ==> node_event(
            SwarmEvent::<Req, C>::ConnectionClosed { peer_id, num_established },
            pending_id,
        ) is None,
{
}

/// What is told of anything but a request does not depend on the ids of
/// requests, and what is told of a request depends on them by its own id alone.
pub proof fn ids_matter_to_requests_only<Req, C>(event: SwarmEvent<Req, C>, one: u64, other: u64)
    ensures
        !(event is InboundRequest) ==> node_event(event, one) == node_event(event, other),
        event is InboundRequest ==> node_event(event, one) == Some(
            NodeEvent::InboundRequest {
                peer_id: event->InboundRequest_peer,
                pending_id: one,
                request: event->InboundRequest_request,
            },
        ),
{
}

/// Every hole punch is told, a failed one with its error.
pub proof fn hole_punches_are_told<Req, C>(
    remote_peer_id: PeerId,
    error: String,
    pending_id: u64,
)
    ensures
        node_event(
            SwarmEvent::<Req, C>::HolePunch { remote_peer_id, result: Ok(()) },
            pending_id,
        ) == Some(NodeEvent::<Req>::HolePunchSucceeded { peer_id: remote_peer_id }),
        node_event(
            SwarmEvent::<Req, C>::HolePunch { remote_peer_id, result: Err(error) },
            pending_id,
        ) == Some(NodeEvent::<Req>::HolePunchFailed { peer_id: remote_peer_id, error }),
{
}

/// An answered ping is told in whole milliseconds, rounded down, while they fit
/// the report; an unanswered one is not told.
pub proof fn pings_are_told_in_milliseconds<Req, C>(
    peer: PeerId,
    rtt: std::time::Duration,
    pending_id: u64,
)
    ensures
        node_event(SwarmEvent::<Req, C>::Ping { peer, rtt: None }, pending_id) is None,
        node_event(
            SwarmEvent::<Req, C>::Ping { peer, rtt: Some(rtt) },
            pending_id,
        ) matches Some(NodeEvent::PingSuccess { peer_id, rtt_ms }) && peer_id == peer && rtt_ms == (
        duration_nanos(rtt) / 1_000_000) as u64 && (duration_nanos(rtt) / 1_000_000 <= u64::MAX
            ==> rtt_ms * 1_000_000 <= duration_nanos(rtt) < (rtt_ms + 1) * 1_000_000),
{
    let millis = duration_nanos(rtt) / 1_000_000;
    assert(millis * 1_000_000 <= duration_nanos(rtt) < (millis + 1) * 1_000_000);
}

/// What a peer says of itself is told as it said it, whatever its protocol.
pub proof fn identities_are_told_as_they_came<Req, C>(
    peer_id: PeerId,
    protocol_version: String,
    agent_version: String,
    listen_addrs: Vec<Multiaddr>,
    pending_id: u64,
)
    ensures
        node_event(
            SwarmEvent::<Req, C>::IdentifyReceived {
                peer_id,
                protocol_version,
                agent_version,
                listen_addrs,
            },
            pending_id,
        ) == Some(NodeEvent::<Req>::IdentifyReceived { peer_id, agent_version, protocol_version }),
{
}

/// Discovered peers, listen addresses, reservations and successful probes are
/// told as they came, and a failed probe is not told.
pub proof fn reports_are_told_as_they_came<Req, C>(
    peers: Vec<(PeerId, Multiaddr)>,
    connected: Vec<PeerId>,
    address: Multiaddr,
    peer: PeerId,
    renewed: bool,
    pending_id: u64,
)
    ensures
        node_event(SwarmEvent::<Req, C>::MdnsDiscovered { peers, connected }, pending_id) == Some(
            NodeEvent::<Req>::PeersDiscovered { peers },
        ),
        node_event(SwarmEvent::<Req, C>::NewListenAddr { address }, pending_id) == Some(
            NodeEvent::<Req>::Listening { addr: address },
        ),
        node_event(
            SwarmEvent::<Req, C>::RelayReservationAccepted {
                relay_peer_id: peer,
                renewal: renewed,
            },
            pending_id,
        ) == Some(
            NodeEvent::<Req>::RelayReservationAccepted { relay_peer_id: peer, renewal: renewed },
        ),
        node_event(
            SwarmEvent::<Req, C>::RelayServerReservationAccepted { src_peer_id: peer, renewed },
            pending_id,
        ) == Some(NodeEvent::<Req>::RelayServerReservationAccepted { src_peer_id: peer, renewed }),
        node_event(
            SwarmEvent::<Req, C>::AutonatTested { tested_addr: address, reachable: true },
            pending_id,
        ) == Some(
            NodeEvent::<Req>::NatStatusChanged {
                status: NatStatus::Public,
                public_addr: Some(address),
            },
        ),
        node_event(
            SwarmEvent::<Req, C>::AutonatTested { tested_addr: address, reachable: false },
            pending_id,
        ) is None,
{
}

/// Circuits, routing updates and anything unknown are not told.
pub proof fn the_rest_is_not_told<Req, C>(event: SwarmEvent<Req, C>, pending_id: u64)
    requires
        event is OutboundCircuitEstablished || event is InboundCircuitEstablished
            || event is KadRoutingUpdated || event is Other,
    ensures
        node_event(event, pending_id) is None,
{
}

/// An event changes the state by no more than it must: a request uses up one
/// id, a first connection strikes its peer off the record, and nothing else
/// changes anything.
pub proof fn events_change_only_ids_and_records<Cmd, Req, C>(
    state: EventLoopView<Cmd>,
    event: SwarmEvent<Req, C>,
)
    ensures
        state_after(state, event).active_commands == state.active_commands,
        state_after(state, event).protocol_version == state.protocol_version,
        state_after(state, event).enable_relay_client == state.enable_relay_client,
        event is InboundRequest ==> state_after(state, event).next_pending_id == if
            state.next_pending_id == u64::MAX {
            0
        } else {
            state.next_pending_id + 1
        },
        !(event is InboundRequest) ==> state_after(state, event).next_pending_id
            == state.next_pending_id,
        event is ConnectionEstablished && event->ConnectionEstablished_num_established == 1
            ==> state_after(state, event).bootstrap_peers == state.bootstrap_peers.remove(
            peer_id_bytes(event->ConnectionEstablished_peer_id),
        ),
        !(event is ConnectionEstablished && event->ConnectionEstablished_num_established == 1)
            ==> state_after(state, event).bootstrap_peers == state.bootstrap_peers,
{
}

/// Only connections, discoveries, identities and routing updates ask anything
/// of the network.
pub proof fn other_events_ask_for_nothing<Cmd, Req, C>(
    state: EventLoopView<Cmd>,
    event: SwarmEvent<Req, C>,
)
    requires
        !(event is ConnectionEstablished),
        !(event is MdnsDiscovered),
        !(event is IdentifyReceived),
        !(event is KadRoutingUpdated),
    ensures
        event_actions(state, event).len() == 0,
{
}

/// A first connection asks its peer for a reservation at each address recorded
/// for it, in order, and for nothing if none is recorded; a further connection
/// asks for nothing.
pub proof fn a_first_connection_listens_at_every_recorded_address<Cmd, Req, C>(
    state: EventLoopView<Cmd>,
    peer_id: PeerId,
    num_established: u32,
    i: int,
)
    ensures
        num_established != 1 || !state.bootstrap_peers.contains_key(peer_id_bytes(peer_id))
            ==> event_actions(
            state,
            SwarmEvent::<Req, C>::ConnectionEstablished { peer_id, num_established },
        ).len() == 0,
        num_established == 1 && state.bootstrap_peers.contains_key(peer_id_bytes(peer_id))
            ==> event_actions(
            state,
            SwarmEvent::<Req, C>::ConnectionEstablished { peer_id, num_established },
        ).len() == state.bootstrap_peers[peer_id_bytes(peer_id)].len(),
        num_established == 1 && state.bootstrap_peers.contains_key(peer_id_bytes(peer_id)) && 0
            <= i < state.bootstrap_peers[peer_id_bytes(peer_id)].len() ==> event_actions(
            state,
            SwarmEvent::<Req, C>::ConnectionEstablished { peer_id, num_established },
        )[i] == SwarmActionView::ListenOn(
            relay_parts(
                addr_parts(state.bootstrap_peers[peer_id_bytes(peer_id)][i]),
                peer_id_bytes(peer_id),
            ),
        ),
{
    single_actions(
        recorded_for(state.bootstrap_peers, peer_id_bytes(peer_id)),
        reservation_plan(peer_id),
    );
}

/// A discovery registers every discovered address, in order, and then dials:
/// exactly the discovered peers that are not connected, each once.
pub proof fn a_discovery_registers_all_and_dials_the_unconnected<Cmd, Req, C>(
    state: EventLoopView<Cmd>,
    peers: Vec<(PeerId, Multiaddr)>,
    connected: Vec<PeerId>,
    id: Seq<u8>,
    i: int,
    j: int,
)
    ensures
        event_actions(state, SwarmEvent::<Req, C>::MdnsDiscovered { peers, connected }).len()
            >= peers@.len(),
        0 <= i < peers@.len() ==> event_actions(
            state,
            SwarmEvent::<Req, C>::MdnsDiscovered { peers, connected },
        )[i] == SwarmActionView::AddPeerAddress(
            peer_id_bytes(peers@[i].0),
            addr_parts(peers@[i].1),
        ),
        peers@.len() <= i < event_actions(
            state,
            SwarmEvent::<Req, C>::MdnsDiscovered { peers, connected },
        ).len() ==> event_actions(
            state,
            SwarmEvent::<Req, C>::MdnsDiscovered { peers, connected },
        )[i] is Dial,
        peers@.len() <= i < j < event_actions(
            state,
            SwarmEvent::<Req, C>::MdnsDiscovered { peers, connected },
        ).len() ==> event_actions(
            state,
            SwarmEvent::<Req, C>::MdnsDiscovered { peers, connected },
        )[i] != event_actions(
            state,
            SwarmEvent::<Req, C>::MdnsDiscovered { peers, connected },
        )[j],
        event_actions(
            state,
            SwarmEvent::<Req, C>::MdnsDiscovered { peers, connected },
        ).contains(SwarmActionView::Dial(id)) <==> (exists|k: int|
            0 <= k < peers@.len() && peer_id_bytes((#[trigger] peers@[k]).0) == id) && (forall|
            k: int,
        |
            0 <= k < connected@.len() ==> peer_id_bytes(#[trigger] connected@[k]) != id),
{
    let registered = for_each(peers@, discovery_plan());
    let ids = to_dial(peers@, connected@);
    let dialed = dials(ids);
    let actions = event_actions(state, SwarmEvent::<Req, C>::MdnsDiscovered { peers, connected });
    single_actions(peers@, discovery_plan());
    unconnected_peers_are_dialed(peers@, connected@, id);
    peers_are_dialed_once(peers@, connected@);
    assert(actions == registered + dialed);
    let n = peers@.len() as int;
    if n <= i < actions.len() {
        assert(actions[i] == SwarmActionView::Dial(ids[i - n]));
    }
    if n <= j < actions.len() {
        assert(actions[j] == SwarmActionView::Dial(ids[j - n]));
    }
    if ids.contains(id) {
        let k = choose|k: int| 0 <= k < ids.len() && ids[k] == id;
        assert(actions[n + k] == SwarmActionView::Dial(id));
    }
    if actions.contains(SwarmActionView::Dial(id)) {
        let k = choose|k: int| 0 <= k < actions.len() && actions[k] == SwarmActionView::Dial(id);
        if k < n {
            assert(actions[k] == registered[k]);
        }
        assert(ids[k - n] == id);
    }
}

/// A peer that speaks this node's protocol joins the table with each of its
/// addresses, in order, and one that does not asks for nothing.
pub proof fn members_join_with_every_address<Cmd, Req, C>(
    state: EventLoopView<Cmd>,
    peer_id: PeerId,
    protocol_version: String,
    agent_version: String,
    listen_addrs: Vec<Multiaddr>,
    i: int,
)
    ensures
        event_actions(
            state,
            SwarmEvent::<Req, C>::IdentifyReceived {
                peer_id,
                protocol_version,
                agent_version,
                listen_addrs,
            },
        ).len() == if protocol_version@ == state.protocol_version {
            2 * listen_addrs@.len()
        } else {
            0
        },
        protocol_version@ == state.protocol_version && 0 <= i < listen_addrs@.len()
            ==> event_actions(
            state,
            SwarmEvent::<Req, C>::IdentifyReceived {
                peer_id,
                protocol_version,
                agent_version,
                listen_addrs,
            },
        )[2 * i] == SwarmActionView::AddKadAddress(
            peer_id_bytes(peer_id),
            addr_parts(listen_addrs@[i]),
        ),
        protocol_version@ == state.protocol_version && 0 <= i < listen_addrs@.len()
            ==> event_actions(
            state,
            SwarmEvent::<Req, C>::IdentifyReceived {
                peer_id,
                protocol_version,
                agent_version,
                listen_addrs,
            },
        )[2 * i + 1] == SwarmActionView::AddPeerAddress(
            peer_id_bytes(peer_id),
            addr_parts(listen_addrs@[i]),
        ),
{
    if listen_addrs@.len() > 0 {
        paired_actions(listen_addrs@, member_plan(peer_id), 0);
    }
    if 0 <= i < listen_addrs@.len() {
        paired_actions(listen_addrs@, member_plan(peer_id), i);
    }
}

/// A routing update fills the address book with each of its addresses, in order.
pub proof fn routing_updates_register_every_address<Cmd, Req, C>(
    state: EventLoopView<Cmd>,
    peer: PeerId,
    addresses: Vec<Multiaddr>,
    i: int,
)
    ensures
        event_actions(
            state,
            SwarmEvent::<Req, C>::KadRoutingUpdated { peer, addresses },
        ).len() == addresses@.len(),
        0 <= i < addresses@.len() ==> event_actions(
            state,
            SwarmEvent::<Req, C>::KadRoutingUpdated { peer, addresses },
        )[i] == SwarmActionView::AddPeerAddress(peer_id_bytes(peer), addr_parts(addresses@[i])),
{
    single_actions(addresses@, address_plan(peer));
}

/// Each bootstrap peer, in order, is added to the table, registered and dialed.
pub proof fn every_bootstrap_peer_is_added_registered_and_dialed(
    peers: Seq<(PeerId, Multiaddr)>,
    i: int,
)
    ensures
        for_each(peers, bootstrap_plan()).len() == 3 * peers.len(),
        0 <= i < peers.len() ==> for_each(peers, bootstrap_plan())[3 * i]
            == SwarmActionView::AddKadAddress(peer_id_bytes(peers[i].0), addr_parts(peers[i].1)),
        0 <= i < peers.len() ==> for_each(peers, bootstrap_plan())[3 * i + 1]
            == SwarmActionView::AddPeerAddress(peer_id_bytes(peers[i].0), addr_parts(peers[i].1)),
        0 <= i < peers.len() ==> for_each(peers, bootstrap_plan())[3 * i + 2]
            == SwarmActionView::Dial(peer_id_bytes(peers[i].0)),
{
    if peers.len() > 0 {
        tripled_actions(peers, bootstrap_plan(), 0);
    }
    if 0 <= i < peers.len() {
        tripled_actions(peers, bootstrap_plan(), i);
    }
}

/// A relay that a command names while it is connected is asked at each of its
/// addresses, in order.
pub proof fn a_reservation_is_requested_at_every_address(
    relay: PeerId,
    addrs: Seq<Multiaddr>,
    i: int,
)
    ensures
        for_each(addrs, reservation_plan(relay)).len() == addrs.len(),
        0 <= i < addrs.len() ==> for_each(addrs, reservation_plan(relay))[i]
            == SwarmActionView::ListenOn(relay_parts(addr_parts(addrs[i]), peer_id_bytes(relay))),
{
    single_actions(addrs, reservation_plan(relay));
}

/// Recording addresses puts them at the end of the peer's list, which may be
/// new, and leaves every other peer's list alone.
pub proof fn recording_extends_one_list(
    recorded: Map<Seq<u8>, Seq<Multiaddr>>,
    peer: Seq<u8>,
    addrs: Seq<Multiaddr>,
    other: Seq<u8>,
)
    ensures
        recorded.contains_key(peer) ==> recorded_for(recorded, peer) == recorded[peer],
        !recorded.contains_key(peer) ==> recorded_for(recorded, peer).len() == 0,
        with_addresses(recorded, peer, addrs).contains_key(peer),
        recorded.contains_key(peer) ==> with_addresses(recorded, peer, addrs)[peer]
            == recorded[peer] + addrs,
        !recorded.contains_key(peer) ==> with_addresses(recorded, peer, addrs)[peer] == addrs,
        other != peer ==> (with_addresses(recorded, peer, addrs).contains_key(other)
            <==> recorded.contains_key(other)),
        other != peer && recorded.contains_key(other) ==> with_addresses(
            recorded,
            peer,
            addrs,
        )[other] == recorded[other],
{
    assert(Seq::<Multiaddr>::empty() + addrs =~= addrs);
}

/// Bootstrap peers are recorded one after the other, each with its address at
/// the end of its list.
pub proof fn bootstrap_peers_are_recorded_one_by_one(
    recorded: Map<Seq<u8>, Seq<Multiaddr>>,
    peers: Seq<(PeerId, Multiaddr)>,
    peer: PeerId,
    addr: Multiaddr,
)
    ensures
        with_bootstrap_peers(recorded, Seq::<(PeerId, Multiaddr)>::empty()) == recorded,
        with_bootstrap_peers(recorded, peers.push((peer, addr))) == with_addresses(
            with_bootstrap_peers(recorded, peers),
            peer_id_bytes(peer),
            seq![addr],
        ),
{
    assert(peers.push((peer, addr)).drop_last() =~= peers);
}

/// The record holds the lists of the table, one for one.
pub proof fn the_record_holds_the_lists_of_the_table<I>(table: Map<I, Vec<Multiaddr>>, key: I)
    ensures
        lists(table).contains_key(key) <==> table.contains_key(key),
        table.contains_key(key) ==> lists(table)[key] == table[key]@,
{
}

/// An event keeps how long response channels wait and by which clock.
pub proof fn events_keep_the_clock<Req, C>(
    before: PendingMap<u64, C>,
    after: PendingMap<u64, C>,
    pending_id: u64,
    event: SwarmEvent<Req, C>,
)
    requires
        channels_after(before, after, pending_id, event),
    ensures
        after.ttl() == before.ttl(),
        after.origin() == before.origin(),
{
}

/// After a failure listening is over with that failure; otherwise it goes on
/// with the next address, and is over well when none is left.
pub proof fn listening_goes_on_until_a_failure_or_the_end(
    addrs: Seq<Multiaddr>,
    listened: int,
    text: String,
)
    ensures
        listen_step(addrs, listened, Err(text)) == ListenStep::Done(
            Err::<(), Error>(Error::Listen(text)),
        ),
        listened < addrs.len() ==> listen_step(addrs, listened, Ok(())) == ListenStep::ListenOn(
            addrs[listened],
        ),
        listened >= addrs.len() ==> listen_step(addrs, listened, Ok(())) == ListenStep::Done(
            Ok::<(), Error>(()),
        ),
{
}

/// How many inbound requests a run of events holds.
pub open spec fn requests_in<Req, C>(events: Seq<SwarmEvent<Req, C>>) -> nat
    decreases events.len(),
{
    if events.len() == 0 {
        0
    } else {
        requests_in(events.drop_last()) + if events.last() is InboundRequest {
            1nat
        } else {
            0nat
        }
    }
}

/// The id of the next inbound request counts the requests so far, modulo the
/// range of the ids.
pub proof fn request_ids_count_up<Cmd, Req, C>(
    state: EventLoopView<Cmd>,
    events: Seq<SwarmEvent<Req, C>>,
)
    ensures
        state_after_all(state, events).next_pending_id == (state.next_pending_id + requests_in(
            events,
        )) % (u64::MAX + 1),
    decreases events.len(),
{
    if events.len() > 0 {
        let before = state.next_pending_id + requests_in(events.drop_last());
        let size: int = u64::MAX + 1;
        request_ids_count_up(state, events.drop_last());
        assert(successor((before % size) as u64) == (before + 1) % size) by (nonlinear_arith)
            requires
                size == u64::MAX + 1,
                before >= 0,
                successor((before % size) as u64) == if (before % size) as u64 == u64::MAX {
                    0int
                } else {
                    (before % size) + 1
                },
                (before % size) as u64 == before % size,
        ;
    }
}

/// Two inbound requests get different ids unless every other id was given out
/// between them.
pub proof fn request_ids_differ<Cmd, Req, C>(
    state: EventLoopView<Cmd>,
    first: SwarmEvent<Req, C>,
    between: Seq<SwarmEvent<Req, C>>,
)
    requires
        first is InboundRequest,
        requests_in(between) < u64::MAX,
    ensures
        state_after_all(state_after(state, first), between).next_pending_id
            != state.next_pending_id,
{
    request_ids_count_up(state_after(state, first), between);
}

/// The response channel of an inbound request waits under the id that the user
/// is told, until it is taken, and no other waiting channel is touched.
pub proof fn response_channel_waits_under_the_told_id<Req, C>(
    before: PendingMap<u64, C>,
    after: PendingMap<u64, C>,
    pending_id: u64,
    event: SwarmEvent<Req, C>,
)
    requires
        event is InboundRequest,
        channels_after(before, after, pending_id, event),
    ensures
        node_event(event, pending_id) matches Some(NodeEvent::InboundRequest {
            peer_id,
            pending_id: told_id,
            request,
        }) && peer_id == event->InboundRequest_peer && request == event->InboundRequest_request
            && after@.contains_key(told_id) && after@[told_id].value == event->channel
            && before.reads(after@[told_id].created_at),
        after@.remove(pending_id) == before@.remove(pending_id),
        !after@.remove(pending_id).contains_key(pending_id),
{
    assert(after@.remove(pending_id) =~= before@.remove(pending_id));
}

/// Events other than inbound requests touch no waiting response channel.
pub proof fn other_events_touch_no_channel<Req, C>(
    before: PendingMap<u64, C>,
    after: PendingMap<u64, C>,
    pending_id: u64,
    event: SwarmEvent<Req, C>,
)
    requires
        !(event is InboundRequest),
        channels_after(before, after, pending_id, event),
    ensures
        after@ == before@,
{
}

/// The addresses that a list of bootstrap peers gives for one peer.
pub open spec fn addresses_of(peers: Seq<(PeerId, Multiaddr)>, id: Seq<u8>) -> Seq<Multiaddr>
    decreases peers.len(),
{
    if peers.len() == 0 {
        Seq::empty()
    } else if peer_id_bytes(peers.last().0) == id {
        addresses_of(peers.drop_last(), id).push(peers.last().1)
    } else {
        addresses_of(peers.drop_last(), id)
    }
}

/// Every address of a bootstrap peer is recorded for a reservation, in order,
/// behind those recorded before.
pub proof fn bootstrap_addresses_are_recorded(
    recorded: Map<Seq<u8>, Seq<Multiaddr>>,
    peers: Seq<(PeerId, Multiaddr)>,
    id: Seq<u8>,
)
    ensures
        recorded_for(with_bootstrap_peers(recorded, peers), id) == recorded_for(recorded, id)
            + addresses_of(peers, id),
    decreases peers.len(),
{
    if peers.len() > 0 {
        bootstrap_addresses_are_recorded(recorded, peers.drop_last(), id);
    }
    assert(recorded_for(with_bootstrap_peers(recorded, peers), id) =~= recorded_for(recorded, id)
        + addresses_of(peers, id));
}

/// The addresses of a relay that a command names while the relay is not
/// connected are recorded behind those recorded before, and no other relay's
/// record changes.
pub proof fn command_addresses_are_recorded(
    recorded: Map<Seq<u8>, Seq<Multiaddr>>,
    relay: Seq<u8>,
    addrs: Seq<Multiaddr>,
    other: Seq<u8>,
)
    requires
        other != relay,
    ensures
        recorded_for(with_addresses(recorded, relay, addrs), relay) == recorded_for(
            recorded,
            relay,
        ) + addrs,
        recorded_for(with_addresses(recorded, relay, addrs), other) == recorded_for(
            recorded,
            other,
        ),
{
}

/// A relay that has just been connected is asked for a reservation at every
/// recorded address.
pub proof fn first_connection_requests_reservations<Cmd, Req, C>(
    state: EventLoopView<Cmd>,
    relay: PeerId,
    i: int,
)
    requires
        0 <= i < recorded_for(state.bootstrap_peers, peer_id_bytes(relay)).len(),
    ensures
        event_actions(
            state,
            SwarmEvent::<Req, C>::ConnectionEstablished { peer_id: relay, num_established: 1 },
        ).len() == recorded_for(state.bootstrap_peers, peer_id_bytes(relay)).len(),
        event_actions(
            state,
            SwarmEvent::<Req, C>::ConnectionEstablished { peer_id: relay, num_established: 1 },
        )[i] == reservation_plan(relay)(
            recorded_for(state.bootstrap_peers, peer_id_bytes(relay))[i],
        )[0],
{
    single_actions(
        recorded_for(state.bootstrap_peers, peer_id_bytes(relay)),
        reservation_plan(relay),
    );
}

/// Network events record nothing, so once a relay was asked for its recorded
/// reservations it is not asked again, whatever the network reports.
pub proof fn reservations_are_requested_once<Cmd, Req, C>(
    state: EventLoopView<Cmd>,
    relay: PeerId,
    later: Seq<SwarmEvent<Req, C>>,
)
    ensures
        recorded_for(
            state_after_all(
                state_after(
                    state,
                    SwarmEvent::<Req, C>::ConnectionEstablished {
                        peer_id: relay,
                        num_established: 1,
                    },
                ),
                later,
            ).bootstrap_peers,
            peer_id_bytes(relay),
        ) == Seq::<Multiaddr>::empty(),
{
    events_record_nothing(
        state_after(
            state,
            SwarmEvent::<Req, C>::ConnectionEstablished { peer_id: relay, num_established: 1 },
        ),
        later,
        peer_id_bytes(relay),
    );
}

/// Network events never record a relay.
proof fn events_record_nothing<Cmd, Req, C>(
    state: EventLoopView<Cmd>,
    events: Seq<SwarmEvent<Req, C>>,
    id: Seq<u8>,
)
    requires
        !state.bootstrap_peers.contains_key(id),
    ensures
        !state_after_all(state, events).bootstrap_peers.contains_key(id),
    decreases events.len(),
{
    if events.len() > 0 {
        events_record_nothing(state, events.drop_last(), id);
    }
}

/// With no relay recorded, as with the relay client disabled, no event makes
/// the node listen anywhere.
pub proof fn no_record_no_reservation<Cmd, Req, C>(
    state: EventLoopView<Cmd>,
    event: SwarmEvent<Req, C>,
    i: int,
)
    requires
        state.bootstrap_peers == Map::<Seq<u8>, Seq<Multiaddr>>::empty(),
        0 <= i < event_actions(state, event).len(),
    ensures
        !(event_actions(state, event)[i] is ListenOn),
{
    let actions = event_actions(state, event);
    let action = actions[i];
    match event {
        SwarmEvent::MdnsDiscovered { peers, connected } => {
            let registered = for_each(peers@, discovery_plan());
            if i < registered.len() {
                assert(registered[i] == action);
                action_has_an_item(peers@, discovery_plan(), action);
            }
        },
        SwarmEvent::IdentifyReceived { peer_id, listen_addrs, .. } => {
            assert(actions.contains(action));
            action_has_an_item(listen_addrs@, member_plan(peer_id), action);
        },
        SwarmEvent::KadRoutingUpdated { peer, addresses } => {
            assert(actions.contains(action));
            action_has_an_item(addresses@, address_plan(peer), action);
        },
        _ => {},
    }
}

/// With no relay recorded, none comes to be recorded by what the network
/// reports, however long it runs.
pub proof fn no_record_stays_so<Cmd, Req, C>(
    state: EventLoopView<Cmd>,
    events: Seq<SwarmEvent<Req, C>>,
)
    requires
        state.bootstrap_peers == Map::<Seq<u8>, Seq<Multiaddr>>::empty(),
    ensures
        state_after_all(state, events).bootstrap_peers == Map::<
            Seq<u8>,
            Seq<Multiaddr>,
        >::empty(),
    decreases events.len(),
{
    if events.len() > 0 {
        no_record_stays_so(state, events.drop_last());
        assert(state_after_all(state, events).bootstrap_peers =~= Map::<
            Seq<u8>,
            Seq<Multiaddr>,
        >::empty());
    }
}

/// By a network event a peer gets into the distributed hash table only if it
/// says that it speaks this node's protocol, and only with the addresses it
/// names.
pub proof fn only_members_join_the_table<Cmd, Req, C>(
    state: EventLoopView<Cmd>,
    event: SwarmEvent<Req, C>,
    i: int,
)
    requires
        0 <= i < event_actions(state, event).len(),
        event_actions(state, event)[i] is AddKadAddress,
    ensures
        event is IdentifyReceived,
        event->IdentifyReceived_protocol_version@ == state.protocol_version,
        exists|j: int|
            0 <= j < event->listen_addrs@.len() && event_actions(state, event)[i]
                == SwarmActionView::AddKadAddress(
                peer_id_bytes(event->IdentifyReceived_peer_id),
                addr_parts(#[trigger] event->listen_addrs@[j]),
            ),
{
    let actions = event_actions(state, event);
    let action = actions[i];
    assert(actions.contains(action));
    match event {
        SwarmEvent::MdnsDiscovered { peers, connected } => {
            let registered = for_each(peers@, discovery_plan());
            if i < registered.len() {
                assert(registered[i] == action);
                action_has_an_item(peers@, discovery_plan(), action);
            }
        },
        SwarmEvent::IdentifyReceived { peer_id, listen_addrs, .. } => {
            action_has_an_item(listen_addrs@, member_plan(peer_id), action);
            let j = choose|j: int|
                0 <= j < listen_addrs@.len() && (#[trigger] member_plan(peer_id)(
                    listen_addrs@[j],
                )).contains(action);
            assert(event->listen_addrs@[j] == listen_addrs@[j]);
        },
        SwarmEvent::KadRoutingUpdated { peer, addresses } => {
            action_has_an_item(addresses@, address_plan(peer), action);
        },
        SwarmEvent::ConnectionEstablished { peer_id, .. } => {
            action_has_an_item(
                recorded_for(state.bootstrap_peers, peer_id_bytes(peer_id)),
                reservation_plan(peer_id),
                action,
            );
        },
        _ => {},
    }
}

/// Whether a list of discovered peers holds the one with these bytes.
pub open spec fn discovered(peers: Seq<(PeerId, Multiaddr)>, id: Seq<u8>) -> bool {
    exists|i: int| 0 <= i < peers.len() && peer_id_bytes((#[trigger] peers[i]).0) == id
}

/// Of the discovered peers exactly those without a connection are dialed.
pub proof fn unconnected_peers_are_dialed(
    peers: Seq<(PeerId, Multiaddr)>,
    connected: Seq<PeerId>,
    id: Seq<u8>,
)
    ensures
        to_dial(peers, connected).contains(id) <==> discovered(peers, id) && !lists_peer(
            connected,
            id,
        ),
    decreases peers.len(),
{
    if peers.len() > 0 {
        let before = peers.drop_last();
        let rest = to_dial(before, connected);
        let last = peer_id_bytes(peers.last().0);
        unconnected_peers_are_dialed(before, connected, id);
        unconnected_peers_are_dialed(before, connected, last);
        assert(discovered(peers, id) <==> discovered(before, id) || last == id) by {
            if discovered(before, id) {
                let i = choose|i: int|
                    0 <= i < before.len() && peer_id_bytes((#[trigger] before[i]).0) == id;
                assert(peer_id_bytes(peers[i].0) == id);
            }
            if last == id {
                assert(peer_id_bytes(peers[peers.len() - 1].0) == id);
            }
            if discovered(peers, id) {
                let i = choose|i: int|
                    0 <= i < peers.len() && peer_id_bytes((#[trigger] peers[i]).0) == id;
                if i < before.len() {
                    assert(peer_id_bytes(before[i].0) == id);
                }
            }
        }
        assert(rest.push(last).contains(id) <==> rest.contains(id) || last == id) by {
            if rest.contains(id) {
                let i = choose|i: int| 0 <= i < rest.len() && rest[i] == id;
                assert(rest.push(last)[i] == id);
            }
            if last == id {
                assert(rest.push(last)[rest.len() as int] == id);
            }
        }
    }
}

/// No discovered peer is dialed twice.
pub proof fn peers_are_dialed_once(peers: Seq<(PeerId, Multiaddr)>, connected: Seq<PeerId>)
    ensures
        to_dial(peers, connected).no_duplicates(),
    decreases peers.len(),
{
    if peers.len() > 0 {
        peers_are_dialed_once(peers.drop_last(), connected);
    }
}

/// Discovered addresses are registered before anyone is dialed, so that a dial
/// can use all of them.
pub proof fn addresses_come_before_dials<Cmd, Req, C>(
    state: EventLoopView<Cmd>,
    peers: Vec<(PeerId, Multiaddr)>,
    connected: Vec<PeerId>,
    i: int,
    j: int,
)
    requires
        0 <= i < event_actions(
            state,
            SwarmEvent::<Req, C>::MdnsDiscovered { peers, connected },
        ).len(),
        0 <= j < event_actions(
            state,
            SwarmEvent::<Req, C>::MdnsDiscovered { peers, connected },
        ).len(),
        event_actions(
            state,
            SwarmEvent::<Req, C>::MdnsDiscovered { peers, connected },
        )[i] is AddPeerAddress,
        event_actions(state, SwarmEvent::<Req, C>::MdnsDiscovered { peers, connected })[j] is Dial,
    ensures
        i < j,
{
    let registered = for_each(peers@, discovery_plan());
    let dialed = dials(to_dial(peers@, connected@));
    let actions = registered + dialed;
    assert(actions == event_actions(
        state,
        SwarmEvent::<Req, C>::MdnsDiscovered { peers, connected },
    ));
    if j < registered.len() {
        assert(registered[j] == actions[j]);
        action_has_an_item(peers@, discovery_plan(), actions[j]);
    }
    if i >= registered.len() {
        assert(actions[i] == dialed[i - registered.len()]);
    }
}

/// The node is told to be reachable only at an address where a server reached
/// it, and never told to be unreachable.
pub proof fn only_a_successful_probe_reports_the_nat<Req, C>(
    event: SwarmEvent<Req, C>,
    pending_id: u64,
)
    ensures
        node_event(event, pending_id) matches Some(
            NodeEvent::NatStatusChanged { status, public_addr },
        ) ==> status == NatStatus::Public && event is AutonatTested && event->reachable
            && public_addr == Some(event->tested_addr),
{
}

/// Listening on `addrs` from the step after `listened` addresses on, where
/// `outcomes` says how each address goes: the addresses listened on, and the
/// result.
pub open spec fn listen_run(
    addrs: Seq<Multiaddr>,
    outcomes: Seq<Result<(), String>>,
    listened: int,
    last: Result<(), String>,
) -> (Seq<Multiaddr>, Result<(), Error>)
    decreases addrs.len() - listened,
{
    match listen_step(addrs, listened, last) {
        ListenStep::ListenOn(addr) => {
            let (rest, result) = if listened < addrs.len() {
                listen_run(addrs, outcomes, listened + 1, outcomes[listened])
            } else {
                (Seq::empty(), Ok(()))
            };
            (seq![addr] + rest, result)
        },
        ListenStep::Done(result) => (Seq::empty(), result),
    }
}

/// If every address can be listened on, all are, in order, and the result is
/// `Ok`.
pub proof fn listening_covers_all_addresses(
    addrs: Seq<Multiaddr>,
    outcomes: Seq<Result<(), String>>,
)
    requires
        outcomes.len() == addrs.len(),
        forall|i: int| 0 <= i < outcomes.len() ==> (#[trigger] outcomes[i]) is Ok,
    ensures
        listen_run(addrs, outcomes, 0, Ok(())) == (addrs, Ok::<(), Error>(())),
{
    listening_goes_on(addrs, outcomes, 0, addrs.len() as int);
    assert(addrs.skip(0) =~= addrs);
}

/// The first address that fails is the last that is tried: those up to and
/// including it are listened on, in order, and its error is the result.
pub proof fn listening_stops_at_the_first_failure(
    addrs: Seq<Multiaddr>,
    outcomes: Seq<Result<(), String>>,
    failed: int,
)
    requires
        outcomes.len() == addrs.len(),
        0 <= failed < addrs.len(),
        outcomes[failed] is Err,
        forall|i: int| 0 <= i < failed ==> (#[trigger] outcomes[i]) is Ok,
    ensures
        listen_run(addrs, outcomes, 0, Ok(())) == (
            addrs.take(failed + 1),
            Err::<(), Error>(Error::Listen(outcomes[failed]->Err_0)),
        ),
{
    listening_goes_on(addrs, outcomes, 0, failed);
    assert(addrs.subrange(0, failed + 1) =~= addrs.take(failed + 1));
}

/// Listening goes on from `from` while the addresses before `until` succeed; it
/// ends with the address at `until`, which fails or is not there.
proof fn listening_goes_on(
    addrs: Seq<Multiaddr>,
    outcomes: Seq<Result<(), String>>,
    from: int,
    until: int,
)
    requires
        outcomes.len() == addrs.len(),
        0 <= from <= until <= addrs.len(),
        forall|i: int| 0 <= i < until ==> (#[trigger] outcomes[i]) is Ok,
        until < addrs.len() ==> outcomes[until] is Err,
    ensures
        listen_run(addrs, outcomes, from, Ok(())) == if until < addrs.len() {
            (
                addrs.subrange(from, until + 1),
                Err::<(), Error>(Error::Listen(outcomes[until]->Err_0)),
            )
        } else {
            (addrs.skip(from), Ok::<(), Error>(()))
        },
    decreases until - from,
{
    if from < until {
        listening_goes_on(addrs, outcomes, from + 1, until);
        assert(outcomes[from] is Ok);
        assert(outcomes[from]->Ok_0 == ());
        if until < addrs.len() {
            assert(seq![addrs[from]] + addrs.subrange(from + 1, until + 1) =~= addrs.subrange(
                from,
                until + 1,
            ));
        } else {
            assert(seq![addrs[from]] + addrs.skip(from + 1) =~= addrs.skip(from));
        }
    } else if until < addrs.len() {
        let (rest, result) = listen_run(addrs, outcomes, from + 1, outcomes[from]);
        assert(rest =~= Seq::empty());
        assert(seq![addrs[from]] + rest =~= addrs.subrange(from, from + 1));
    } else {
        assert(addrs.skip(from) =~= Seq::empty());
    }
}

} // verus!
