//! What the network reports, what the node tells its user, and what the node
//! asks of the network in turn.

use crate::foreign::{addr_parts, peer_id_bytes, AddrPartView};
use libp2p::{Multiaddr, PeerId};
use std::time::Duration;
use vstd::prelude::*;

verus! {

/// Whether this node can be reached from outside.
#[derive(Debug, Clone, Copy, PartialEq, Eq, Structural)]
pub enum NatStatus {
    /// Not known.
    Unknown,
    /// Confirmed to be reachable.
    Public,
}

/// What the node tells its user.
#[derive(Debug)]
pub enum NodeEvent<Req> {
    /// The node listens on an address.
    Listening { addr: Multiaddr },
    /// The first connection to a peer is up.
    PeerConnected { peer_id: PeerId },
    /// The last connection to a peer is down.
    PeerDisconnected { peer_id: PeerId },
    /// A peer sent a request; the response goes out under `pending_id`.
    InboundRequest { peer_id: PeerId, pending_id: u64, request: Req },
    /// A direct connection through the NAT came about.
    HolePunchSucceeded { peer_id: PeerId },
    /// No direct connection through the NAT came about.
    HolePunchFailed { peer_id: PeerId, error: String },
    /// Peers were found on the local network.
    PeersDiscovered { peers: Vec<(PeerId, Multiaddr)> },
    /// A peer answered a ping.
    PingSuccess { peer_id: PeerId, rtt_ms: u64 },
    /// A peer said who it is.
    IdentifyReceived { peer_id: PeerId, agent_version: String, protocol_version: String },
    /// The node learned whether it can be reached from outside.
    NatStatusChanged { status: NatStatus, public_addr: Option<Multiaddr> },
    /// A relay accepted this node's reservation.
    RelayReservationAccepted { relay_peer_id: PeerId, renewal: bool },
    /// This node, as a relay, accepted a peer's reservation.
    RelayServerReservationAccepted { src_peer_id: PeerId, renewed: bool },
}

/// What the network reports to the event loop.
///
/// `Req` is a request, `C` the channel on which its response goes out.
pub enum SwarmEvent<Req, C> {
    /// A relay accepted this node's reservation.
    RelayReservationAccepted { relay_peer_id: PeerId, renewal: bool },
    /// A connection through a relay came about, opened here.
    OutboundCircuitEstablished { relay_peer_id: PeerId },
    /// A connection through a relay came about, opened by the remote end.
    InboundCircuitEstablished { src_peer_id: PeerId },
    /// This node, as a relay, accepted a peer's reservation.
    RelayServerReservationAccepted { src_peer_id: PeerId, renewed: bool },
    /// The node listens on an address.
    NewListenAddr { address: Multiaddr },
    /// A connection is up; so many are, with this one, to the same peer.
    ConnectionEstablished { peer_id: PeerId, num_established: u32 },
    /// A connection is down; so many remain to the same peer.
    ConnectionClosed { peer_id: PeerId, num_established: u32 },
    /// A peer sent a request.
    InboundRequest { peer: PeerId, request: Req, channel: C },
    /// An attempt at a direct connection through the NAT ended; an error comes
    /// as its text.
    HolePunch { remote_peer_id: PeerId, result: Result<(), String> },
    /// Peers were found on the local network; `connected` lists those of them
    /// to which a connection is up already.
    MdnsDiscovered { peers: Vec<(PeerId, Multiaddr)>, connected: Vec<PeerId> },
    /// A ping ended: with the round-trip time, or without an answer.
    Ping { peer: PeerId, rtt: Option<Duration> },
    /// A peer said who it is and where it listens.
    IdentifyReceived {
        peer_id: PeerId,
        protocol_version: String,
        agent_version: String,
        listen_addrs: Vec<Multiaddr>,
    },
    /// A server tried to reach this node at one of its addresses.
    AutonatTested { tested_addr: Multiaddr, reachable: bool },
    /// The routing table of the distributed hash table changed.
    KadRoutingUpdated { peer: PeerId, addresses: Vec<Multiaddr> },
    /// Anything else.
    Other,
}

/// What the event loop asks of the network.
pub enum SwarmAction {
    /// Listen on an address.
    ListenOn(Multiaddr),
    /// Remember an address of a peer for dialing it.
    AddPeerAddress(PeerId, Multiaddr),
    /// Add an address of a peer to the distributed hash table.
    AddKadAddress(PeerId, Multiaddr),
    /// Dial a peer at its known addresses.
    Dial(PeerId),
}

/// The mathematical value of a [`SwarmAction`]: peers by their bytes and
/// addresses by their components.
pub enum SwarmActionView {
    /// Listen on an address.
    ListenOn(Seq<AddrPartView>),
    /// Remember an address of a peer for dialing it.
    AddPeerAddress(Seq<u8>, Seq<AddrPartView>),
    /// Add an address of a peer to the distributed hash table.
    AddKadAddress(Seq<u8>, Seq<AddrPartView>),
    /// Dial a peer at its known addresses.
    Dial(Seq<u8>),
}

impl View for SwarmAction {
    type V = SwarmActionView;

    open spec fn view(&self) -> SwarmActionView {
        match self {
            SwarmAction::ListenOn(addr) => SwarmActionView::ListenOn(addr_parts(*addr)),
            SwarmAction::AddPeerAddress(peer, addr) => SwarmActionView::AddPeerAddress(
                peer_id_bytes(*peer),
                addr_parts(*addr),
            ),
            SwarmAction::AddKadAddress(peer, addr) => SwarmActionView::AddKadAddress(
                peer_id_bytes(*peer),
                addr_parts(*addr),
            ),
            SwarmAction::Dial(peer) => SwarmActionView::Dial(peer_id_bytes(*peer)),
        }
    }
}

/// The values of a list of actions.
pub open spec fn action_views(actions: Seq<SwarmAction>) -> Seq<SwarmActionView> {
    actions.map_values(|action: SwarmAction| action@)
}

/// The actions that `plan` gives for each item, one item after the other.
pub open spec fn for_each<A>(
    items: Seq<A>,
    plan: spec_fn(A) -> Seq<SwarmActionView>,
) -> Seq<SwarmActionView>
    decreases items.len(),
{
    if items.len() == 0 {
        Seq::empty()
    } else {
        for_each(items.drop_last(), plan) + plan(items.last())
    }
}

/// One more item adds its own actions at the end.
pub proof fn for_each_step<A>(items: Seq<A>, i: int, plan: spec_fn(A) -> Seq<SwarmActionView>)
    requires
        0 <= i < items.len(),
    ensures
        for_each(items.take(i + 1), plan) == for_each(items.take(i), plan) + plan(items[i]),
{
    assert(items.take(i + 1).drop_last() =~= items.take(i));
}

/// Every action that a list of plans gives comes from the plan for some item.
pub proof fn action_has_an_item<A>(
    items: Seq<A>,
    plan: spec_fn(A) -> Seq<SwarmActionView>,
    action: SwarmActionView,
)
    requires
        for_each(items, plan).contains(action),
    ensures
        exists|i: int| 0 <= i < items.len() && (#[trigger] plan(items[i])).contains(action),
    decreases items.len(),
{
    let rest = for_each(items.drop_last(), plan);
    let at = choose|at: int|
        0 <= at < for_each(items, plan).len() && for_each(items, plan)[at] == action;
    if at < rest.len() {
        assert(rest[at] == action);
        action_has_an_item(items.drop_last(), plan, action);
        let i = choose|i: int|
            0 <= i < items.drop_last().len() && (#[trigger] plan(items.drop_last()[i])).contains(
                action,
            );
        assert(plan(items[i]).contains(action));
    } else {
        assert(plan(items.last())[at - rest.len()] == action);
        assert(plan(items[items.len() - 1]).contains(action));
    }
}

/// Plans of one action each give one action per item, in the items' order.
pub proof fn single_actions<A>(items: Seq<A>, plan: spec_fn(A) -> Seq<SwarmActionView>)
    requires
        forall|item: A| (#[trigger] plan(item)).len() == 1,
    ensures
        for_each(items, plan).len() == items.len(),
        forall|i: int|
            0 <= i < items.len() ==> #[trigger] for_each(items, plan)[i] == plan(items[i])[0],
    decreases items.len(),
{
    if items.len() > 0 {
        let before = items.drop_last();
        single_actions(before, plan);
        assert(plan(items.last()).len() == 1);
        assert forall|i: int| 0 <= i < items.len() implies #[trigger] for_each(items, plan)[i]
            == plan(items[i])[0] by {
            if i < before.len() {
                assert(for_each(items, plan)[i] == for_each(before, plan)[i]);
                assert(before[i] == items[i]);
            }
        }
    }
}

/// Plans of two actions each give two actions per item, in the items' order.
pub proof fn paired_actions<A>(items: Seq<A>, plan: spec_fn(A) -> Seq<SwarmActionView>, i: int)
    requires
        forall|item: A| (#[trigger] plan(item)).len() == 2,
        0 <= i < items.len(),
    ensures
        for_each(items, plan).len() == 2 * items.len(),
        for_each(items, plan)[2 * i] == plan(items[i])[0],
        for_each(items, plan)[2 * i + 1] == plan(items[i])[1],
    decreases items.len(),
{
    let before = items.drop_last();
    assert(plan(items.last()).len() == 2);
    if before.len() == 0 {
        assert(for_each(before, plan).len() == 0);
    } else if i < before.len() {
        paired_actions(before, plan, i);
        assert(before[i] == items[i]);
    } else {
        paired_actions(before, plan, 0);
    }
}

/// Plans of three actions each give three actions per item, in the items' order.
pub proof fn tripled_actions<A>(items: Seq<A>, plan: spec_fn(A) -> Seq<SwarmActionView>, i: int)
    requires
        forall|item: A| (#[trigger] plan(item)).len() == 3,
        0 <= i < items.len(),
    ensures
        for_each(items, plan).len() == 3 * items.len(),
        for_each(items, plan)[3 * i] == plan(items[i])[0],
        for_each(items, plan)[3 * i + 1] == plan(items[i])[1],
        for_each(items, plan)[3 * i + 2] == plan(items[i])[2],
    decreases items.len(),
{
    let before = items.drop_last();
    assert(plan(items.last()).len() == 3);
    if before.len() == 0 {
        assert(for_each(before, plan).len() == 0);
    } else if i < before.len() {
        tripled_actions(before, plan, i);
        assert(before[i] == items[i]);
    } else {
        tripled_actions(before, plan, 0);
    }
}

/// No item gives no action, and the actions for two lists are those for the
/// first and then those for the second.
pub proof fn actions_follow_the_items<A>(
    front: Seq<A>,
    back: Seq<A>,
    plan: spec_fn(A) -> Seq<SwarmActionView>,
    item: A,
)
    ensures
        for_each(Seq::<A>::empty(), plan).len() == 0,
        for_each(seq![item], plan) == plan(item),
        for_each(front + back, plan) == for_each(front, plan) + for_each(back, plan),
    decreases back.len(),
{
    assert(seq![item].drop_last() =~= Seq::empty());
    assert(for_each(Seq::<A>::empty(), plan).len() == 0);
    assert(for_each(seq![item], plan) =~= plan(item));
    if back.len() == 0 {
        assert(front + back =~= front);
        assert(for_each(front + back, plan) =~= for_each(front, plan) + for_each(back, plan));
    } else {
        assert((front + back).drop_last() =~= front + back.drop_last());
        actions_follow_the_items(front, back.drop_last(), plan, item);
        assert(for_each(front + back, plan) =~= for_each(front, plan) + for_each(back, plan));
    }
}

/// An action is known by what it does and to whom, and a list of actions by its
/// actions, one for one.
pub proof fn actions_are_known_by_content(
    peer: PeerId,
    addr: Multiaddr,
    actions: Seq<SwarmAction>,
    i: int,
)
    ensures
        SwarmAction::ListenOn(addr)@ == SwarmActionView::ListenOn(addr_parts(addr)),
        SwarmAction::AddPeerAddress(peer, addr)@ == SwarmActionView::AddPeerAddress(
            peer_id_bytes(peer),
            addr_parts(addr),
        ),
        SwarmAction::AddKadAddress(peer, addr)@ == SwarmActionView::AddKadAddress(
            peer_id_bytes(peer),
            addr_parts(addr),
        ),
        SwarmAction::Dial(peer)@ == SwarmActionView::Dial(peer_id_bytes(peer)),
        action_views(actions).len() == actions.len(),
        0 <= i < actions.len() ==> action_views(actions)[i] == actions[i]@,
{
}

/// Appends one action.
pub(crate) fn push_action(actions: &mut Vec<SwarmAction>, action: SwarmAction)
    ensures
        action_views(final(actions)@) == action_views(old(actions)@).push(action@),
{
    actions.push(action);
    assert(action_views(actions@) =~= action_views(old(actions)@).push(action@));
}

} // verus!
