//! The decisions of the event loop.
//!
//! The loop itself waits for commands, network events and inbound streams. For
//! each of them [`EventLoop`] says what is to be asked of the network and what
//! the node's user is told.

use crate::data_channel::{
    slot_of, successor, ChannelIdCounter, ChannelRegistry, DataChannel, DataChannelDirection, DataChannelId,
    DataChannelView, InboundDataChannel,
};
use crate::error::Error;
use crate::event::{
    action_views, for_each, for_each_step, push_action, NatStatus, NodeEvent, SwarmAction,
    SwarmActionView, SwarmEvent,
};
use crate::foreign::{addr_parts, duration_nanos, peer_id_bytes};
use crate::keyed_table::KeyedTable;
use crate::pending_map::{PendingEntry, PendingMap};
use crate::runtime::command_chain::ActiveCommands;
use crate::runtime::relay::{relay_address, relay_parts};
use libp2p::{Multiaddr, PeerId, StreamProtocol};
use vstd::prelude::*;

verus! {

/// The state of the event loop. `Cmd` is a command in progress.
pub struct EventLoop<Cmd> {
    active_commands: ActiveCommands<Cmd>,
    protocol_version: String,
    pending_id_counter: u64,
    bootstrap_peers: KeyedTable<PeerId, Vec<Multiaddr>>,
    enable_relay_client: bool,
}

/// The mathematical value of an [`EventLoop`].
pub struct EventLoopView<Cmd> {
    /// The commands in progress.
    pub active_commands: Seq<Cmd>,
    /// The protocol version of this node.
    pub protocol_version: Seq<char>,
    /// The id that the next inbound request gets.
    pub next_pending_id: u64,
    /// The relays to ask for a reservation once they are connected, with the
    /// addresses to ask at.
    pub bootstrap_peers: Map<Seq<u8>, Seq<Multiaddr>>,
    /// Whether bootstrap peers are asked for a relay reservation.
    pub enable_relay_client: bool,
}

/// The lists behind a table of vectors.
pub open spec fn lists<I>(table: Map<I, Vec<Multiaddr>>) -> Map<I, Seq<Multiaddr>> {
    table.map_values(|addrs: Vec<Multiaddr>| addrs@)
}

impl<Cmd> View for EventLoop<Cmd> {
    type V = EventLoopView<Cmd>;

    closed spec fn view(&self) -> EventLoopView<Cmd> {
        EventLoopView {
            active_commands: self.active_commands@,
            protocol_version: self.protocol_version@,
            next_pending_id: self.pending_id_counter,
            bootstrap_peers: lists(self.bootstrap_peers@),
            enable_relay_client: self.enable_relay_client,
        }
    }
}

/// The addresses recorded for a peer; none if the peer is not there.
pub open spec fn recorded_for(
    recorded: Map<Seq<u8>, Seq<Multiaddr>>,
    peer: Seq<u8>,
) -> Seq<Multiaddr> {
    if recorded.contains_key(peer) {
        recorded[peer]
    } else {
        Seq::empty()
    }
}

/// The record with more addresses at the end of a peer's list.
pub open spec fn with_addresses(
    recorded: Map<Seq<u8>, Seq<Multiaddr>>,
    peer: Seq<u8>,
    addrs: Seq<Multiaddr>,
) -> Map<Seq<u8>, Seq<Multiaddr>> {
    recorded.insert(peer, recorded_for(recorded, peer) + addrs)
}

/// The record after every bootstrap peer was added, in order.
pub open spec fn with_bootstrap_peers(
    recorded: Map<Seq<u8>, Seq<Multiaddr>>,
    peers: Seq<(PeerId, Multiaddr)>,
) -> Map<Seq<u8>, Seq<Multiaddr>>
    decreases peers.len(),
{
    if peers.len() == 0 {
        recorded
    } else {
        with_addresses(
            with_bootstrap_peers(recorded, peers.drop_last()),
            peer_id_bytes(peers.last().0),
            seq![peers.last().1],
        )
    }
}

/// What connecting to one bootstrap peer asks of the network.
pub open spec fn bootstrap_plan() -> spec_fn((PeerId, Multiaddr)) -> Seq<SwarmActionView> {
    |peer: (PeerId, Multiaddr)|
        seq![
            SwarmActionView::AddKadAddress(peer_id_bytes(peer.0), addr_parts(peer.1)),
            SwarmActionView::AddPeerAddress(peer_id_bytes(peer.0), addr_parts(peer.1)),
            SwarmActionView::Dial(peer_id_bytes(peer.0)),
        ]
}

/// What asking a relay for a reservation at one address asks of the network.
pub open spec fn reservation_plan(relay: PeerId) -> spec_fn(Multiaddr) -> Seq<SwarmActionView> {
    |addr: Multiaddr|
        seq![SwarmActionView::ListenOn(relay_parts(addr_parts(addr), peer_id_bytes(relay)))]
}

/// What learning one address of a peer asks of the network.
pub open spec fn address_plan(peer: PeerId) -> spec_fn(Multiaddr) -> Seq<SwarmActionView> {
    |addr: Multiaddr|
        seq![SwarmActionView::AddPeerAddress(peer_id_bytes(peer), addr_parts(addr))]
}

/// What learning one address of a peer that speaks this node's protocol asks
/// of the network.
pub open spec fn member_plan(peer: PeerId) -> spec_fn(Multiaddr) -> Seq<SwarmActionView> {
    |addr: Multiaddr|
        seq![
            SwarmActionView::AddKadAddress(peer_id_bytes(peer), addr_parts(addr)),
            SwarmActionView::AddPeerAddress(peer_id_bytes(peer), addr_parts(addr)),
        ]
}

/// What discovering one peer at one address asks of the network.
pub open spec fn discovery_plan() -> spec_fn((PeerId, Multiaddr)) -> Seq<SwarmActionView> {
    |peer: (PeerId, Multiaddr)|
        seq![SwarmActionView::AddPeerAddress(peer_id_bytes(peer.0), addr_parts(peer.1))]
}

/// Whether a list of peers holds the one with these bytes.
pub open spec fn lists_peer(peers: Seq<PeerId>, id: Seq<u8>) -> bool {
    exists|i: int| 0 <= i < peers.len() && peer_id_bytes(#[trigger] peers[i]) == id
}

/// The peers to dial of those discovered: each one without a connection, once,
/// in the order of discovery.
pub open spec fn to_dial(peers: Seq<(PeerId, Multiaddr)>, connected: Seq<PeerId>) -> Seq<Seq<u8>>
    decreases peers.len(),
{
    if peers.len() == 0 {
        Seq::empty()
    } else {
        let rest = to_dial(peers.drop_last(), connected);
        let id = peer_id_bytes(peers.last().0);
        if rest.contains(id) || lists_peer(connected, id) {
            rest
        } else {
            rest.push(id)
        }
    }
}

/// The dialing of each of these peers.
pub open spec fn dials(ids: Seq<Seq<u8>>) -> Seq<SwarmActionView> {
    ids.map_values(|id: Seq<u8>| SwarmActionView::Dial(id))
}

/// What an event asks of the network.
pub open spec fn event_actions<Cmd, Req, C>(
    state: EventLoopView<Cmd>,
    event: SwarmEvent<Req, C>,
) -> Seq<SwarmActionView> {
    match event {
        SwarmEvent::ConnectionEstablished { peer_id, num_established } => if num_established == 1 {
            for_each(
                recorded_for(state.bootstrap_peers, peer_id_bytes(peer_id)),
                reservation_plan(peer_id),
            )
        } else {
            Seq::empty()
        },
        SwarmEvent::MdnsDiscovered { peers, connected } => for_each(peers@, discovery_plan())
            + dials(to_dial(peers@, connected@)),
        SwarmEvent::IdentifyReceived {
            peer_id,
            protocol_version,
            listen_addrs,
            ..
        } => if protocol_version@ == state.protocol_version {
            for_each(listen_addrs@, member_plan(peer_id))
        } else {
            Seq::empty()
        },
        SwarmEvent::KadRoutingUpdated { peer, addresses } => for_each(
            addresses@,
            address_plan(peer),
        ),
        _ => Seq::empty(),
    }
}

/// What the user is told of an event; `pending_id` is the id that an inbound
/// request gets.
pub open spec fn node_event<Req, C>(
    event: SwarmEvent<Req, C>,
    pending_id: u64,
) -> Option<NodeEvent<Req>> {
    match event {
        SwarmEvent::RelayReservationAccepted { relay_peer_id, renewal } => Some(
            NodeEvent::RelayReservationAccepted { relay_peer_id, renewal },
        ),
        SwarmEvent::RelayServerReservationAccepted { src_peer_id, renewed } => Some(
            NodeEvent::RelayServerReservationAccepted { src_peer_id, renewed },
        ),
        SwarmEvent::NewListenAddr { address } => Some(NodeEvent::Listening { addr: address }),
        SwarmEvent::ConnectionEstablished { peer_id, num_established } => if num_established == 1 {
            Some(NodeEvent::PeerConnected { peer_id })
        } else {
            None
        },
        SwarmEvent::ConnectionClosed { peer_id, num_established } => if num_established == 0 {
            Some(NodeEvent::PeerDisconnected { peer_id })
        } else {
            None
        },
        SwarmEvent::InboundRequest { peer, request, .. } => Some(
            NodeEvent::InboundRequest { peer_id: peer, pending_id, request },
        ),
        SwarmEvent::HolePunch { remote_peer_id, result } => match result {
            Ok(()) => Some(NodeEvent::HolePunchSucceeded { peer_id: remote_peer_id }),
            Err(error) => Some(NodeEvent::HolePunchFailed { peer_id: remote_peer_id, error }),
        },
        SwarmEvent::MdnsDiscovered { peers, .. } => Some(NodeEvent::PeersDiscovered { peers }),
        SwarmEvent::Ping { peer, rtt } => match rtt {
            Some(rtt) => Some(
                NodeEvent::PingSuccess {
                    peer_id: peer,
                    rtt_ms: (duration_nanos(rtt) / 1_000_000) as u64,
                },
            ),
            None => None,
        },
        SwarmEvent::IdentifyReceived { peer_id, protocol_version, agent_version, .. } => Some(
            NodeEvent::IdentifyReceived { peer_id, agent_version, protocol_version },
        ),
        SwarmEvent::AutonatTested { tested_addr, reachable } => if reachable {
            Some(
                NodeEvent::NatStatusChanged {
                    status: NatStatus::Public,
                    public_addr: Some(tested_addr),
                },
            )
        } else {
            None
        },
        _ => None,
    }
}

/// The state of the event loop after an event.
pub open spec fn state_after<Cmd, Req, C>(
    state: EventLoopView<Cmd>,
    event: SwarmEvent<Req, C>,
) -> EventLoopView<Cmd> {
    match event {
        SwarmEvent::ConnectionEstablished { peer_id, num_established } => if num_established == 1 {
            EventLoopView {
                bootstrap_peers: state.bootstrap_peers.remove(peer_id_bytes(peer_id)),
                ..state
            }
        } else {
            state
        },
        SwarmEvent::InboundRequest { .. } => EventLoopView {
            next_pending_id: successor(state.next_pending_id),
            ..state
        },
        _ => state,
    }
}

/// Whether the waiting response channels changed as an event asks: the channel
/// of an inbound request waits under the request's id from a reading of the
/// clock on, and nothing else changes.
pub open spec fn channels_after<Req, C>(
    before: PendingMap<u64, C>,
    after: PendingMap<u64, C>,
    pending_id: u64,
    event: SwarmEvent<Req, C>,
) -> bool {
    &&& after.ttl() == before.ttl()
    &&& after.origin() == before.origin()
    &&& match event {
        SwarmEvent::InboundRequest { channel, .. } => exists|now: u128| #[trigger]
            before.reads(now) && after@ == before@.insert(
                pending_id,
                PendingEntry { value: channel, created_at: now },
            ),
        _ => after@ == before@,
    }
}

/// The next step of listening on a list of addresses.
pub enum ListenStep {
    /// Listen on this address.
    ListenOn(Multiaddr),
    /// Listening ended like this.
    Done(Result<(), Error>),
}

/// What follows once `listened` addresses were tried and the last of them went
/// like `last`.
pub open spec fn listen_step(
    addrs: Seq<Multiaddr>,
    listened: int,
    last: Result<(), String>,
) -> ListenStep {
    match last {
        Err(text) => ListenStep::Done(Err(Error::Listen(text))),
        Ok(()) => if listened < addrs.len() {
            ListenStep::ListenOn(addrs[listened])
        } else {
            ListenStep::Done(Ok(()))
        },
    }
}

/// Adds addresses at the end of a peer's list.
fn record(
    table: &mut KeyedTable<PeerId, Vec<Multiaddr>>,
    peer: PeerId,
    addrs: Vec<Multiaddr>,
)
    requires
        old(table).wf(),
    ensures
        final(table).wf(),
        lists(final(table)@) == with_addresses(lists(old(table)@), peer_id_bytes(peer), addrs@),
{
    let mut addrs = addrs;
    let ghost added = addrs@;
    let mut list: Vec<Multiaddr> = match table.remove(&peer) {
        Some(list) => list,
        None => Vec::new(),
    };
    assert(list@ =~= recorded_for(lists(old(table)@), peer_id_bytes(peer)));
    list.append(&mut addrs);
    table.insert(peer, list);
    assert(lists(table@) =~= with_addresses(lists(old(table)@), peer_id_bytes(peer), added));
}

/// Asks a relay for a reservation at each of its addresses.
fn request_reservations(actions: &mut Vec<SwarmAction>, relay: PeerId, addrs: &Vec<Multiaddr>)
    ensures
        action_views(final(actions)@) == action_views(old(actions)@) + for_each(
            addrs@,
            reservation_plan(relay),
        ),
{
    let ghost before = action_views(actions@);
    let ghost plan = reservation_plan(relay);
    let mut i: usize = 0;
    assert(action_views(actions@) =~= before + for_each(addrs@.take(0), plan));
    while i < addrs.len()
        invariant
            i <= addrs@.len(),
            plan == reservation_plan(relay),
            action_views(actions@) == before + for_each(addrs@.take(i as int), plan),
        decreases addrs@.len() - i,
    {
        push_action(actions, SwarmAction::ListenOn(relay_address(&addrs[i], relay)));
        proof {
            for_each_step(addrs@, i as int, plan);
            assert(action_views(actions@) =~= before + for_each(addrs@.take(i + 1), plan));
        }
        i = i + 1;
    }
    assert(addrs@.take(addrs@.len() as int) =~= addrs@);
}

/// Whether a list of peers holds `peer`.
fn contains_peer(peers: &Vec<PeerId>, peer: &PeerId) -> (found: bool)
    ensures
        found == lists_peer(peers@, peer_id_bytes(*peer)),
{
    let mut i: usize = 0;
    while i < peers.len()
        invariant
            i <= peers@.len(),
            forall|j: int|
                0 <= j < i ==> peer_id_bytes(#[trigger] peers@[j]) != peer_id_bytes(*peer),
        decreases peers@.len() - i,
    {
        if peers[i] == *peer {
            return true;
        }
        i = i + 1;
    }
    false
}

/// The bytes of each peer of a list.
spec fn ids_of(peers: Seq<PeerId>) -> Seq<Seq<u8>> {
    peers.map_values(|peer: PeerId| peer_id_bytes(peer))
}

/// Picks the peers to dial of those discovered.
fn pick_to_dial(peers: &Vec<(PeerId, Multiaddr)>, connected: &Vec<PeerId>) -> (picked: Vec<PeerId>)
    ensures
        ids_of(picked@) == to_dial(peers@, connected@),
{
    let mut picked: Vec<PeerId> = Vec::new();
    let mut i: usize = 0;
    assert(ids_of(picked@) =~= to_dial(peers@.take(0), connected@));
    while i < peers.len()
        invariant
            i <= peers@.len(),
            ids_of(picked@) == to_dial(peers@.take(i as int), connected@),
        decreases peers@.len() - i,
    {
        let peer = peers[i].0;
        let ghost id = peer_id_bytes(peer);
        let ghost before = picked@;
        proof {
            assert(peers@.take(i + 1).drop_last() =~= peers@.take(i as int));
            assert(ids_of(picked@).contains(id) == lists_peer(picked@, id)) by {
                if lists_peer(picked@, id) {
                    let j = choose|j: int|
                        0 <= j < picked@.len() && peer_id_bytes(#[trigger] picked@[j]) == id;
                    assert(ids_of(picked@)[j] == id);
                }
                if ids_of(picked@).contains(id) {
                    let j = choose|j: int|
                        0 <= j < ids_of(picked@).len() && ids_of(picked@)[j] == id;
                    assert(peer_id_bytes(picked@[j]) == id);
                }
            }
        }
        if !contains_peer(&picked, &peer) && !contains_peer(connected, &peer) {
            picked.push(peer);
            assert(ids_of(picked@) =~= ids_of(before).push(id));
        }
        i = i + 1;
    }
    assert(peers@.take(peers@.len() as int) =~= peers@);
    picked
}

impl<Cmd> EventLoop<Cmd> {
    /// No relay is recorded twice.
    pub closed spec fn wf(&self) -> bool {
        self.bootstrap_peers.wf()
    }

    /// An event loop with nothing in progress.
    pub fn new(protocol_version: String, enable_relay_client: bool) -> (event_loop: Self)
        ensures
            event_loop.wf(),
            event_loop@ == (EventLoopView {
                active_commands: Seq::<Cmd>::empty(),
                protocol_version: protocol_version@,
                next_pending_id: 0,
                bootstrap_peers: Map::<Seq<u8>, Seq<Multiaddr>>::empty(),
                enable_relay_client,
            }),
    {
        let event_loop = EventLoop {
            active_commands: ActiveCommands::new(),
            protocol_version,
            pending_id_counter: 0,
            bootstrap_peers: KeyedTable::new(),
            enable_relay_client,
        };
        assert(event_loop@.bootstrap_peers =~= Map::<Seq<u8>, Seq<Multiaddr>>::empty());
        event_loop
    }

    /// Listens on one address after the other and stops at the first that
    /// fails. `listened` addresses were tried so far and `last` is how the last
    /// of them went, with an error as its text.
    pub fn start_listen(
        &self,
        addrs: &Vec<Multiaddr>,
        listened: usize,
        last: Result<(), String>,
    ) -> (step: ListenStep)
        ensures
            step == listen_step(addrs@, listened as int, last),
    {
        match last {
            Err(text) => ListenStep::Done(Err(Error::Listen(text))),
            Ok(()) => if listened < addrs.len() {
                ListenStep::ListenOn(addrs[listened].clone())
            } else {
                ListenStep::Done(Ok(()))
            },
        }
    }

    /// Connects to the bootstrap peers: their addresses are registered and they
    /// are dialed. With the relay client enabled they are recorded for a relay
    /// reservation once they are connected.
    pub fn connect_bootstrap_peers(&mut self, peers: &Vec<(PeerId, Multiaddr)>) -> (actions: Vec<
        SwarmAction,
    >)
        requires
            old(self).wf(),
        ensures
            final(self).wf(),
            action_views(actions@) == for_each(peers@, bootstrap_plan()),
            final(self)@ == (EventLoopView {
                bootstrap_peers: if old(self)@.enable_relay_client {
                    with_bootstrap_peers(old(self)@.bootstrap_peers, peers@)
                } else {
                    old(self)@.bootstrap_peers
                },
                ..old(self)@
            }),
    {
        let ghost before = self@;
        let ghost plan = bootstrap_plan();
        let mut actions: Vec<SwarmAction> = Vec::new();
        let mut i: usize = 0;
        assert(action_views(actions@) =~= for_each(peers@.take(0), plan));
        while i < peers.len()
            invariant
                self.wf(),
                before == old(self)@,
                i <= peers@.len(),
                plan == bootstrap_plan(),
                action_views(actions@) == for_each(peers@.take(i as int), plan),
                self@ == (EventLoopView {
                    bootstrap_peers: if before.enable_relay_client {
                        with_bootstrap_peers(before.bootstrap_peers, peers@.take(i as int))
                    } else {
                        before.bootstrap_peers
                    },
                    ..before
                }),
            decreases peers@.len() - i,
        {
            let peer = peers[i].0;
            let addr = &peers[i].1;
            push_action(&mut actions, SwarmAction::AddKadAddress(peer, addr.clone()));
            push_action(&mut actions, SwarmAction::AddPeerAddress(peer, addr.clone()));
            push_action(&mut actions, SwarmAction::Dial(peer));
            proof {
                for_each_step(peers@, i as int, plan);
                assert(action_views(actions@) =~= for_each(peers@.take(i + 1), plan));
                assert(peers@.take(i + 1).drop_last() =~= peers@.take(i as int));
            }
            if self.enable_relay_client {
                let mut addrs: Vec<Multiaddr> = Vec::new();
                addrs.push(addr.clone());
                assert(addrs@ =~= seq![peers@[i as int].1]);
                record(&mut self.bootstrap_peers, peer, addrs);
            }
            i = i + 1;
        }
        assert(peers@.take(peers@.len() as int) =~= peers@);
        actions
    }

    /// The commands in progress.
    pub fn active_commands(&mut self) -> (commands: &mut ActiveCommands<Cmd>)
        ensures
            commands@ == old(self)@.active_commands,
            final(self)@ == (EventLoopView { active_commands: final(commands)@, ..old(self)@ }),
            old(self).wf() ==> final(self).wf(),
    {
        &mut self.active_commands
    }

    /// Takes a command that was carried out among those in progress. A relay
    /// reservation that the command asks for is requested at once if the relay
    /// is connected, and otherwise as soon as it is.
    pub fn handle_command(
        &mut self,
        command: Cmd,
        relay_request: Option<(PeerId, Vec<Multiaddr>)>,
        connected: bool,
    ) -> (actions: Vec<SwarmAction>)
        requires
            old(self).wf(),
        ensures
            final(self).wf(),
            action_views(actions@) == match relay_request {
                Some((relay, addrs)) => if connected {
                    for_each(addrs@, reservation_plan(relay))
                } else {
                    Seq::empty()
                },
                None => Seq::empty(),
            },
            final(self)@ == (EventLoopView {
                active_commands: old(self)@.active_commands.push(command),
                bootstrap_peers: match relay_request {
                    Some((relay, addrs)) => if connected {
                        old(self)@.bootstrap_peers
                    } else {
                        with_addresses(old(self)@.bootstrap_peers, peer_id_bytes(relay), addrs@)
                    },
                    None => old(self)@.bootstrap_peers,
                },
                ..old(self)@
            }),
    {
        let mut actions: Vec<SwarmAction> = Vec::new();
        assert(action_views(actions@) =~= Seq::empty());
        if let Some((relay, addrs)) = relay_request {
            if connected {
                request_reservations(&mut actions, relay, &addrs);
                assert(action_views(actions@) =~= for_each(addrs@, reservation_plan(relay)));
            } else {
                record(&mut self.bootstrap_peers, relay, addrs);
            }
        }
        self.active_commands.push(command);
        actions
    }

    /// Accepts an inbound data channel within the limits. Beyond them the
    /// stream comes back, to be dropped.
    pub fn handle_inbound_channel<S>(
        &self,
        registry: &mut ChannelRegistry,
        ids: &mut ChannelIdCounter,
        protocol: StreamProtocol,
        peer: PeerId,
        stream: S,
    ) -> (accepted: Result<InboundDataChannel<S>, S>)
        requires
            old(registry).wf(),
        ensures
            final(registry).wf(),
            final(registry).limits() == old(registry).limits(),
            accepted is Ok <==> old(registry)@.admits(
                old(registry).limits(),
                slot_of(peer, protocol, DataChannelDirection::Inbound),
            ),
            match accepted {
                Ok(inbound) => {
                    let slot = slot_of(peer, protocol, DataChannelDirection::Inbound);
                    &&& inbound.channel@ == (DataChannelView {
                        id: DataChannelId(old(ids).next),
                        peer,
                        protocol,
                        direction: DataChannelDirection::Inbound,
                        stream,
                        slot: Some(slot),
                    })
                    &&& final(registry)@ == old(registry)@.acquired(slot)
                    &&& final(ids).next == successor(old(ids).next)
                },
                Err(refused) => {
                    &&& refused == stream
                    &&& final(registry)@ == old(registry)@
                    &&& final(ids).next == old(ids).next
                },
            },
    {
        match registry.try_acquire(peer, protocol.clone(), DataChannelDirection::Inbound) {
            Some(guard) => {
                let id = DataChannelId::next(ids);
                let channel = DataChannel::new(
                    id,
                    peer,
                    protocol,
                    DataChannelDirection::Inbound,
                    stream,
                    Some(guard),
                );
                Ok(InboundDataChannel { channel })
            },
            None => Err(stream),
        }
    }

    /// The id for the next inbound request.
    fn next_pending_id(&mut self) -> (id: u64)
        ensures
            id == old(self)@.next_pending_id,
            final(self)@ == (EventLoopView {
                next_pending_id: successor(old(self)@.next_pending_id),
                ..old(self)@
            }),
            old(self).wf() ==> final(self).wf(),
    {
        let id: u64 = self.pending_id_counter;
        self.pending_id_counter = self.pending_id_counter.wrapping_add(1);
        id
    }

    /// Says what an event asks of the network, in order, and what the user is
    /// told of it.
    pub fn convert_to_node_event<Req, C>(
        &mut self,
        pending_channels: &mut PendingMap<u64, C>,
        event: SwarmEvent<Req, C>,
    ) -> (told: (Vec<SwarmAction>, Option<NodeEvent<Req>>))
        requires
            old(self).wf(),
        ensures
            final(self).wf(),
            action_views(told.0@) == event_actions(old(self)@, event),
            told.1 == node_event(event, old(self)@.next_pending_id),
            final(self)@ == state_after(old(self)@, event),
            channels_after(
                *old(pending_channels),
                *final(pending_channels),
                old(self)@.next_pending_id,
                event,
            ),
    {
        broadcast use vstd::std_specs::hash::group_hash_axioms;

        let mut actions: Vec<SwarmAction> = Vec::new();
        assert(action_views(actions@) =~= Seq::empty());
        let told: Option<NodeEvent<Req>> = match event {
            SwarmEvent::RelayReservationAccepted { relay_peer_id, renewal } => Some(
                NodeEvent::RelayReservationAccepted { relay_peer_id, renewal },
            ),
            SwarmEvent::RelayServerReservationAccepted { src_peer_id, renewed } => Some(
                NodeEvent::RelayServerReservationAccepted { src_peer_id, renewed },
            ),
            SwarmEvent::NewListenAddr { address } => Some(NodeEvent::Listening { addr: address }),
            SwarmEvent::ConnectionEstablished { peer_id, num_established } => if num_established
                == 1 {
                self.request_recorded_reservations(&mut actions, peer_id);
                Some(NodeEvent::PeerConnected { peer_id })
            } else {
                None
            },
            SwarmEvent::ConnectionClosed { peer_id, num_established } => if num_established == 0 {
                Some(NodeEvent::PeerDisconnected { peer_id })
            } else {
                None
            },
            SwarmEvent::InboundRequest { peer, request, channel } => {
                let pending_id: u64 = self.next_pending_id();
                pending_channels.insert(pending_id, channel);
                Some(NodeEvent::InboundRequest { peer_id: peer, pending_id, request })
            },
            SwarmEvent::HolePunch { remote_peer_id, result } => match result {
                Ok(()) => Some(NodeEvent::HolePunchSucceeded { peer_id: remote_peer_id }),
                Err(error) => Some(NodeEvent::HolePunchFailed { peer_id: remote_peer_id, error }),
            },
            SwarmEvent::MdnsDiscovered { peers, connected } => {
                register_discovered(&mut actions, &peers);
                dial_discovered(&mut actions, &peers, &connected);
                Some(NodeEvent::PeersDiscovered { peers })
            },
            SwarmEvent::Ping { peer, rtt } => match rtt {
                Some(rtt) => {
                    let millis: u128 = rtt.as_nanos() / 1_000_000;
                    Some(
                        NodeEvent::PingSuccess {
                            peer_id: peer,
                            rtt_ms: #[verifier::truncate]
                            (millis as u64),
                        },
                    )
                },
                None => None,
            },
            SwarmEvent::IdentifyReceived {
                peer_id,
                protocol_version,
                agent_version,
                listen_addrs,
            } => {
                if protocol_version == self.protocol_version {
                    register_member(&mut actions, peer_id, &listen_addrs);
                }
                Some(NodeEvent::IdentifyReceived { peer_id, agent_version, protocol_version })
            },
            SwarmEvent::AutonatTested { tested_addr, reachable } => if reachable {
                Some(
                    NodeEvent::NatStatusChanged {
                        status: NatStatus::Public,
                        public_addr: Some(tested_addr),
                    },
                )
            } else {
                None
            },
            SwarmEvent::KadRoutingUpdated { peer, addresses } => {
                register_addresses(&mut actions, peer, &addresses);
                None
            },
            _ => None,
        };
        assert(action_views(actions@) =~= event_actions(old(self)@, event));
        (actions, told)
    }

    /// Asks a peer that is connected now for the relay reservations recorded
    /// for it, and strikes it off the record.
    fn request_recorded_reservations(&mut self, actions: &mut Vec<SwarmAction>, peer: PeerId)
        requires
            old(self).wf(),
        ensures
            final(self).wf(),
            action_views(final(actions)@) == action_views(old(actions)@) + for_each(
                recorded_for(old(self)@.bootstrap_peers, peer_id_bytes(peer)),
                reservation_plan(peer),
            ),
            final(self)@ == (EventLoopView {
                bootstrap_peers: old(self)@.bootstrap_peers.remove(peer_id_bytes(peer)),
                ..old(self)@
            }),
    {
        let taken = self.bootstrap_peers.remove(&peer);
        assert(self@.bootstrap_peers =~= old(self)@.bootstrap_peers.remove(peer_id_bytes(peer)));
        match taken {
            Some(addrs) => {
                request_reservations(actions, peer, &addrs);
            },
            None => {
                assert(action_views(actions@) =~= action_views(actions@) + for_each(
                    Seq::<Multiaddr>::empty(),
                    reservation_plan(peer),
                ));
            },
        }
    }
}

/// Registers every discovered address.
fn register_discovered(actions: &mut Vec<SwarmAction>, peers: &Vec<(PeerId, Multiaddr)>)
    ensures
        action_views(final(actions)@) == action_views(old(actions)@) + for_each(
            peers@,
            discovery_plan(),
        ),
{
    let ghost before = action_views(actions@);
    let ghost plan = discovery_plan();
    let mut i: usize = 0;
    assert(action_views(actions@) =~= before + for_each(peers@.take(0), plan));
    while i < peers.len()
        invariant
            i <= peers@.len(),
            plan == discovery_plan(),
            action_views(actions@) == before + for_each(peers@.take(i as int), plan),
        decreases peers@.len() - i,
    {
        push_action(actions, SwarmAction::AddPeerAddress(peers[i].0, peers[i].1.clone()));
        proof {
            for_each_step(peers@, i as int, plan);
            assert(action_views(actions@) =~= before + for_each(peers@.take(i + 1), plan));
        }
        i = i + 1;
    }
    assert(peers@.take(peers@.len() as int) =~= peers@);
}

/// Dials every discovered peer without a connection, each once.
fn dial_discovered(
    actions: &mut Vec<SwarmAction>,
    peers: &Vec<(PeerId, Multiaddr)>,
    connected: &Vec<PeerId>,
)
    ensures
        action_views(final(actions)@) == action_views(old(actions)@) + dials(
            to_dial(peers@, connected@),
        ),
{
    let ghost before = action_views(actions@);
    let picked = pick_to_dial(peers, connected);
    let ghost ids = to_dial(peers@, connected@);
    let mut i: usize = 0;
    assert(action_views(actions@) =~= before + dials(ids.take(0)));
    while i < picked.len()
        invariant
            i <= picked@.len(),
            ids_of(picked@) == ids,
            action_views(actions@) == before + dials(ids.take(i as int)),
        decreases picked@.len() - i,
    {
        push_action(actions, SwarmAction::Dial(picked[i]));
        proof {
            assert(ids_of(picked@)[i as int] == peer_id_bytes(picked@[i as int]));
            assert(action_views(actions@) =~= before + dials(ids.take(i + 1)));
        }
        i = i + 1;
    }
    assert(ids.take(ids.len() as int) =~= ids);
}

/// Registers the addresses of a peer that speaks this node's protocol.
fn register_member(actions: &mut Vec<SwarmAction>, peer: PeerId, addrs: &Vec<Multiaddr>)
    ensures
        action_views(final(actions)@) == action_views(old(actions)@) + for_each(
            addrs@,
            member_plan(peer),
        ),
{
    let ghost before = action_views(actions@);
    let ghost plan = member_plan(peer);
    let mut i: usize = 0;
    assert(action_views(actions@) =~= before + for_each(addrs@.take(0), plan));
    while i < addrs.len()
        invariant
            i <= addrs@.len(),
            plan == member_plan(peer),
            action_views(actions@) == before + for_each(addrs@.take(i as int), plan),
        decreases addrs@.len() - i,
    {
        push_action(actions, SwarmAction::AddKadAddress(peer, addrs[i].clone()));
        push_action(actions, SwarmAction::AddPeerAddress(peer, addrs[i].clone()));
        proof {
            for_each_step(addrs@, i as int, plan);
            assert(action_views(actions@) =~= before + for_each(addrs@.take(i + 1), plan));
        }
        i = i + 1;
    }
    assert(addrs@.take(addrs@.len() as int) =~= addrs@);
}

/// Registers addresses of a peer for dialing it.
fn register_addresses(actions: &mut Vec<SwarmAction>, peer: PeerId, addrs: &Vec<Multiaddr>)
    ensures
        action_views(final(actions)@) == action_views(old(actions)@) + for_each(
            addrs@,
            address_plan(peer),
        ),
{
    let ghost before = action_views(actions@);
    let ghost plan = address_plan(peer);
    let mut i: usize = 0;
    assert(action_views(actions@) =~= before + for_each(addrs@.take(0), plan));
    while i < addrs.len()
        invariant
            i <= addrs@.len(),
            plan == address_plan(peer),
            action_views(actions@) == before + for_each(addrs@.take(i as int), plan),
        decreases addrs@.len() - i,
    {
        push_action(actions, SwarmAction::AddPeerAddress(peer, addrs[i].clone()));
        proof {
            for_each_step(addrs@, i as int, plan);
            assert(action_views(actions@) =~= before + for_each(addrs@.take(i + 1), plan));
        }
        i = i + 1;
    }
    assert(addrs@.take(addrs@.len() as int) =~= addrs@);
}

} // verus!
