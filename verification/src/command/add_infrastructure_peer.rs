//! Registering an infrastructure peer while the node runs.

use crate::config::InfrastructureRoles;
use crate::error::Error;
use crate::event::{
    action_has_an_item, action_views, for_each, for_each_step, paired_actions, push_action,
    single_actions, SwarmAction, SwarmActionView,
};
use crate::foreign::{addr_parts, peer_id_bytes};
use libp2p::{Multiaddr, PeerId};
use vstd::prelude::*;

verus! {

/// Registers a peer that serves the network, such as a relay on the local network.
pub struct AddInfrastructurePeerCommand {
    peer_id: PeerId,
    addrs: Vec<Multiaddr>,
    roles: InfrastructureRoles,
    pending_relay_addrs: Option<Vec<Multiaddr>>,
}

/// The mathematical value of an [`AddInfrastructurePeerCommand`].
pub struct InfrastructurePeerView {
    /// The peer.
    pub peer_id: PeerId,
    /// Where it listens.
    pub addrs: Seq<Multiaddr>,
    /// What it is used for.
    pub roles: InfrastructureRoles,
    /// The addresses for which a relay reservation is still to be requested.
    pub pending_relay_addrs: Option<Seq<Multiaddr>>,
}

impl View for AddInfrastructurePeerCommand {
    type V = InfrastructurePeerView;

    closed spec fn view(&self) -> InfrastructurePeerView {
        InfrastructurePeerView {
            peer_id: self.peer_id,
            addrs: self.addrs@,
            roles: self.roles,
            pending_relay_addrs: match self.pending_relay_addrs {
                Some(addrs) => Some(addrs@),
                None => None,
            },
        }
    }
}

/// What registering one address of an infrastructure peer asks of the network.
pub open spec fn registration(
    peer: PeerId,
    roles: InfrastructureRoles,
) -> spec_fn(Multiaddr) -> Seq<SwarmActionView> {
    |addr: Multiaddr|
        {
            let known = seq![
                SwarmActionView::AddPeerAddress(peer_id_bytes(peer), addr_parts(addr)),
            ];
            if roles.kad_server {
                known.push(SwarmActionView::AddKadAddress(peer_id_bytes(peer), addr_parts(addr)))
            } else {
                known
            }
        }
}

/// What the command asks of the network: every address is registered, and a
/// peer without a connection is dialed.
pub open spec fn command_actions(
    command: InfrastructurePeerView,
    connected: bool,
) -> Seq<SwarmActionView> {
    let registered = for_each(command.addrs, registration(command.peer_id, command.roles));
    if connected {
        registered
    } else {
        registered.push(SwarmActionView::Dial(peer_id_bytes(command.peer_id)))
    }
}

/// The command after it ran: a relay is left to be asked for a reservation at
/// each of its addresses if this node's relay client is enabled.
pub open spec fn command_after(
    command: InfrastructurePeerView,
    relay_client_enabled: bool,
) -> InfrastructurePeerView {
    InfrastructurePeerView {
        pending_relay_addrs: if command.roles.relay_server && relay_client_enabled {
            Some(command.addrs)
        } else {
            command.pending_relay_addrs
        },
        ..command
    }
}

impl AddInfrastructurePeerCommand {
    /// A command that registers `peer_id` with its addresses and roles.
    pub fn new(
        peer_id: PeerId,
        addrs: Vec<Multiaddr>,
        roles: InfrastructureRoles,
    ) -> (command: Self)
        ensures
            command@ == (InfrastructurePeerView {
                peer_id,
                addrs: addrs@,
                roles,
                pending_relay_addrs: None,
            }),
    {
        Self { peer_id, addrs, roles, pending_relay_addrs: None }
    }

    /// The peer to register.
    pub fn peer_id(&self) -> (peer_id: PeerId)
        ensures
            peer_id == self@.peer_id,
    {
        self.peer_id
    }

    /// Says what the command asks of the network, in order, and what it ends
    /// with. A dial that fails does not fail the command. A relay gets a
    /// reservation request if this node's relay client is enabled.
    pub fn run(
        &mut self,
        relay_client_enabled: bool,
        connected: bool,
    ) -> (done: (Vec<SwarmAction>, Result<(), Error>))
        ensures
            action_views(done.0@) == command_actions(old(self)@, connected),
            done.1 is Ok,
            final(self)@ == command_after(old(self)@, relay_client_enabled),
    {
        let mut actions: Vec<SwarmAction> = Vec::new();
        let mut i: usize = 0;
        let ghost plan = registration(self.peer_id, self.roles);
        assert(action_views(actions@) =~= for_each(self.addrs@.take(0), plan));
        while i < self.addrs.len()
            invariant
                *self == *old(self),
                i <= self.addrs@.len(),
                plan == registration(self.peer_id, self.roles),
                action_views(actions@) == for_each(self.addrs@.take(i as int), plan),
            decreases self.addrs@.len() - i,
        {
            let addr = &self.addrs[i];
            push_action(&mut actions, SwarmAction::AddPeerAddress(self.peer_id, addr.clone()));
            if self.roles.kad_server {
                push_action(&mut actions, SwarmAction::AddKadAddress(self.peer_id, addr.clone()));
            }
            proof {
                for_each_step(self.addrs@, i as int, plan);
                assert(action_views(actions@) =~= for_each(self.addrs@.take(i + 1), plan));
            }
            i = i + 1;
        }
        assert(self.addrs@.take(self.addrs@.len() as int) =~= self.addrs@);
        if self.roles.relay_server && relay_client_enabled {
            let addrs = self.addrs.clone();
            assert(addrs@ =~= self.addrs@);
            self.pending_relay_addrs = Some(addrs);
        }
        if !connected {
            push_action(&mut actions, SwarmAction::Dial(self.peer_id));
        }
        (actions, Ok(()))
    }

    /// Takes the relay reservation request that the command left behind.
    pub fn take_relay_reservation_request(&mut self) -> (request: Option<(PeerId, Vec<Multiaddr>)>)
        ensures
            match request {
                Some((peer, addrs)) => peer == old(self)@.peer_id
                    && old(self)@.pending_relay_addrs == Some(addrs@),
                None => old(self)@.pending_relay_addrs is None,
            },
            final(self)@ == (InfrastructurePeerView { pending_relay_addrs: None, ..old(self)@ }),
    {
        match self.pending_relay_addrs.take() {
            Some(addrs) => Some((self.peer_id, addrs)),
            None => None,
        }
    }
}

/// A new command that ran leaves a reservation request exactly when the peer
/// serves as a relay and this node's relay client is enabled.
pub proof fn reservation_needs_relay_and_client(
    command: InfrastructurePeerView,
    relay_client_enabled: bool,
)
    requires
        command.pending_relay_addrs is None,
    ensures
        command_after(command, relay_client_enabled).pending_relay_addrs
            == if command.roles.relay_server && relay_client_enabled {
            Some(command.addrs)
        } else {
            None
        },
{
}

/// A peer gets into the distributed hash table by the command only if it
/// serves there.
pub proof fn only_kad_servers_join_the_table(
    command: InfrastructurePeerView,
    connected: bool,
    i: int,
)
    requires
        !command.roles.kad_server,
        0 <= i < command_actions(command, connected).len(),
    ensures
        !(command_actions(command, connected)[i] is AddKadAddress),
{
    let registered = for_each(command.addrs, registration(command.peer_id, command.roles));
    if i < registered.len() {
        assert(registered.contains(registered[i]));
        action_has_an_item(
            command.addrs,
            registration(command.peer_id, command.roles),
            registered[i],
        );
    }
}

/// The command registers every address with the network, and with the
/// distributed hash table if the peer serves there, and then dials the peer
/// once if it is not connected. It does nothing else.
pub proof fn every_address_is_registered_and_then_the_peer_is_dialed(
    command: InfrastructurePeerView,
    connected: bool,
    i: int,
)
    ensures
        command_actions(command, connected).len() == command.addrs.len() * (
        if command.roles.kad_server {
            2int
        } else {
            1int
        }) + (if connected {
            0int
        } else {
            1int
        }),
        0 <= i < command.addrs.len() ==> command_actions(command, connected)[i * (
        if command.roles.kad_server {
            2int
        } else {
            1int
        })] == SwarmActionView::AddPeerAddress(
            peer_id_bytes(command.peer_id),
            addr_parts(command.addrs[i]),
        ),
        0 <= i < command.addrs.len() && command.roles.kad_server ==> command_actions(
            command,
            connected,
        )[2 * i + 1] == SwarmActionView::AddKadAddress(
            peer_id_bytes(command.peer_id),
            addr_parts(command.addrs[i]),
        ),
        !connected ==> command_actions(command, connected).last() == SwarmActionView::Dial(
            peer_id_bytes(command.peer_id),
        ),
{
    let plan = registration(command.peer_id, command.roles);
    let registered = for_each(command.addrs, plan);
    if command.roles.kad_server {
        if command.addrs.len() > 0 {
            paired_actions(command.addrs, plan, 0);
        }
        if 0 <= i < command.addrs.len() {
            paired_actions(command.addrs, plan, i);
        }
    } else {
        single_actions(command.addrs, plan);
    }
}

/// A connected peer is not dialed, and no peer is dialed twice: whatever is not
/// at the end of an unconnected peer's actions is no dial, and nothing makes
/// the node listen.
pub proof fn only_the_last_action_dials(
    command: InfrastructurePeerView,
    connected: bool,
    i: int,
)
    requires
        0 <= i < command_actions(command, connected).len(),
    ensures
        command_actions(command, connected)[i] is Dial <==> !connected && i == command_actions(
            command,
            connected,
        ).len() - 1,
        !(command_actions(command, connected)[i] is ListenOn),
{
    let registered = for_each(command.addrs, registration(command.peer_id, command.roles));
    if i < registered.len() {
        assert(registered.contains(registered[i]));
        action_has_an_item(
            command.addrs,
            registration(command.peer_id, command.roles),
            registered[i],
        );
    }
}

/// Running a command changes nothing of it but the reservation to ask for.
pub proof fn a_run_keeps_peer_addresses_and_roles(
    command: InfrastructurePeerView,
    relay_client_enabled: bool,
)
    ensures
        command_after(command, relay_client_enabled).peer_id == command.peer_id,
        command_after(command, relay_client_enabled).addrs == command.addrs,
        command_after(command, relay_client_enabled).roles == command.roles,
        command_after(command, relay_client_enabled).pending_relay_addrs
            == if command.roles.relay_server && relay_client_enabled {
            Some(command.addrs)
        } else {
            command.pending_relay_addrs
        },
{
}

} // verus!
