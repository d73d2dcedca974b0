//! Infrastructure peers and relay reservations.

use libp2p::identity::Keypair;
use libp2p::{Multiaddr, PeerId};
use std::time::Duration;
use swarm_p2p_core::command::add_infrastructure_peer::AddInfrastructurePeerCommand;
use swarm_p2p_core::config::InfrastructureRoles;
use swarm_p2p_core::event::{NodeEvent, SwarmAction, SwarmEvent};
use swarm_p2p_core::foreign::AddrPart;
use swarm_p2p_core::pending_map::PendingMap;
use swarm_p2p_core::runtime::event_loop::EventLoop;
use swarm_p2p_core::runtime::relay::{names_peer, relay_address};

fn test_peer() -> PeerId {
    Keypair::generate_ed25519().public().to_peer_id()
}

fn addr(text: &str) -> Multiaddr {
    text.parse().unwrap()
}

fn words(actions: &[SwarmAction]) -> Vec<String> {
    actions
        .iter()
        .map(|action| match action {
            SwarmAction::ListenOn(addr) => format!("listen {addr}"),
            SwarmAction::AddPeerAddress(peer, addr) => format!("peer {peer} {addr}"),
            SwarmAction::AddKadAddress(peer, addr) => format!("kad {peer} {addr}"),
            SwarmAction::Dial(peer) => format!("dial {peer}"),
        })
        .collect()
}

fn connected(peer_id: PeerId) -> SwarmEvent<(), ()> {
    SwarmEvent::ConnectionEstablished {
        peer_id,
        num_established: 1,
    }
}

#[test]
fn dynamic_infrastructure_peer_requests_relay_reservation() {
    let helper_id = test_peer();
    let client_id = test_peer();
    let helper_addr = addr("/ip4/127.0.0.1/tcp/4001");

    let mut client = EventLoop::new("/test/1.0.0".to_string(), true);
    let mut pending = PendingMap::new(Duration::from_secs(60));
    let mut command = AddInfrastructurePeerCommand::new(
        helper_id,
        vec![helper_addr.clone()],
        InfrastructureRoles::kad_and_relay(),
    );
    let (actions, result) = command.run(true, false);
    assert!(result.is_ok());
    assert_eq!(
        words(&actions),
        vec![
            format!("peer {helper_id} {helper_addr}"),
            format!("kad {helper_id} {helper_addr}"),
            format!("dial {helper_id}"),
        ]
    );
    let request = command.take_relay_reservation_request();
    assert!(client.handle_command("command", request, false).is_empty());
    let (actions, event) = client.convert_to_node_event(&mut pending, connected(helper_id));
    assert_eq!(
        words(&actions),
        vec![format!(
            "listen /ip4/127.0.0.1/tcp/4001/p2p/{helper_id}/p2p-circuit"
        )]
    );
    assert!(matches!(event, Some(NodeEvent::PeerConnected { peer_id }) if peer_id == helper_id));

    let mut helper: EventLoop<()> = EventLoop::new("/test/1.0.0".to_string(), false);
    let (actions, event) = helper.convert_to_node_event(
        &mut pending,
        SwarmEvent::<(), ()>::RelayServerReservationAccepted {
            src_peer_id: client_id,
            renewed: false,
        },
    );
    assert!(actions.is_empty());
    match event {
        Some(NodeEvent::RelayServerReservationAccepted { src_peer_id, .. }) => {
            assert_ne!(src_peer_id, helper_id);
            assert_eq!(src_peer_id, client_id);
        }
        _ => panic!("helper should accept dynamic relay reservation"),
    }
}

#[test]
fn dynamic_infrastructure_peer_skips_reservation_when_relay_client_disabled() {
    let helper_id = test_peer();
    let mut client = EventLoop::new("/test/1.0.0".to_string(), false);
    let mut pending = PendingMap::new(Duration::from_secs(60));
    let mut command = AddInfrastructurePeerCommand::new(
        helper_id,
        vec![addr("/ip4/127.0.0.1/tcp/4001")],
        InfrastructureRoles::kad_and_relay(),
    );
    let (_, result) = command.run(false, false);
    assert!(result.is_ok());
    let request = command.take_relay_reservation_request();
    assert!(request.is_none());
    assert!(client.handle_command("command", request, false).is_empty());
    let (actions, _) = client.convert_to_node_event(&mut pending, connected(helper_id));
    assert!(
        actions.is_empty(),
        "relay client disabled should not request reservation"
    );
}

#[test]
fn a_connected_relay_is_asked_at_once() {
    let relay = test_peer();
    let first = addr("/ip4/10.0.0.1/tcp/1");
    let second = addr("/ip4/10.0.0.1/tcp/2");
    let mut node = EventLoop::new("/v/1".to_string(), true);
    let mut pending = PendingMap::new(Duration::from_secs(60));
    let mut command = AddInfrastructurePeerCommand::new(
        relay,
        vec![first.clone(), second.clone()],
        InfrastructureRoles {
            kad_server: false,
            relay_server: true,
        },
    );
    let (actions, _) = command.run(true, true);
    assert_eq!(
        words(&actions),
        vec![
            format!("peer {relay} {first}"),
            format!("peer {relay} {second}"),
        ]
    );
    let request = command.take_relay_reservation_request();
    assert_eq!(
        request,
        Some((relay, vec![first.clone(), second.clone()]))
    );
    assert!(command.take_relay_reservation_request().is_none());
    let actions = node.handle_command("command", request, true);
    assert_eq!(
        words(&actions),
        vec![
            format!("listen {first}/p2p/{relay}/p2p-circuit"),
            format!("listen {second}/p2p/{relay}/p2p-circuit"),
        ]
    );
    assert_eq!(node.active_commands().len(), 1);
    let (actions, _) = node.convert_to_node_event(&mut pending, connected(relay));
    assert!(actions.is_empty());
}

#[test]
fn a_peer_that_is_no_relay_leaves_no_request() {
    let mut command = AddInfrastructurePeerCommand::new(
        test_peer(),
        vec![addr("/ip4/10.0.0.1/tcp/1")],
        InfrastructureRoles {
            kad_server: true,
            relay_server: false,
        },
    );
    let _ = command.run(true, false);
    assert!(command.take_relay_reservation_request().is_none());
}

#[test]
fn bootstrap_peers_are_registered_dialed_and_asked_for_reservations() {
    let a = test_peer();
    let b = test_peer();
    let a1 = addr("/ip4/10.0.0.1/tcp/1");
    let a2 = addr(&format!("/ip4/10.0.0.1/tcp/2/p2p/{a}"));
    let b1 = addr("/ip4/10.0.0.2/tcp/1");
    let mut node: EventLoop<()> = EventLoop::new("/v/1".to_string(), true);
    let mut pending = PendingMap::new(Duration::from_secs(60));
    let actions = node.connect_bootstrap_peers(&vec![
        (a, a1.clone()),
        (b, b1.clone()),
        (a, a2.clone()),
    ]);
    assert_eq!(
        words(&actions),
        vec![
            format!("kad {a} {a1}"),
            format!("peer {a} {a1}"),
            format!("dial {a}"),
            format!("kad {b} {b1}"),
            format!("peer {b} {b1}"),
            format!("dial {b}"),
            format!("kad {a} {a2}"),
            format!("peer {a} {a2}"),
            format!("dial {a}"),
        ]
    );
    let (actions, _) = node.convert_to_node_event(&mut pending, connected(a));
    assert_eq!(
        words(&actions),
        vec![
            format!("listen {a1}/p2p/{a}/p2p-circuit"),
            format!("listen {a2}/p2p-circuit"),
        ]
    );
    let (actions, event) = node.convert_to_node_event(&mut pending, connected(a));
    assert!(actions.is_empty(), "a relay is asked once");
    assert!(matches!(event, Some(NodeEvent::PeerConnected { .. })));
    let (actions, _) = node.convert_to_node_event(&mut pending, connected(b));
    assert_eq!(
        words(&actions),
        vec![format!("listen {b1}/p2p/{b}/p2p-circuit")]
    );
}

#[test]
fn only_the_first_connection_asks_for_reservations() {
    let a = test_peer();
    let mut node: EventLoop<()> = EventLoop::new("/v/1".to_string(), true);
    let mut pending = PendingMap::new(Duration::from_secs(60));
    let _ = node.connect_bootstrap_peers(&vec![(a, addr("/ip4/10.0.0.1/tcp/1"))]);
    let (actions, event) = node.convert_to_node_event(
        &mut pending,
        SwarmEvent::<(), ()>::ConnectionEstablished {
            peer_id: a,
            num_established: 2,
        },
    );
    assert!(actions.is_empty() && event.is_none());
    let (actions, _) = node.convert_to_node_event(&mut pending, connected(a));
    assert_eq!(actions.len(), 1);
}

#[test]
fn without_relay_client_bootstrap_peers_are_not_asked() {
    let a = test_peer();
    let mut node: EventLoop<()> = EventLoop::new("/v/1".to_string(), false);
    let mut pending = PendingMap::new(Duration::from_secs(60));
    let actions = node.connect_bootstrap_peers(&vec![(a, addr("/ip4/10.0.0.1/tcp/1"))]);
    assert_eq!(actions.len(), 3);
    let (actions, event) = node.convert_to_node_event(&mut pending, connected(a));
    assert!(actions.is_empty());
    assert!(matches!(event, Some(NodeEvent::PeerConnected { .. })));
}

#[test]
fn relay_addresses_name_the_relay_once() {
    let relay = test_peer();
    let other = test_peer();
    let bare = addr("/ip4/10.0.0.1/tcp/4001");
    assert_eq!(
        relay_address(&bare, relay).to_string(),
        format!("/ip4/10.0.0.1/tcp/4001/p2p/{relay}/p2p-circuit")
    );
    let named = addr(&format!("/ip4/10.0.0.1/tcp/4001/p2p/{other}"));
    assert_eq!(
        relay_address(&named, relay).to_string(),
        format!("/ip4/10.0.0.1/tcp/4001/p2p/{other}/p2p-circuit")
    );
    assert_eq!(
        relay_address(&Multiaddr::empty(), relay).to_string(),
        format!("/p2p/{relay}/p2p-circuit")
    );
}

#[test]
fn a_peer_component_is_found_anywhere() {
    let peer = test_peer();
    assert!(!names_peer(&vec![]));
    assert!(!names_peer(&vec![
        AddrPart::Other("/tcp/1".to_string()),
        AddrPart::P2pCircuit
    ]));
    assert!(names_peer(&vec![
        AddrPart::Other("/tcp/1".to_string()),
        AddrPart::P2p(peer),
        AddrPart::P2pCircuit
    ]));
}
