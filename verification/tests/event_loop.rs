//! The decisions of the event loop.

use libp2p::identity::Keypair;
use libp2p::{Multiaddr, PeerId, StreamProtocol};
use std::time::Duration;
use swarm_p2p_core::data_channel::{
    ChannelIdCounter, ChannelRegistry, DataChannelDirection, DataChannelId, DataChannelLimits,
};
use swarm_p2p_core::error::Error;
use swarm_p2p_core::event::{NatStatus, NodeEvent, SwarmAction, SwarmEvent};
use swarm_p2p_core::pending_map::PendingMap;
use swarm_p2p_core::runtime::command_chain::ActiveCommands;
use swarm_p2p_core::runtime::event_loop::{EventLoop, ListenStep};

fn test_peer() -> PeerId {
    Keypair::generate_ed25519().public().to_peer_id()
}

fn addr(text: &str) -> Multiaddr {
    text.parse().unwrap()
}

fn words(actions: &[SwarmAction]) -> Vec<String> {
    actions
        .iter()
        .map(|action| match action {
            SwarmAction::ListenOn(addr) => format!("listen {addr}"),
            SwarmAction::AddPeerAddress(peer, addr) => format!("peer {peer} {addr}"),
            SwarmAction::AddKadAddress(peer, addr) => format!("kad {peer} {addr}"),
            SwarmAction::Dial(peer) => format!("dial {peer}"),
        })
        .collect()
}

/// What a fresh event loop makes of one event.
fn convert(event: SwarmEvent<&'static str, ()>) -> (Vec<String>, Option<NodeEvent<&'static str>>) {
    let mut node: EventLoop<()> = EventLoop::new("/test/1.0.0".to_string(), true);
    let mut pending = PendingMap::new(Duration::from_secs(60));
    let (actions, told) = node.convert_to_node_event(&mut pending, event);
    (words(&actions), told)
}

#[test]
fn listening_stops_at_the_first_failure() {
    let node: EventLoop<()> = EventLoop::new(String::new(), false);
    let addrs = vec![addr("/ip4/127.0.0.1/tcp/1"), addr("/ip4/127.0.0.1/tcp/2")];
    match node.start_listen(&addrs, 0, Ok(())) {
        ListenStep::ListenOn(first) => assert_eq!(first, addrs[0]),
        ListenStep::Done(_) => panic!("the first address should be tried"),
    }
    match node.start_listen(&addrs, 1, Ok(())) {
        ListenStep::ListenOn(second) => assert_eq!(second, addrs[1]),
        ListenStep::Done(_) => panic!("the second address should be tried"),
    }
    assert!(matches!(
        node.start_listen(&addrs, 2, Ok(())),
        ListenStep::Done(Ok(()))
    ));
    match node.start_listen(&addrs, 1, Err("in use".to_string())) {
        ListenStep::Done(Err(Error::Listen(text))) => assert_eq!(text, "in use"),
        _ => panic!("a failure should end the listening"),
    }
    assert!(matches!(
        node.start_listen(&vec![], 0, Ok(())),
        ListenStep::Done(Ok(()))
    ));
}

#[test]
fn a_new_listen_address_is_told() {
    let (actions, told) = convert(SwarmEvent::NewListenAddr {
        address: addr("/ip4/127.0.0.1/tcp/9"),
    });
    assert!(actions.is_empty());
    match told {
        Some(NodeEvent::Listening { addr: told }) => {
            assert_eq!(told, addr("/ip4/127.0.0.1/tcp/9"))
        }
        _ => panic!("the address should be told"),
    }
}

#[test]
fn only_the_first_and_the_last_connection_are_told() {
    let peer = test_peer();
    for (num_established, expected) in [(1u32, true), (2, false), (3, false)] {
        let (_, told) = convert(SwarmEvent::ConnectionEstablished {
            peer_id: peer,
            num_established,
        });
        let was_told =
            matches!(told, Some(NodeEvent::PeerConnected { peer_id }) if peer_id == peer);
        assert_eq!(was_told, expected);
    }
    for (num_established, expected) in [(2u32, false), (1, false), (0, true)] {
        let (_, told) = convert(SwarmEvent::ConnectionClosed {
            peer_id: peer,
            num_established,
        });
        let was_told =
            matches!(told, Some(NodeEvent::PeerDisconnected { peer_id }) if peer_id == peer);
        assert_eq!(was_told, expected);
    }
}

#[test]
fn inbound_requests_get_ids_and_their_channels_wait() {
    let mut node: EventLoop<()> = EventLoop::new("/test/1.0.0".to_string(), false);
    let mut pending = PendingMap::new(Duration::from_secs(60));
    let peer = test_peer();
    for expected in 0u64..3 {
        let (actions, told) = node.convert_to_node_event(
            &mut pending,
            SwarmEvent::InboundRequest {
                peer,
                request: format!("request {expected}"),
                channel: expected * 10,
            },
        );
        assert!(actions.is_empty());
        match told {
            Some(NodeEvent::InboundRequest {
                peer_id,
                pending_id,
                request,
            }) => {
                assert_eq!(peer_id, peer);
                assert_eq!(pending_id, expected);
                assert_eq!(request, format!("request {expected}"));
            }
            _ => panic!("the request should be told"),
        }
    }
    assert_eq!(pending.len(), 3);
    assert_eq!(pending.take(&1), Some(10));
    assert_eq!(pending.take(&1), None);
    assert_eq!(pending.take(&0), Some(0));
    assert_eq!(pending.take(&2), Some(20));
}

#[test]
fn hole_punches_are_told_either_way() {
    let peer = test_peer();
    let (_, told) = convert(SwarmEvent::HolePunch {
        remote_peer_id: peer,
        result: Ok(()),
    });
    assert!(matches!(told, Some(NodeEvent::HolePunchSucceeded { peer_id }) if peer_id == peer));
    let (_, told) = convert(SwarmEvent::HolePunch {
        remote_peer_id: peer,
        result: Err("no route".to_string()),
    });
    match told {
        Some(NodeEvent::HolePunchFailed { peer_id, error }) => {
            assert_eq!(peer_id, peer);
            assert_eq!(error, "no route");
        }
        _ => panic!("the failure should be told"),
    }
}

#[test]
fn discovered_peers_are_registered_and_dialed_once() {
    let a = test_peer();
    let b = test_peer();
    let c = test_peer();
    let at = |n: u16| addr(&format!("/ip4/10.0.0.1/tcp/{n}"));
    let peers = vec![(a, at(1)), (b, at(2)), (a, at(3)), (c, at(4)), (b, at(5))];
    let (actions, told) = convert(SwarmEvent::MdnsDiscovered {
        peers: peers.clone(),
        connected: vec![b],
    });
    assert_eq!(
        actions,
        vec![
            format!("peer {a} {}", at(1)),
            format!("peer {b} {}", at(2)),
            format!("peer {a} {}", at(3)),
            format!("peer {c} {}", at(4)),
            format!("peer {b} {}", at(5)),
            format!("dial {a}"),
            format!("dial {c}"),
        ]
    );
    match told {
        Some(NodeEvent::PeersDiscovered { peers: told }) => assert_eq!(told, peers),
        _ => panic!("the discovery should be told"),
    }
}

#[test]
fn pings_are_told_in_whole_milliseconds() {
    let peer = test_peer();
    for (rtt, expected) in [
        (Duration::ZERO, 0u64),
        (Duration::from_micros(999), 0),
        (Duration::from_micros(1999), 1),
        (Duration::from_millis(42), 42),
        (Duration::from_secs(3), 3000),
    ] {
        let (_, told) = convert(SwarmEvent::Ping {
            peer,
            rtt: Some(rtt),
        });
        match told {
            Some(NodeEvent::PingSuccess { peer_id, rtt_ms }) => {
                assert_eq!(peer_id, peer);
                assert_eq!(rtt_ms, expected);
            }
            _ => panic!("the ping should be told"),
        }
    }
    let (actions, told) = convert(SwarmEvent::Ping { peer, rtt: None });
    assert!(actions.is_empty() && told.is_none());
}

#[test]
fn a_very_long_ping_is_cut_to_the_range_of_the_report() {
    let rtt = Duration::new(u64::MAX, 999_999_999);
    let (_, told) = convert(SwarmEvent::Ping {
        peer: test_peer(),
        rtt: Some(rtt),
    });
    match told {
        Some(NodeEvent::PingSuccess { rtt_ms, .. }) => assert_eq!(rtt_ms, rtt.as_millis() as u64),
        _ => panic!("the ping should be told"),
    }
}

#[test]
fn peers_of_the_same_protocol_join_the_table() {
    let peer = test_peer();
    let first = addr("/ip4/10.0.0.1/tcp/1");
    let second = addr("/ip4/10.0.0.1/tcp/2");
    let (actions, told) = convert(SwarmEvent::IdentifyReceived {
        peer_id: peer,
        protocol_version: "/test/1.0.0".to_string(),
        agent_version: "test/1.0.0".to_string(),
        listen_addrs: vec![first.clone(), second.clone()],
    });
    assert_eq!(
        actions,
        vec![
            format!("kad {peer} {first}"),
            format!("peer {peer} {first}"),
            format!("kad {peer} {second}"),
            format!("peer {peer} {second}"),
        ]
    );
    match told {
        Some(NodeEvent::IdentifyReceived {
            peer_id,
            agent_version,
            protocol_version,
        }) => {
            assert_eq!(peer_id, peer);
            assert_eq!(protocol_version, "/test/1.0.0");
            assert_eq!(agent_version, "test/1.0.0");
        }
        _ => panic!("the identification should be told"),
    }
}

#[test]
fn peers_of_another_protocol_are_told_but_not_added() {
    let (actions, told) = convert(SwarmEvent::IdentifyReceived {
        peer_id: test_peer(),
        protocol_version: "/test/2.0.0".to_string(),
        agent_version: "other".to_string(),
        listen_addrs: vec![addr("/ip4/10.0.0.1/tcp/1")],
    });
    assert!(actions.is_empty());
    match told {
        Some(NodeEvent::IdentifyReceived {
            agent_version,
            protocol_version,
            ..
        }) => {
            assert_eq!(protocol_version, "/test/2.0.0");
            assert_eq!(agent_version, "other");
        }
        _ => panic!("the identification should be told"),
    }
}

#[test]
fn only_a_successful_probe_is_told() {
    let tested = addr("/ip4/1.2.3.4/tcp/4001");
    let (actions, told) = convert(SwarmEvent::AutonatTested {
        tested_addr: tested.clone(),
        reachable: true,
    });
    assert!(actions.is_empty());
    match told {
        Some(NodeEvent::NatStatusChanged {
            status,
            public_addr,
        }) => {
            assert_eq!(status, NatStatus::Public);
            assert_eq!(public_addr, Some(tested.clone()));
        }
        _ => panic!("the status should be told"),
    }
    let (actions, told) = convert(SwarmEvent::AutonatTested {
        tested_addr: tested,
        reachable: false,
    });
    assert!(actions.is_empty() && told.is_none());
}

#[test]
fn routing_updates_fill_the_address_book_silently() {
    let peer = test_peer();
    let first = addr("/ip4/10.0.0.1/tcp/1");
    let second = addr("/ip4/10.0.0.1/tcp/2");
    let (actions, told) = convert(SwarmEvent::KadRoutingUpdated {
        peer,
        addresses: vec![first.clone(), second.clone()],
    });
    assert_eq!(
        actions,
        vec![
            format!("peer {peer} {first}"),
            format!("peer {peer} {second}"),
        ]
    );
    assert!(told.is_none());
}

#[test]
fn relay_reservations_are_told_and_circuits_are_not() {
    let peer = test_peer();
    for renewal in [false, true] {
        let (_, told) = convert(SwarmEvent::RelayReservationAccepted {
            relay_peer_id: peer,
            renewal,
        });
        match told {
            Some(NodeEvent::RelayReservationAccepted {
                relay_peer_id,
                renewal: told,
            }) => {
                assert_eq!(relay_peer_id, peer);
                assert_eq!(told, renewal);
            }
            _ => panic!("the reservation should be told"),
        }
        let (_, told) = convert(SwarmEvent::RelayServerReservationAccepted {
            src_peer_id: peer,
            renewed: renewal,
        });
        assert!(matches!(
            told,
            Some(NodeEvent::RelayServerReservationAccepted { src_peer_id, renewed })
                if src_peer_id == peer && renewed == renewal
        ));
    }
    for event in [
        SwarmEvent::OutboundCircuitEstablished {
            relay_peer_id: peer,
        },
        SwarmEvent::InboundCircuitEstablished { src_peer_id: peer },
        SwarmEvent::Other,
    ] {
        let (actions, told) = convert(event);
        assert!(actions.is_empty() && told.is_none());
    }
}

#[test]
fn inbound_channels_are_accepted_within_the_limits() {
    let node: EventLoop<()> = EventLoop::new(String::new(), false);
    let mut registry = ChannelRegistry::new(DataChannelLimits {
        max_inbound_per_peer: 1,
        max_outbound_per_peer: 4,
        max_per_protocol: 64,
    });
    let mut ids = ChannelIdCounter { next: 5 };
    let peer = test_peer();
    let protocol = StreamProtocol::new("/test/data/1");
    let accepted = node
        .handle_inbound_channel(&mut registry, &mut ids, protocol.clone(), peer, "first")
        .unwrap();
    assert_eq!(accepted.channel.id(), DataChannelId(5));
    assert_eq!(accepted.channel.peer(), peer);
    assert_eq!(accepted.channel.protocol(), &protocol);
    assert_eq!(accepted.channel.direction(), DataChannelDirection::Inbound);
    assert_eq!(registry.inbound_per_peer(&peer), Some(1));

    match node.handle_inbound_channel(&mut registry, &mut ids, protocol.clone(), peer, "second") {
        Err(stream) => assert_eq!(stream, "second"),
        Ok(_) => panic!("a second channel is beyond the limit"),
    }
    assert_eq!(ids.next, 6);
    assert_eq!(registry.inbound_per_peer(&peer), Some(1));

    accepted.channel.close(&mut registry);
    assert!(node
        .handle_inbound_channel(&mut registry, &mut ids, protocol, peer, "third")
        .is_ok());
}

/// Walks an event along commands; each says whether it stays and whether it
/// consumes the event. Gives the visited commands.
fn walk(commands: &mut ActiveCommands<(u8, bool, bool)>) -> Vec<u8> {
    let mut visited = Vec::new();
    let mut event_left = true;
    let mut cursor = 0;
    while let Some(at) = commands.next_offer(cursor, event_left) {
        let (name, keep, consume) = *commands.get(at);
        visited.push(name);
        event_left = !consume;
        cursor = commands.settle_offer(at, keep);
    }
    visited
}

fn names(commands: &ActiveCommands<(u8, bool, bool)>) -> Vec<u8> {
    (0..commands.len()).map(|at| commands.get(at).0).collect()
}

#[test]
fn an_unconsumed_event_reaches_every_command() {
    let mut commands = ActiveCommands::new();
    for command in [
        (1, false, false),
        (2, true, false),
        (3, false, false),
        (4, true, false),
        (5, false, false),
    ] {
        commands.push(command);
    }
    let mut visited = walk(&mut commands);
    visited.sort();
    assert_eq!(visited, vec![1, 2, 3, 4, 5]);
    let mut left = names(&commands);
    left.sort();
    assert_eq!(left, vec![2, 4]);
}

#[test]
fn a_consumed_event_goes_no_further() {
    let mut commands = ActiveCommands::new();
    for command in [(1, true, false), (2, false, true), (3, true, false)] {
        commands.push(command);
    }
    assert_eq!(walk(&mut commands), vec![1, 2]);
    assert_eq!(names(&commands), vec![1, 3]);
}

#[test]
fn the_last_command_takes_the_place_of_one_that_leaves() {
    let mut commands = ActiveCommands::new();
    for command in [(1, false, false), (2, true, false), (3, true, false)] {
        commands.push(command);
    }
    assert_eq!(walk(&mut commands), vec![1, 3, 2]);
    assert_eq!(names(&commands), vec![3, 2]);
}

#[test]
fn cancelled_commands_are_forgotten_in_order() {
    let mut node: EventLoop<(u8, bool, bool)> = EventLoop::new(String::new(), false);
    for name in 0..5 {
        let _ = node.handle_command((name, true, false), None, false);
    }
    let commands = node.active_commands();
    commands.get_mut(3).0 = 30;
    commands.retain_uncancelled(&vec![true, false, true, false, false]);
    assert_eq!(names(commands), vec![1, 30, 4]);
    commands.retain_uncancelled(&vec![false, false, false]);
    assert_eq!(names(commands), vec![1, 30, 4]);
    commands.retain_uncancelled(&vec![true, true, true]);
    assert_eq!(commands.len(), 0);
}

#[test]
fn a_consumed_event_leaves_the_unvisited_alone() {
    let mut commands = ActiveCommands::new();
    for command in [
        (1, false, false),
        (2, true, true),
        (3, false, false),
        (4, true, false),
    ] {
        commands.push(command);
    }
    assert_eq!(walk(&mut commands), vec![1, 4, 2]);
    assert_eq!(names(&commands), vec![4, 2, 3]);
}

/// Listens on `addrs`, of which those at the places in `failing` fail; gives the
/// addresses that were tried and the result.
fn listen(addrs: &Vec<Multiaddr>, failing: &[usize]) -> (Vec<Multiaddr>, Result<(), Error>) {
    let node: EventLoop<()> = EventLoop::new(String::new(), false);
    let mut tried = Vec::new();
    let mut last = Ok(());
    loop {
        match node.start_listen(addrs, tried.len(), last) {
            ListenStep::ListenOn(addr) => {
                last = if failing.contains(&tried.len()) {
                    Err(format!("failure {}", tried.len()))
                } else {
                    Ok(())
                };
                tried.push(addr);
            }
            ListenStep::Done(result) => return (tried, result),
        }
    }
}

#[test]
fn listening_tries_addresses_up_to_the_first_failure() {
    let addrs: Vec<Multiaddr> = (1..5)
        .map(|port| addr(&format!("/ip4/127.0.0.1/tcp/{port}")))
        .collect();
    assert_eq!(listen(&addrs, &[]), (addrs.clone(), Ok(())));
    assert_eq!(
        listen(&addrs, &[1, 3]),
        (
            addrs[..2].to_vec(),
            Err(Error::Listen("failure 1".to_string()))
        )
    );
    assert_eq!(
        listen(&addrs, &[3]),
        (addrs.clone(), Err(Error::Listen("failure 3".to_string())))
    );
    assert_eq!(listen(&vec![], &[]), (vec![], Ok(())));
}
