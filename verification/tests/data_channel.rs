//! Data channels, their ids and their quotas.

use libp2p::identity::Keypair;
use libp2p::{PeerId, StreamProtocol};
use swarm_p2p_core::data_channel::{
    ChannelIdCounter, ChannelRegistry, DataChannel, DataChannelCloseReason, DataChannelDirection,
    DataChannelId, DataChannelLimits, DataChannelProtocolConfig,
};

fn test_peer() -> PeerId {
    Keypair::generate_ed25519().public().to_peer_id()
}

fn proto() -> StreamProtocol {
    StreamProtocol::new("/test/data/1")
}

#[test]
fn channel_id_is_monotonic() {
    let mut ids = ChannelIdCounter::new();
    let a = DataChannelId::next(&mut ids);
    let b = DataChannelId::next(&mut ids);
    assert!(b.0 > a.0);
}

#[test]
fn channel_ids_start_at_zero_and_wrap_around() {
    let mut ids = ChannelIdCounter::new();
    assert_eq!(DataChannelId::next(&mut ids), DataChannelId(0));
    assert_eq!(DataChannelId::next(&mut ids), DataChannelId(1));
    let mut last = ChannelIdCounter { next: u64::MAX };
    assert_eq!(DataChannelId::next(&mut last), DataChannelId(u64::MAX));
    assert_eq!(DataChannelId::next(&mut last), DataChannelId(0));
}

#[test]
fn channel_id_text() {
    assert_eq!(DataChannelId(0).to_string(), "dc#0");
    assert_eq!(DataChannelId(10).to_string(), "dc#10");
    assert_eq!(DataChannelId(907).to_string(), "dc#907");
    assert_eq!(
        DataChannelId(u64::MAX).to_string(),
        "dc#18446744073709551615"
    );
}

#[test]
fn limits_default_values() {
    let l = DataChannelLimits::default();
    assert_eq!(l.max_inbound_per_peer, 4);
    assert_eq!(l.max_outbound_per_peer, 4);
    assert_eq!(l.max_per_protocol, 64);
}

#[test]
fn registry_enforces_per_peer_inbound_limit() {
    let limits = DataChannelLimits {
        max_inbound_per_peer: 2,
        max_outbound_per_peer: 4,
        max_per_protocol: 64,
    };
    let mut reg = ChannelRegistry::new(limits);
    let peer = test_peer();
    let g1 = reg.try_acquire(peer, proto(), DataChannelDirection::Inbound);
    let g2 = reg.try_acquire(peer, proto(), DataChannelDirection::Inbound);
    let g3 = reg.try_acquire(peer, proto(), DataChannelDirection::Inbound);
    assert!(g1.is_some() && g2.is_some());
    assert!(g3.is_none(), "a third inbound channel is beyond the limit per peer");
    reg.release(g1.unwrap());
    let g4 = reg.try_acquire(peer, proto(), DataChannelDirection::Inbound);
    assert!(g4.is_some(), "a released share can be taken again");
}

#[test]
fn registry_enforces_per_protocol_limit() {
    let limits = DataChannelLimits {
        max_inbound_per_peer: 10,
        max_outbound_per_peer: 10,
        max_per_protocol: 2,
    };
    let mut reg = ChannelRegistry::new(limits);
    let g1 = reg.try_acquire(test_peer(), proto(), DataChannelDirection::Inbound);
    let g2 = reg.try_acquire(test_peer(), proto(), DataChannelDirection::Inbound);
    let g3 = reg.try_acquire(test_peer(), proto(), DataChannelDirection::Inbound);
    assert!(g1.is_some() && g2.is_some());
    assert!(g3.is_none(), "a third channel is beyond the limit per protocol");
}

#[test]
fn registry_enforces_per_peer_outbound_limit() {
    let limits = DataChannelLimits {
        max_inbound_per_peer: 4,
        max_outbound_per_peer: 1,
        max_per_protocol: 64,
    };
    let mut reg = ChannelRegistry::new(limits);
    let peer = test_peer();
    let g1 = reg.try_acquire(peer, proto(), DataChannelDirection::Outbound);
    let g2 = reg.try_acquire(peer, proto(), DataChannelDirection::Outbound);

    assert!(g1.is_some());
    assert!(g2.is_none(), "a second outbound channel is beyond the limit per peer");
}

#[test]
fn registry_per_protocol_limit_is_shared_across_directions() {
    let limits = DataChannelLimits {
        max_inbound_per_peer: 10,
        max_outbound_per_peer: 10,
        max_per_protocol: 1,
    };
    let mut reg = ChannelRegistry::new(limits);
    let peer = test_peer();
    let inbound = reg.try_acquire(peer, proto(), DataChannelDirection::Inbound);
    let outbound = reg.try_acquire(peer, proto(), DataChannelDirection::Outbound);

    assert!(inbound.is_some());
    assert!(
        outbound.is_none(),
        "the limit per protocol covers both directions together"
    );
}

#[test]
fn registry_inbound_and_outbound_counts_are_independent() {
    let limits = DataChannelLimits {
        max_inbound_per_peer: 1,
        max_outbound_per_peer: 1,
        max_per_protocol: 64,
    };
    let mut reg = ChannelRegistry::new(limits);
    let peer = test_peer();
    let inb = reg.try_acquire(peer, proto(), DataChannelDirection::Inbound);
    let out = reg.try_acquire(peer, proto(), DataChannelDirection::Outbound);
    assert!(
        inb.is_some() && out.is_some(),
        "inbound and outbound channels are counted apart"
    );
}

#[test]
fn registry_drop_guard_removes_empty_counters() {
    let mut reg = ChannelRegistry::new(DataChannelLimits::default());
    let peer = test_peer();
    let protocol = proto();
    let guard = reg
        .try_acquire(peer, protocol.clone(), DataChannelDirection::Inbound)
        .expect("first acquire should succeed");

    reg.release(guard);

    assert!(reg.inbound_per_peer(&peer).is_none());
    assert!(reg.per_protocol(&protocol).is_none());
}

#[test]
fn registry_zero_limit_rejects_immediately() {
    let limits = DataChannelLimits {
        max_inbound_per_peer: 0,
        max_outbound_per_peer: 0,
        max_per_protocol: 0,
    };
    let mut reg = ChannelRegistry::new(limits);

    assert!(reg
        .try_acquire(test_peer(), proto(), DataChannelDirection::Inbound)
        .is_none());
    assert!(reg
        .try_acquire(test_peer(), proto(), DataChannelDirection::Outbound)
        .is_none());
}

#[test]
fn counts_follow_the_channels_in_use() {
    let mut reg = ChannelRegistry::new(DataChannelLimits::default());
    let a = test_peer();
    let b = test_peer();
    let g1 = reg
        .try_acquire(a, proto(), DataChannelDirection::Inbound)
        .unwrap();
    let g2 = reg
        .try_acquire(a, proto(), DataChannelDirection::Inbound)
        .unwrap();
    let g3 = reg
        .try_acquire(b, proto(), DataChannelDirection::Outbound)
        .unwrap();
    assert_eq!(reg.inbound_per_peer(&a), Some(2));
    assert_eq!(reg.inbound_per_peer(&b), None);
    assert_eq!(reg.outbound_per_peer(&a), None);
    assert_eq!(reg.outbound_per_peer(&b), Some(1));
    assert_eq!(reg.per_protocol(&proto()), Some(3));
    reg.release(g1);
    assert_eq!(reg.inbound_per_peer(&a), Some(1));
    assert_eq!(reg.per_protocol(&proto()), Some(2));
    reg.release(g3);
    reg.release(g2);
    assert_eq!(reg.inbound_per_peer(&a), None);
    assert_eq!(reg.outbound_per_peer(&b), None);
    assert_eq!(reg.per_protocol(&proto()), None);
}

#[test]
fn a_refused_channel_changes_no_count() {
    let mut reg = ChannelRegistry::new(DataChannelLimits {
        max_inbound_per_peer: 1,
        max_outbound_per_peer: 1,
        max_per_protocol: 2,
    });
    let peer = test_peer();
    let held = reg.try_acquire(peer, proto(), DataChannelDirection::Outbound);
    assert!(held.is_some());
    assert!(reg
        .try_acquire(peer, proto(), DataChannelDirection::Outbound)
        .is_none());
    assert_eq!(reg.outbound_per_peer(&peer), Some(1));
    assert_eq!(reg.per_protocol(&proto()), Some(1));
}

#[test]
fn protocols_and_peers_are_told_apart_by_value() {
    let mut reg = ChannelRegistry::new(DataChannelLimits {
        max_inbound_per_peer: 10,
        max_outbound_per_peer: 10,
        max_per_protocol: 1,
    });
    let peer = test_peer();
    let same_peer = PeerId::from_bytes(&peer.to_bytes()).unwrap();
    let owned = StreamProtocol::try_from_owned("/test/data/1".to_string()).unwrap();
    let held = reg.try_acquire(peer, proto(), DataChannelDirection::Inbound);
    assert!(held.is_some());
    assert_eq!(reg.inbound_per_peer(&same_peer), Some(1));
    assert_eq!(reg.per_protocol(&owned), Some(1));
    assert!(reg
        .try_acquire(test_peer(), owned, DataChannelDirection::Inbound)
        .is_none());
    assert!(reg
        .try_acquire(
            peer,
            StreamProtocol::new("/test/data/2"),
            DataChannelDirection::Inbound
        )
        .is_some());
}

#[test]
fn channel_gives_its_facts_and_its_stream() {
    let mut reg = ChannelRegistry::new(DataChannelLimits::default());
    let peer = test_peer();
    let guard = reg.try_acquire(peer, proto(), DataChannelDirection::Outbound);
    let mut channel = DataChannel::new(
        DataChannelId(7),
        peer,
        proto(),
        DataChannelDirection::Outbound,
        vec![1u8, 2],
        guard,
    );
    assert_eq!(channel.id(), DataChannelId(7));
    assert_eq!(channel.peer(), peer);
    assert_eq!(channel.protocol(), &proto());
    assert_eq!(channel.direction(), DataChannelDirection::Outbound);
    channel.stream_mut().push(3);
    assert_eq!(channel.into_stream(&mut reg), vec![1, 2, 3]);
    assert_eq!(reg.outbound_per_peer(&peer), None);
}

#[test]
fn closing_a_channel_frees_its_share() {
    let mut reg = ChannelRegistry::new(DataChannelLimits {
        max_inbound_per_peer: 1,
        max_outbound_per_peer: 1,
        max_per_protocol: 1,
    });
    let peer = test_peer();
    let guard = reg.try_acquire(peer, proto(), DataChannelDirection::Inbound);
    let channel = DataChannel::new(
        DataChannelId(0),
        peer,
        proto(),
        DataChannelDirection::Inbound,
        (),
        guard,
    );
    assert!(reg
        .try_acquire(peer, proto(), DataChannelDirection::Inbound)
        .is_none());
    channel.close(&mut reg);
    assert!(reg
        .try_acquire(peer, proto(), DataChannelDirection::Inbound)
        .is_some());
}

#[test]
fn a_channel_without_a_share_frees_nothing() {
    let mut reg = ChannelRegistry::new(DataChannelLimits::default());
    let peer = test_peer();
    let held = reg.try_acquire(peer, proto(), DataChannelDirection::Inbound);
    assert!(held.is_some());
    let channel = DataChannel::new(
        DataChannelId(1),
        peer,
        proto(),
        DataChannelDirection::Inbound,
        (),
        None,
    );
    channel.close(&mut reg);
    assert_eq!(reg.inbound_per_peer(&peer), Some(1));
}

#[test]
fn close_reasons_in_words() {
    assert_eq!(
        DataChannelCloseReason::Normal.to_string(),
        "normal end-of-stream"
    );
    assert_eq!(
        DataChannelCloseReason::ConnectionClosed.to_string(),
        "underlying connection closed"
    );
    assert_eq!(
        DataChannelCloseReason::LocalCancelled.to_string(),
        "locally cancelled"
    );
    assert_eq!(
        DataChannelCloseReason::UnsupportedProtocol.to_string(),
        "unsupported protocol"
    );
    assert_eq!(
        DataChannelCloseReason::ResourceLimitExceeded.to_string(),
        "resource limit exceeded"
    );
    assert_eq!(
        DataChannelCloseReason::Io("broken pipe".to_string()).to_string(),
        "io error: broken pipe"
    );
}

#[test]
fn protocol_config_keeps_the_protocol() {
    assert_eq!(DataChannelProtocolConfig::new(proto()).protocol, proto());
}

#[test]
fn a_guard_shows_what_it_stands_for() {
    let mut reg = ChannelRegistry::new(DataChannelLimits::default());
    let peer = test_peer();
    let guard = reg
        .try_acquire(peer, proto(), DataChannelDirection::Inbound)
        .unwrap();
    assert_eq!(
        format!("{guard:?}"),
        format!(
            "ChannelGuard {{ peer: {peer:?}, protocol: \"/test/data/1\", direction: Inbound }}"
        )
    );
    reg.release(guard);
}
