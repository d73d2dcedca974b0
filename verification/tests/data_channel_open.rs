//! Opening outbound data channels.

use libp2p::identity::Keypair;
use libp2p::{PeerId, StreamProtocol};
use libp2p_stream::OpenStreamError;
use std::time::Duration;
use swarm_p2p_core::client::data_channel_open::{
    map_open_stream_error, open_failure_error, DataChannelOpenFuture, OpenOutcome,
};
use swarm_p2p_core::data_channel::{
    ChannelIdCounter, ChannelRegistry, DataChannelCloseReason, DataChannelDirection,
    DataChannelId, DataChannelLimits,
};
use swarm_p2p_core::error::{Error, NetworkFailureKind};
use swarm_p2p_core::foreign::OpenFailure;

fn test_peer() -> PeerId {
    Keypair::generate_ed25519().public().to_peer_id()
}

fn proto() -> StreamProtocol {
    StreamProtocol::new("/test/data/1")
}

fn single_outbound_registry() -> ChannelRegistry {
    ChannelRegistry::new(DataChannelLimits {
        max_inbound_per_peer: 4,
        max_outbound_per_peer: 1,
        max_per_protocol: 64,
    })
}

#[test]
fn zero_limit_returns_typed_error() {
    let mut registry = ChannelRegistry::new(DataChannelLimits {
        max_inbound_per_peer: 0,
        max_outbound_per_peer: 0,
        max_per_protocol: 0,
    });
    let mut ids = ChannelIdCounter::new();
    let mut opening = DataChannelOpenFuture::new(test_peer(), proto(), Duration::from_secs(1));

    let err = opening
        .into_opening(&mut registry, &mut ids)
        .expect_err("zero limit should reject immediately");

    assert!(
        matches!(
            err,
            Error::DataChannel(DataChannelCloseReason::ResourceLimitExceeded)
        ),
        "actual error: {err:?}"
    );
    assert!(opening.is_finished());
    assert_eq!(ids.next, 0);
}

#[test]
fn future_is_lazy_before_first_poll() {
    let mut registry = single_outbound_registry();
    let peer = test_peer();
    let protocol = proto();
    let future = DataChannelOpenFuture::new(peer, protocol.clone(), Duration::from_secs(1));
    assert!(future.is_init());

    let guard = registry.try_acquire(peer, protocol, DataChannelDirection::Outbound);
    assert!(guard.is_some(), "unpolled future should not acquire quota");

    registry.release(guard.unwrap());
    future.abandon(&mut registry);
    assert_eq!(registry.outbound_per_peer(&peer), None);
}

#[test]
fn dropping_pending_open_releases_quota() {
    let mut registry = single_outbound_registry();
    let mut ids = ChannelIdCounter::new();
    let peer = test_peer();
    let protocol = proto();
    let mut future = DataChannelOpenFuture::new(peer, protocol.clone(), Duration::from_secs(60));

    assert!(future.into_opening(&mut registry, &mut ids).is_ok());
    assert!(!future.is_init() && !future.is_finished());
    assert!(
        registry
            .try_acquire(peer, protocol.clone(), DataChannelDirection::Outbound)
            .is_none(),
        "pending open should hold quota"
    );

    future.abandon(&mut registry);

    let guard = registry.try_acquire(peer, protocol, DataChannelDirection::Outbound);
    assert!(
        guard.is_some(),
        "dropping pending open should release quota"
    );
}

#[test]
fn open_unsupported_protocol_fails_with_typed_error() {
    let mut registry = ChannelRegistry::new(DataChannelLimits::default());
    let mut ids = ChannelIdCounter::new();
    let peer = test_peer();
    let bad_proto = StreamProtocol::new("/test/nonexistent/9");
    let mut opening =
        DataChannelOpenFuture::new(peer, bad_proto.clone(), Duration::from_secs(15));
    opening.into_opening(&mut registry, &mut ids).unwrap();
    let err = opening
        .settle::<()>(
            &mut registry,
            OpenOutcome::Failed(OpenStreamError::UnsupportedProtocol(bad_proto)),
        )
        .err()
        .expect("opening an unregistered protocol should fail");

    assert!(
        matches!(
            err,
            Error::DataChannel(DataChannelCloseReason::UnsupportedProtocol)
        ),
        "actual error: {err:?}"
    );
}

#[test]
fn outbound_limit_rejects_second_active_channel_and_releases_after_drop() {
    let mut registry = single_outbound_registry();
    let mut ids = ChannelIdCounter::new();
    let peer = test_peer();

    let mut first = DataChannelOpenFuture::new(peer, proto(), Duration::from_secs(15));
    first
        .into_opening(&mut registry, &mut ids)
        .expect("first open should start");
    let first = first
        .settle(&mut registry, OpenOutcome::Opened("stream"))
        .expect("first open should succeed");

    let mut second = DataChannelOpenFuture::new(peer, proto(), Duration::from_secs(15));
    let second = second.into_opening(&mut registry, &mut ids);
    assert!(
        matches!(
            second,
            Err(Error::DataChannel(
                DataChannelCloseReason::ResourceLimitExceeded
            ))
        ),
        "second active channel should hit outbound limit: {second:?}"
    );

    first.close(&mut registry);

    let mut third = DataChannelOpenFuture::new(peer, proto(), Duration::from_secs(15));
    third
        .into_opening(&mut registry, &mut ids)
        .expect("third open should succeed after first is dropped");
}

#[test]
fn outbound_quota_is_released_after_open_failure() {
    let mut registry = single_outbound_registry();
    let mut ids = ChannelIdCounter::new();
    let peer = test_peer();
    let bad_proto = StreamProtocol::new("/test/nonexistent/9");

    let mut bad = DataChannelOpenFuture::new(peer, bad_proto.clone(), Duration::from_secs(15));
    bad.into_opening(&mut registry, &mut ids).unwrap();
    let failed = bad.settle::<()>(
        &mut registry,
        OpenOutcome::Failed(OpenStreamError::UnsupportedProtocol(bad_proto.clone())),
    );
    assert!(failed.is_err(), "bad protocol should fail");
    assert_eq!(registry.outbound_per_peer(&peer), None);
    assert_eq!(registry.per_protocol(&bad_proto), None);

    let mut good = DataChannelOpenFuture::new(peer, proto(), Duration::from_secs(15));
    good.into_opening(&mut registry, &mut ids)
        .expect("good open should succeed after failed open releases quota");
}

#[test]
fn opened_channel_carries_id_peer_protocol_and_quota() {
    let mut registry = single_outbound_registry();
    let mut ids = ChannelIdCounter { next: 41 };
    let peer = test_peer();
    let mut opening = DataChannelOpenFuture::new(peer, proto(), Duration::from_secs(1));
    opening.into_opening(&mut registry, &mut ids).unwrap();
    assert_eq!(ids.next, 42);
    let channel = opening
        .settle(&mut registry, OpenOutcome::Opened(vec![9u8]))
        .unwrap();
    assert!(opening.is_finished());
    assert_eq!(channel.id(), DataChannelId(41));
    assert_eq!(channel.peer(), peer);
    assert_eq!(channel.protocol(), &proto());
    assert_eq!(channel.direction(), DataChannelDirection::Outbound);
    assert_eq!(registry.outbound_per_peer(&peer), Some(1));
    assert_eq!(channel.into_stream(&mut registry), vec![9u8]);
    assert_eq!(registry.outbound_per_peer(&peer), None);
}

#[test]
fn open_timeout_is_a_typed_error_and_frees_the_quota() {
    let mut registry = single_outbound_registry();
    let mut ids = ChannelIdCounter::new();
    let peer = test_peer();
    let mut opening = DataChannelOpenFuture::new(peer, proto(), Duration::from_secs(1));
    opening.into_opening(&mut registry, &mut ids).unwrap();
    let timed_out = opening.settle::<()>(&mut registry, OpenOutcome::Elapsed);
    assert!(matches!(
        timed_out,
        Err(Error::Network(NetworkFailureKind::Timeout))
    ));
    assert_eq!(registry.outbound_per_peer(&peer), None);
}

#[test]
fn open_stream_errors_keep_their_kind_and_text() {
    let io = map_open_stream_error(OpenStreamError::Io(std::io::Error::new(
        std::io::ErrorKind::Other,
        "link is gone",
    )));
    match io {
        Error::DataChannel(DataChannelCloseReason::Io(text)) => assert_eq!(text, "link is gone"),
        other => panic!("unexpected error: {other:?}"),
    }
    let unsupported = map_open_stream_error(OpenStreamError::UnsupportedProtocol(proto()));
    assert!(matches!(
        unsupported,
        Error::DataChannel(DataChannelCloseReason::UnsupportedProtocol)
    ));
}

#[test]
fn every_open_failure_has_its_error() {
    assert!(matches!(
        open_failure_error(OpenFailure::UnsupportedProtocol),
        Error::DataChannel(DataChannelCloseReason::UnsupportedProtocol)
    ));
    match open_failure_error(OpenFailure::Io("reset".to_string())) {
        Error::DataChannel(DataChannelCloseReason::Io(text)) => assert_eq!(text, "reset"),
        other => panic!("unexpected error: {other:?}"),
    }
    assert!(matches!(
        open_failure_error(OpenFailure::Other),
        Error::Network(NetworkFailureKind::Unknown)
    ));
}

#[test]
fn finishing_with_an_error_keeps_the_error_and_frees_the_quota() {
    let mut registry = single_outbound_registry();
    let mut ids = ChannelIdCounter::new();
    let peer = test_peer();
    let mut opening = DataChannelOpenFuture::new(peer, proto(), Duration::from_secs(2));
    assert_eq!(opening.peer_id(), peer);
    assert_eq!(opening.protocol(), &proto());
    assert_eq!(opening.open_timeout(), Duration::from_secs(2));
    opening.into_opening(&mut registry, &mut ids).unwrap();
    let failed = opening.finish::<()>(&mut registry, Err(Error::Dial("no route".to_string())));
    match failed {
        Err(Error::Dial(text)) => assert_eq!(text, "no route"),
        _ => panic!("the error should come back"),
    }
    assert_eq!(registry.outbound_per_peer(&peer), None);
}
