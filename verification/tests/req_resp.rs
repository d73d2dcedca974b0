//! Requests, responses and the futures of commands.

use libp2p::identity::Keypair;
use libp2p::PeerId;
use std::time::Duration;
use swarm_p2p_core::client::future::{CommandAction, CommandEvent, CommandFuture};
use swarm_p2p_core::client::req_resp::{
    send_request, send_request_with_options, send_response, settle_request, RequestOutcome,
};
use swarm_p2p_core::error::{Error, NetworkFailureKind};
use swarm_p2p_core::pending_map::PendingMap;
use swarm_p2p_core::request::RequestOptions;

fn test_peer() -> PeerId {
    Keypair::generate_ed25519().public().to_peer_id()
}

#[test]
fn first_poll_sends_command_and_drop_marks_it_cancelled() {
    let mut future = CommandFuture::new("never completes");

    match future.step(CommandEvent::Polled) {
        CommandAction::Send(handler) => assert_eq!(handler, "never completes"),
        _ => panic!("command should be sent on first poll"),
    }
    assert!(matches!(
        future.step(CommandEvent::Sent { accepted: true }),
        CommandAction::Await
    ));

    assert!(
        matches!(future.step(CommandEvent::Dropped), CommandAction::Cancel),
        "dropping CommandFuture should mark active command as cancelled"
    );
}

#[test]
fn closed_command_channel_returns_behaviour_error() {
    let mut future = CommandFuture::new(());
    assert!(matches!(
        future.step(CommandEvent::Polled),
        CommandAction::Send(())
    ));
    match future.step(CommandEvent::Sent { accepted: false }) {
        CommandAction::Fail(Error::Behaviour(text)) => assert_eq!(text, "command channel closed"),
        _ => panic!("closed command channel should fail"),
    }
}

#[test]
fn later_polls_wait_and_send_nothing() {
    let mut future = CommandFuture::new(3u8);
    assert!(matches!(
        future.step(CommandEvent::Polled),
        CommandAction::Send(3)
    ));
    for _ in 0..3 {
        assert!(matches!(
            future.step(CommandEvent::Polled),
            CommandAction::Await
        ));
    }
}

#[test]
fn send_response_returns_error_when_pending_id_is_missing() {
    let mut pending = PendingMap::<u64, &str>::new(Duration::from_secs(60));

    let err = match send_response(&mut pending, 999, "lost") {
        Ok(_) => panic!("missing pending id should fail"),
        Err(err) => err,
    };

    assert!(
        matches!(err, Error::RequestResponse(_)),
        "actual error: {err:?}"
    );
    assert_eq!(
        err.to_string(),
        "Request-response error: No pending channel for pending_id=999 (expired or already responded)"
    );
}

#[test]
fn a_response_goes_out_once_on_its_channel() {
    let mut pending = PendingMap::new(Duration::from_secs(60));
    pending.insert(4u64, "channel of four");
    pending.insert(5, "channel of five");

    let mut sending = match send_response(&mut pending, 4, "pong") {
        Ok(future) => future,
        Err(err) => panic!("unexpected error: {err:?}"),
    };
    match sending.step(CommandEvent::Polled) {
        CommandAction::Send(command) => {
            assert_eq!(command.channel, "channel of four");
            assert_eq!(command.response, "pong");
        }
        _ => panic!("the response should be sent"),
    }
    assert!(send_response(&mut pending, 4, "again").is_err());
    assert!(send_response(&mut pending, 5, "pong").is_ok());
}

#[test]
fn an_expired_request_cannot_be_answered() {
    let mut pending = PendingMap::new(Duration::from_secs(1));
    pending.insert_at(1u64, (), 0);
    assert_eq!(pending.purge_expired_at(1_000_000_000), 1);
    assert!(send_response(&mut pending, 1, "late").is_err());
}

#[test]
fn send_request_per_call_timeout_returns_typed_error() {
    let peer = test_peer();
    let call = send_request_with_options(
        peer,
        "x",
        RequestOptions::new().with_timeout(Duration::from_millis(100)),
        Duration::from_secs(30),
    );
    assert_eq!(call.timeout, Duration::from_millis(100));

    let err = settle_request::<()>(RequestOutcome::Elapsed)
        .expect_err("request without response should time out");

    assert!(
        matches!(err, Error::Network(NetworkFailureKind::Timeout)),
        "actual error: {err:?}"
    );
}

#[test]
fn a_plain_request_waits_for_the_default() {
    let peer = test_peer();
    let mut call = send_request(peer, "hello", Duration::from_secs(30));
    assert_eq!(call.timeout, Duration::from_secs(30));
    match call.future.step(CommandEvent::Polled) {
        CommandAction::Send(command) => {
            assert_eq!(command.peer_id, peer);
            assert_eq!(command.request, "hello");
        }
        _ => panic!("the request should be sent"),
    }
}

#[test]
fn a_completed_request_keeps_its_result() {
    assert!(matches!(
        settle_request(RequestOutcome::Completed(Ok("world"))),
        Ok("world")
    ));
    assert!(matches!(
        settle_request::<()>(RequestOutcome::Completed(Err(Error::Network(
            NetworkFailureKind::DialFailure
        )))),
        Err(Error::Network(NetworkFailureKind::DialFailure))
    ));
}

#[test]
fn request_options_are_set_one_by_one() {
    let none = RequestOptions::new();
    assert_eq!(none.timeout, None);
    assert_eq!(none.correlation, None);
    let both = RequestOptions::default()
        .with_correlation("upload 7")
        .with_timeout(Duration::from_secs(3));
    assert_eq!(both.timeout, Some(Duration::from_secs(3)));
    assert_eq!(both.correlation.as_deref(), Some("upload 7"));
}

#[test]
fn correlation_is_anything_that_makes_a_string() {
    let owned = RequestOptions::new().with_correlation("a".to_string());
    let borrowed = RequestOptions::new().with_correlation("b");
    let letter = RequestOptions::new().with_correlation('c');
    assert_eq!(owned.correlation.as_deref(), Some("a"));
    assert_eq!(borrowed.correlation.as_deref(), Some("b"));
    assert_eq!(letter.correlation.as_deref(), Some("c"));
}

#[test]
fn a_timeout_of_the_call_overrides_the_default_both_ways() {
    let default_timeout = Duration::from_secs(10);
    for own in [Duration::from_millis(1), Duration::from_secs(60)] {
        let call = send_request_with_options(
            test_peer(),
            (),
            RequestOptions::new().with_timeout(own),
            default_timeout,
        );
        assert_eq!(call.timeout, own);
    }
    let call = send_request_with_options(test_peer(), (), RequestOptions::new(), default_timeout);
    assert_eq!(call.timeout, default_timeout);
}

#[test]
fn errors_in_words() {
    let text = || "why".to_string();
    assert_eq!(Error::Anyhow(text()).to_string(), "why");
    assert_eq!(Error::Transport(text()).to_string(), "Transport error: why");
    assert_eq!(
        Error::Noise(text()).to_string(),
        "Noise authentication error: why"
    );
    assert_eq!(Error::Io(text()).to_string(), "IO error: why");
    assert_eq!(Error::Dial(text()).to_string(), "Dial error: why");
    assert_eq!(Error::Listen(text()).to_string(), "Listen error: why");
    assert_eq!(Error::Kad(text()).to_string(), "Kad error: why");
    assert_eq!(
        Error::RequestResponse(text()).to_string(),
        "Request-response error: why"
    );
    assert_eq!(Error::Behaviour(text()).to_string(), "Behaviour error: why");
    assert_eq!(
        Error::Network(NetworkFailureKind::Timeout).to_string(),
        "Network failure: timeout"
    );
    assert_eq!(
        Error::DataChannel(
            swarm_p2p_core::data_channel::DataChannelCloseReason::ResourceLimitExceeded
        )
        .to_string(),
        "Data channel: resource limit exceeded"
    );
}

#[test]
fn network_failures_in_words() {
    assert_eq!(NetworkFailureKind::Timeout.to_string(), "timeout");
    assert_eq!(NetworkFailureKind::DialFailure.to_string(), "dial failure");
    assert_eq!(
        NetworkFailureKind::UnsupportedProtocol.to_string(),
        "unsupported protocol"
    );
    assert_eq!(
        NetworkFailureKind::ConnectionClosed.to_string(),
        "connection closed"
    );
    assert_eq!(NetworkFailureKind::Cancelled.to_string(), "cancelled");
    assert_eq!(NetworkFailureKind::CodecError.to_string(), "codec error");
    assert_eq!(
        NetworkFailureKind::ResourceLimitExceeded.to_string(),
        "resource limit exceeded"
    );
    assert_eq!(NetworkFailureKind::Unknown.to_string(), "unknown");
}
