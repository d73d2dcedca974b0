//! Requests and responses.

use crate::client::future::CommandFuture;
use crate::error::{Error, NetworkFailureKind};
use crate::foreign::duration_nanos;
use crate::pending_map::PendingMap;
use crate::request::RequestOptions;
use crate::text::{decimal, decimal_tells_numbers_apart, decimal_text};
use libp2p::PeerId;
use std::time::Duration;
use vstd::prelude::*;
use vstd::std_specs::hash::obeys_key_model;
use vstd::string::StringExecFns;

verus! {

/// How waiting for a response ended.
pub enum RequestOutcome<R> {
    /// The request ended by itself, with a response or an error.
    Completed(Result<R, Error>),
    /// The timeout of this request passed first.
    Elapsed,
}

/// The result of a request that ended like this.
pub open spec fn settled_request<R>(outcome: RequestOutcome<R>) -> Result<R, Error> {
    match outcome {
        RequestOutcome::Completed(result) => result,
        RequestOutcome::Elapsed => Err(Error::Network(NetworkFailureKind::Timeout)),
    }
}

/// The result of a request: what it ended with, or a timeout.
pub fn settle_request<R>(outcome: RequestOutcome<R>) -> (result: Result<R, Error>)
    ensures
        result == settled_request(outcome),
{
    match outcome {
        RequestOutcome::Completed(result) => result,
        RequestOutcome::Elapsed => Err(Error::Network(NetworkFailureKind::Timeout)),
    }
}

/// How long a request waits: as long as its options say, and by the node's
/// default where they say nothing.
pub open spec fn effective_timeout(options: RequestOptions, default_timeout: Duration) -> Duration {
    match options.timeout {
        Some(timeout) => timeout,
        None => default_timeout,
    }
}

/// How a wait ends that looks at the request at each of the times `polls`, in
/// nanoseconds: the request ends with `result` at `done`, and the timer rings at
/// `rings`. Each look is at the request first and at the timer second, so a
/// request that is done counts even if the timer rings as well. `None` if no
/// look finds an end.
pub open spec fn wait_outcome<R>(
    polls: Seq<nat>,
    rings: nat,
    done: nat,
    result: Result<R, Error>,
) -> Option<RequestOutcome<R>>
    decreases polls.len(),
{
    if polls.len() == 0 {
        None
    } else if done <= polls.first() {
        Some(RequestOutcome::Completed(result))
    } else if rings <= polls.first() {
        Some(RequestOutcome::Elapsed)
    } else {
        wait_outcome(polls.drop_first(), rings, done, result)
    }
}

/// A wait is over early only by the request: what is done by the time the timer
/// rings counts, whenever it is looked at.
proof fn no_timeout_before_the_ring<R>(
    polls: Seq<nat>,
    rings: nat,
    done: nat,
    result: Result<R, Error>,
)
    requires
        done <= rings,
    ensures
        match wait_outcome(polls, rings, done, result) {
            Some(outcome) => settled_request(outcome) == result,
            None => true,
        },
    decreases polls.len(),
{
    if polls.len() > 0 {
        no_timeout_before_the_ring(polls.drop_first(), rings, done, result);
    }
}

/// A look after the ring and before the end of the request ends the wait.
proof fn timeout_at_the_ring<R>(
    polls: Seq<nat>,
    rings: nat,
    done: nat,
    result: Result<R, Error>,
    i: int,
)
    requires
        0 <= i < polls.len(),
        rings <= polls[i] < done,
        forall|j: int, k: int| 0 <= j <= k < polls.len() ==> polls[j] <= polls[k],
    ensures
        wait_outcome(polls, rings, done, result) == Some(RequestOutcome::<R>::Elapsed),
    decreases polls.len(),
{
    assert(polls.first() <= polls[i]);
    if polls.first() < rings {
        let later = polls.drop_first();
        assert forall|j: int, k: int| 0 <= j <= k < later.len() implies later[j] <= later[k] by {
            assert(polls[j + 1] <= polls[k + 1]);
        }
        assert(later[i - 1] == polls[i]);
        timeout_at_the_ring(later, rings, done, result, i - 1);
    }
}

/// A request that is done at once keeps its result, whatever the timeout.
pub proof fn immediate_result_counts<R>(polls: Seq<nat>, rings: nat, result: Result<R, Error>)
    requires
        polls.len() > 0,
    ensures
        wait_outcome(polls, rings, 0, result) == Some(RequestOutcome::Completed(result)),
{
}

/// A timeout of the request's own overrides a shorter default: what is done
/// within it counts, though the default has passed. The timer rings no earlier
/// than the timeout asks.
pub proof fn own_timeout_outlasts_the_default<R>(
    options: RequestOptions,
    own: Duration,
    default_timeout: Duration,
    polls: Seq<nat>,
    rings: nat,
    done: nat,
    result: Result<R, Error>,
)
    requires
        options.timeout == Some(own),
        duration_nanos(effective_timeout(options, default_timeout)) <= rings,
        done <= duration_nanos(own),
    ensures
        match wait_outcome(polls, rings, done, result) {
            Some(outcome) => settled_request(outcome) == result,
            None => true,
        },
{
    no_timeout_before_the_ring(polls, rings, done, result);
}

/// A timeout of the request's own overrides a longer default: a look after the
/// ring, which comes `late` after the timeout, finds the request timed out,
/// though the default has not passed.
pub proof fn own_timeout_cuts_the_default_short<R>(
    options: RequestOptions,
    own: Duration,
    default_timeout: Duration,
    polls: Seq<nat>,
    late: nat,
    done: nat,
    result: Result<R, Error>,
    i: int,
)
    requires
        options.timeout == Some(own),
        0 <= i < polls.len(),
        duration_nanos(own) + late <= polls[i] < done,
        forall|j: int, k: int| 0 <= j <= k < polls.len() ==> polls[j] <= polls[k],
    ensures
        wait_outcome(
            polls,
            duration_nanos(effective_timeout(options, default_timeout)) + late,
            done,
            result,
        ) == Some(RequestOutcome::<R>::Elapsed),
        settled_request(RequestOutcome::<R>::Elapsed) == Err::<R, Error>(
            Error::Network(NetworkFailureKind::Timeout),
        ),
{
    timeout_at_the_ring(
        polls,
        duration_nanos(effective_timeout(options, default_timeout)) + late,
        done,
        result,
        i,
    );
}

/// A request without a timeout of its own waits for the node's default: what is
/// done within it counts.
pub proof fn default_timeout_applies_otherwise<R>(
    options: RequestOptions,
    default_timeout: Duration,
    polls: Seq<nat>,
    rings: nat,
    done: nat,
    result: Result<R, Error>,
)
    requires
        options.timeout is None,
        duration_nanos(effective_timeout(options, default_timeout)) <= rings,
        done <= duration_nanos(default_timeout),
    ensures
        match wait_outcome(polls, rings, done, result) {
            Some(outcome) => settled_request(outcome) == result,
            None => true,
        },
{
    no_timeout_before_the_ring(polls, rings, done, result);
}

/// A request without a timeout of its own times out by the node's default: a
/// look after the ring, which comes `late` after the default, ends the wait.
pub proof fn default_timeout_ends_the_wait<R>(
    options: RequestOptions,
    default_timeout: Duration,
    polls: Seq<nat>,
    late: nat,
    done: nat,
    result: Result<R, Error>,
    i: int,
)
    requires
        options.timeout is None,
        0 <= i < polls.len(),
        duration_nanos(default_timeout) + late <= polls[i] < done,
        forall|j: int, k: int| 0 <= j <= k < polls.len() ==> polls[j] <= polls[k],
    ensures
        wait_outcome(
            polls,
            duration_nanos(effective_timeout(options, default_timeout)) + late,
            done,
            result,
        ) == Some(RequestOutcome::<R>::Elapsed),
{
    timeout_at_the_ring(
        polls,
        duration_nanos(effective_timeout(options, default_timeout)) + late,
        done,
        result,
        i,
    );
}

/// What the caller is told when no response channel waits under `pending_id`.
pub open spec fn missing_channel_text(pending_id: u64) -> Seq<char> {
    "No pending channel for pending_id="@ + decimal(pending_id as nat)
        + " (expired or already responded)"@
}

/// Sends a request to a peer.
pub struct SendRequestCommand<Req> {
    /// The peer to ask.
    pub peer_id: PeerId,
    /// What to ask.
    pub request: Req,
}

/// Sends the response to an inbound request.
pub struct SendResponseCommand<C, Resp> {
    /// The channel that leads back to the asking peer.
    pub channel: C,
    /// What to answer.
    pub response: Resp,
}

/// A request on its way: the future of its command, and how long to wait.
pub struct RequestCall<Req> {
    /// The command's future.
    pub future: CommandFuture<SendRequestCommand<Req>>,
    /// How long to wait for the future; nothing else limits the wait.
    pub timeout: Duration,
}

/// A request that waits for the node's default.
pub fn send_request<Req>(
    peer_id: PeerId,
    request: Req,
    default_timeout: Duration,
) -> (call: RequestCall<Req>)
    ensures
        call.future@ == Some(SendRequestCommand { peer_id, request }),
        call.timeout == default_timeout,
{
    send_request_with_options(peer_id, request, RequestOptions::default(), default_timeout)
}

/// A request with options of its own; its timeout overrides the node's default.
pub fn send_request_with_options<Req>(
    peer_id: PeerId,
    request: Req,
    options: RequestOptions,
    default_timeout: Duration,
) -> (call: RequestCall<Req>)
    ensures
        call.future@ == Some(SendRequestCommand { peer_id, request }),
        call.timeout == effective_timeout(options, default_timeout),
{
    RequestCall {
        future: CommandFuture::new(SendRequestCommand { peer_id, request }),
        timeout: match options.timeout {
            Some(timeout) => timeout,
            None => default_timeout,
        },
    }
}

/// The response to the inbound request `pending_id`, on the channel that waits
/// for it. A request that expired or was answered already has no channel.
pub fn send_response<C, Resp>(
    pending_channels: &mut PendingMap<u64, C>,
    pending_id: u64,
    response: Resp,
) -> (sending: Result<CommandFuture<SendResponseCommand<C, Resp>>, Error>)
    ensures
        final(pending_channels)@ == old(pending_channels)@.remove(pending_id),
        final(pending_channels).ttl() == old(pending_channels).ttl(),
        final(pending_channels).origin() == old(pending_channels).origin(),
        sending is Ok <==> old(pending_channels)@.contains_key(pending_id),
        match sending {
            Ok(future) => future@ == Some(
                SendResponseCommand {
                    channel: old(pending_channels)@[pending_id].value,
                    response,
                },
            ),
            Err(error) => error is RequestResponse && error->RequestResponse_0@
                == missing_channel_text(pending_id),
        },
{
    broadcast use vstd::std_specs::hash::group_hash_axioms;

    assert(obeys_key_model::<u64>());
    match pending_channels.take(&pending_id) {
        Some(channel) => Ok(CommandFuture::new(SendResponseCommand { channel, response })),
        None => Err(
            Error::RequestResponse(
                "No pending channel for pending_id=".to_owned().concat(
                    decimal_text(pending_id).as_str(),
                ).concat(" (expired or already responded)"),
            ),
        ),
    }
}

/// A request that ended keeps its result, and one that did not end in time is a
/// timeout.
pub proof fn a_result_is_kept_and_a_timeout_is_one<R>(result: Result<R, Error>)
    ensures
        settled_request(RequestOutcome::Completed(result)) == result,
        settled_request(RequestOutcome::<R>::Elapsed) == Err::<R, Error>(
            Error::Network(NetworkFailureKind::Timeout),
        ),
{
}

/// The wait is the request's own timeout if it has one, whatever the default
/// and the label, and the default if it has none.
pub proof fn own_timeout_comes_first(
    own: Duration,
    default_timeout: Duration,
    correlation: Option<String>,
)
    ensures
        effective_timeout(
            RequestOptions { timeout: Some(own), correlation },
            default_timeout,
        ) == own,
        effective_timeout(
            RequestOptions { timeout: None, correlation },
            default_timeout,
        ) == default_timeout,
{
}

/// The text for a missing channel names the id, so different ids give different
/// texts.
pub proof fn missing_channel_text_names_the_id(pending_id: u64, other: u64)
    ensures
        missing_channel_text(pending_id) == "No pending channel for pending_id="@ + decimal(
            pending_id as nat,
        ) + " (expired or already responded)"@,
        missing_channel_text(pending_id) == missing_channel_text(other) ==> pending_id == other,
{
    let head = "No pending channel for pending_id="@;
    let tail = " (expired or already responded)"@;
    if missing_channel_text(pending_id) == missing_channel_text(other) {
        let text = missing_channel_text(pending_id);
        let a = decimal(pending_id as nat);
        let b = decimal(other as nat);
        assert(text.len() == head.len() + a.len() + tail.len());
        assert(missing_channel_text(other).len() == head.len() + b.len() + tail.len());
        assert(a =~= text.subrange(head.len() as int, (head.len() + a.len()) as int));
        assert(b =~= missing_channel_text(other).subrange(
            head.len() as int,
            (head.len() + b.len()) as int,
        ));
        decimal_tells_numbers_apart(pending_id as nat, other as nat);
    }
}

} // verus!
