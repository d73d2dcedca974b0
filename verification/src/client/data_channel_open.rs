//! Opening an outbound data channel.
//!
//! [`DataChannelOpenFuture`] is the state of one opening. It takes its share of
//! the quota when it is first polled, not when it is made. However the opening
//! ends without a channel (failure, timeout, the caller giving up), the share
//! goes back to the registry.

use crate::data_channel::{
    given_back, slot_of, ChannelGuard, ChannelIdCounter, ChannelRegistry, DataChannel,
    DataChannelCloseReason, DataChannelDirection, DataChannelId, DataChannelLimits,
    DataChannelView, RegistryCounts, Slot, release_undoes_acquire, successor,
};
use crate::error::{Error, NetworkFailureKind};
use crate::foreign::{
    open_failure, open_failure_kind, peer_id_bytes, protocol_name, OpenFailure, OpenFailureKind,
};
use libp2p::{PeerId, StreamProtocol};
use libp2p_stream::OpenStreamError;
use std::time::Duration;
use vstd::prelude::*;

verus! {

/// How far an opening has come.
enum OpenState {
    /// Not polled yet; no quota is taken.
    Init,
    /// The stream is being negotiated; the guard holds the quota.
    Opening { id: DataChannelId, guard: ChannelGuard },
    /// Over, with or without a channel.
    Finished,
}

/// The mathematical value of an opening's state.
pub enum OpenPhase {
    /// Not polled yet.
    Init,
    /// The stream is being negotiated under this id and with this slot taken.
    Opening { id: DataChannelId, slot: Slot },
    /// Over.
    Finished,
}

/// The opening of an outbound data channel.
pub struct DataChannelOpenFuture {
    peer_id: PeerId,
    protocol: StreamProtocol,
    open_timeout: Duration,
    state: OpenState,
}

/// The mathematical value of a [`DataChannelOpenFuture`].
pub struct OpenView {
    /// The peer to open the channel to.
    pub peer_id: PeerId,
    /// The protocol to speak.
    pub protocol: StreamProtocol,
    /// How long the negotiation may take.
    pub open_timeout: Duration,
    /// How far the opening has come.
    pub phase: OpenPhase,
}

impl OpenView {
    /// The slot that the opening asks for.
    pub open spec fn wanted(self) -> Slot {
        slot_of(self.peer_id, self.protocol, DataChannelDirection::Outbound)
    }

    /// The channel that the opening ends with once `stream` is open.
    pub open spec fn channel<S>(self, stream: S) -> DataChannelView<S> {
        DataChannelView {
            id: self.phase->id,
            peer: self.peer_id,
            protocol: self.protocol,
            direction: DataChannelDirection::Outbound,
            stream,
            slot: self.held(),
        }
    }

    /// The slot that the opening holds.
    pub open spec fn held(self) -> Option<Slot> {
        match self.phase {
            OpenPhase::Opening { slot, .. } => Some(slot),
            _ => None,
        }
    }
}

impl View for DataChannelOpenFuture {
    type V = OpenView;

    closed spec fn view(&self) -> OpenView {
        OpenView {
            peer_id: self.peer_id,
            protocol: self.protocol,
            open_timeout: self.open_timeout,
            phase: match self.state {
                OpenState::Init => OpenPhase::Init,
                OpenState::Opening { id, guard } => OpenPhase::Opening { id, slot: guard@ },
                OpenState::Finished => OpenPhase::Finished,
            },
        }
    }
}

/// How the negotiation of a stream ended.
pub enum OpenOutcome<S> {
    /// The stream is open.
    Opened(S),
    /// The stream could not be opened.
    Failed(OpenStreamError),
    /// It took longer than the timeout.
    Elapsed,
}

/// The error for a stream that could not be opened.
pub open spec fn failure_error(failure: OpenFailure) -> Error {
    match failure {
        OpenFailure::UnsupportedProtocol => Error::DataChannel(
            DataChannelCloseReason::UnsupportedProtocol,
        ),
        OpenFailure::Io(text) => Error::DataChannel(DataChannelCloseReason::Io(text)),
        OpenFailure::Other => Error::Network(NetworkFailureKind::Unknown),
    }
}

/// The error for a stream that could not be opened.
pub fn open_failure_error(failure: OpenFailure) -> (error: Error)
    ensures
        error == failure_error(failure),
{
    match failure {
        OpenFailure::UnsupportedProtocol => Error::DataChannel(
            DataChannelCloseReason::UnsupportedProtocol,
        ),
        OpenFailure::Io(text) => Error::DataChannel(DataChannelCloseReason::Io(text)),
        OpenFailure::Other => Error::Network(NetworkFailureKind::Unknown),
    }
}

/// Whether `error` is what a failure of this kind is reported as.
pub open spec fn reports(error: Error, kind: OpenFailureKind) -> bool {
    match kind {
        OpenFailureKind::UnsupportedProtocol => error == Error::DataChannel(
            DataChannelCloseReason::UnsupportedProtocol,
        ),
        OpenFailureKind::Io => error is DataChannel && error->DataChannel_0 is Io,
        OpenFailureKind::Other => error == Error::Network(NetworkFailureKind::Unknown),
    }
}

/// Whether `failure` is what [`open_failure`] takes out of `err`: its variant,
/// and the text of an I/O error.
pub closed spec fn came_apart(err: OpenStreamError, failure: OpenFailure) -> bool {
    call_ensures(open_failure, (err,), failure)
}

/// Whether `error` is what `err` is reported as: the error of its kind, with
/// the text that came with it.
pub open spec fn reported_as(err: OpenStreamError, error: Error) -> bool {
    &&& reports(error, open_failure_kind(err))
    &&& exists|failure: OpenFailure| #[trigger]
        came_apart(err, failure) && error == failure_error(failure)
}

/// Turns an error of `libp2p-stream` into a typed close reason. An I/O error
/// keeps its text, which is the machine's own wording.
pub fn map_open_stream_error(err: OpenStreamError) -> (error: Error)
    ensures
        reported_as(err, error),
{
    let failure = open_failure(err);
    assert(came_apart(err, failure));
    open_failure_error(failure)
}

impl DataChannelOpenFuture {
    /// An opening that has not started; it takes no quota until it is polled.
    pub fn new(
        peer_id: PeerId,
        protocol: StreamProtocol,
        open_timeout: Duration,
    ) -> (opening: Self)
        ensures
            opening@ == (OpenView { peer_id, protocol, open_timeout, phase: OpenPhase::Init }),
    {
        Self { peer_id, protocol, open_timeout, state: OpenState::Init }
    }

    /// The peer to open the channel to.
    pub fn peer_id(&self) -> (peer_id: PeerId)
        ensures
            peer_id == self@.peer_id,
    {
        self.peer_id
    }

    /// The protocol to speak.
    pub fn protocol(&self) -> (protocol: &StreamProtocol)
        ensures
            *protocol == self@.protocol,
    {
        &self.protocol
    }

    /// How long the negotiation may take.
    pub fn open_timeout(&self) -> (open_timeout: Duration)
        ensures
            open_timeout == self@.open_timeout,
    {
        self.open_timeout
    }

    /// Whether the opening has not been polled yet.
    pub fn is_init(&self) -> (init: bool)
        ensures
            init == (self@.phase is Init),
    {
        matches!(self.state, OpenState::Init)
    }

    /// Whether the opening is over.
    pub fn is_finished(&self) -> (finished: bool)
        ensures
            finished == (self@.phase is Finished),
    {
        matches!(self.state, OpenState::Finished)
    }

    /// The first poll: takes the quota and an id for the channel. Beyond a
    /// limit the opening is over at once.
    pub fn into_opening(
        &mut self,
        registry: &mut ChannelRegistry,
        ids: &mut ChannelIdCounter,
    ) -> (started: Result<(), Error>)
        requires
            old(self)@.phase is Init,
            old(registry).wf(),
        ensures
            final(registry).wf(),
            final(registry).limits() == old(registry).limits(),
            started is Ok <==> old(registry)@.admits(old(registry).limits(), old(self)@.wanted()),
            match started {
                Ok(()) => {
                    &&& final(registry)@ == old(registry)@.acquired(old(self)@.wanted())
                    &&& final(ids).next == successor(old(ids).next)
                    &&& final(self)@ == (OpenView {
                        phase: OpenPhase::Opening {
                            id: DataChannelId(old(ids).next),
                            slot: old(self)@.wanted(),
                        },
                        ..old(self)@
                    })
                },
                Err(error) => {
                    &&& error == Error::DataChannel(DataChannelCloseReason::ResourceLimitExceeded)
                    &&& final(registry)@ == old(registry)@
                    &&& final(ids).next == old(ids).next
                    &&& final(self)@ == (OpenView { phase: OpenPhase::Finished, ..old(self)@ })
                },
            },
    {
        match registry.try_acquire(
            self.peer_id,
            self.protocol.clone(),
            DataChannelDirection::Outbound,
        ) {
            Some(guard) => {
                let id = DataChannelId::next(ids);
                self.state = OpenState::Opening { id, guard };
                Ok(())
            },
            None => {
                self.state = OpenState::Finished;
                Err(Error::DataChannel(DataChannelCloseReason::ResourceLimitExceeded))
            },
        }
    }

    /// The negotiation ended, with a stream or an error: either there is a
    /// channel that holds the quota from now on, or the quota goes back.
    pub fn finish<S>(
        &mut self,
        registry: &mut ChannelRegistry,
        result: Result<S, Error>,
    ) -> (opened: Result<DataChannel<S>, Error>)
        requires
            old(self)@.phase is Opening,
            old(registry).wf(),
        ensures
            final(registry).wf(),
            final(registry).limits() == old(registry).limits(),
            final(self)@ == (OpenView { phase: OpenPhase::Finished, ..old(self)@ }),
            match result {
                Ok(stream) => {
                    &&& opened is Ok
                    &&& opened->Ok_0@ == old(self)@.channel(stream)
                    &&& final(registry)@ == old(registry)@
                },
                Err(error) => {
                    &&& opened == Err::<DataChannel<S>, Error>(error)
                    &&& final(registry)@ == given_back(old(registry)@, old(self)@.held())
                },
            },
    {
        let mut state = OpenState::Finished;
        std::mem::swap(&mut self.state, &mut state);
        match state {
            OpenState::Opening { id, guard } => match result {
                Ok(stream) => Ok(
                    DataChannel::new(
                        id,
                        self.peer_id,
                        self.protocol.clone(),
                        DataChannelDirection::Outbound,
                        stream,
                        Some(guard),
                    ),
                ),
                Err(error) => {
                    registry.release(guard);
                    Err(error)
                },
            },
            _ => vstd::pervasive::unreached(),
        }
    }

    /// The negotiation ended: either there is a channel that holds the quota
    /// from now on, or the quota goes back and the error says why.
    pub fn settle<S>(
        &mut self,
        registry: &mut ChannelRegistry,
        outcome: OpenOutcome<S>,
    ) -> (opened: Result<DataChannel<S>, Error>)
        requires
            old(self)@.phase is Opening,
            old(registry).wf(),
        ensures
            final(registry).wf(),
            final(registry).limits() == old(registry).limits(),
            final(self)@ == (OpenView { phase: OpenPhase::Finished, ..old(self)@ }),
            match outcome {
                OpenOutcome::Opened(stream) => {
                    &&& opened is Ok
                    &&& opened->Ok_0@ == old(self)@.channel(stream)
                    &&& final(registry)@ == old(registry)@
                },
                OpenOutcome::Failed(err) => {
                    &&& opened is Err
                    &&& reported_as(err, opened->Err_0)
                    &&& final(registry)@ == given_back(old(registry)@, old(self)@.held())
                },
                OpenOutcome::Elapsed => {
                    &&& opened == Err::<DataChannel<S>, Error>(
                        Error::Network(NetworkFailureKind::Timeout),
                    )
                    &&& final(registry)@ == given_back(old(registry)@, old(self)@.held())
                },
            },
    {
        let result = match outcome {
            OpenOutcome::Opened(stream) => Ok(stream),
            OpenOutcome::Failed(err) => Err(map_open_stream_error(err)),
            OpenOutcome::Elapsed => Err(Error::Network(NetworkFailureKind::Timeout)),
        };
        self.finish(registry, result)
    }

    /// The caller gives up on the opening: what it holds of the quota goes back.
    pub fn abandon(self, registry: &mut ChannelRegistry)
        requires
            old(registry).wf(),
        ensures
            final(registry).wf(),
            final(registry).limits() == old(registry).limits(),
            final(registry)@ == given_back(old(registry)@, self@.held()),
    {
        if let OpenState::Opening { guard, .. } = self.state {
            registry.release(guard);
        }
    }
}

/// An opening that started and ended without a channel leaves the registry as
/// it was before the start.
pub proof fn failed_opening_costs_nothing(
    counts: RegistryCounts,
    limits: DataChannelLimits,
    before: OpenView,
    id: DataChannelId,
)
    requires
        counts.within(limits),
        counts.admits(limits, before.wanted()),
    ensures
        given_back(
            counts.acquired(before.wanted()),
            (OpenView {
                phase: OpenPhase::Opening { id, slot: before.wanted() },
                ..before
            }).held(),
        ) == counts,
{
    release_undoes_acquire(counts, limits, before.wanted());
}

/// An opening that was never polled, or that is over, holds no quota.
pub proof fn only_a_running_opening_holds_quota(opening: OpenView)
    ensures
        opening.held() is Some <==> opening.phase is Opening,
{
}

/// Each kind of failure has its own error, and an I/O error keeps its text.
pub proof fn every_failure_has_its_error(text: String)
    ensures
        failure_error(OpenFailure::UnsupportedProtocol) == Error::DataChannel(
            DataChannelCloseReason::UnsupportedProtocol,
        ),
        failure_error(OpenFailure::Io(text)) == Error::DataChannel(
            DataChannelCloseReason::Io(text),
        ),
        failure_error(OpenFailure::Other) == Error::Network(NetworkFailureKind::Unknown),
{
}

/// What an error of `libp2p-stream` is reported as: an unsupported protocol and
/// an unknown error by exactly one error each, and an I/O error by one with the
/// text of a failure of that kind.
pub proof fn reports_fit_the_kind(err: OpenStreamError, error: Error)
    requires
        reported_as(err, error),
    ensures
        open_failure_kind(err) is UnsupportedProtocol ==> error == Error::DataChannel(
            DataChannelCloseReason::UnsupportedProtocol,
        ),
        open_failure_kind(err) is Other ==> error == Error::Network(NetworkFailureKind::Unknown),
        open_failure_kind(err) is Io ==> exists|text: String|
            #[trigger] came_apart(err, OpenFailure::Io(text)) && error == Error::DataChannel(
                DataChannelCloseReason::Io(text),
            ),
{
    let failure = choose|failure: OpenFailure| #[trigger]
        came_apart(err, failure) && error == failure_error(failure);
    if open_failure_kind(err) is Io {
        assert(failure is Io);
        assert(failure == OpenFailure::Io(failure->Io_0));
    }
}

/// An opening asks for an outbound slot of its peer and its protocol, holds what
/// it took while it runs, and hands exactly that to the channel.
pub proof fn an_opening_asks_holds_and_hands_over_one_slot<S>(
    opening: OpenView,
    id: DataChannelId,
    slot: Slot,
    stream: S,
)
    ensures
        opening.wanted() == (Slot {
            peer: peer_id_bytes(opening.peer_id),
            protocol: protocol_name(opening.protocol),
            direction: DataChannelDirection::Outbound,
        }),
        opening.phase is Init ==> opening.held() is None,
        opening.phase is Finished ==> opening.held() is None,
        opening.phase == (OpenPhase::Opening { id, slot }) ==> opening.held() == Some(slot),
        opening.phase == (OpenPhase::Opening { id, slot }) ==> opening.channel(stream) == (
        DataChannelView {
            id,
            peer: opening.peer_id,
            protocol: opening.protocol,
            direction: DataChannelDirection::Outbound,
            stream,
            slot: Some(slot),
        }),
{
}

/// A failure comes out of an error only by taking the error apart, and is of the
/// error's kind.
pub(crate) proof fn failures_come_from_their_errors(err: OpenStreamError, failure: OpenFailure)
    requires
        came_apart(err, failure),
    ensures
        call_ensures(open_failure, (err,), failure),
        failure.kind() == open_failure_kind(err),
{
}

} // verus!
