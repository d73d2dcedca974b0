//! What the library takes from `libp2p`, `libp2p-stream` and `std` on trust.
//!
//! Every type here is opaque to the verifier. The spec functions without a
//! body name what such a value holds; the contracts below say how the outside
//! functions relate to those names.

use libp2p::multiaddr::Protocol;
use libp2p::{Multiaddr, PeerId, StreamProtocol};
use libp2p_stream::OpenStreamError;
use std::time::{Duration, Instant};
use vstd::prelude::*;

verus! {

/// `libp2p::PeerId`: the identifier of a peer.
#[verifier::external_type_specification]
#[verifier::external_body]
pub struct ExPeerId(PeerId);

/// `libp2p::Multiaddr`: a sequence of address components.
#[verifier::external_type_specification]
#[verifier::external_body]
pub struct ExMultiaddr(Multiaddr);

/// `libp2p::StreamProtocol`: the name of a stream protocol.
#[verifier::external_type_specification]
#[verifier::external_body]
pub struct ExStreamProtocol(StreamProtocol);

/// `std::time::Instant`: a reading of the machine's monotonic clock.
#[verifier::external_type_specification]
#[verifier::external_body]
pub struct ExInstant(Instant);

/// The multihash bytes of a peer identifier: its code, its length and its digest.
pub uninterp spec fn peer_id_bytes(peer: PeerId) -> Seq<u8>;

/// The characters of a stream protocol's name.
pub uninterp spec fn protocol_name(protocol: StreamProtocol) -> Seq<char>;

/// The components of a multiaddress, from first to last.
pub uninterp spec fn addr_parts(addr: Multiaddr) -> Seq<AddrPartView>;

/// `PeerId::eq`: two identifiers are equal exactly when their multihashes have
/// the same code and the same digest, that is, the same bytes.
pub assume_specification [<PeerId as PartialEq>::eq] (a: &PeerId, b: &PeerId) -> (same: bool)
    ensures
        same == (peer_id_bytes(*a) == peer_id_bytes(*b)),
;

/// `StreamProtocol::eq`: two protocols are equal exactly when their names are.
pub assume_specification [<StreamProtocol as PartialEq>::eq] (
    a: &StreamProtocol,
    b: &StreamProtocol,
) -> (same: bool)
    ensures
        same == (protocol_name(*a) == protocol_name(*b)),
;

/// `StreamProtocol::clone`: the copy is the same protocol.
pub assume_specification [<StreamProtocol as Clone>::clone] (
    protocol: &StreamProtocol,
) -> (copy: StreamProtocol)
    ensures
        copy == *protocol,
;

/// `Multiaddr::clone`: the copy is the same address.
pub assume_specification [<Multiaddr as Clone>::clone] (addr: &Multiaddr) -> (copy: Multiaddr)
    ensures
        copy == *addr,
;

/// One component of a multiaddress, as far as this library tells components apart.
pub enum AddrPart {
    /// `/p2p/<peer>`.
    P2p(PeerId),
    /// `/p2p-circuit`.
    P2pCircuit,
    /// Any other component, by its text (such as `/tcp/4001`).
    Other(String),
}

/// The mathematical value of an [`AddrPart`].
pub enum AddrPartView {
    /// A peer, by the bytes of its identifier.
    P2p(Seq<u8>),
    /// The relay circuit marker.
    P2pCircuit,
    /// Any other component, by its text.
    Other(Seq<char>),
}

impl View for AddrPart {
    type V = AddrPartView;

    open spec fn view(&self) -> AddrPartView {
        match self {
            AddrPart::P2p(peer) => AddrPartView::P2p(peer_id_bytes(*peer)),
            AddrPart::P2pCircuit => AddrPartView::P2pCircuit,
            AddrPart::Other(text) => AddrPartView::Other(text@),
        }
    }
}

/// `Multiaddr::iter`: hands out the components in order, each turned into an
/// [`AddrPart`]; components other than `/p2p` and `/p2p-circuit` come as their text.
#[verifier::external_body]
pub(crate) fn components(addr: &Multiaddr) -> (parts: Vec<AddrPart>)
    ensures
        parts@.map_values(|part: AddrPart| part@) == addr_parts(*addr),
{
    addr.iter()
        .map(|part| match part {
            Protocol::P2p(peer) => AddrPart::P2p(peer),
            Protocol::P2pCircuit => AddrPart::P2pCircuit,
            other => AddrPart::Other(other.to_string()),
        })
        .collect()
}

/// A component that can be appended to an address.
pub enum AppendedPart {
    /// `/p2p/<peer>`.
    P2p(PeerId),
    /// `/p2p-circuit`.
    P2pCircuit,
}

impl View for AppendedPart {
    type V = AddrPartView;

    open spec fn view(&self) -> AddrPartView {
        match self {
            AppendedPart::P2p(peer) => AddrPartView::P2p(peer_id_bytes(*peer)),
            AppendedPart::P2pCircuit => AddrPartView::P2pCircuit,
        }
    }
}

/// `Multiaddr::with`: the address with one component added at its end.
#[verifier::external_body]
pub(crate) fn append_component(addr: Multiaddr, part: AppendedPart) -> (longer: Multiaddr)
    ensures
        addr_parts(longer) == addr_parts(addr).push(part@),
{
    addr.with(match part {
        AppendedPart::P2p(peer) => Protocol::P2p(peer),
        AppendedPart::P2pCircuit => Protocol::P2pCircuit,
    })
}

/// The length of a span of time, in nanoseconds.
pub uninterp spec fn duration_nanos(span: Duration) -> nat;

/// `Duration::as_nanos`: the total number of nanoseconds of the span.
pub assume_specification [Duration::as_nanos] (span: &Duration) -> (nanos: u128)
    ensures
        nanos == duration_nanos(*span),
;

/// `Instant::now`: reads the clock. The result is the machine's to choose, so
/// nothing is said of it.
pub assume_specification [Instant::now] () -> (now: Instant)
;

/// `Instant::elapsed`: the time since the reading. The result is the machine's
/// to choose, so nothing is said of it.
pub assume_specification [Instant::elapsed] (since: &Instant) -> (span: Duration)
;

/// `libp2p_stream::OpenStreamError`: why a stream could not be opened.
#[verifier::external_type_specification]
#[verifier::external_body]
pub struct ExOpenStreamError(OpenStreamError);

/// Why a stream could not be opened.
pub enum OpenFailure {
    /// The remote end does not speak the protocol.
    UnsupportedProtocol,
    /// An I/O error during the handshake, with its text.
    Io(String),
    /// A kind of error that is not known here.
    Other,
}

/// The kind of an [`OpenFailure`].
pub enum OpenFailureKind {
    /// The remote end does not speak the protocol.
    UnsupportedProtocol,
    /// An I/O error during the handshake.
    Io,
    /// A kind of error that is not known here.
    Other,
}

impl OpenFailure {
    /// The kind of this failure.
    pub open spec fn kind(self) -> OpenFailureKind {
        match self {
            OpenFailure::UnsupportedProtocol => OpenFailureKind::UnsupportedProtocol,
            OpenFailure::Io(_) => OpenFailureKind::Io,
            OpenFailure::Other => OpenFailureKind::Other,
        }
    }
}

/// Which variant of `OpenStreamError` an error is.
pub uninterp spec fn open_failure_kind(err: OpenStreamError) -> OpenFailureKind;

/// `OpenStreamError`: tells its variants apart and takes the text of an I/O
/// error (`io::Error::to_string`). The kind is that of the variant; of the text
/// nothing is said, since the machine words it.
#[verifier::external_body]
pub(crate) fn open_failure(err: OpenStreamError) -> (failure: OpenFailure)
    ensures
        failure.kind() == open_failure_kind(err),
{
    match err {
        OpenStreamError::UnsupportedProtocol(_) => OpenFailure::UnsupportedProtocol,
        OpenStreamError::Io(error) => OpenFailure::Io(error.to_string()),
        _ => OpenFailure::Other,
    }
}

/// A component is known by the peer it names, by being the circuit marker, or
/// by its text.
pub proof fn components_are_known_by_content(peer: PeerId, text: String)
    ensures
        AddrPart::P2p(peer)@ == AddrPartView::P2p(peer_id_bytes(peer)),
        AddrPart::P2pCircuit@ == AddrPartView::P2pCircuit,
        AddrPart::Other(text)@ == AddrPartView::Other(text@),
        AppendedPart::P2p(peer)@ == AddrPartView::P2p(peer_id_bytes(peer)),
        AppendedPart::P2pCircuit@ == AddrPartView::P2pCircuit,
{
}

/// Every failure to open a stream is of one kind, whatever its text.
pub proof fn failures_are_of_one_kind(failure: OpenFailure)
    ensures
        failure is UnsupportedProtocol <==> failure.kind() is UnsupportedProtocol,
        failure is Io <==> failure.kind() is Io,
        failure is Other <==> failure.kind() is Other,
{
}

} // verus!
