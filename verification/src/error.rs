//! Errors of the network core.

use crate::data_channel::DataChannelCloseReason;
use vstd::prelude::*;
use vstd::string::StringExecFns;

verus! {

/// The result of a network operation.
pub type Result<T> = std::result::Result<T, Error>;

/// What can go wrong in the network core.
///
/// Errors of other libraries are kept as their text.
#[derive(Debug, Clone, PartialEq, Eq)]
pub enum Error {
    /// Any other error, by its own text.
    Anyhow(String),
    /// The transport could not be set up.
    Transport(String),
    /// The noise handshake failed.
    Noise(String),
    /// An I/O error.
    Io(String),
    /// Dialing a peer failed.
    Dial(String),
    /// Listening on an address failed.
    Listen(String),
    /// A distributed hash table operation failed.
    Kad(String),
    /// A request or response could not be delivered.
    RequestResponse(String),
    /// The network behaviour failed.
    Behaviour(String),
    /// A classified network failure.
    Network(NetworkFailureKind),
    /// A data channel closed or could not be opened.
    DataChannel(DataChannelCloseReason),
}

impl Error {
    /// The error in words.
    pub open spec fn describe(&self) -> Seq<char> {
        match self {
            Self::Anyhow(text) => text@,
            Self::Transport(text) => "Transport error: "@ + text@,
            Self::Noise(text) => "Noise authentication error: "@ + text@,
            Self::Io(text) => "IO error: "@ + text@,
            Self::Dial(text) => "Dial error: "@ + text@,
            Self::Listen(text) => "Listen error: "@ + text@,
            Self::Kad(text) => "Kad error: "@ + text@,
            Self::RequestResponse(text) => "Request-response error: "@ + text@,
            Self::Behaviour(text) => "Behaviour error: "@ + text@,
            Self::Network(kind) => "Network failure: "@ + kind.describe(),
            Self::DataChannel(reason) => "Data channel: "@ + reason.describe(),
        }
    }

    /// The error in words.
    pub fn to_string(&self) -> (text: String)
        ensures
            text@ == self.describe(),
    {
        match self {
            Self::Anyhow(text) => text.as_str().to_owned(),
            Self::Transport(text) => "Transport error: ".to_owned().concat(text.as_str()),
            Self::Noise(text) => "Noise authentication error: ".to_owned().concat(text.as_str()),
            Self::Io(text) => "IO error: ".to_owned().concat(text.as_str()),
            Self::Dial(text) => "Dial error: ".to_owned().concat(text.as_str()),
            Self::Listen(text) => "Listen error: ".to_owned().concat(text.as_str()),
            Self::Kad(text) => "Kad error: ".to_owned().concat(text.as_str()),
            Self::RequestResponse(text) => "Request-response error: ".to_owned().concat(
                text.as_str(),
            ),
            Self::Behaviour(text) => "Behaviour error: ".to_owned().concat(text.as_str()),
            Self::Network(kind) => "Network failure: ".to_owned().concat(
                kind.to_string().as_str(),
            ),
            Self::DataChannel(reason) => "Data channel: ".to_owned().concat(
                reason.to_string().as_str(),
            ),
        }
    }
}

/// The class of a network failure, for callers that react to it.
#[derive(Debug, Clone, PartialEq, Eq, Structural)]
pub enum NetworkFailureKind {
    /// The request took too long.
    Timeout,
    /// No connection could be made.
    DialFailure,
    /// The remote end does not speak the protocol.
    UnsupportedProtocol,
    /// The connection closed before the request was done.
    ConnectionClosed,
    /// Cancelled locally.
    Cancelled,
    /// A message could not be encoded or decoded.
    CodecError,
    /// A resource limit was reached.
    ResourceLimitExceeded,
    /// Any other failure.
    Unknown,
}

impl NetworkFailureKind {
    /// The class in words.
    pub open spec fn describe(&self) -> Seq<char> {
        match self {
            Self::Timeout => "timeout"@,
            Self::DialFailure => "dial failure"@,
            Self::UnsupportedProtocol => "unsupported protocol"@,
            Self::ConnectionClosed => "connection closed"@,
            Self::Cancelled => "cancelled"@,
            Self::CodecError => "codec error"@,
            Self::ResourceLimitExceeded => "resource limit exceeded"@,
            Self::Unknown => "unknown"@,
        }
    }

    /// The class in words.
    pub fn to_string(&self) -> (text: String)
        ensures
            text@ == self.describe(),
    {
        let text = match self {
            Self::Timeout => "timeout",
            Self::DialFailure => "dial failure",
            Self::UnsupportedProtocol => "unsupported protocol",
            Self::ConnectionClosed => "connection closed",
            Self::Cancelled => "cancelled",
            Self::CodecError => "codec error",
            Self::ResourceLimitExceeded => "resource limit exceeded",
            Self::Unknown => "unknown",
        };
        text.to_owned()
    }
}

/// Every error says what failed and then why; an error of no class of its own
/// speaks for itself.
pub proof fn errors_say_what_and_why(
    text: String,
    kind: NetworkFailureKind,
    reason: DataChannelCloseReason,
)
    ensures
        Error::Anyhow(text).describe() == text@,
        Error::Transport(text).describe() == "Transport error: "@ + text@,
        Error::Noise(text).describe() == "Noise authentication error: "@ + text@,
        Error::Io(text).describe() == "IO error: "@ + text@,
        Error::Dial(text).describe() == "Dial error: "@ + text@,
        Error::Listen(text).describe() == "Listen error: "@ + text@,
        Error::Kad(text).describe() == "Kad error: "@ + text@,
        Error::RequestResponse(text).describe() == "Request-response error: "@ + text@,
        Error::Behaviour(text).describe() == "Behaviour error: "@ + text@,
        Error::Network(kind).describe() == "Network failure: "@ + kind.describe(),
        Error::DataChannel(reason).describe() == "Data channel: "@ + reason.describe(),
{
}

/// The words for each class of network failure.
pub proof fn network_failures_have_their_words()
    ensures
        NetworkFailureKind::Timeout.describe() == "timeout"@,
        NetworkFailureKind::DialFailure.describe() == "dial failure"@,
        NetworkFailureKind::UnsupportedProtocol.describe() == "unsupported protocol"@,
        NetworkFailureKind::ConnectionClosed.describe() == "connection closed"@,
        NetworkFailureKind::Cancelled.describe() == "cancelled"@,
        NetworkFailureKind::CodecError.describe() == "codec error"@,
        NetworkFailureKind::ResourceLimitExceeded.describe() == "resource limit exceeded"@,
        NetworkFailureKind::Unknown.describe() == "unknown"@,
{
}

} // verus!
