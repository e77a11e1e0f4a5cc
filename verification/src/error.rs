//! Failure taxonomy: transport, codec, protocol/session and media-level errors.

use vstd::prelude::*;

verus! {

/// Reason codes a receiver reports for a rejected media request.
#[derive(Clone, Debug, PartialEq, Eq, Structural)]
pub enum ErrorReason {
    NoReason,
    InvalidCommand,
    InvalidParams,
    InvalidMediaSessionId,
    InvalidRequestId,
    SkipLimitReached,
    NotSupported,
    LanguageNotSupported,
    EndOfQueue,
    DuplicateRequestId,
    VideoDeviceRequired,
    PremiumAccountRequired,
    AppError,
    AuthenticationExpired,
    ConcurrentStreamLimit,
    ParentalControlRestricted,
    ContentFiltered,
    NotAvailableInRegion,
    ContentAlreadyPlaying,
    InvalidRequest,
    GenericLoadError,
}

/// Errors a media channel response can carry.
#[derive(Clone, Debug, PartialEq, Eq, Structural)]
pub enum MediaError {
    InvalidRequest(ErrorReason),
    InvalidPlayerState,
    LoadFailed,
    LoadCancelled,
}

/// Every failure the client distinguishes.
///
/// Failures of outside subsystems (I/O, TLS, completion channels) carry the
/// reported message as text.
#[derive(Clone, Debug)]
pub enum Error {
    /// Input/output failure on the transport; connection-fatal.
    Io(String),
    /// The receiver address could not be parsed.
    AddrParseError(String),
    /// TLS handshake or stream failure; connection-fatal.
    Tls(String),
    /// The binary envelope could not be decoded.
    Decode(String),
    /// The JSON sub-envelope could not be deserialized.
    Deserialize(String),
    /// A completion channel was closed before its response arrived.
    Receive(String),
    /// A response could not be handed to its waiter.
    Send(String),
    /// No response arrived within the per-request timeout.
    ResponseTimeout,
    /// No active connection to a receiver.
    NoConnection,
    /// The receiver rejected an application launch, with its reason.
    LaunchError(String),
    /// The payload's namespace is not permitted on the chosen endpoint.
    UnsupportedNamespace,
    /// A media channel error reported inside a response.
    MediaError(MediaError),
    /// The receiver replied, but not with the variant the operation needs.
    NoResponse,
}

} // verus!
