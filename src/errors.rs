//! The error taxonomy, each kind with a stable label for metrics and logs.

use vstd::prelude::*;
use crate::text::equal;

verus! {

/// Errors the pipeline raises itself.
#[derive(Debug, PartialEq, Eq)]
pub enum UmamiProxyError {
    RequestContainsInvalidJson,
    JsonCoParseError,
    NoMatchingPeer,
    PrematureBodyEnd,
    FieldTooLong,
}

/// How a failed request is classified for metrics.
#[derive(Debug, PartialEq, Eq)]
pub enum ErrorDescription {
    SslError,
    ConnectionError,
    UpstreamConnectionFailure,
    UntrackedError,
    ClientDisconnectedError,
    UmamiProxyError(UmamiProxyError),
}

/// The label of a pipeline error: its variant's name.
pub open spec fn proxy_error_label(e: UmamiProxyError) -> Seq<char> {
    match e {
        UmamiProxyError::RequestContainsInvalidJson => "RequestContainsInvalidJson"@,
        UmamiProxyError::JsonCoParseError => "JsonCoParseError"@,
        UmamiProxyError::NoMatchingPeer => "NoMatchingPeer"@,
        UmamiProxyError::PrematureBodyEnd => "PrematureBodyEnd"@,
        UmamiProxyError::FieldTooLong => "FieldTooLong"@,
    }
}

/// The label of a classification: its variant's name, or the pipeline
/// error's own label.
pub open spec fn description_label(e: ErrorDescription) -> Seq<char> {
    match e {
        ErrorDescription::SslError => "SslError"@,
        ErrorDescription::ConnectionError => "ConnectionError"@,
        ErrorDescription::UpstreamConnectionFailure => "UpstreamConnectionFailure"@,
        ErrorDescription::UntrackedError => "UntrackedError"@,
        ErrorDescription::ClientDisconnectedError => "ClientDisconnectedError"@,
        ErrorDescription::UmamiProxyError(p) => proxy_error_label(p),
    }
}

impl UmamiProxyError {
    /// The error's stable label.
    pub fn as_str(&self) -> (r: &'static str)
        ensures
            r@ == proxy_error_label(*self),
    {
        match self {
            UmamiProxyError::RequestContainsInvalidJson => "RequestContainsInvalidJson",
            UmamiProxyError::JsonCoParseError => "JsonCoParseError",
            UmamiProxyError::NoMatchingPeer => "NoMatchingPeer",
            UmamiProxyError::PrematureBodyEnd => "PrematureBodyEnd",
            UmamiProxyError::FieldTooLong => "FieldTooLong",
        }
    }

    /// The error whose label is `s`, if there is one.
    pub fn from_label(s: &str) -> (r: Option<UmamiProxyError>)
        ensures
            r is Some <==> exists|e: UmamiProxyError| proxy_error_label(e) == s@,
            r is Some ==> proxy_error_label(r->0) == s@,
    {
        let r = if equal(s, "RequestContainsInvalidJson") {
            Some(UmamiProxyError::RequestContainsInvalidJson)
        } else if equal(s, "JsonCoParseError") {
            Some(UmamiProxyError::JsonCoParseError)
        } else if equal(s, "NoMatchingPeer") {
            Some(UmamiProxyError::NoMatchingPeer)
        } else if equal(s, "PrematureBodyEnd") {
            Some(UmamiProxyError::PrematureBodyEnd)
        } else if equal(s, "FieldTooLong") {
            Some(UmamiProxyError::FieldTooLong)
        } else {
            None
        };
        proof {
            if r is Some {
                assert(proxy_error_label(r->0) == s@);
            }
            if r is None {
                assert forall|e: UmamiProxyError| proxy_error_label(e) != s@ by {
                    match e {
                        UmamiProxyError::RequestContainsInvalidJson => {},
                        UmamiProxyError::JsonCoParseError => {},
                        UmamiProxyError::NoMatchingPeer => {},
                        UmamiProxyError::PrematureBodyEnd => {},
                        UmamiProxyError::FieldTooLong => {},
                    }
                }
            }
        }
        r
    }
}

impl ErrorDescription {
    /// The classification's stable label.
    pub fn as_str(&self) -> (r: &'static str)
        ensures
            r@ == description_label(*self),
    {
        match self {
            ErrorDescription::SslError => "SslError",
            ErrorDescription::ConnectionError => "ConnectionError",
            ErrorDescription::UpstreamConnectionFailure => "UpstreamConnectionFailure",
            ErrorDescription::UntrackedError => "UntrackedError",
            ErrorDescription::ClientDisconnectedError => "ClientDisconnectedError",
            ErrorDescription::UmamiProxyError(e) => e.as_str(),
        }
    }
}

impl From<UmamiProxyError> for ErrorDescription {
    fn from(error: UmamiProxyError) -> (r: Self)
        ensures
            r == ErrorDescription::UmamiProxyError(error),
    {
        ErrorDescription::UmamiProxyError(error)
    }
}

impl vstd::std_specs::convert::FromSpecImpl<UmamiProxyError> for ErrorDescription {
    open spec fn obeys_from_spec() -> bool {
        true
    }

    open spec fn from_spec(error: UmamiProxyError) -> Self {
        ErrorDescription::UmamiProxyError(error)
    }
}

/// Classifies a custom error raised with a label: the pipeline error of that
/// label, or untracked when no pipeline error has it.
pub fn classify_custom(label: &str) -> (r: ErrorDescription)
    ensures
        (exists|e: UmamiProxyError| proxy_error_label(e) == label@) ==> r is UmamiProxyError && proxy_error_label(
            r->UmamiProxyError_0,
        ) == label@,
        !(exists|e: UmamiProxyError| proxy_error_label(e) == label@) ==> r == ErrorDescription::UntrackedError,
{
    match UmamiProxyError::from_label(label) {
        Some(e) => ErrorDescription::UmamiProxyError(e),
        None => ErrorDescription::UntrackedError,
    }
}

/// What went wrong with a request, as the transport reports it.
#[derive(Debug, PartialEq, Eq)]
pub enum FailureKind {
    TlsHandshakeFailure,
    TlsHandshakeTimedout,
    InvalidCert,
    HandshakeError,
    ConnectTimedout,
    ConnectRefused,
    ConnectNoRoute,
    ConnectError,
    BindError,
    AcceptError,
    SocketError,
    ConnectionClosed,
    ConnectProxyFailure,
    /// An error raised by the pipeline itself, with its label.
    Custom(String),
    /// Anything else.
    Other,
}

/// How a failure is classified for metrics.
pub open spec fn classification(kind: FailureKind) -> ErrorDescription {
    match kind {
        FailureKind::TlsHandshakeFailure | FailureKind::TlsHandshakeTimedout | FailureKind::InvalidCert
        | FailureKind::HandshakeError => ErrorDescription::SslError,
        FailureKind::ConnectTimedout | FailureKind::ConnectRefused | FailureKind::ConnectNoRoute
        | FailureKind::ConnectError | FailureKind::BindError | FailureKind::AcceptError
        | FailureKind::SocketError => ErrorDescription::ConnectionError,
        FailureKind::ConnectionClosed => ErrorDescription::ClientDisconnectedError,
        FailureKind::ConnectProxyFailure => ErrorDescription::UpstreamConnectionFailure,
        FailureKind::Custom(_) => ErrorDescription::UntrackedError,
        FailureKind::Other => ErrorDescription::UntrackedError,
    }
}

/// Classifies a failed request: TLS failures, connection failures, client
/// disconnects and proxy-connect failures each have their class; a custom
/// error is the pipeline error of its label, or untracked.
pub fn classify_failure(kind: &FailureKind) -> (r: ErrorDescription)
    ensures
        !(kind is Custom) ==> r == classification(*kind),
        kind is Custom && (exists|e: UmamiProxyError| proxy_error_label(e) == kind->Custom_0@) ==> r is UmamiProxyError
            && proxy_error_label(r->UmamiProxyError_0) == kind->Custom_0@,
        kind is Custom && !(exists|e: UmamiProxyError| proxy_error_label(e) == kind->Custom_0@) ==> r
            == ErrorDescription::UntrackedError,
{
    match kind {
        FailureKind::TlsHandshakeFailure | FailureKind::TlsHandshakeTimedout | FailureKind::InvalidCert
        | FailureKind::HandshakeError => ErrorDescription::SslError,
        FailureKind::ConnectTimedout | FailureKind::ConnectRefused | FailureKind::ConnectNoRoute
        | FailureKind::ConnectError | FailureKind::BindError | FailureKind::AcceptError
        | FailureKind::SocketError => ErrorDescription::ConnectionError,
        FailureKind::ConnectionClosed => ErrorDescription::ClientDisconnectedError,
        FailureKind::ConnectProxyFailure => ErrorDescription::UpstreamConnectionFailure,
        FailureKind::Custom(label) => classify_custom(label.as_str()),
        FailureKind::Other => ErrorDescription::UntrackedError,
    }
}

/// Whether a classification also counts as an invalid peer.
pub fn is_invalid_peer(d: &ErrorDescription) -> (r: bool)
    ensures
        r == (*d == ErrorDescription::UmamiProxyError(UmamiProxyError::NoMatchingPeer)),
{
    match d {
        ErrorDescription::UmamiProxyError(UmamiProxyError::NoMatchingPeer) => true,
        _ => false,
    }
}

} // verus!
