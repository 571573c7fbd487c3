//! What a tunnel reports when it cannot be built, dialled or used.
use vstd::prelude::*;

verus! {

/// A failure to configure a tunnel or to dial through it.
#[derive(Clone, Debug, PartialEq, Eq)]
pub enum TunnelError {
    /// The configuration or the requested destination is not usable.
    Configuration(String),
    /// The proxy at `host:port` could not be used; `detail` says at which step.
    Http3Connect { host: String, port: u16, detail: String },
    /// The proxy at `host:port` was reached, but TLS with it failed.
    Http3Tls { host: String, port: u16 },
    /// The proxy answered CONNECT with a status outside the success range.
    Http3ProxyStatus { status: u16 },
}

/// The mathematical value of a [`TunnelError`].
pub enum TunnelErrorView {
    Configuration(Seq<char>),
    Http3Connect { host: Seq<char>, port: u16, detail: Seq<char> },
    Http3Tls { host: Seq<char>, port: u16 },
    Http3ProxyStatus { status: u16 },
}

impl View for TunnelError {
    type V = TunnelErrorView;

    open spec fn view(&self) -> TunnelErrorView {
        match *self {
            TunnelError::Configuration(text) => TunnelErrorView::Configuration(text@),
            TunnelError::Http3Connect { host, port, detail } => TunnelErrorView::Http3Connect {
                host: host@,
                port,
                detail: detail@,
            },
            TunnelError::Http3Tls { host, port } => TunnelErrorView::Http3Tls { host: host@, port },
            TunnelError::Http3ProxyStatus { status } => TunnelErrorView::Http3ProxyStatus { status },
        }
    }
}

impl TunnelError {
    /// A configuration error with the given text.
    pub fn configuration(text: &str) -> (error: TunnelError)
        ensures
            error@ == TunnelErrorView::Configuration(text@),
    {
        TunnelError::Configuration(text.to_owned())
    }
}

/// The class of a failure on an open tunnel stream.
#[derive(Clone, Copy, Debug, PartialEq, Eq, Structural)]
pub enum StreamErrorKind {
    /// The stream, its session or the provider is gone.
    ConnectionReset,
    /// The peer sent something that a tunnel does not carry.
    InvalidData,
    /// The write side was already shut down.
    BrokenPipe,
}

/// A failure on an open tunnel stream.
#[derive(Clone, Debug, PartialEq, Eq)]
pub struct StreamError {
    pub kind: StreamErrorKind,
    pub message: String,
}

/// The mathematical value of a [`StreamError`].
pub struct StreamErrorView {
    pub kind: StreamErrorKind,
    pub message: Seq<char>,
}

impl View for StreamError {
    type V = StreamErrorView;

    open spec fn view(&self) -> StreamErrorView {
        StreamErrorView { kind: self.kind, message: self.message@ }
    }
}

/// The failure of a stream that was closed or reset under its user.
pub open spec fn broken_view() -> StreamErrorView {
    StreamErrorView {
        kind: StreamErrorKind::ConnectionReset,
        message: "HTTP/3 tunnel stream closed or reset"@,
    }
}

/// The failure of a tunnel whose peer sent a trailer section.
pub open spec fn illegal_trailers_view() -> StreamErrorView {
    StreamErrorView {
        kind: StreamErrorKind::InvalidData,
        message: "trailers are not permitted in a CONNECT tunnel"@,
    }
}

/// The failure of a write after the write side was shut down.
pub open spec fn write_closed_view() -> StreamErrorView {
    StreamErrorView { kind: StreamErrorKind::BrokenPipe, message: "HTTP/3 write side is closed"@ }
}

/// Reports a stream that was closed or reset under its user.
pub fn broken() -> (error: StreamError)
    ensures
        error@ == broken_view(),
{
    StreamError {
        kind: StreamErrorKind::ConnectionReset,
        message: "HTTP/3 tunnel stream closed or reset".to_owned(),
    }
}

/// Reports a trailer section inside a tunnel.
pub fn illegal_trailers() -> (error: StreamError)
    ensures
        error@ == illegal_trailers_view(),
{
    StreamError {
        kind: StreamErrorKind::InvalidData,
        message: "trailers are not permitted in a CONNECT tunnel".to_owned(),
    }
}

/// Reports a write after the write side was shut down.
pub fn write_closed() -> (error: StreamError)
    ensures
        error@ == write_closed_view(),
{
    StreamError {
        kind: StreamErrorKind::BrokenPipe,
        message: "HTTP/3 write side is closed".to_owned(),
    }
}

/// The three failures of an open stream differ in kind, and say what happened.
pub proof fn stream_failures_say_what_happened()
    ensures
        broken_view().kind == StreamErrorKind::ConnectionReset,
        broken_view().message == "HTTP/3 tunnel stream closed or reset"@,
        illegal_trailers_view().kind == StreamErrorKind::InvalidData,
        illegal_trailers_view().message == "trailers are not permitted in a CONNECT tunnel"@,
        write_closed_view().kind == StreamErrorKind::BrokenPipe,
        write_closed_view().message == "HTTP/3 write side is closed"@,
{
}

/// The mathematical value of an error is that error, with what it says.
pub proof fn errors_mean_themselves(
    host: String,
    port: u16,
    detail: String,
    status: u16,
    kind: StreamErrorKind,
)
    ensures
        TunnelError::Configuration(detail)@ == TunnelErrorView::Configuration(detail@),
        (TunnelError::Http3Connect { host, port, detail })@ == (TunnelErrorView::Http3Connect {
            host: host@,
            port,
            detail: detail@,
        }),
        (TunnelError::Http3Tls { host, port })@ == (TunnelErrorView::Http3Tls { host: host@, port }),
        (TunnelError::Http3ProxyStatus { status })@ == (TunnelErrorView::Http3ProxyStatus {
            status,
        }),
        (StreamError { kind, message: detail })@ == (StreamErrorView { kind, message: detail@ }),
{
}

} // verus!
