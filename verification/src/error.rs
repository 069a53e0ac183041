//! The failure taxonomy of the engine client: socket failures, malformed
//! HTTP framing, structured engine errors, unexpected response shapes,
//! unparseable JSON bodies, and invalid multiplex frames.

use vstd::prelude::*;
use vstd::string::StringExecFns;
use crate::text::{dec_chars, u64_to_dec_string};

verus! {

/// A failure of one engine interaction. Every call into the engine surfaces
/// exactly one of these; none is retried.
#[derive(Debug)]
pub enum DockerError {
    /// The socket could not be connected, read or written.
    NetworkError(String),
    /// The response's HTTP framing was malformed: status line, header block,
    /// numeric header field, or chunk framing.
    HttpError(String),
    /// The engine answered with a non-success status and a structured message.
    ErrorResponse(u16, String),
    /// The engine answered with a success status but an unexpected shape,
    /// or with a numeric field out of range.
    InvalidResponse(u16, String),
    /// A response body was present and declared as JSON but did not parse.
    InvalidJson(u16, String),
    /// A multiplex frame carried a stream selector outside the known set.
    InvalidStream(u8),
}

/// The mathematical value of a `DockerError`: the same shape over
/// character sequences.
pub enum ErrorView {
    Network(Seq<char>),
    Http(Seq<char>),
    ErrorResponse(u16, Seq<char>),
    InvalidResponse(u16, Seq<char>),
    InvalidJson(u16, Seq<char>),
    InvalidStream(u8),
}

impl View for DockerError {
    type V = ErrorView;

    open spec fn view(&self) -> ErrorView {
        match self {
            DockerError::NetworkError(m) => ErrorView::Network(m@),
            DockerError::HttpError(m) => ErrorView::Http(m@),
            DockerError::ErrorResponse(c, m) => ErrorView::ErrorResponse(*c, m@),
            DockerError::InvalidResponse(c, m) => ErrorView::InvalidResponse(*c, m@),
            DockerError::InvalidJson(c, m) => ErrorView::InvalidJson(*c, m@),
            DockerError::InvalidStream(b) => ErrorView::InvalidStream(*b),
        }
    }
}

/// The one-line description of an error value.
pub open spec fn spec_message(e: ErrorView) -> Seq<char> {
    match e {
        ErrorView::Network(m) => "Network error: "@ + m,
        ErrorView::Http(m) => "HTTP error: "@ + m,
        ErrorView::ErrorResponse(c, m) => "Error from docker daemon: ["@ + dec_chars(
            c as int,
        ) + "] "@ + m,
        ErrorView::InvalidResponse(c, m) => "Invalid response from Docker daemon: ["@ + dec_chars(
            c as int,
        ) + "] "@ + m,
        ErrorView::InvalidJson(c, m) => "Invalid JSON response from Docker daemon: ["@ + dec_chars(
            c as int,
        ) + "] "@ + m,
        ErrorView::InvalidStream(b) => "Invalid stream: "@ + dec_chars(b as int),
    }
}

impl DockerError {
    /// Renders the error as one line of text.
    pub fn message(&self) -> (r: String)
        ensures
            r@ == spec_message(self@),
    {
        match self {
            DockerError::NetworkError(m) => String::from_str("Network error: ").concat(
                m.as_str(),
            ),
            DockerError::HttpError(m) => String::from_str("HTTP error: ").concat(m.as_str()),
            DockerError::ErrorResponse(c, m) => String::from_str(
                "Error from docker daemon: [",
            ).concat(u64_to_dec_string(*c as u64).as_str()).concat("] ").concat(m.as_str()),
            DockerError::InvalidResponse(c, m) => String::from_str(
                "Invalid response from Docker daemon: [",
            ).concat(u64_to_dec_string(*c as u64).as_str()).concat("] ").concat(m.as_str()),
            DockerError::InvalidJson(c, m) => String::from_str(
                "Invalid JSON response from Docker daemon: [",
            ).concat(u64_to_dec_string(*c as u64).as_str()).concat("] ").concat(m.as_str()),
            DockerError::InvalidStream(b) => String::from_str("Invalid stream: ").concat(
                u64_to_dec_string(*b as u64).as_str(),
            ),
        }
    }
}

} // verus!
