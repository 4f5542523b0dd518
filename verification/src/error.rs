//! The ways in which one request can fail.

use vstd::prelude::*;

verus! {

/// Why a request was abandoned. Every failure is final: nothing is retried
/// and no partial response is ever handed out.
#[derive(Debug, Clone, Copy, PartialEq, Eq, Structural)]
pub enum HttpClientError {
    /// The URL has no `://`, or its port is not a 16-bit decimal number.
    InvalidUrl,
    /// The first line of the reply carries no numeric status code.
    InvalidHttpStatusLine,
    /// A `Content-Length` header does not hold a decimal number.
    InvalidContentLength,
    /// The host name could not be resolved to any address.
    ResolutionFailure,
    /// No resolved address accepted the connection.
    ConnectionFailure,
    /// Reading or writing failed, or the body ended early.
    IoFailure,
}

impl HttpClientError {
    /// The text of [`HttpClientError::message`].
    pub open spec fn message_text(self) -> Seq<char> {
        match self {
            HttpClientError::InvalidUrl => "invalid url"@,
            HttpClientError::InvalidHttpStatusLine => "invalid http status line"@,
            HttpClientError::InvalidContentLength => "invalid content length"@,
            HttpClientError::ResolutionFailure => "could not resolve host"@,
            HttpClientError::ConnectionFailure => "could not connect to server"@,
            HttpClientError::IoFailure => "i/o failure"@,
        }
    }

    /// A short description of the failure, for people.
    pub fn message(&self) -> (r: &'static str)
        ensures
            r@ == self.message_text(),
    {
        match self {
            HttpClientError::InvalidUrl => "invalid url",
            HttpClientError::InvalidHttpStatusLine => "invalid http status line",
            HttpClientError::InvalidContentLength => "invalid content length",
            HttpClientError::ResolutionFailure => "could not resolve host",
            HttpClientError::ConnectionFailure => "could not connect to server",
            HttpClientError::IoFailure => "i/o failure",
        }
    }
}

} // verus!
