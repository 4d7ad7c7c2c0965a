use vstd::prelude::*;

verus! {

/// Why a request could not be built, signed or completed.
#[derive(Debug, Clone, Copy, PartialEq, Eq, Structural)]
pub enum Error {
    /// The root URL is not an absolute URL with a host.
    MalformedUrl,
    /// The service name, version or relative path cannot stand in the URL.
    MalformedPath,
    /// The method is not a valid HTTP method token.
    InvalidMethod,
    /// No host or no port for the request, or the signature could not be made.
    SigningError,
    /// The server was not reached, or it answered with a 5xx status, until
    /// the retry budget ran out; the status is that of the last answer.
    RetryBudgetExhausted(Option<u16>),
    /// The server answered with a status outside 2xx and 5xx.
    ClientError(u16),
}

} // verus!
