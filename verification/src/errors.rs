//! The error taxonomy of the pipeline and its mapping to HTTP status codes.
//! Every stage is fail-fast: no stage attempts local recovery or retry.

use vstd::prelude::*;

verus! {

/// A failure to retrieve the source bytes: a transport-level failure, or a
/// response with the given non-success status. A failed fetch is never
/// cached, so an identical later request retries the fetch.
#[derive(Clone, Copy, Debug, PartialEq, Eq, Structural)]
pub enum FetchError {
    Transport,
    Status(u16),
}

/// Why a request failed, attributed to the stage that failed first.
#[derive(Clone, Copy, Debug, PartialEq, Eq, Structural)]
pub enum ErrorKind {
    /// The spec token is malformed or references an unknown operation or
    /// enumeration value. A client error.
    InvalidSpec,
    /// The source bytes could not be retrieved. Surfaced as a client error
    /// even though the root cause may be upstream-server-side: a deliberate
    /// classification choice.
    Fetch(FetchError),
    /// The fetched bytes are not a supported image encoding. A server error.
    Decode,
    /// One transformation step failed (degenerate dimensions, coordinates
    /// outside the image bounds, a filter kind outside the operation's
    /// family). The whole pipeline aborts with no partial output. A server
    /// error.
    Operation,
}

/// The HTTP status an error is surfaced as.
pub open spec fn status_spec(e: ErrorKind) -> u16 {
    match e {
        ErrorKind::InvalidSpec => 400,
        ErrorKind::Fetch(_) => 400,
        ErrorKind::Decode => 500,
        ErrorKind::Operation => 500,
    }
}

/// Maps an error to the HTTP status code it is surfaced as: 400 for
/// client-attributable failures (bad spec, failed fetch), 500 for
/// server-attributable ones (undecodable bytes, failed transformation).
pub fn status_of(e: &ErrorKind) -> (s: u16)
    ensures
        s == status_spec(*e),
{
    match e {
        ErrorKind::InvalidSpec => 400,
        ErrorKind::Fetch(_) => 400,
        ErrorKind::Decode => 500,
        ErrorKind::Operation => 500,
    }
}

} // verus!
