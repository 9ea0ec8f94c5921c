//! The ways in which fetching a repodata document can fail.

use crate::negotiate::Encoding;
use vstd::prelude::*;

verus! {

/// Why a fetch produced no records.
///
/// `Status`, `Connection`, `Stream` and `Decode` are transport errors;
/// `Parse` reports a document that is not valid repodata; `InvalidUrl` a
/// location from which no document URL can be derived; `CacheProtocol` a
/// write handle that the cache does not know, which is a bug in the caller.
#[derive(Debug, PartialEq, Eq)]
pub enum FetchError {
    /// The server answered with a status outside `200..=299`.
    Status(u16),
    /// The request could not be sent or no response arrived.
    Connection(String),
    /// Reading the response body failed before its end.
    Stream(String),
    /// The body is not a complete document in the negotiated encoding.
    Decode(Encoding),
    /// The decoded document could not be parsed.
    Parse(String),
    /// The document's URL could not be derived from the platform URL.
    InvalidUrl,
    /// A write handle was used for a key on which no fetch is in flight.
    CacheProtocol,
}

impl FetchError {
    /// Whether the error arose while transferring the document.
    pub open spec fn spec_is_transport(&self) -> bool {
        self is Status || self is Connection || self is Stream || self is Decode
    }

    /// Whether the error arose while transferring the document.
    #[verifier::when_used_as_spec(spec_is_transport)]
    pub fn is_transport(&self) -> (b: bool)
        ensures
            b == self.spec_is_transport(),
    {
        match self {
            FetchError::Status(_) => true,
            FetchError::Connection(_) => true,
            FetchError::Stream(_) => true,
            FetchError::Decode(_) => true,
            _ => false,
        }
    }
}

} // verus!
