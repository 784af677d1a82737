//! The error taxonomy: every public operation returns exactly one success
//! payload or one of these errors; no server-reported condition panics.

use vstd::prelude::*;

verus! {

/// What can go wrong when talking to the database.
#[derive(Clone, Copy, Debug, PartialEq, Eq, Structural)]
pub enum ChesterfieldError {
    /// The connection failed below the protocol: could not connect, TLS,
    /// timeout. Reported by the transport, never by this layer's logic.
    Transport,
    /// The base URL or a path segment is malformed.
    UrlParse,
    /// The response body does not match the expected envelope shape.
    Decode,
    /// The server knows no such database or document (status 404).
    NotFound,
    /// The server reported an id collision or a stale revision (status 409).
    Conflict,
    /// A status outside the documented success/conflict/not-found set.
    UnexpectedStatus(u16),
}

/// The view of an operation outcome: the success payload's view, or the
/// error unchanged.
pub open spec fn res_view<T: View>(r: Result<T, ChesterfieldError>) -> Result<
    T::V,
    ChesterfieldError,
> {
    match r {
        Ok(t) => Ok(t@),
        Err(e) => Err(e),
    }
}

} // verus!
