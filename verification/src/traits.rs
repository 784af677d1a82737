//! Traits for callers' own document types: what a new document must tell the
//! library, and what an existing one additionally knows.

use vstd::prelude::*;

verus! {

/// A document that is not yet stored: it has an id and a payload.
pub trait NewDocument<T> {
    /// The id to store the document under.
    fn _id(&self) -> &str;

    /// The document payload.
    fn _document(&self) -> &T;
}

/// A document already stored: it additionally has a current revision.
pub trait ExistingDocument<T>: NewDocument<T> {
    /// The revision the document was last read or written at.
    fn _rev(&self) -> &str;
}

} // verus!
