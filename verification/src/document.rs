//! A typed document: a payload together with the id and revision the server
//! knows it by.

use vstd::prelude::*;

verus! {

/// A document with its server metadata. The payload is plain data; the id
/// and revision come from the server.
pub struct Document<T> {
    _id: String,
    _rev: String,
    /// The document payload.
    pub data: T,
}

impl<T> Document<T> {
    /// The id the document is stored under.
    pub closed spec fn spec_id(&self) -> Seq<char> {
        self._id@
    }

    /// The revision the document was read at.
    pub closed spec fn spec_rev(&self) -> Seq<char> {
        self._rev@
    }

    /// The payload.
    pub closed spec fn spec_data(&self) -> T {
        self.data
    }

    /// A document with the given payload, id and revision.
    pub fn new(data: T, id: String, rev: String) -> (r: Self)
        ensures
            r.spec_id() == id@,
            r.spec_rev() == rev@,
            r.spec_data() == data,
    {
        Document { _id: id, _rev: rev, data }
    }

    /// The id the document is stored under.
    pub fn _id(&self) -> (r: &str)
        ensures
            r@ == self.spec_id(),
    {
        self._id.as_str()
    }

    /// The revision the document was read at.
    pub fn _rev(&self) -> (r: &str)
        ensures
            r@ == self.spec_rev(),
    {
        self._rev.as_str()
    }
}

} // verus!
