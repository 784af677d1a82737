//! The Delete request: a DELETE of `<database>/<id>` with the required
//! current revision as a query parameter. Deleting leaves a tombstone
//! revision, which the response reports.

use vstd::prelude::*;

use crate::client::{is_valid_segment, spec_valid_segment, Client};
use crate::database::get::opt_str_view;
use crate::database::{interpret_write, spec_interpret_write};
use crate::error::{res_view, ChesterfieldError};
use crate::request::{pairs_view, HttpRequest, HttpRequestView, HttpResponse, Method};

verus! {

/// The query of a delete request: the revision to delete, and the reserved
/// batch-mode flag, omitted when unset.
pub struct DeleteRequestQuery {
    batch: Option<String>,
    rev: String,
}

/// The view of a delete query.
#[verifier::ext_equal]
pub struct DeleteQueryView {
    pub batch: Option<Seq<char>>,
    pub rev: Seq<char>,
}

impl View for DeleteRequestQuery {
    type V = DeleteQueryView;

    closed spec fn view(&self) -> DeleteQueryView {
        DeleteQueryView { batch: opt_str_view(&self.batch), rev: self.rev@ }
    }
}

/// A delete query for the given revision, batch mode unset.
pub open spec fn spec_delete_query(rev: Seq<char>) -> DeleteQueryView {
    DeleteQueryView { batch: None, rev }
}

/// The serialized pairs of a delete query: the batch flag only when set,
/// then the revision.
pub open spec fn spec_delete_query_pairs(q: DeleteQueryView) -> Seq<(Seq<char>, Seq<char>)> {
    (match q.batch {
        None => Seq::<(Seq<char>, Seq<char>)>::empty(),
        Some(b) => seq![("batch"@, b)],
    }) + seq![("rev"@, q.rev)]
}

impl DeleteRequestQuery {
    /// A query deleting the given revision.
    pub fn new(rev: String) -> (r: Self)
        ensures
            r@ == spec_delete_query(rev@),
    {
        DeleteRequestQuery { batch: None, rev }
    }

    /// Serialize the query to pairs, omitting the unset batch flag.
    pub fn query_pairs(&self) -> (r: Vec<(String, String)>)
        ensures
            pairs_view(r@) == spec_delete_query_pairs(self@),
    {
        let mut out: Vec<(String, String)> = Vec::new();
        match &self.batch {
            Some(b) => {
                out.push((String::from_str("batch"), b.clone()));
            },
            None => {},
        }
        out.push((String::from_str("rev"), self.rev.clone()));
        proof {
            assert(pairs_view(out@) =~= spec_delete_query_pairs(self@));
        }
        out
    }
}

/// A request to delete a document at its current revision. Lazy: building it
/// does no I/O.
pub struct DeleteRequest {
    id: String,
    client: Client,
    query: DeleteRequestQuery,
}

/// The view of a delete request.
#[verifier::ext_equal]
pub struct DeleteRequestView {
    pub url: Seq<char>,
    pub id: Seq<char>,
    pub query: DeleteQueryView,
}

impl View for DeleteRequest {
    type V = DeleteRequestView;

    closed spec fn view(&self) -> DeleteRequestView {
        DeleteRequestView { url: self.client.spec_url(), id: self.id@, query: self.query@ }
    }
}

impl DeleteRequest {
    /// The endpoint URL of the request is well formed.
    pub closed spec fn wf(&self) -> bool {
        self.client.wf()
    }

    pub(crate) fn new(client: &Client, id: String, query: DeleteRequestQuery) -> (r: Self)
        requires
            client.wf(),
        ensures
            r.wf(),
            r@ == (DeleteRequestView { url: client.spec_url(), id: id@, query: query@ }),
    {
        DeleteRequest { id, client: client.duplicate(), query }
    }

    /// Turn the request into a wire request: a DELETE of the document URL
    /// with the revision in the query. Fails exactly when the id is not a
    /// valid path segment.
    pub fn into_request(self) -> (r: Result<HttpRequest, ChesterfieldError>)
        requires
            self.wf(),
        ensures
            r is Ok <==> spec_valid_segment(self@.id),
            r matches Err(e) ==> e == ChesterfieldError::UrlParse,
            r matches Ok(req) ==> req@ == (HttpRequestView {
                method: Method::Delete,
                url: self@.url + self@.id,
                query: spec_delete_query_pairs(self@.query),
                body: None,
            }),
    {
        if !is_valid_segment(self.id.as_str()) {
            return Err(ChesterfieldError::UrlParse);
        }
        let query = self.query.query_pairs();
        let url = self.client.url().clone().concat(self.id.as_str());
        Ok(HttpRequest { method: Method::Delete, url, query, body: None })
    }
}

/// The server's answer to a successful delete.
#[derive(Debug)]
pub struct DeleteResponse {
    /// The id of the deleted document.
    pub id: String,
    /// The operation status reported by the server.
    pub ok: bool,
    /// The tombstone revision of the deleted document.
    pub rev: String,
}

/// The view of a delete response.
#[verifier::ext_equal]
pub struct DeleteResponseView {
    pub id: Seq<char>,
    pub ok: bool,
    pub rev: Seq<char>,
}

impl View for DeleteResponse {
    type V = DeleteResponseView;

    open spec fn view(&self) -> DeleteResponseView {
        DeleteResponseView { id: self.id@, ok: self.ok, rev: self.rev@ }
    }
}

/// Interpret a delete round trip: 409 is a stale revision, 404 a missing
/// document, a success status carries `{id, ok, rev}` with the tombstone.
pub fn interpret_delete(resp: HttpResponse) -> (r: Result<DeleteResponse, ChesterfieldError>)
    ensures
        res_view(r) == match spec_interpret_write(resp@) {
            Ok(t) => Ok::<DeleteResponseView, ChesterfieldError>(
                DeleteResponseView { id: t.0, ok: t.1, rev: t.2 },
            ),
            Err(e) => Err(e),
        },
{
    match interpret_write(resp) {
        Ok((id, ok, rev)) => Ok(DeleteResponse { id, ok, rev }),
        Err(e) => Err(e),
    }
}

} // verus!
