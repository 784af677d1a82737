//! The Update request: a PUT of the document to `<database>/<id>`, with the
//! required current revision spliced into the body. A stale revision is the
//! canonical optimistic-concurrency failure and is refused by the server.

use vstd::prelude::*;

use crate::client::{is_valid_segment, spec_valid_segment, Client};
use crate::database::{interpret_write, spec_interpret_write};
use crate::error::{res_view, ChesterfieldError};
use crate::request::{HttpRequest, HttpRequestView, HttpResponse, Method};
use crate::value::{pair_vals_of, val_of, DocValue, Val};

verus! {

/// The wire body of an update: the document with `_rev` spliced in front.
pub open spec fn spec_splice_rev(rev: Seq<char>, payload: Val) -> Val {
    Val::Obj(seq![("_rev"@, Val::Str(rev))] + payload->Obj_0)
}

/// The document to write, with the revision it supersedes.
pub struct UpdatePayload {
    _rev: String,
    payload: DocValue,
}

/// The view of an update payload.
#[verifier::ext_equal]
pub struct UpdatePayloadView {
    pub rev: Seq<char>,
    pub payload: Val,
}

impl View for UpdatePayload {
    type V = UpdatePayloadView;

    closed spec fn view(&self) -> UpdatePayloadView {
        UpdatePayloadView { rev: self._rev@, payload: val_of(self.payload) }
    }
}

/// A request to update an existing document. Lazy: building it does no I/O.
pub struct UpdateRequest {
    client: Client,
    _id: String,
    payload: UpdatePayload,
}

/// The view of an update request.
#[verifier::ext_equal]
pub struct UpdateRequestView {
    pub url: Seq<char>,
    pub id: Seq<char>,
    pub rev: Seq<char>,
    pub payload: Val,
}

impl View for UpdateRequest {
    type V = UpdateRequestView;

    closed spec fn view(&self) -> UpdateRequestView {
        UpdateRequestView {
            url: self.client.spec_url(),
            id: self._id@,
            rev: self.payload@.rev,
            payload: self.payload@.payload,
        }
    }
}

impl UpdateRequest {
    /// The endpoint is well formed and the payload is an object.
    pub closed spec fn wf(&self) -> bool {
        self.client.wf() && self.payload@.payload is Obj
    }

    pub(crate) fn new(client: &Client, document: DocValue, id: String, rev: String) -> (r: Self)
        requires
            client.wf(),
            document@ is Obj,
        ensures
            r.wf(),
            r@ == (UpdateRequestView {
                url: client.spec_url(),
                id: id@,
                rev: rev@,
                payload: document@,
            }),
    {
        UpdateRequest {
            client: client.duplicate(),
            _id: id,
            payload: UpdatePayload { _rev: rev, payload: document },
        }
    }

    /// Turn the request into a wire request: a PUT of the document URL whose
    /// body is the document with `_rev` spliced in. Fails exactly when the id
    /// is not a valid path segment.
    pub fn into_request(self) -> (r: Result<HttpRequest, ChesterfieldError>)
        requires
            self.wf(),
        ensures
            r is Ok <==> spec_valid_segment(self@.id),
            r matches Err(e) ==> e == ChesterfieldError::UrlParse,
            r matches Ok(req) ==> req@ == (HttpRequestView {
                method: Method::Put,
                url: self@.url + self@.id,
                query: Seq::<(Seq<char>, Seq<char>)>::empty(),
                body: Some(spec_splice_rev(self@.rev, self@.payload)),
            }),
    {
        if !is_valid_segment(self._id.as_str()) {
            return Err(ChesterfieldError::UrlParse);
        }
        let ghost sv = self@;
        let UpdateRequest { client, _id, payload } = self;
        let UpdatePayload { _rev, payload: doc } = payload;
        let mut ps: Vec<(String, DocValue)> = match doc {
            DocValue::Object(ps) => ps,
            _ => {
                // never reached: only an object payload satisfies wf
                proof {
                    assert(false);
                }
                Vec::new()
            },
        };
        let ghost prev = ps@;
        proof {
            assert(sv.payload == Val::Obj(pair_vals_of(prev)));
        }
        ps.insert(0, (String::from_str("_rev"), DocValue::Str(_rev)));
        proof {
            let p = ps@[0];
            assert(ps@ =~= seq![p] + prev);
            assert(ps@.drop_first() =~= prev);
            assert(p.0@ == "_rev"@);
            assert(val_of(p.1) == Val::Str(sv.rev));
            assert(pair_vals_of(ps@) == seq![("_rev"@, Val::Str(sv.rev))] + pair_vals_of(prev));
        }
        let body = DocValue::Object(ps);
        proof {
            assert(val_of(body) == spec_splice_rev(sv.rev, sv.payload));
        }
        let url = client.url().clone().concat(_id.as_str());
        let r = HttpRequest { method: Method::Put, url, query: Vec::new(), body: Some(body) };
        proof {
            assert(r@.query =~= Seq::<(Seq<char>, Seq<char>)>::empty());
            assert(r@.body == Some(spec_splice_rev(sv.rev, sv.payload)));
        }
        Ok(r)
    }
}

/// The server's answer to a successful update.
#[derive(Debug)]
pub struct UpdateResponse {
    /// The id of the updated document.
    pub id: String,
    /// The operation status reported by the server.
    pub ok: bool,
    /// The new revision of the document.
    pub rev: String,
}

/// The view of an update response.
#[verifier::ext_equal]
pub struct UpdateResponseView {
    pub id: Seq<char>,
    pub ok: bool,
    pub rev: Seq<char>,
}

impl View for UpdateResponse {
    type V = UpdateResponseView;

    open spec fn view(&self) -> UpdateResponseView {
        UpdateResponseView { id: self.id@, ok: self.ok, rev: self.rev@ }
    }
}

/// Interpret an update round trip: 409 is a stale revision, 404 a missing
/// document, a success status carries `{id, ok, rev}` with the new revision.
pub fn interpret_update(resp: HttpResponse) -> (r: Result<UpdateResponse, ChesterfieldError>)
    ensures
        res_view(r) == match spec_interpret_write(resp@) {
            Ok(t) => Ok::<UpdateResponseView, ChesterfieldError>(
                UpdateResponseView { id: t.0, ok: t.1, rev: t.2 },
            ),
            Err(e) => Err(e),
        },
{
    match interpret_write(resp) {
        Ok((id, ok, rev)) => Ok(UpdateResponse { id, ok, rev }),
        Err(e) => Err(e),
    }
}

} // verus!
