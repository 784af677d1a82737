//! The Insert request: a POST of the document to the database root, with the
//! caller's id spliced into the body only when one was supplied — the server
//! assigns an id otherwise.

use vstd::prelude::*;

use crate::client::Client;
use crate::database::get::opt_str_view;
use crate::database::{interpret_write, spec_interpret_write};
use crate::error::{res_view, ChesterfieldError};
use crate::request::{HttpRequest, HttpRequestView, HttpResponse, Method};
use crate::value::{pair_vals_of, val_of, DocValue, Val};

verus! {

/// The wire body of an insert: the document, with `_id` spliced in front
/// only when the caller supplied one.
pub open spec fn spec_splice_id(id: Option<Seq<char>>, payload: Val) -> Val {
    match id {
        Some(i) => Val::Obj(seq![("_id"@, Val::Str(i))] + payload->Obj_0),
        None => Val::Obj(payload->Obj_0),
    }
}

/// The document to insert, with the optional caller-supplied id.
pub struct InsertPayload {
    _id: Option<String>,
    payload: DocValue,
}

/// The view of an insert payload.
#[verifier::ext_equal]
pub struct InsertPayloadView {
    pub id: Option<Seq<char>>,
    pub payload: Val,
}

impl View for InsertPayload {
    type V = InsertPayloadView;

    closed spec fn view(&self) -> InsertPayloadView {
        InsertPayloadView { id: opt_str_view(&self._id), payload: val_of(self.payload) }
    }
}

/// The query of an insert request: only the reserved batch-mode flag, which
/// is omitted when unset.
pub struct InsertRequestQuery {
    batch: Option<String>,
}

impl View for InsertRequestQuery {
    type V = Option<Seq<char>>;

    closed spec fn view(&self) -> Option<Seq<char>> {
        opt_str_view(&self.batch)
    }
}

impl Default for InsertRequestQuery {
    /// Batch mode unset.
    fn default() -> (r: Self)
        ensures
            r@ is None,
    {
        InsertRequestQuery { batch: None }
    }
}

/// A request to insert a document. Lazy: building it does no I/O.
pub struct InsertRequest {
    client: Client,
    payload: InsertPayload,
    query: InsertRequestQuery,
}

/// The view of an insert request.
#[verifier::ext_equal]
pub struct InsertRequestView {
    pub url: Seq<char>,
    pub id: Option<Seq<char>>,
    pub payload: Val,
    pub batch: Option<Seq<char>>,
}

impl View for InsertRequest {
    type V = InsertRequestView;

    closed spec fn view(&self) -> InsertRequestView {
        InsertRequestView {
            url: self.client.spec_url(),
            id: self.payload@.id,
            payload: self.payload@.payload,
            batch: self.query@,
        }
    }
}

impl InsertRequest {
    /// The endpoint is well formed and the payload is an object.
    pub closed spec fn wf(&self) -> bool {
        self.client.wf() && self.payload@.payload is Obj
    }

    pub(crate) fn new(client: &Client, document: DocValue, id: Option<String>) -> (r: Self)
        requires
            client.wf(),
            document@ is Obj,
        ensures
            r.wf(),
            r@ == (InsertRequestView {
                url: client.spec_url(),
                id: opt_str_view(&id),
                payload: document@,
                batch: None,
            }),
    {
        InsertRequest {
            client: client.duplicate(),
            payload: InsertPayload { _id: id, payload: document },
            query: InsertRequestQuery::default(),
        }
    }

    /// Turn the request into a wire request: a POST of the database root
    /// whose body is the document with `_id` spliced in when supplied.
    pub fn into_request(self) -> (r: HttpRequest)
        requires
            self.wf(),
        ensures
            r@ == (HttpRequestView {
                method: Method::Post,
                url: self@.url,
                query: match self@.batch {
                    None => Seq::<(Seq<char>, Seq<char>)>::empty(),
                    Some(b) => seq![("batch"@, b)],
                },
                body: Some(spec_splice_id(self@.id, self@.payload)),
            }),
    {
        let ghost sv = self@;
        let InsertRequest { client, payload, query } = self;
        let InsertPayload { _id, payload: doc } = payload;
        let mut ps: Vec<(String, DocValue)> = match doc {
            DocValue::Object(ps) => ps,
            _ => {
                // never reached: only an object payload satisfies wf
                proof {
                    assert(false);
                }
                Vec::new()
            },
        };
        let ghost prev = ps@;
        proof {
            assert(sv.payload == Val::Obj(pair_vals_of(prev)));
        }
        match _id {
            Some(i) => {
                ps.insert(0, (String::from_str("_id"), DocValue::Str(i)));
                proof {
                    let p = ps@[0];
                    assert(ps@ =~= seq![p] + prev);
                    assert(ps@.drop_first() =~= prev);
                    assert(p.0@ == "_id"@);
                    assert(val_of(p.1) == Val::Str(sv.id->Some_0));
                    assert(pair_vals_of(ps@) == seq![("_id"@, Val::Str(sv.id->Some_0))]
                        + pair_vals_of(prev));
                }
            },
            None => {},
        }
        let body = DocValue::Object(ps);
        proof {
            assert(val_of(body) == spec_splice_id(sv.id, sv.payload));
        }
        let mut qp: Vec<(String, String)> = Vec::new();
        match query.batch {
            Some(b) => {
                qp.push((String::from_str("batch"), b));
            },
            None => {},
        }
        let url = client.url().clone();
        let r = HttpRequest { method: Method::Post, url, query: qp, body: Some(body) };
        proof {
            assert(r@.query =~= (match self@.batch {
                None => Seq::<(Seq<char>, Seq<char>)>::empty(),
                Some(b) => seq![("batch"@, b)],
            }));
            assert(r@.body == Some(spec_splice_id(sv.id, sv.payload)));
        }
        r
    }
}

/// The server's answer to a successful insert.
#[derive(Debug)]
pub struct InsertResponse {
    /// The id of the inserted document, server-assigned when none was given.
    pub id: String,
    /// The operation status reported by the server.
    pub ok: bool,
    /// The first revision of the inserted document.
    pub rev: String,
}

/// The view of an insert response.
#[verifier::ext_equal]
pub struct InsertResponseView {
    pub id: Seq<char>,
    pub ok: bool,
    pub rev: Seq<char>,
}

impl View for InsertResponse {
    type V = InsertResponseView;

    open spec fn view(&self) -> InsertResponseView {
        InsertResponseView { id: self.id@, ok: self.ok, rev: self.rev@ }
    }
}

/// Interpret an insert round trip: 409 is an id collision, 404 a missing
/// database, a success status carries `{id, ok, rev}`.
pub fn interpret_insert(resp: HttpResponse) -> (r: Result<InsertResponse, ChesterfieldError>)
    ensures
        res_view(r) == match spec_interpret_write(resp@) {
            Ok(t) => Ok::<InsertResponseView, ChesterfieldError>(
                InsertResponseView { id: t.0, ok: t.1, rev: t.2 },
            ),
            Err(e) => Err(e),
        },
{
    match interpret_write(resp) {
        Ok((id, ok, rev)) => Ok(InsertResponse { id, ok, rev }),
        Err(e) => Err(e),
    }
}

} // verus!
