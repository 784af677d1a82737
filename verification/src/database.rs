//! The database handle: a stateless facade over one endpoint, producing the
//! lazy request builders and interpreting the database-level responses.

pub mod delete;
pub mod get;
pub mod insert;
pub mod replicate;
pub mod update;

use vstd::prelude::*;

use crate::client::Client;
use crate::database::delete::{DeleteRequest, DeleteRequestQuery, DeleteRequestView};
use crate::database::get::{opt_str_view, spec_default_query, GetRequest, GetRequestView};
use crate::database::insert::{InsertRequest, InsertRequestView};
use crate::database::update::{UpdateRequest, UpdateRequestView};
use crate::error::ChesterfieldError;
use crate::request::{HttpRequest, HttpRequestView, HttpResponse, HttpResponseView, Method};
use crate::value::{spec_lookup, val_of, DocValue, Val};

verus! {

/// An interface to one database of a server. Stateless: every method builds
/// a value; the caller's transport performs the round trips.
#[derive(Debug)]
pub struct Database {
    client: Client,
    name: String,
}

impl Database {
    /// The database endpoint URL (the base URL, the name, a separator).
    pub closed spec fn spec_url(&self) -> Seq<char> {
        self.client.spec_url()
    }

    /// The database name.
    pub closed spec fn spec_name(&self) -> Seq<char> {
        self.name@
    }

    /// The endpoint is well formed.
    pub closed spec fn wf(&self) -> bool {
        self.client.wf()
    }

    pub(crate) fn new(client: Client, name: String) -> (r: Self)
        requires
            client.wf(),
        ensures
            r.wf(),
            r.spec_url() == client.spec_url(),
            r.spec_name() == name@,
    {
        Database { client, name }
    }

    /// The database endpoint URL as a string, for the transport.
    pub fn url(&self) -> (r: &String)
        ensures
            r@ == self.spec_url(),
    {
        self.client.url()
    }

    /// The database name.
    pub fn name(&self) -> (r: &String)
        ensures
            r@ == self.spec_name(),
    {
        &self.name
    }

    pub(crate) fn duplicate_client(&self) -> (r: Client)
        ensures
            r.spec_url() == self.spec_url(),
    {
        self.client.duplicate()
    }

    /// The wire request that creates the database: a PUT of the database
    /// root. Idempotent at the protocol level: a pre-existing database
    /// reports success through `interpret_create`.
    pub fn create_request(&self) -> (r: HttpRequest)
        requires
            self.wf(),
        ensures
            r@ == (HttpRequestView {
                method: Method::Put,
                url: self.spec_url(),
                query: Seq::<(Seq<char>, Seq<char>)>::empty(),
                body: None,
            }),
    {
        let r = HttpRequest {
            method: Method::Put,
            url: self.client.url().clone(),
            query: Vec::new(),
            body: None,
        };
        proof {
            assert(r@.query =~= Seq::<(Seq<char>, Seq<char>)>::empty());
        }
        r
    }

    /// The wire request that checks whether the database exists: a HEAD of
    /// the database root.
    pub fn exists_request(&self) -> (r: HttpRequest)
        requires
            self.wf(),
        ensures
            r@ == (HttpRequestView {
                method: Method::Head,
                url: self.spec_url(),
                query: Seq::<(Seq<char>, Seq<char>)>::empty(),
                body: None,
            }),
    {
        let r = HttpRequest {
            method: Method::Head,
            url: self.client.url().clone(),
            query: Vec::new(),
            body: None,
        };
        proof {
            assert(r@.query =~= Seq::<(Seq<char>, Seq<char>)>::empty());
        }
        r
    }

    /// A request to retrieve the document `id`, with all options at default.
    pub fn get(&self, id: String) -> (r: GetRequest)
        requires
            self.wf(),
        ensures
            r.wf(),
            r@ == (GetRequestView { url: self.spec_url(), id: id@, query: spec_default_query() }),
    {
        GetRequest::new(&self.client, id)
    }

    /// A request to insert `document`, under `id` when one is supplied,
    /// server-assigned otherwise. Only an object can stand for a document.
    pub fn insert(&self, document: DocValue, id: Option<String>) -> (r: InsertRequest)
        requires
            self.wf(),
            document@ is Obj,
        ensures
            r.wf(),
            r@ == (InsertRequestView {
                url: self.spec_url(),
                id: opt_str_view(&id),
                payload: document@,
                batch: None,
            }),
    {
        InsertRequest::new(&self.client, document, id)
    }

    /// A request to update the document `id`, whose current revision the
    /// caller must hold: a stale revision is refused by the server.
    pub fn update(&self, document: DocValue, id: String, rev: String) -> (r: UpdateRequest)
        requires
            self.wf(),
            document@ is Obj,
        ensures
            r.wf(),
            r@ == (UpdateRequestView {
                url: self.spec_url(),
                id: id@,
                rev: rev@,
                payload: document@,
            }),
    {
        UpdateRequest::new(&self.client, document, id, rev)
    }

    /// A request to delete the document `id` at its current revision.
    pub fn delete(&self, id: String, rev: String) -> (r: DeleteRequest)
        requires
            self.wf(),
        ensures
            r.wf(),
            r@ == (DeleteRequestView {
                url: self.spec_url(),
                id: id@,
                query: delete::spec_delete_query(rev@),
            }),
    {
        DeleteRequest::new(&self.client, id, DeleteRequestQuery::new(rev))
    }
}

/// What a create response means: the database now exists, whether it was
/// just created (2xx) or already there (412). Any other status is surfaced,
/// never a panic.
pub open spec fn spec_interpret_create(status: u16) -> Result<(), ChesterfieldError> {
    if 200 <= status < 300 || status == 412 {
        Ok(())
    } else {
        Err(ChesterfieldError::UnexpectedStatus(status))
    }
}

/// Interpret the status of a create round trip.
pub fn interpret_create(status: u16) -> (r: Result<(), ChesterfieldError>)
    ensures
        r == spec_interpret_create(status),
{
    if (200 <= status && status < 300) || status == 412 {
        Ok(())
    } else {
        Err(ChesterfieldError::UnexpectedStatus(status))
    }
}

/// What an existence response means: 200 is true, 404 is false, anything
/// else is surfaced as an error, never a panic.
pub open spec fn spec_interpret_exists(status: u16) -> Result<bool, ChesterfieldError> {
    if status == 200 {
        Ok(true)
    } else if status == 404 {
        Ok(false)
    } else {
        Err(ChesterfieldError::UnexpectedStatus(status))
    }
}

/// Interpret the status of an existence round trip.
pub fn interpret_exists(status: u16) -> (r: Result<bool, ChesterfieldError>)
    ensures
        r == spec_interpret_exists(status),
{
    if status == 200 {
        Ok(true)
    } else if status == 404 {
        Ok(false)
    } else {
        Err(ChesterfieldError::UnexpectedStatus(status))
    }
}

/// How a write response body decodes: the fields `id`, `ok` and `rev`, with
/// their required shapes; other fields are ignored.
pub open spec fn spec_decode_write(v: Val) -> Result<(Seq<char>, bool, Seq<char>), ChesterfieldError> {
    if !(v is Obj) {
        Err(ChesterfieldError::Decode)
    } else {
        let pairs = v->Obj_0;
        if !(spec_lookup(pairs, "id"@) matches Some(Val::Str(_))) {
            Err(ChesterfieldError::Decode)
        } else if !(spec_lookup(pairs, "ok"@) matches Some(Val::Bool(_))) {
            Err(ChesterfieldError::Decode)
        } else if !(spec_lookup(pairs, "rev"@) matches Some(Val::Str(_))) {
            Err(ChesterfieldError::Decode)
        } else {
            Ok(
                (
                    spec_lookup(pairs, "id"@)->Some_0->Str_0,
                    spec_lookup(pairs, "ok"@)->Some_0->Bool_0,
                    spec_lookup(pairs, "rev"@)->Some_0->Str_0,
                ),
            )
        }
    }
}

/// What a write response means: 404 is no such database or document, 409 is
/// an id collision or a stale revision, a success status carries the
/// `{id, ok, rev}` body, anything else is surfaced, never a panic.
pub open spec fn spec_interpret_write(resp: HttpResponseView) -> Result<
    (Seq<char>, bool, Seq<char>),
    ChesterfieldError,
> {
    if resp.status == 404 {
        Err(ChesterfieldError::NotFound)
    } else if resp.status == 409 {
        Err(ChesterfieldError::Conflict)
    } else if 200 <= resp.status < 300 {
        match resp.body {
            Some(v) => spec_decode_write(v),
            None => Err(ChesterfieldError::Decode),
        }
    } else {
        Err(ChesterfieldError::UnexpectedStatus(resp.status))
    }
}

/// Decode the `{id, ok, rev}` fields of a write response body.
pub(crate) fn decode_write_fields(v: DocValue) -> (r: Result<
    (String, bool, String),
    ChesterfieldError,
>)
    ensures
        r is Ok <==> spec_decode_write(val_of(v)) is Ok,
        r matches Ok(t) ==> Some((t.0@, t.1, t.2@)) == Some(spec_decode_write(val_of(v))->Ok_0),
        r matches Err(e) ==> Err::<(Seq<char>, bool, Seq<char>), ChesterfieldError>(e)
            == spec_decode_write(val_of(v)),
{
    let pairs: Vec<(String, DocValue)> = match v {
        DocValue::Object(pairs) => pairs,
        _ => {
            return Err(ChesterfieldError::Decode);
        },
    };
    let ghost pv = crate::value::pair_vals_of(pairs@);
    proof {
        crate::value::lemma_pair_vals_of(pairs@);
    }
    let key_id = String::from_str("id");
    let key_ok = String::from_str("ok");
    let key_rev = String::from_str("rev");
    let mut raw_id: Option<DocValue> = None;
    let mut raw_ok: Option<DocValue> = None;
    let mut raw_rev: Option<DocValue> = None;
    let n = pairs.len();
    for i in 0..n
        invariant
            n == pairs@.len(),
            pv == crate::value::pair_vals_of(pairs@),
            pv.len() == n,
            forall|j: int| 0 <= j < n ==> pv[j] == (pairs@[j].0@, val_of(pairs@[j].1)),
            key_id@ == "id"@,
            key_ok@ == "ok"@,
            key_rev@ == "rev"@,
            crate::request::opt_val(raw_id) == spec_lookup(pv.take(i as int), "id"@),
            crate::request::opt_val(raw_ok) == spec_lookup(pv.take(i as int), "ok"@),
            crate::request::opt_val(raw_rev) == spec_lookup(pv.take(i as int), "rev"@),
    {
        proof {
            reveal_strlit("id");
            reveal_strlit("ok");
            reveal_strlit("rev");
            assert("id"@.len() == 2 && "ok"@.len() == 2 && "rev"@.len() == 3);
            assert("id"@[0] == 'i' && "ok"@[0] == 'o');
            assert(pv.take(i + 1) =~= pv.take(i as int).push(pv[i as int]));
            crate::value::lemma_lookup_push(pv.take(i as int), pv[i as int], "id"@);
            crate::value::lemma_lookup_push(pv.take(i as int), pv[i as int], "ok"@);
            crate::value::lemma_lookup_push(pv.take(i as int), pv[i as int], "rev"@);
        }
        let kv = &pairs[i];
        if kv.0 == key_id {
            if raw_id.is_none() {
                raw_id = Some(kv.1.deep_clone());
            }
        } else if kv.0 == key_ok {
            if raw_ok.is_none() {
                raw_ok = Some(kv.1.deep_clone());
            }
        } else if kv.0 == key_rev {
            if raw_rev.is_none() {
                raw_rev = Some(kv.1.deep_clone());
            }
        }
    }
    proof {
        assert(pv.take(n as int) =~= pv);
    }
    let id = match raw_id {
        Some(DocValue::Str(s)) => s,
        _ => {
            return Err(ChesterfieldError::Decode);
        },
    };
    let ok = match raw_ok {
        Some(DocValue::Bool(b)) => b,
        _ => {
            return Err(ChesterfieldError::Decode);
        },
    };
    let rev = match raw_rev {
        Some(DocValue::Str(s)) => s,
        _ => {
            return Err(ChesterfieldError::Decode);
        },
    };
    Ok((id, ok, rev))
}

/// Interpret a write round trip: status first, then the body fields.
pub(crate) fn interpret_write(resp: HttpResponse) -> (r: Result<
    (String, bool, String),
    ChesterfieldError,
>)
    ensures
        r is Ok <==> spec_interpret_write(resp@) is Ok,
        r matches Ok(t) ==> Some((t.0@, t.1, t.2@)) == Some(spec_interpret_write(resp@)->Ok_0),
        r matches Err(e) ==> Err::<(Seq<char>, bool, Seq<char>), ChesterfieldError>(e)
            == spec_interpret_write(resp@),
{
    if resp.status == 404 {
        Err(ChesterfieldError::NotFound)
    } else if resp.status == 409 {
        Err(ChesterfieldError::Conflict)
    } else if 200 <= resp.status && resp.status < 300 {
        match resp.body {
            Some(v) => decode_write_fields(v),
            None => Err(ChesterfieldError::Decode),
        }
    } else {
        Err(ChesterfieldError::UnexpectedStatus(resp.status))
    }
}

} // verus!
