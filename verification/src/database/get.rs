//! The Get request: the richest query surface. A request is a lazy value
//! built fluently; turning it into a wire request serializes the query
//! options, omitting every field that is still at its default.

use vstd::prelude::*;

use crate::client::{spec_valid_segment, Client};
use crate::error::{res_view, ChesterfieldError};
use crate::request::{
    opt_val, pairs_view, HttpRequest, HttpRequestView, HttpResponse, HttpResponseView, Method,
};
use crate::text::{json_list, spec_json_list, strs_view};
use crate::value::{
    is_meta_key, lemma_lookup_push, lemma_pair_vals_of, lemma_pair_vals_of_push,
    lemma_strip_meta_push, pair_vals_of, spec_lookup, spec_strip_meta, val_of, vals_of, DocValue,
    Val,
};

verus! {

/// Which leaf revisions a Get request asks for.
pub enum OpenRevs {
    /// The listed revisions.
    Revisions(Vec<String>),
    /// All leaf revisions.
    All,
}

/// The view of an open-revisions choice.
pub enum OpenRevsView {
    Revisions(Seq<Seq<char>>),
    All,
}

impl View for OpenRevs {
    type V = OpenRevsView;

    open spec fn view(&self) -> OpenRevsView {
        match self {
            OpenRevs::Revisions(rs) => OpenRevsView::Revisions(strs_view(rs@)),
            OpenRevs::All => OpenRevsView::All,
        }
    }
}

/// The query options of a Get request. A field at its default is omitted
/// from the serialized query, to match the server's defaults.
pub struct GetRequestQuery {
    attachments: bool,
    att_encoding_info: bool,
    atts_since: Vec<String>,
    conflicts: bool,
    deleted_conflicts: bool,
    latest: bool,
    local_seq: bool,
    meta: bool,
    open_revs: Option<OpenRevs>,
    rev: Option<String>,
    revs: bool,
    revs_info: bool,
}

/// The view of the query options.
#[verifier::ext_equal]
pub struct GetQueryView {
    pub attachments: bool,
    pub att_encoding_info: bool,
    pub atts_since: Seq<Seq<char>>,
    pub conflicts: bool,
    pub deleted_conflicts: bool,
    pub latest: bool,
    pub local_seq: bool,
    pub meta: bool,
    pub open_revs: Option<OpenRevsView>,
    pub rev: Option<Seq<char>>,
    pub revs: bool,
    pub revs_info: bool,
}

/// The view of an optional open-revisions choice.
pub open spec fn opt_open_revs_view(o: &Option<OpenRevs>) -> Option<OpenRevsView> {
    match o {
        Some(v) => Some(v@),
        None => None,
    }
}

/// The view of an optional string.
pub open spec fn opt_str_view(o: &Option<String>) -> Option<Seq<char>> {
    match o {
        Some(s) => Some(s@),
        None => None,
    }
}

impl View for GetRequestQuery {
    type V = GetQueryView;

    closed spec fn view(&self) -> GetQueryView {
        GetQueryView {
            attachments: self.attachments,
            att_encoding_info: self.att_encoding_info,
            atts_since: strs_view(self.atts_since@),
            conflicts: self.conflicts,
            deleted_conflicts: self.deleted_conflicts,
            latest: self.latest,
            local_seq: self.local_seq,
            meta: self.meta,
            open_revs: opt_open_revs_view(&self.open_revs),
            rev: opt_str_view(&self.rev),
            revs: self.revs,
            revs_info: self.revs_info,
        }
    }
}

/// All options at their defaults: every flag false, every optional unset.
pub open spec fn spec_default_query() -> GetQueryView {
    GetQueryView {
        attachments: false,
        att_encoding_info: false,
        atts_since: Seq::<Seq<char>>::empty(),
        conflicts: false,
        deleted_conflicts: false,
        latest: false,
        local_seq: false,
        meta: false,
        open_revs: None,
        rev: None,
        revs: false,
        revs_info: false,
    }
}

impl Default for GetRequestQuery {
    /// The default-populated query options.
    fn default() -> (r: Self)
        ensures
            r@ == spec_default_query(),
    {
        let r = GetRequestQuery {
            attachments: false,
            att_encoding_info: false,
            atts_since: Vec::new(),
            conflicts: false,
            deleted_conflicts: false,
            latest: false,
            local_seq: false,
            meta: false,
            open_revs: None,
            rev: None,
            revs: false,
            revs_info: false,
        };
        proof {
            assert(strs_view(r.atts_since@) =~= Seq::<Seq<char>>::empty());
            assert(r@ =~= spec_default_query());
        }
        r
    }
}

/// A boolean query option: one `key=true` pair when set, nothing when not.
pub open spec fn flag_pair(b: bool, key: Seq<char>) -> Seq<(Seq<char>, Seq<char>)> {
    if b {
        seq![(key, "true"@)]
    } else {
        Seq::<(Seq<char>, Seq<char>)>::empty()
    }
}

/// The serialized query pairs of a Get request, in field order. Every option
/// still at its default is omitted entirely.
pub open spec fn spec_query_pairs(q: GetQueryView) -> Seq<(Seq<char>, Seq<char>)> {
    flag_pair(q.attachments, "attachments"@) + flag_pair(
        q.att_encoding_info,
        "att_encoding_info"@,
    ) + (if q.atts_since.len() > 0 {
        seq![("atts_since"@, spec_json_list(q.atts_since))]
    } else {
        Seq::<(Seq<char>, Seq<char>)>::empty()
    }) + flag_pair(q.conflicts, "conflicts"@) + flag_pair(q.deleted_conflicts, "deleted_conflicts"@)
        + flag_pair(q.latest, "latest"@) + flag_pair(q.local_seq, "local_seq"@) + flag_pair(
        q.meta,
        "meta"@,
    ) + (match q.open_revs {
        None => Seq::<(Seq<char>, Seq<char>)>::empty(),
        Some(OpenRevsView::All) => seq![("open_revs"@, "all"@)],
        Some(OpenRevsView::Revisions(rs)) => seq![("open_revs"@, spec_json_list(rs))],
    }) + (match q.rev {
        None => Seq::<(Seq<char>, Seq<char>)>::empty(),
        Some(r) => seq![("rev"@, r)],
    }) + flag_pair(q.revs, "revs"@) + flag_pair(q.revs_info, "revs_info"@)
}

/// A default query serializes to no pairs at all.
pub proof fn lemma_default_query_empty()
    ensures
        spec_query_pairs(spec_default_query()).len() == 0,
{
    assert(spec_query_pairs(spec_default_query()) =~= Seq::<(Seq<char>, Seq<char>)>::empty());
}

/// Append one boolean option: a `key=true` pair when set, nothing when not.
fn push_flag(out: &mut Vec<(String, String)>, b: bool, key: &str)
    ensures
        pairs_view(final(out)@) == pairs_view(old(out)@) + flag_pair(b, key@),
{
    if b {
        out.push((String::from_str(key), String::from_str("true")));
        proof {
            assert(pairs_view(out@) =~= pairs_view(old(out)@) + flag_pair(b, key@));
        }
    } else {
        proof {
            assert(pairs_view(out@) =~= pairs_view(old(out)@) + flag_pair(b, key@));
        }
    }
}

impl GetRequestQuery {
    /// Serialize the options to query pairs, omitting defaults.
    #[verifier::rlimit(50)]
    pub fn query_pairs(&self) -> (r: Vec<(String, String)>)
        ensures
            pairs_view(r@) == spec_query_pairs(self@),
    {
        let mut out: Vec<(String, String)> = Vec::new();
        proof {
            assert(pairs_view(out@) =~= Seq::<(Seq<char>, Seq<char>)>::empty());
        }
        push_flag(&mut out, self.attachments, "attachments");
        push_flag(&mut out, self.att_encoding_info, "att_encoding_info");
        let ghost snap_atts = pairs_view(out@);
        if self.atts_since.len() > 0 {
            let l = json_list(&self.atts_since);
            out.push((String::from_str("atts_since"), l));
        }
        proof {
            assert(pairs_view(out@) =~= snap_atts + (if self@.atts_since.len() > 0 {
                seq![("atts_since"@, spec_json_list(self@.atts_since))]
            } else {
                Seq::<(Seq<char>, Seq<char>)>::empty()
            }));
        }
        push_flag(&mut out, self.conflicts, "conflicts");
        push_flag(&mut out, self.deleted_conflicts, "deleted_conflicts");
        push_flag(&mut out, self.latest, "latest");
        push_flag(&mut out, self.local_seq, "local_seq");
        push_flag(&mut out, self.meta, "meta");
        let ghost snap_open = pairs_view(out@);
        match &self.open_revs {
            None => {},
            Some(OpenRevs::All) => {
                out.push((String::from_str("open_revs"), String::from_str("all")));
            },
            Some(OpenRevs::Revisions(rs)) => {
                let l = json_list(rs);
                out.push((String::from_str("open_revs"), l));
            },
        }
        proof {
            assert(pairs_view(out@) =~= snap_open + (match self@.open_revs {
                None => Seq::<(Seq<char>, Seq<char>)>::empty(),
                Some(OpenRevsView::All) => seq![("open_revs"@, "all"@)],
                Some(OpenRevsView::Revisions(rs)) => seq![("open_revs"@, spec_json_list(rs))],
            }));
        }
        let ghost snap_rev = pairs_view(out@);
        match &self.rev {
            None => {},
            Some(r) => {
                out.push((String::from_str("rev"), r.clone()));
            },
        }
        proof {
            assert(pairs_view(out@) =~= snap_rev + (match self@.rev {
                None => Seq::<(Seq<char>, Seq<char>)>::empty(),
                Some(r) => seq![("rev"@, r)],
            }));
        }
        push_flag(&mut out, self.revs, "revs");
        push_flag(&mut out, self.revs_info, "revs_info");
        proof {
            assert(Seq::<(Seq<char>, Seq<char>)>::empty() + flag_pair(
                self@.attachments,
                "attachments"@,
            ) =~= flag_pair(self@.attachments, "attachments"@));
            assert(pairs_view(out@) == spec_query_pairs(self@));
        }
        out
    }
}

impl GetRequestQuery {
    /// Whether conflict information is asked for, directly or through `meta`.
    pub fn effective_conflicts(&self) -> (r: bool)
        ensures
            r == (self@.conflicts || self@.meta),
    {
        self.conflicts || self.meta
    }

    /// Whether deleted-conflict information is asked for, directly or through
    /// `meta`.
    pub fn effective_deleted_conflicts(&self) -> (r: bool)
        ensures
            r == (self@.deleted_conflicts || self@.meta),
    {
        self.deleted_conflicts || self.meta
    }

    /// Whether revision information is asked for, directly or through `meta`.
    pub fn effective_revs_info(&self) -> (r: bool)
        ensures
            r == (self@.revs_info || self@.meta),
    {
        self.revs_info || self.meta
    }
}

/// A request to retrieve a document. Lazy: building and configuring it does
/// no I/O; `into_request` produces the wire request for the transport.
pub struct GetRequest {
    id: String,
    client: Client,
    query: GetRequestQuery,
}

/// The view of a Get request.
#[verifier::ext_equal]
pub struct GetRequestView {
    pub url: Seq<char>,
    pub id: Seq<char>,
    pub query: GetQueryView,
}

impl View for GetRequest {
    type V = GetRequestView;

    closed spec fn view(&self) -> GetRequestView {
        GetRequestView { url: self.client.spec_url(), id: self.id@, query: self.query@ }
    }
}

impl GetRequest {
    /// The endpoint URL of the request is well formed.
    pub closed spec fn wf(&self) -> bool {
        self.client.wf()
    }

    pub(crate) fn new(client: &Client, id: String) -> (r: Self)
        requires
            client.wf(),
        ensures
            r.wf(),
            r@ == (GetRequestView {
                url: client.spec_url(),
                id: id@,
                query: spec_default_query(),
            }),
    {
        GetRequest { id, client: client.duplicate(), query: GetRequestQuery::default() }
    }

    /// Include attachment bodies in the response. Default is false.
    pub fn attachments(self, value: bool) -> (r: Self)
        ensures
            r.wf() == self.wf(),
            r@ == (GetRequestView {
                query: GetQueryView { attachments: value, ..self@.query },
                ..self@
            }),
    {
        let mut s = self;
        s.query.attachments = value;
        s
    }

    /// Include attachment encoding information. Default is false.
    pub fn attachment_encoding_info(self, value: bool) -> (r: Self)
        ensures
            r.wf() == self.wf(),
            r@ == (GetRequestView {
                query: GetQueryView { att_encoding_info: value, ..self@.query },
                ..self@
            }),
    {
        let mut s = self;
        s.query.att_encoding_info = value;
        s
    }

    /// Include only attachments since the given revisions. Default is none.
    pub fn attachments_since(self, revisions: Vec<String>) -> (r: Self)
        ensures
            r.wf() == self.wf(),
            r@ == (GetRequestView {
                query: GetQueryView { atts_since: strs_view(revisions@), ..self@.query },
                ..self@
            }),
    {
        let mut s = self;
        s.query.atts_since = revisions;
        s
    }

    /// Include information about conflicts. Default is false.
    pub fn conflicts(self, value: bool) -> (r: Self)
        ensures
            r.wf() == self.wf(),
            r@ == (GetRequestView {
                query: GetQueryView { conflicts: value, ..self@.query },
                ..self@
            }),
    {
        let mut s = self;
        s.query.conflicts = value;
        s
    }

    /// Include information about deleted conflict revisions. Default is false.
    pub fn deleted_conflicts(self, value: bool) -> (r: Self)
        ensures
            r.wf() == self.wf(),
            r@ == (GetRequestView {
                query: GetQueryView { deleted_conflicts: value, ..self@.query },
                ..self@
            }),
    {
        let mut s = self;
        s.query.deleted_conflicts = value;
        s
    }

    /// Force retrieving the latest leaf revision. Default is false.
    pub fn latest(self, value: bool) -> (r: Self)
        ensures
            r.wf() == self.wf(),
            r@ == (GetRequestView {
                query: GetQueryView { latest: value, ..self@.query },
                ..self@
            }),
    {
        let mut s = self;
        s.query.latest = value;
        s
    }

    /// Include the node-local update sequence of the document. Default is
    /// false.
    pub fn local_sequence(self, value: bool) -> (r: Self)
        ensures
            r.wf() == self.wf(),
            r@ == (GetRequestView {
                query: GetQueryView { local_seq: value, ..self@.query },
                ..self@
            }),
    {
        let mut s = self;
        s.query.local_seq = value;
        s
    }

    /// Shorthand for enabling `conflicts`, `deleted_conflicts` and
    /// `revisions_info` together. Default is false.
    pub fn meta(self, value: bool) -> (r: Self)
        ensures
            r.wf() == self.wf(),
            r@ == (GetRequestView {
                query: GetQueryView { meta: value, ..self@.query },
                ..self@
            }),
    {
        let mut s = self;
        s.query.meta = value;
        s
    }

    /// Retrieve documents of the given leaf revisions.
    pub fn open_revisions(self, revisions: Vec<String>) -> (r: Self)
        ensures
            r.wf() == self.wf(),
            r@ == (GetRequestView {
                query: GetQueryView {
                    open_revs: Some(OpenRevsView::Revisions(strs_view(revisions@))),
                    ..self@.query
                },
                ..self@
            }),
    {
        let mut s = self;
        s.query.open_revs = Some(OpenRevs::Revisions(revisions));
        s
    }

    /// Retrieve documents of all leaf revisions. Default is false.
    pub fn all_open_revisions(self, value: bool) -> (r: Self)
        ensures
            r.wf() == self.wf(),
            r@ == (GetRequestView {
                query: GetQueryView {
                    open_revs: if value {
                        Some(OpenRevsView::All)
                    } else {
                        None
                    },
                    ..self@.query
                },
                ..self@
            }),
    {
        let mut s = self;
        if value {
            s.query.open_revs = Some(OpenRevs::All);
        } else {
            s.query.open_revs = None;
        }
        s
    }

    /// Retrieve the document of the given revision.
    pub fn revision(self, revision: Option<String>) -> (r: Self)
        ensures
            r.wf() == self.wf(),
            r@ == (GetRequestView {
                query: GetQueryView { rev: opt_str_view(&revision), ..self@.query },
                ..self@
            }),
    {
        let mut s = self;
        s.query.rev = revision;
        s
    }

    /// Retrieve the list of known document revisions. Default is false.
    pub fn revisions(self, value: bool) -> (r: Self)
        ensures
            r.wf() == self.wf(),
            r@ == (GetRequestView {
                query: GetQueryView { revs: value, ..self@.query },
                ..self@
            }),
    {
        let mut s = self;
        s.query.revs = value;
        s
    }

    /// Include detailed information for all known revisions. Default is
    /// false.
    pub fn revisions_info(self, value: bool) -> (r: Self)
        ensures
            r.wf() == self.wf(),
            r@ == (GetRequestView {
                query: GetQueryView { revs_info: value, ..self@.query },
                ..self@
            }),
    {
        let mut s = self;
        s.query.revs_info = value;
        s
    }

    /// The query options as configured so far.
    pub fn query_options(&self) -> (r: &GetRequestQuery)
        ensures
            r@ == self@.query,
    {
        &self.query
    }

    /// Turn the request into a wire request: a GET of the document URL with
    /// the serialized query. Fails exactly when the id is not a valid path
    /// segment.
    pub fn into_request(self) -> (r: Result<HttpRequest, ChesterfieldError>)
        requires
            self.wf(),
        ensures
            r is Ok <==> spec_valid_segment(self@.id),
            r matches Err(e) ==> e == ChesterfieldError::UrlParse,
            r matches Ok(req) ==> req@ == (HttpRequestView {
                method: Method::Get,
                url: self@.url + self@.id,
                query: spec_query_pairs(self@.query),
                body: None,
            }),
    {
        if !crate::client::is_valid_segment(self.id.as_str()) {
            return Err(ChesterfieldError::UrlParse);
        }
        let query = self.query.query_pairs();
        let url = self.client.url().clone().concat(self.id.as_str());
        Ok(HttpRequest { method: Method::Get, url, query, body: None })
    }
}

/// Server metadata of a retrieved document: the `_`-prefixed envelope fields.
#[derive(Debug)]
pub struct GetResponseMeta {
    /// The document id.
    pub _id: String,
    /// The current revision token.
    pub _rev: String,
    /// Whether the document is deleted.
    pub _deleted: Option<bool>,
    /// Attachment stubs or bodies, when requested.
    pub _attachments: Option<DocValue>,
    /// Conflicting leaf revisions, when requested.
    pub _conflicts: Option<Vec<DocValue>>,
    /// Deleted conflicting revisions, when requested.
    pub _deleted_conflicts: Option<Vec<DocValue>>,
    /// The node-local update sequence, when requested.
    pub _local_seq: Option<String>,
    /// Detailed revision information, when requested.
    pub _revs_info: Option<Vec<DocValue>>,
    /// The revision history, when requested.
    pub _revisions: Option<DocValue>,
}

/// The view of the metadata fields.
#[verifier::ext_equal]
pub struct GetResponseMetaView {
    pub id: Seq<char>,
    pub rev: Seq<char>,
    pub deleted: Option<bool>,
    pub attachments: Option<Val>,
    pub conflicts: Option<Seq<Val>>,
    pub deleted_conflicts: Option<Seq<Val>>,
    pub local_seq: Option<Seq<char>>,
    pub revs_info: Option<Seq<Val>>,
    pub revisions: Option<Val>,
}

/// The view of an optional list of document values.
pub open spec fn opt_vec_vals(o: &Option<Vec<DocValue>>) -> Option<Seq<Val>> {
    match o {
        Some(v) => Some(vals_of(v@)),
        None => None,
    }
}

/// The view of an optional document value, by reference.
pub open spec fn opt_val_ref(o: &Option<DocValue>) -> Option<Val> {
    match o {
        Some(v) => Some(val_of(*v)),
        None => None,
    }
}

impl View for GetResponseMeta {
    type V = GetResponseMetaView;

    open spec fn view(&self) -> GetResponseMetaView {
        GetResponseMetaView {
            id: self._id@,
            rev: self._rev@,
            deleted: self._deleted,
            attachments: opt_val_ref(&self._attachments),
            conflicts: opt_vec_vals(&self._conflicts),
            deleted_conflicts: opt_vec_vals(&self._deleted_conflicts),
            local_seq: opt_str_view(&self._local_seq),
            revs_info: opt_vec_vals(&self._revs_info),
            revisions: opt_val_ref(&self._revisions),
        }
    }
}

/// A decoded document envelope: the payload fields, if the document is not
/// deleted, and the server metadata. Constructed only by decoding a server
/// response; never mutated.
#[derive(Debug)]
pub struct GetResponse {
    document: Option<DocValue>,
    meta_data: GetResponseMeta,
}

/// The view of a decoded envelope.
#[verifier::ext_equal]
pub struct GetResponseView {
    pub document: Option<Val>,
    pub meta: GetResponseMetaView,
}

impl View for GetResponse {
    type V = GetResponseView;

    closed spec fn view(&self) -> GetResponseView {
        GetResponseView { document: opt_val_ref(&self.document), meta: self.meta_data@ }
    }
}

impl GetResponse {
    /// The metadata of the response. Which fields are present depends on the
    /// options set in the request.
    pub fn meta_data(&self) -> (r: &GetResponseMeta)
        ensures
            r@ == self@.meta,
    {
        &self.meta_data
    }

    /// Consume the response and return the contained document, absent when
    /// the document is deleted.
    pub fn into_inner(self) -> (r: Option<DocValue>)
        ensures
            opt_val(r) == self@.document,
    {
        self.document
    }
}

/// Reading an optional string metadata field: absent is fine, a string is
/// taken, any other shape fails the decode.
pub open spec fn meta_str_field(pairs: Seq<(Seq<char>, Val)>, key: Seq<char>) -> Result<
    Option<Seq<char>>,
    ChesterfieldError,
> {
    match spec_lookup(pairs, key) {
        None => Ok(None),
        Some(Val::Str(s)) => Ok(Some(s)),
        Some(_) => Err(ChesterfieldError::Decode),
    }
}

/// Reading an optional boolean metadata field.
pub open spec fn meta_bool_field(pairs: Seq<(Seq<char>, Val)>, key: Seq<char>) -> Result<
    Option<bool>,
    ChesterfieldError,
> {
    match spec_lookup(pairs, key) {
        None => Ok(None),
        Some(Val::Bool(b)) => Ok(Some(b)),
        Some(_) => Err(ChesterfieldError::Decode),
    }
}

/// Reading an optional array metadata field.
pub open spec fn meta_arr_field(pairs: Seq<(Seq<char>, Val)>, key: Seq<char>) -> Result<
    Option<Seq<Val>>,
    ChesterfieldError,
> {
    match spec_lookup(pairs, key) {
        None => Ok(None),
        Some(Val::Arr(a)) => Ok(Some(a)),
        Some(_) => Err(ChesterfieldError::Decode),
    }
}

/// How a retrieved body decodes into an envelope: keys beginning with `_`
/// are metadata (id and rev are required, the typed optionals must have
/// their shapes), the remaining fields are the payload. A document marked
/// deleted carries no payload.
pub open spec fn spec_decode_get_body(v: Val) -> Result<GetResponseView, ChesterfieldError> {
    if !(v is Obj) {
        Err(ChesterfieldError::Decode)
    } else {
        let pairs = v->Obj_0;
        if !(spec_lookup(pairs, "_id"@) matches Some(Val::Str(_))) {
            Err(ChesterfieldError::Decode)
        } else if !(spec_lookup(pairs, "_rev"@) matches Some(Val::Str(_))) {
            Err(ChesterfieldError::Decode)
        } else if meta_bool_field(pairs, "_deleted"@) is Err {
            Err(ChesterfieldError::Decode)
        } else if meta_arr_field(pairs, "_conflicts"@) is Err {
            Err(ChesterfieldError::Decode)
        } else if meta_arr_field(pairs, "_deleted_conflicts"@) is Err {
            Err(ChesterfieldError::Decode)
        } else if meta_str_field(pairs, "_local_seq"@) is Err {
            Err(ChesterfieldError::Decode)
        } else if meta_arr_field(pairs, "_revs_info"@) is Err {
            Err(ChesterfieldError::Decode)
        } else {
            let deleted = meta_bool_field(pairs, "_deleted"@)->Ok_0;
            Ok(GetResponseView {
                document: if deleted == Some(true) {
                    None
                } else {
                    Some(Val::Obj(spec_strip_meta(pairs)))
                },
                meta: GetResponseMetaView {
                    id: spec_lookup(pairs, "_id"@)->Some_0->Str_0,
                    rev: spec_lookup(pairs, "_rev"@)->Some_0->Str_0,
                    deleted,
                    attachments: spec_lookup(pairs, "_attachments"@),
                    conflicts: meta_arr_field(pairs, "_conflicts"@)->Ok_0,
                    deleted_conflicts: meta_arr_field(pairs, "_deleted_conflicts"@)->Ok_0,
                    local_seq: meta_str_field(pairs, "_local_seq"@)->Ok_0,
                    revs_info: meta_arr_field(pairs, "_revs_info"@)->Ok_0,
                    revisions: spec_lookup(pairs, "_revisions"@),
                },
            })
        }
    }
}

/// Decode a retrieved body into an envelope.
#[verifier::rlimit(100)]
pub fn decode_get_body(body: DocValue) -> (r: Result<GetResponse, ChesterfieldError>)
    ensures
        res_view(r) == spec_decode_get_body(body@),
{
    proof {
        reveal_strlit("_id");
        reveal_strlit("_rev");
        reveal_strlit("_deleted");
        reveal_strlit("_attachments");
        reveal_strlit("_conflicts");
        reveal_strlit("_deleted_conflicts");
        reveal_strlit("_local_seq");
        reveal_strlit("_revs_info");
        reveal_strlit("_revisions");
    }
    let pairs: Vec<(String, DocValue)> = match body {
        DocValue::Object(pairs) => pairs,
        _ => {
            return Err(ChesterfieldError::Decode);
        },
    };
    let ghost pv = pair_vals_of(pairs@);
    proof {
        lemma_pair_vals_of(pairs@);
    }
    let key_id = String::from_str("_id");
    let key_rev = String::from_str("_rev");
    let key_deleted = String::from_str("_deleted");
    let key_attachments = String::from_str("_attachments");
    let key_conflicts = String::from_str("_conflicts");
    let key_deleted_conflicts = String::from_str("_deleted_conflicts");
    let key_local_seq = String::from_str("_local_seq");
    let key_revs_info = String::from_str("_revs_info");
    let key_revisions = String::from_str("_revisions");
    let mut raw_id: Option<DocValue> = None;
    let mut raw_rev: Option<DocValue> = None;
    let mut raw_deleted: Option<DocValue> = None;
    let mut raw_attachments: Option<DocValue> = None;
    let mut raw_conflicts: Option<DocValue> = None;
    let mut raw_deleted_conflicts: Option<DocValue> = None;
    let mut raw_local_seq: Option<DocValue> = None;
    let mut raw_revs_info: Option<DocValue> = None;
    let mut raw_revisions: Option<DocValue> = None;
    let mut rest: Vec<(String, DocValue)> = Vec::new();
    let n = pairs.len();
    for i in 0..n
        invariant
            n == pairs@.len(),
            pv == pair_vals_of(pairs@),
            pv.len() == n,
            forall|j: int| 0 <= j < n ==> pv[j] == (pairs@[j].0@, val_of(pairs@[j].1)),
            key_id@ == "_id"@,
            key_rev@ == "_rev"@,
            key_deleted@ == "_deleted"@,
            key_attachments@ == "_attachments"@,
            key_conflicts@ == "_conflicts"@,
            key_deleted_conflicts@ == "_deleted_conflicts"@,
            key_local_seq@ == "_local_seq"@,
            key_revs_info@ == "_revs_info"@,
            key_revisions@ == "_revisions"@,
            opt_val(raw_id) == spec_lookup(pv.take(i as int), "_id"@),
            opt_val(raw_rev) == spec_lookup(pv.take(i as int), "_rev"@),
            opt_val(raw_deleted) == spec_lookup(pv.take(i as int), "_deleted"@),
            opt_val(raw_attachments) == spec_lookup(pv.take(i as int), "_attachments"@),
            opt_val(raw_conflicts) == spec_lookup(pv.take(i as int), "_conflicts"@),
            opt_val(raw_deleted_conflicts) == spec_lookup(pv.take(i as int), "_deleted_conflicts"@),
            opt_val(raw_local_seq) == spec_lookup(pv.take(i as int), "_local_seq"@),
            opt_val(raw_revs_info) == spec_lookup(pv.take(i as int), "_revs_info"@),
            opt_val(raw_revisions) == spec_lookup(pv.take(i as int), "_revisions"@),
            pair_vals_of(rest@) == spec_strip_meta(pv.take(i as int)),
    {
        proof {
            reveal_strlit("_id");
            reveal_strlit("_rev");
            reveal_strlit("_deleted");
            reveal_strlit("_attachments");
            reveal_strlit("_conflicts");
            reveal_strlit("_deleted_conflicts");
            reveal_strlit("_local_seq");
            reveal_strlit("_revs_info");
            reveal_strlit("_revisions");
            assert("_id"@.len() == 3 && "_rev"@.len() == 4 && "_deleted"@.len() == 8
                && "_attachments"@.len() == 12 && "_conflicts"@.len() == 10
                && "_deleted_conflicts"@.len() == 18 && "_local_seq"@.len() == 10
                && "_revs_info"@.len() == 10 && "_revisions"@.len() == 10);
            assert("_conflicts"@[1] == 'c' && "_local_seq"@[1] == 'l' && "_revs_info"@[1] == 'r'
                && "_revisions"@[1] == 'r');
            assert("_revs_info"@[4] == 's' && "_revisions"@[4] == 'i');
            assert(pv.take(i + 1) =~= pv.take(i as int).push(pv[i as int]));
            lemma_lookup_push(pv.take(i as int), pv[i as int], "_id"@);
            lemma_lookup_push(pv.take(i as int), pv[i as int], "_rev"@);
            lemma_lookup_push(pv.take(i as int), pv[i as int], "_deleted"@);
            lemma_lookup_push(pv.take(i as int), pv[i as int], "_attachments"@);
            lemma_lookup_push(pv.take(i as int), pv[i as int], "_conflicts"@);
            lemma_lookup_push(pv.take(i as int), pv[i as int], "_deleted_conflicts"@);
            lemma_lookup_push(pv.take(i as int), pv[i as int], "_local_seq"@);
            lemma_lookup_push(pv.take(i as int), pv[i as int], "_revs_info"@);
            lemma_lookup_push(pv.take(i as int), pv[i as int], "_revisions"@);
            lemma_strip_meta_push(pv.take(i as int), pv[i as int]);
        }
        let kv = &pairs[i];
        if kv.0 == key_id {
            if raw_id.is_none() {
                raw_id = Some(kv.1.deep_clone());
            }
        } else if kv.0 == key_rev {
            if raw_rev.is_none() {
                raw_rev = Some(kv.1.deep_clone());
            }
        } else if kv.0 == key_deleted {
            if raw_deleted.is_none() {
                raw_deleted = Some(kv.1.deep_clone());
            }
        } else if kv.0 == key_attachments {
            if raw_attachments.is_none() {
                raw_attachments = Some(kv.1.deep_clone());
            }
        } else if kv.0 == key_conflicts {
            if raw_conflicts.is_none() {
                raw_conflicts = Some(kv.1.deep_clone());
            }
        } else if kv.0 == key_deleted_conflicts {
            if raw_deleted_conflicts.is_none() {
                raw_deleted_conflicts = Some(kv.1.deep_clone());
            }
        } else if kv.0 == key_local_seq {
            if raw_local_seq.is_none() {
                raw_local_seq = Some(kv.1.deep_clone());
            }
        } else if kv.0 == key_revs_info {
            if raw_revs_info.is_none() {
                raw_revs_info = Some(kv.1.deep_clone());
            }
        } else if kv.0 == key_revisions {
            if raw_revisions.is_none() {
                raw_revisions = Some(kv.1.deep_clone());
            }
        } else if is_meta_key(kv.0.as_str()) {
            // an unknown metadata field: stripped from the payload, ignored
        } else {
            let ghost prev_rest = rest@;
            rest.push((kv.0.clone(), kv.1.deep_clone()));
            proof {
                lemma_pair_vals_of_push(prev_rest, rest@.last().0, rest@.last().1);
                assert(rest@.drop_last() =~= prev_rest);
                assert(rest@ =~= prev_rest.push(rest@.last()));
            }
        }
    }
    proof {
        assert(pv.take(n as int) =~= pv);
    }
    let id = match raw_id {
        Some(DocValue::Str(s)) => s,
        _ => {
            return Err(ChesterfieldError::Decode);
        },
    };
    let rev = match raw_rev {
        Some(DocValue::Str(s)) => s,
        _ => {
            return Err(ChesterfieldError::Decode);
        },
    };
    let deleted: Option<bool> = match raw_deleted {
        None => None,
        Some(DocValue::Bool(b)) => Some(b),
        Some(_) => {
            return Err(ChesterfieldError::Decode);
        },
    };
    let conflicts: Option<Vec<DocValue>> = match raw_conflicts {
        None => None,
        Some(DocValue::Array(a)) => Some(a),
        Some(_) => {
            return Err(ChesterfieldError::Decode);
        },
    };
    let deleted_conflicts: Option<Vec<DocValue>> = match raw_deleted_conflicts {
        None => None,
        Some(DocValue::Array(a)) => Some(a),
        Some(_) => {
            return Err(ChesterfieldError::Decode);
        },
    };
    let local_seq: Option<String> = match raw_local_seq {
        None => None,
        Some(DocValue::Str(s)) => Some(s),
        Some(_) => {
            return Err(ChesterfieldError::Decode);
        },
    };
    let revs_info: Option<Vec<DocValue>> = match raw_revs_info {
        None => None,
        Some(DocValue::Array(a)) => Some(a),
        Some(_) => {
            return Err(ChesterfieldError::Decode);
        },
    };
    let document = match deleted {
        Some(true) => None,
        _ => Some(DocValue::Object(rest)),
    };
    let resp = GetResponse {
        document,
        meta_data: GetResponseMeta {
            _id: id,
            _rev: rev,
            _deleted: deleted,
            _attachments: raw_attachments,
            _conflicts: conflicts,
            _deleted_conflicts: deleted_conflicts,
            _local_seq: local_seq,
            _revs_info: revs_info,
            _revisions: raw_revisions,
        },
    };
    proof {
        assert(resp@ =~= spec_decode_get_body(body@)->Ok_0);
    }
    Ok(resp)
}

/// What a Get response means: 404 is no such document, a success status
/// carries the envelope, anything else is surfaced, never a panic.
pub open spec fn spec_interpret_get(resp: HttpResponseView) -> Result<
    GetResponseView,
    ChesterfieldError,
> {
    if resp.status == 404 {
        Err(ChesterfieldError::NotFound)
    } else if 200 <= resp.status < 300 {
        match resp.body {
            Some(v) => spec_decode_get_body(v),
            None => Err(ChesterfieldError::Decode),
        }
    } else {
        Err(ChesterfieldError::UnexpectedStatus(resp.status))
    }
}

/// Interpret a Get round trip: status first, then the envelope decode.
pub fn interpret_get(resp: HttpResponse) -> (r: Result<GetResponse, ChesterfieldError>)
    ensures
        res_view(r) == spec_interpret_get(resp@),
{
    if resp.status == 404 {
        Err(ChesterfieldError::NotFound)
    } else if 200 <= resp.status && resp.status < 300 {
        match resp.body {
            Some(v) => decode_get_body(v),
            None => Err(ChesterfieldError::Decode),
        }
    } else {
        Err(ChesterfieldError::UnexpectedStatus(resp.status))
    }
}

} // verus!
