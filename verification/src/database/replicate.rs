//! The replication descriptor: kept for interface completeness. Its wire
//! body omits boolean fields that are false, empty lists and unset optionals.
//! No replication round trip is performed by this crate.

use vstd::prelude::*;

use crate::client::Client;
use crate::database::get::opt_str_view;
use crate::database::Database;
use crate::text::strs_view;
use crate::value::{pair_vals_of, vals_of, DocValue, Val};

verus! {

/// Whether a boolean is true; a serializer's omission test.
pub fn is_true(value: &bool) -> (r: bool)
    ensures
        r == *value,
{
    *value
}

/// Whether a boolean is false; a serializer's omission test.
pub fn is_false(value: &bool) -> (r: bool)
    ensures
        r == !*value,
{
    !*value
}

/// A replication descriptor: where to copy documents from and to, and how.
pub struct ReplicatePayload {
    cancel: bool,
    continuous: bool,
    create_target: bool,
    doc_ids: Vec<String>,
    filter: Option<String>,
    proxy: Option<String>,
    source: String,
    sink: String,
}

/// The view of a replication descriptor.
#[verifier::ext_equal]
pub struct ReplicatePayloadView {
    pub cancel: bool,
    pub continuous: bool,
    pub create_target: bool,
    pub doc_ids: Seq<Seq<char>>,
    pub filter: Option<Seq<char>>,
    pub proxy: Option<Seq<char>>,
    pub source: Seq<char>,
    pub sink: Seq<char>,
}

impl View for ReplicatePayload {
    type V = ReplicatePayloadView;

    closed spec fn view(&self) -> ReplicatePayloadView {
        ReplicatePayloadView {
            cancel: self.cancel,
            continuous: self.continuous,
            create_target: self.create_target,
            doc_ids: strs_view(self.doc_ids@),
            filter: opt_str_view(&self.filter),
            proxy: opt_str_view(&self.proxy),
            source: self.source@,
            sink: self.sink@,
        }
    }
}

/// A fresh descriptor: copy from `source` to `sink`, everything else unset.
pub open spec fn spec_new_payload(source: Seq<char>, sink: Seq<char>) -> ReplicatePayloadView {
    ReplicatePayloadView {
        cancel: false,
        continuous: false,
        create_target: false,
        doc_ids: Seq::<Seq<char>>::empty(),
        filter: None,
        proxy: None,
        source,
        sink,
    }
}

/// The wire body of a replication descriptor, in field order: false booleans,
/// the empty id list and unset optionals are omitted entirely.
pub open spec fn spec_replicate_body(p: ReplicatePayloadView) -> Val {
    Val::Obj(
        (if p.cancel {
            seq![("cancel"@, Val::Bool(true))]
        } else {
            Seq::<(Seq<char>, Val)>::empty()
        }) + (if p.continuous {
            seq![("continuous"@, Val::Bool(true))]
        } else {
            Seq::<(Seq<char>, Val)>::empty()
        }) + (if p.create_target {
            seq![("create_target"@, Val::Bool(true))]
        } else {
            Seq::<(Seq<char>, Val)>::empty()
        }) + (if p.doc_ids.len() > 0 {
            seq![("doc_ids"@, Val::Arr(p.doc_ids.map_values(|s: Seq<char>| Val::Str(s))))]
        } else {
            Seq::<(Seq<char>, Val)>::empty()
        }) + (match p.filter {
            Some(f) => seq![("filter"@, Val::Str(f))],
            None => Seq::<(Seq<char>, Val)>::empty(),
        }) + (match p.proxy {
            Some(x) => seq![("proxy"@, Val::Str(x))],
            None => Seq::<(Seq<char>, Val)>::empty(),
        }) + seq![("source"@, Val::Str(p.source))] + seq![("sink"@, Val::Str(p.sink))],
    )
}

impl ReplicatePayload {
    /// A descriptor copying from `source` to `sink`, with every option unset.
    pub fn new(source: String, sink: String) -> (r: Self)
        ensures
            r@ == spec_new_payload(source@, sink@),
    {
        let r = ReplicatePayload {
            cancel: false,
            continuous: false,
            create_target: false,
            doc_ids: Vec::new(),
            filter: None,
            proxy: None,
            source,
            sink,
        };
        proof {
            assert(strs_view(r.doc_ids@) =~= Seq::<Seq<char>>::empty());
            assert(r@ =~= spec_new_payload(r.source@, r.sink@));
        }
        r
    }

    /// The wire body of this descriptor, with defaults omitted.
    #[verifier::rlimit(50)]
    pub fn to_value(&self) -> (r: DocValue)
        ensures
            r@ == spec_replicate_body(self@),
    {
        let mut out: Vec<(String, DocValue)> = Vec::new();
        let ghost b1 = if self@.cancel {
            seq![("cancel"@, Val::Bool(true))]
        } else {
            Seq::<(Seq<char>, Val)>::empty()
        };
        let ghost b2 = b1 + if self@.continuous {
            seq![("continuous"@, Val::Bool(true))]
        } else {
            Seq::<(Seq<char>, Val)>::empty()
        };
        let ghost b3 = b2 + if self@.create_target {
            seq![("create_target"@, Val::Bool(true))]
        } else {
            Seq::<(Seq<char>, Val)>::empty()
        };
        let ghost b4 = b3 + if self@.doc_ids.len() > 0 {
            seq![("doc_ids"@, Val::Arr(self@.doc_ids.map_values(|s: Seq<char>| Val::Str(s))))]
        } else {
            Seq::<(Seq<char>, Val)>::empty()
        };
        let ghost b5 = b4 + match self@.filter {
            Some(f) => seq![("filter"@, Val::Str(f))],
            None => Seq::<(Seq<char>, Val)>::empty(),
        };
        let ghost b6 = b5 + match self@.proxy {
            Some(x) => seq![("proxy"@, Val::Str(x))],
            None => Seq::<(Seq<char>, Val)>::empty(),
        };
        if self.cancel {
            out.push((String::from_str("cancel"), DocValue::Bool(true)));
        }
        proof {
            crate::value::lemma_pair_vals_of(out@);
            assert(pair_vals_of(out@) =~= b1);
        }
        if self.continuous {
            out.push((String::from_str("continuous"), DocValue::Bool(true)));
        }
        proof {
            crate::value::lemma_pair_vals_of(out@);
            assert(pair_vals_of(out@) =~= b2);
        }
        if self.create_target {
            out.push((String::from_str("create_target"), DocValue::Bool(true)));
        }
        proof {
            crate::value::lemma_pair_vals_of(out@);
            assert(pair_vals_of(out@) =~= b3);
        }
        if self.doc_ids.len() > 0 {
            let mut ids: Vec<DocValue> = Vec::new();
            let n = self.doc_ids.len();
            for i in 0..n
                invariant
                    n == self.doc_ids@.len(),
                    ids@.len() == i,
                    vals_of(ids@) == strs_view(self.doc_ids@).take(i as int).map_values(
                        |s: Seq<char>| Val::Str(s),
                    ),
            {
                let ghost prev = ids@;
                ids.push(DocValue::Str(self.doc_ids[i].clone()));
                proof {
                    crate::value::lemma_vals_of_push(prev, ids@.last());
                    assert(vals_of(ids@) =~= strs_view(self.doc_ids@).take(i + 1).map_values(
                        |s: Seq<char>| Val::Str(s),
                    ));
                }
            }
            out.push((String::from_str("doc_ids"), DocValue::Array(ids)));
            proof {
                assert(strs_view(self.doc_ids@).take(n as int) =~= strs_view(self.doc_ids@));
                assert(vals_of(out@.last().1->Array_0@) == self@.doc_ids.map_values(
                    |s: Seq<char>| Val::Str(s),
                ));
            }
        }
        proof {
            crate::value::lemma_pair_vals_of(out@);
            assert(pair_vals_of(out@) =~= b4);
        }
        match &self.filter {
            Some(f) => {
                out.push((String::from_str("filter"), DocValue::Str(f.clone())));
            },
            None => {},
        }
        proof {
            crate::value::lemma_pair_vals_of(out@);
            assert(pair_vals_of(out@) =~= b5);
        }
        match &self.proxy {
            Some(x) => {
                out.push((String::from_str("proxy"), DocValue::Str(x.clone())));
            },
            None => {},
        }
        proof {
            crate::value::lemma_pair_vals_of(out@);
            assert(pair_vals_of(out@) =~= b6);
        }
        out.push((String::from_str("source"), DocValue::Str(self.source.clone())));
        out.push((String::from_str("sink"), DocValue::Str(self.sink.clone())));
        proof {
            crate::value::lemma_pair_vals_of(out@);
            assert(pair_vals_of(out@) =~= b6 + seq![("source"@, Val::Str(self@.source))] + seq![
                ("sink"@, Val::Str(self@.sink)),
            ]);
        }
        DocValue::Object(out)
    }
}

/// A replication request: the endpoint and the descriptor. Sending it is not
/// implemented by this crate.
pub struct ReplicateRequest {
    client: Client,
    payload: ReplicatePayload,
}

impl ReplicateRequest {
    /// The descriptor this request would send.
    pub closed spec fn spec_payload(&self) -> ReplicatePayloadView {
        self.payload@
    }

    /// A replication pushing this database's documents to `target`: the
    /// source is the database's own path.
    pub(crate) fn new_push_replication(db: &Database, target: String) -> (r: Self)
        ensures
            r.spec_payload() == spec_new_payload(
                seq!['/'] + db.spec_name() + seq!['/'],
                target@,
            ),
    {
        let source = db_path(db);
        ReplicateRequest::new(db.duplicate_client(), source, target)
    }

    /// A replication pulling `target`'s documents into this database: the
    /// sink is the database's own path.
    pub(crate) fn new_pull_replication(db: &Database, target: String) -> (r: Self)
        ensures
            r.spec_payload() == spec_new_payload(
                target@,
                seq!['/'] + db.spec_name() + seq!['/'],
            ),
    {
        let sink = db_path(db);
        ReplicateRequest::new(db.duplicate_client(), target, sink)
    }

    pub(crate) fn new(client: Client, source: String, sink: String) -> (r: Self)
        ensures
            r.spec_payload() == spec_new_payload(source@, sink@),
    {
        let payload = ReplicatePayload::new(source, sink);
        ReplicateRequest { client, payload }
    }

    /// The descriptor of this request.
    pub fn payload(&self) -> (r: &ReplicatePayload)
        ensures
            r@ == self.spec_payload(),
    {
        &self.payload
    }
}

/// The path of a database on its server: a separator, the name, a separator.
fn db_path(db: &Database) -> (r: String)
    ensures
        r@ == seq!['/'] + db.spec_name() + seq!['/'],
{
    let mut p = String::from_str("/");
    p.append(db.name().as_str());
    crate::text::push_char(&mut p, '/');
    proof {
        reveal_strlit("/");
        assert(p@ =~= seq!['/'] + db.spec_name() + seq!['/']);
    }
    p
}

/// A replication accepted by a server. Cancelling it is not implemented by
/// this crate.
pub struct Replication {
    client: Client,
    payload: ReplicatePayload,
}

} // verus!
