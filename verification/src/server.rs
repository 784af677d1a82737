//! A reference model of the server side of the protocol: an in-memory
//! document store with the create/exists/get/insert/update/delete semantics
//! the response interpreters assume. The model answers with the same wire
//! responses a server would send, so the library's laws and tests can run
//! against it without a network.

use vstd::prelude::*;

use crate::database::get::{GetQueryView, GetRequestQuery};
use crate::request::{HttpResponse, HttpResponseView};
use crate::text::{rev_text, spec_decimal, spec_rev_text, u64_to_decimal};
use crate::value::{pair_vals_of, val_of, vals_of, DocValue, Val};

verus! {

/// One stored document: its id, revision generation and tag, payload and
/// tombstone flag. The revision token is `gen-tag` in decimal.
pub struct DocSlot {
    id: String,
    gen: u64,
    tag: u64,
    payload: DocValue,
    deleted: bool,
}

/// One database: its name, its update counter and its documents.
pub struct DbEntry {
    name: String,
    update_seq: u64,
    docs: Vec<DocSlot>,
}

/// The whole store.
pub struct ServerState {
    dbs: Vec<DbEntry>,
}

/// What is observable of one stored document.
#[verifier::ext_equal]
pub struct DocView {
    pub gen: nat,
    pub tag: nat,
    pub payload: Val,
    pub deleted: bool,
}

impl DocView {
    /// The revision token of this document.
    pub open spec fn rev(&self) -> Seq<char> {
        spec_rev_text(self.gen, self.tag)
    }
}

/// Whether some database of the sequence has this name.
pub closed spec fn has_db_in(s: Seq<DbEntry>, n: Seq<char>) -> bool {
    exists|j: int| 0 <= j < s.len() && #[trigger] s[j].name@ == n
}

/// The index of the database with this name.
pub closed spec fn db_index_of(s: Seq<DbEntry>, n: Seq<char>) -> int {
    choose|j: int| 0 <= j < s.len() && #[trigger] s[j].name@ == n
}

/// Database names are pairwise distinct.
pub closed spec fn db_names_unique(s: Seq<DbEntry>) -> bool {
    forall|j: int, k: int|
        0 <= j < k < s.len() ==> (#[trigger] s[j].name@) != (#[trigger] s[k].name@)
}

/// Whether some document of the sequence has this id.
pub closed spec fn has_doc_in(s: Seq<DocSlot>, id: Seq<char>) -> bool {
    exists|j: int| 0 <= j < s.len() && #[trigger] s[j].id@ == id
}

/// The index of the document with this id.
pub closed spec fn doc_index_of(s: Seq<DocSlot>, id: Seq<char>) -> int {
    choose|j: int| 0 <= j < s.len() && #[trigger] s[j].id@ == id
}

/// Document ids are pairwise distinct.
pub closed spec fn doc_ids_unique(s: Seq<DocSlot>) -> bool {
    forall|j: int, k: int| 0 <= j < k < s.len() ==> (#[trigger] s[j].id@) != (#[trigger] s[k].id@)
}

/// The view of one document slot.
pub closed spec fn slot_view(s: DocSlot) -> DocView {
    DocView { gen: s.gen as nat, tag: s.tag as nat, payload: val_of(s.payload), deleted: s.deleted }
}

/// A slot is well formed: a positive generation and an object payload.
pub closed spec fn slot_wf(s: DocSlot) -> bool {
    s.gen >= 1 && val_of(s.payload) is Obj
}

/// A database is well formed: distinct ids and well-formed slots.
pub closed spec fn db_wf(e: DbEntry) -> bool {
    doc_ids_unique(e.docs@) && forall|j: int|
        0 <= j < e.docs@.len() ==> slot_wf(#[trigger] e.docs@[j])
}

impl ServerState {
    /// The store is well formed: distinct database names, each well formed.
    pub closed spec fn wf(&self) -> bool {
        db_names_unique(self.dbs@) && forall|j: int|
            0 <= j < self.dbs@.len() ==> db_wf(#[trigger] self.dbs@[j])
    }

    /// Whether a database of this name exists.
    pub closed spec fn spec_has_db(&self, n: Seq<char>) -> bool {
        has_db_in(self.dbs@, n)
    }

    /// The update counter of the database, where it exists.
    pub closed spec fn spec_db_seq(&self, n: Seq<char>) -> nat {
        self.dbs@[db_index_of(self.dbs@, n)].update_seq as nat
    }

    /// The document stored under `id` in database `db`: absent, a tombstone,
    /// or a live document.
    pub closed spec fn spec_doc(&self, db: Seq<char>, id: Seq<char>) -> Option<DocView> {
        if !self.spec_has_db(db) {
            None
        } else {
            let docs = self.dbs@[db_index_of(self.dbs@, db)].docs@;
            if !has_doc_in(docs, id) {
                None
            } else {
                Some(slot_view(docs[doc_index_of(docs, id)]))
            }
        }
    }

    /// An empty store.
    pub fn new() -> (r: Self)
        ensures
            r.wf(),
            forall|n: Seq<char>| !(#[trigger] r.spec_has_db(n)),
            forall|d: Seq<char>, i: Seq<char>| (#[trigger] r.spec_doc(d, i)) is None,
    {
        let r = ServerState { dbs: Vec::new() };
        proof {
            assert(forall|n: Seq<char>| !(#[trigger] has_db_in(r.dbs@, n)));
        }
        r
    }
}

/// No database of the pushed name yet: pushing it keeps the names unique and
/// leaves every other name where it was.
proof fn lemma_dbs_push(s: Seq<DbEntry>, e: DbEntry)
    requires
        db_names_unique(s),
        !has_db_in(s, e.name@),
    ensures
        db_names_unique(s.push(e)),
        has_db_in(s.push(e), e.name@),
        db_index_of(s.push(e), e.name@) == s.len(),
        forall|n: Seq<char>| n != e.name@ ==> #[trigger] has_db_in(s.push(e), n) == has_db_in(s, n),
        forall|n: Seq<char>|
            n != e.name@ && has_db_in(s, n) ==> #[trigger] db_index_of(s.push(e), n)
                == db_index_of(s, n) && 0 <= db_index_of(s, n) < s.len(),
        forall|n: Seq<char>|
            has_db_in(s, n) ==> 0 <= #[trigger] db_index_of(s, n) < s.len() && s[db_index_of(
                s,
                n,
            )].name@ == n,
{
    let t = s.push(e);
    assert(t[s.len() as int].name@ == e.name@);
    assert forall|n: Seq<char>| n != e.name@ implies #[trigger] has_db_in(t, n) == has_db_in(
        s,
        n,
    ) by {
        if has_db_in(t, n) {
            let j = choose|j: int| 0 <= j < t.len() && #[trigger] t[j].name@ == n;
            assert(j < s.len());
            assert(s[j].name@ == n);
        }
        if has_db_in(s, n) {
            let j = choose|j: int| 0 <= j < s.len() && #[trigger] s[j].name@ == n;
            assert(t[j].name@ == n);
        }
    }
    assert forall|n: Seq<char>| has_db_in(s, n) implies 0 <= #[trigger] db_index_of(s, n) < s.len()
        && s[db_index_of(s, n)].name@ == n by {
        let j = db_index_of(s, n);
        assert(0 <= j < s.len() && s[j].name@ == n);
    }
    assert forall|n: Seq<char>| n != e.name@ && has_db_in(s, n) implies #[trigger] db_index_of(
        t,
        n,
    ) == db_index_of(s, n) && 0 <= db_index_of(s, n) < s.len() by {
        let j1 = db_index_of(s, n);
        assert(0 <= j1 < s.len() && s[j1].name@ == n);
        assert(t[j1].name@ == n);
        assert(has_db_in(t, n));
        let j2 = db_index_of(t, n);
        assert(0 <= j2 < t.len() && t[j2].name@ == n);
        assert(j2 < s.len());
        if j1 != j2 {
            assert(s[j1].name@ != s[j2].name@);
        }
    }
    assert forall|j: int, k: int| 0 <= j < k < t.len() implies (#[trigger] t[j].name@)
        != (#[trigger] t[k].name@) by {
        if k < s.len() {
            assert(s[j].name@ != s[k].name@);
        } else {
            assert(t[k].name@ == e.name@);
            assert(s[j].name@ == t[j].name@);
            if t[j].name@ == e.name@ {
                assert(has_db_in(s, e.name@));
            }
        }
    }
    let j0 = db_index_of(t, e.name@);
    assert(0 <= j0 < t.len() && t[j0].name@ == e.name@);
    if j0 != s.len() {
        assert(s[j0].name@ == e.name@);
        assert(has_db_in(s, e.name@));
    }
}

/// Replacing one database by one of the same name keeps the names unique,
/// keeps every index, and changes no other entry.
proof fn lemma_dbs_update(s: Seq<DbEntry>, j: int, e: DbEntry)
    requires
        db_names_unique(s),
        0 <= j < s.len(),
        e.name@ == s[j].name@,
    ensures
        db_names_unique(s.update(j, e)),
        forall|n: Seq<char>| #[trigger] has_db_in(s.update(j, e), n) == has_db_in(s, n),
        has_db_in(s, e.name@),
        db_index_of(s, e.name@) == j,
        db_index_of(s.update(j, e), e.name@) == j,
        forall|n: Seq<char>|
            has_db_in(s, n) ==> #[trigger] db_index_of(s.update(j, e), n) == db_index_of(s, n)
                && 0 <= db_index_of(s, n) < s.len() && s[db_index_of(s, n)].name@ == n,
{
    let t = s.update(j, e);
    assert(t[j].name@ == e.name@);
    assert(forall|k: int| 0 <= k < s.len() ==> (#[trigger] t[k].name@) == s[k].name@);
    assert forall|k1: int, k2: int| 0 <= k1 < k2 < t.len() implies (#[trigger] t[k1].name@)
        != (#[trigger] t[k2].name@) by {
        assert(s[k1].name@ != s[k2].name@);
    }
    assert forall|n: Seq<char>| #[trigger] has_db_in(t, n) == has_db_in(s, n) by {
        if has_db_in(t, n) {
            let k = choose|k: int| 0 <= k < t.len() && #[trigger] t[k].name@ == n;
            assert(s[k].name@ == n);
        }
        if has_db_in(s, n) {
            let k = choose|k: int| 0 <= k < s.len() && #[trigger] s[k].name@ == n;
            assert(t[k].name@ == n);
        }
    }
    assert(s[j].name@ == e.name@);
    assert(has_db_in(s, e.name@));
    assert forall|n: Seq<char>| has_db_in(s, n) implies #[trigger] db_index_of(t, n)
        == db_index_of(s, n) && 0 <= db_index_of(s, n) < s.len() && s[db_index_of(s, n)].name@
        == n by {
        let j1 = db_index_of(s, n);
        assert(0 <= j1 < s.len() && s[j1].name@ == n);
        assert(t[j1].name@ == n);
        assert(has_db_in(t, n));
        let j2 = db_index_of(t, n);
        assert(0 <= j2 < t.len() && t[j2].name@ == n);
        assert(s[j2].name@ == n);
        if j1 != j2 {
            assert(s[j1].name@ != s[j2].name@);
        }
    }
    let k1 = db_index_of(s, e.name@);
    assert(0 <= k1 < s.len() && s[k1].name@ == e.name@);
    if k1 != j {
        assert(s[k1].name@ != s[j].name@);
    }
}

/// The document analogue of `lemma_dbs_push`.
proof fn lemma_docs_push(s: Seq<DocSlot>, e: DocSlot)
    requires
        doc_ids_unique(s),
        !has_doc_in(s, e.id@),
    ensures
        doc_ids_unique(s.push(e)),
        has_doc_in(s.push(e), e.id@),
        doc_index_of(s.push(e), e.id@) == s.len(),
        forall|n: Seq<char>| n != e.id@ ==> #[trigger] has_doc_in(s.push(e), n) == has_doc_in(s, n),
        forall|n: Seq<char>|
            n != e.id@ && has_doc_in(s, n) ==> #[trigger] doc_index_of(s.push(e), n)
                == doc_index_of(s, n),
        forall|n: Seq<char>|
            has_doc_in(s, n) ==> 0 <= #[trigger] doc_index_of(s, n) < s.len() && s[doc_index_of(
                s,
                n,
            )].id@ == n,
{
    let t = s.push(e);
    assert(t[s.len() as int].id@ == e.id@);
    assert forall|n: Seq<char>| n != e.id@ implies #[trigger] has_doc_in(t, n) == has_doc_in(
        s,
        n,
    ) by {
        if has_doc_in(t, n) {
            let j = choose|j: int| 0 <= j < t.len() && #[trigger] t[j].id@ == n;
            assert(j < s.len());
            assert(s[j].id@ == n);
        }
        if has_doc_in(s, n) {
            let j = choose|j: int| 0 <= j < s.len() && #[trigger] s[j].id@ == n;
            assert(t[j].id@ == n);
        }
    }
    assert forall|n: Seq<char>| has_doc_in(s, n) implies 0 <= #[trigger] doc_index_of(s, n)
        < s.len() && s[doc_index_of(s, n)].id@ == n by {
        let j = doc_index_of(s, n);
        assert(0 <= j < s.len() && s[j].id@ == n);
    }
    assert forall|n: Seq<char>| n != e.id@ && has_doc_in(s, n) implies #[trigger] doc_index_of(
        t,
        n,
    ) == doc_index_of(s, n) by {
        let j1 = doc_index_of(s, n);
        assert(0 <= j1 < s.len() && s[j1].id@ == n);
        assert(t[j1].id@ == n);
        assert(has_doc_in(t, n));
        let j2 = doc_index_of(t, n);
        assert(0 <= j2 < t.len() && t[j2].id@ == n);
        assert(j2 < s.len());
        if j1 != j2 {
            assert(s[j1].id@ != s[j2].id@);
        }
    }
    assert forall|j: int, k: int| 0 <= j < k < t.len() implies (#[trigger] t[j].id@)
        != (#[trigger] t[k].id@) by {
        if k < s.len() {
            assert(s[j].id@ != s[k].id@);
        } else {
            assert(t[k].id@ == e.id@);
            assert(s[j].id@ == t[j].id@);
            if t[j].id@ == e.id@ {
                assert(has_doc_in(s, e.id@));
            }
        }
    }
    let j0 = doc_index_of(t, e.id@);
    assert(0 <= j0 < t.len() && t[j0].id@ == e.id@);
    if j0 != s.len() {
        assert(s[j0].id@ == e.id@);
        assert(has_doc_in(s, e.id@));
    }
}

/// The document analogue of `lemma_dbs_update`.
proof fn lemma_docs_update(s: Seq<DocSlot>, j: int, e: DocSlot)
    requires
        doc_ids_unique(s),
        0 <= j < s.len(),
        e.id@ == s[j].id@,
    ensures
        doc_ids_unique(s.update(j, e)),
        forall|n: Seq<char>| #[trigger] has_doc_in(s.update(j, e), n) == has_doc_in(s, n),
        has_doc_in(s, e.id@),
        doc_index_of(s, e.id@) == j,
        doc_index_of(s.update(j, e), e.id@) == j,
        forall|n: Seq<char>|
            has_doc_in(s, n) ==> #[trigger] doc_index_of(s.update(j, e), n) == doc_index_of(s, n)
                && 0 <= doc_index_of(s, n) < s.len() && s[doc_index_of(s, n)].id@ == n,
{
    let t = s.update(j, e);
    assert(t[j].id@ == e.id@);
    assert(forall|k: int| 0 <= k < s.len() ==> (#[trigger] t[k].id@) == s[k].id@);
    assert forall|k1: int, k2: int| 0 <= k1 < k2 < t.len() implies (#[trigger] t[k1].id@)
        != (#[trigger] t[k2].id@) by {
        assert(s[k1].id@ != s[k2].id@);
    }
    assert forall|n: Seq<char>| #[trigger] has_doc_in(t, n) == has_doc_in(s, n) by {
        if has_doc_in(t, n) {
            let k = choose|k: int| 0 <= k < t.len() && #[trigger] t[k].id@ == n;
            assert(s[k].id@ == n);
        }
        if has_doc_in(s, n) {
            let k = choose|k: int| 0 <= k < s.len() && #[trigger] s[k].id@ == n;
            assert(t[k].id@ == n);
        }
    }
    assert(s[j].id@ == e.id@);
    assert(has_doc_in(s, e.id@));
    assert forall|n: Seq<char>| has_doc_in(s, n) implies #[trigger] doc_index_of(t, n)
        == doc_index_of(s, n) && 0 <= doc_index_of(s, n) < s.len() && s[doc_index_of(s, n)].id@
        == n by {
        let j1 = doc_index_of(s, n);
        assert(0 <= j1 < s.len() && s[j1].id@ == n);
        assert(t[j1].id@ == n);
        assert(has_doc_in(t, n));
        let j2 = doc_index_of(t, n);
        assert(0 <= j2 < t.len() && t[j2].id@ == n);
        assert(s[j2].id@ == n);
        if j1 != j2 {
            assert(s[j1].id@ != s[j2].id@);
        }
    }
    let k1 = doc_index_of(s, e.id@);
    assert(0 <= k1 < s.len() && s[k1].id@ == e.id@);
    if k1 != j {
        assert(s[k1].id@ != s[j].id@);
    }
}


/// Database existence is unchanged from `a` to `b`.
pub open spec fn same_dbs(a: ServerState, b: ServerState) -> bool {
    forall|n: Seq<char>| #[trigger] b.spec_has_db(n) == a.spec_has_db(n)
}

/// Every document but the named one is unchanged from `a` to `b`.
pub open spec fn same_docs_except(
    a: ServerState,
    b: ServerState,
    db: Seq<char>,
    id: Seq<char>,
) -> bool {
    forall|d: Seq<char>, i: Seq<char>|
        !(d == db && i == id) ==> #[trigger] b.spec_doc(d, i) == a.spec_doc(d, i)
}

/// Every document is unchanged from `a` to `b`.
pub open spec fn same_docs(a: ServerState, b: ServerState) -> bool {
    forall|d: Seq<char>, i: Seq<char>| #[trigger] b.spec_doc(d, i) == a.spec_doc(d, i)
}

/// Every update counter but the named database's is unchanged.
pub open spec fn same_seqs_except(a: ServerState, b: ServerState, db: Seq<char>) -> bool {
    forall|n: Seq<char>|
        n != db && a.spec_has_db(n) ==> #[trigger] b.spec_db_seq(n) == a.spec_db_seq(n)
}

/// Every update counter is unchanged.
pub open spec fn same_seqs(a: ServerState, b: ServerState) -> bool {
    forall|n: Seq<char>| a.spec_has_db(n) ==> #[trigger] b.spec_db_seq(n) == a.spec_db_seq(n)
}

/// Nothing observable changed.
pub open spec fn obs_unchanged(a: ServerState, b: ServerState) -> bool {
    same_dbs(a, b) && same_docs(a, b) && same_seqs(a, b)
}

/// What creating a database answers: 201 when it is new, 412 when it already
/// exists; either way it exists afterwards.
pub open spec fn spec_create_status(st: ServerState, n: Seq<char>) -> u16 {
    if st.spec_has_db(n) {
        412u16
    } else {
        201u16
    }
}

/// What an existence check answers.
pub open spec fn spec_exists_status(st: ServerState, n: Seq<char>) -> u16 {
    if st.spec_has_db(n) {
        200u16
    } else {
        404u16
    }
}

/// The `{id, ok, rev}` body of a successful write.
pub open spec fn write_body_val(id: Seq<char>, rev: Seq<char>) -> Val {
    Val::Obj(seq![("id"@, Val::Str(id)), ("ok"@, Val::Bool(true)), ("rev"@, Val::Str(rev))])
}

/// The envelope a retrieval answers with: `_id` and `_rev`, the option-driven
/// metadata fields, then the payload fields.
pub open spec fn envelope_body(id: Seq<char>, rev: Seq<char>, payload: Val, q: GetQueryView) -> Val {
    Val::Obj(
        seq![("_id"@, Val::Str(id)), ("_rev"@, Val::Str(rev))] + (if q.conflicts || q.meta {
            seq![("_conflicts"@, Val::Arr(Seq::<Val>::empty()))]
        } else {
            Seq::<(Seq<char>, Val)>::empty()
        }) + (if q.deleted_conflicts || q.meta {
            seq![("_deleted_conflicts"@, Val::Arr(Seq::<Val>::empty()))]
        } else {
            Seq::<(Seq<char>, Val)>::empty()
        }) + (if q.revs_info || q.meta {
            seq![("_revs_info"@, Val::Arr(Seq::<Val>::empty()))]
        } else {
            Seq::<(Seq<char>, Val)>::empty()
        }) + payload->Obj_0,
    )
}

/// What a retrieval answers: 404 for an absent or deleted document, else 200
/// with the envelope.
pub open spec fn spec_get_response(
    st: ServerState,
    db: Seq<char>,
    id: Seq<char>,
    q: GetQueryView,
) -> HttpResponseView {
    match st.spec_doc(db, id) {
        Some(d) => if d.deleted {
            HttpResponseView { status: 404u16, body: None }
        } else {
            HttpResponseView {
                status: 200u16,
                body: Some(envelope_body(id, d.rev(), d.payload, q)),
            }
        },
        None => HttpResponseView { status: 404u16, body: None },
    }
}

/// Find the index of the database with this name.
fn find_db_index(dbs: &Vec<DbEntry>, name: &String) -> (r: Option<usize>)
    requires
        db_names_unique(dbs@),
    ensures
        match r {
            Some(j) => j < dbs@.len() && dbs@[j as int].name@ == name@ && has_db_in(dbs@, name@)
                && db_index_of(dbs@, name@) == j,
            None => !has_db_in(dbs@, name@),
        },
{
    let n = dbs.len();
    for j in 0..n
        invariant
            n == dbs@.len(),
            db_names_unique(dbs@),
            forall|k: int| 0 <= k < j ==> (#[trigger] dbs@[k].name@) != name@,
    {
        if dbs[j].name == *name {
            proof {
                assert(has_db_in(dbs@, name@));
                let j2 = db_index_of(dbs@, name@);
                assert(0 <= j2 < dbs@.len() && dbs@[j2].name@ == name@);
                if j2 != j {
                    assert(dbs@[j as int].name@ != dbs@[j2].name@);
                }
            }
            return Some(j);
        }
    }
    proof {
        if has_db_in(dbs@, name@) {
            let k = choose|k: int| 0 <= k < dbs@.len() && #[trigger] dbs@[k].name@ == name@;
            assert(false);
        }
    }
    None
}

/// Find the index of the document with this id.
fn find_doc_index(docs: &Vec<DocSlot>, id: &String) -> (r: Option<usize>)
    requires
        doc_ids_unique(docs@),
    ensures
        match r {
            Some(k) => k < docs@.len() && docs@[k as int].id@ == id@ && has_doc_in(docs@, id@)
                && doc_index_of(docs@, id@) == k,
            None => !has_doc_in(docs@, id@),
        },
{
    let n = docs.len();
    for k in 0..n
        invariant
            n == docs@.len(),
            doc_ids_unique(docs@),
            forall|m: int| 0 <= m < k ==> (#[trigger] docs@[m].id@) != id@,
    {
        if docs[k].id == *id {
            proof {
                assert(has_doc_in(docs@, id@));
                let k2 = doc_index_of(docs@, id@);
                assert(0 <= k2 < docs@.len() && docs@[k2].id@ == id@);
                if k2 != k {
                    assert(docs@[k as int].id@ != docs@[k2].id@);
                }
            }
            return Some(k);
        }
    }
    proof {
        if has_doc_in(docs@, id@) {
            let m = choose|m: int| 0 <= m < docs@.len() && #[trigger] docs@[m].id@ == id@;
            assert(false);
        }
    }
    None
}

impl ServerState {
    /// Create the database `name`: 201 when new, 412 when it pre-existed;
    /// either way the database exists afterwards and no document changes.
    pub fn apply_create(&mut self, name: &String) -> (status: u16)
        requires
            old(self).wf(),
        ensures
            final(self).wf(),
            status == spec_create_status(*old(self), name@),
            final(self).spec_has_db(name@),
            forall|n: Seq<char>|
                n != name@ ==> #[trigger] final(self).spec_has_db(n) == old(self).spec_has_db(n),
            same_docs(*old(self), *final(self)),
            same_seqs_except(*old(self), *final(self), name@),
            old(self).spec_has_db(name@) ==> final(self).spec_db_seq(name@) == old(
                self,
            ).spec_db_seq(name@),
            !old(self).spec_has_db(name@) ==> final(self).spec_db_seq(name@) == 0,
    {
        match find_db_index(&self.dbs, name) {
            Some(_) => 412,
            None => {
                let ghost olds = self.dbs@;
                self.dbs.push(DbEntry { name: name.clone(), update_seq: 0, docs: Vec::new() });
                proof {
                    let e = self.dbs@.last();
                    assert(self.dbs@ == olds.push(e));
                    lemma_dbs_push(olds, e);
                    assert(db_wf(e)) by {
                        assert(e.docs@.len() == 0);
                    }
                    assert(self.wf()) by {
                        assert(forall|j: int|
                            0 <= j < olds.len() ==> self.dbs@[j] == #[trigger] olds[j]);
                    }
                    assert forall|d: Seq<char>, i: Seq<char>| #[trigger] self.spec_doc(d, i)
                        == old(self).spec_doc(d, i) by {
                        if d == name@ {
                            assert(db_index_of(self.dbs@, d) == olds.len());
                            assert(!has_doc_in(e.docs@, i));
                            assert(self.spec_doc(d, i) is None);
                            assert(old(self).spec_doc(d, i) is None);
                        } else {
                            if has_db_in(olds, d) {
                                assert(db_index_of(self.dbs@, d) == db_index_of(olds, d));
                                assert(self.dbs@[db_index_of(olds, d)] == olds[db_index_of(
                                    olds,
                                    d,
                                )]);
                            }
                        }
                    }
                    assert(self.spec_db_seq(name@) == 0);
                }
                201
            },
        }
    }

    /// Check whether the database `name` exists: 200 when it does, 404 when
    /// it does not. The store never changes.
    pub fn apply_exists(&self, name: &String) -> (status: u16)
        requires
            self.wf(),
        ensures
            status == spec_exists_status(*self, name@),
    {
        match find_db_index(&self.dbs, name) {
            Some(_) => 200,
            None => 404,
        }
    }

    /// Retrieve the document `id` of database `db`: 404 when the database or
    /// the document is absent or the document is deleted, else 200 with the
    /// envelope shaped by the query options. The store never changes.
    #[verifier::rlimit(60)]
    pub fn apply_get(&self, db: &String, id: &String, query: &GetRequestQuery) -> (r: HttpResponse)
        requires
            self.wf(),
        ensures
            r@ == spec_get_response(*self, db@, id@, query@),
    {
        let j = match find_db_index(&self.dbs, db) {
            Some(j) => j,
            None => {
                return HttpResponse { status: 404, body: None };
            },
        };
        proof {
            assert(db_wf(self.dbs@[j as int]));
        }
        let k = match find_doc_index(&self.dbs[j].docs, id) {
            Some(k) => k,
            None => {
                return HttpResponse { status: 404, body: None };
            },
        };
        let slot = &self.dbs[j].docs[k];
        proof {
            assert(self.spec_doc(db@, id@) == Some(slot_view(*slot)));
            assert(slot_wf(*slot));
        }
        if slot.deleted {
            return HttpResponse { status: 404, body: None };
        }
        let ghost d = slot_view(*slot);
        let ghost q = query@;
        let mut out: Vec<(String, DocValue)> = Vec::new();
        let ghost m1 = seq![("_id"@, Val::Str(id@)), ("_rev"@, Val::Str(d.rev()))];
        let ghost m2 = m1 + (if q.conflicts || q.meta {
            seq![("_conflicts"@, Val::Arr(Seq::<Val>::empty()))]
        } else {
            Seq::<(Seq<char>, Val)>::empty()
        });
        let ghost m3 = m2 + (if q.deleted_conflicts || q.meta {
            seq![("_deleted_conflicts"@, Val::Arr(Seq::<Val>::empty()))]
        } else {
            Seq::<(Seq<char>, Val)>::empty()
        });
        let ghost m4 = m3 + (if q.revs_info || q.meta {
            seq![("_revs_info"@, Val::Arr(Seq::<Val>::empty()))]
        } else {
            Seq::<(Seq<char>, Val)>::empty()
        });
        out.push((String::from_str("_id"), DocValue::Str(id.clone())));
        out.push((String::from_str("_rev"), DocValue::Str(rev_text(slot.gen, slot.tag))));
        proof {
            crate::value::lemma_pair_vals_of(out@);
            assert(pair_vals_of(out@) =~= m1);
        }
        if query.effective_conflicts() {
            out.push((String::from_str("_conflicts"), DocValue::Array(Vec::new())));
        }
        proof {
            crate::value::lemma_pair_vals_of(out@);
            assert(vals_of(Seq::<DocValue>::empty()) =~= Seq::<Val>::empty());
            assert(pair_vals_of(out@) =~= m2);
        }
        if query.effective_deleted_conflicts() {
            out.push((String::from_str("_deleted_conflicts"), DocValue::Array(Vec::new())));
        }
        proof {
            crate::value::lemma_pair_vals_of(out@);
            assert(vals_of(Seq::<DocValue>::empty()) =~= Seq::<Val>::empty());
            assert(pair_vals_of(out@) =~= m3);
        }
        if query.effective_revs_info() {
            out.push((String::from_str("_revs_info"), DocValue::Array(Vec::new())));
        }
        proof {
            crate::value::lemma_pair_vals_of(out@);
            assert(vals_of(Seq::<DocValue>::empty()) =~= Seq::<Val>::empty());
            assert(pair_vals_of(out@) =~= m4);
        }
        let cloned = slot.payload.deep_clone();
        let mut ps: Vec<(String, DocValue)> = match cloned {
            DocValue::Object(ps) => ps,
            _ => {
                // never reached: only an object payload satisfies wf
                proof {
                    assert(false);
                }
                Vec::new()
            },
        };
        proof {
            assert(d.payload == Val::Obj(pair_vals_of(ps@)));
        }
        let ghost outraw = out@;
        let ghost psraw = ps@;
        out.append(&mut ps);
        proof {
            crate::value::lemma_pair_vals_of_concat(outraw, psraw);
            assert(pair_vals_of(out@) == m4 + pair_vals_of(psraw));
        }
        let body = DocValue::Object(out);
        let r = HttpResponse { status: 200, body: Some(body) };
        proof {
            assert(r@ == spec_get_response(*self, db@, id@, query@));
        }
        r
    }
}



/// The id an insert stores under: the caller's, or the server-assigned
/// decimal of the next update counter.
pub open spec fn spec_insert_id(st: ServerState, db: Seq<char>, id: Option<Seq<char>>) -> Seq<
    char,
> {
    match id {
        Some(i) => i,
        None => spec_decimal((st.spec_db_seq(db) + 1) as nat),
    }
}

/// What an insert answers: 404 without the database, 409 when the id already
/// holds a live document, 500 at a counter limit, else 201 with the id and
/// the first (or next, over a tombstone) revision.
pub open spec fn spec_insert_response(
    st: ServerState,
    db: Seq<char>,
    id: Option<Seq<char>>,
) -> HttpResponseView {
    if !st.spec_has_db(db) {
        HttpResponseView { status: 404u16, body: None }
    } else if st.spec_db_seq(db) >= u64::MAX {
        HttpResponseView { status: 500u16, body: None }
    } else {
        let tid = spec_insert_id(st, db, id);
        match st.spec_doc(db, tid) {
            Some(d) => if !d.deleted {
                HttpResponseView { status: 409u16, body: None }
            } else if d.gen >= u64::MAX {
                HttpResponseView { status: 500u16, body: None }
            } else {
                HttpResponseView {
                    status: 201u16,
                    body: Some(
                        write_body_val(tid, spec_rev_text(d.gen + 1, st.spec_db_seq(db) + 1)),
                    ),
                }
            },
            None => HttpResponseView {
                status: 201u16,
                body: Some(write_body_val(tid, spec_rev_text(1, st.spec_db_seq(db) + 1))),
            },
        }
    }
}

/// What an update answers: 404 without the database or a live document, 409
/// on a stale revision, 500 at a counter limit, else 201 with the new
/// revision.
pub open spec fn spec_update_response(
    st: ServerState,
    db: Seq<char>,
    id: Seq<char>,
    rev: Seq<char>,
) -> HttpResponseView {
    if !st.spec_has_db(db) {
        HttpResponseView { status: 404u16, body: None }
    } else {
        match st.spec_doc(db, id) {
            None => HttpResponseView { status: 404u16, body: None },
            Some(d) => if d.deleted {
                HttpResponseView { status: 404u16, body: None }
            } else if rev != d.rev() {
                HttpResponseView { status: 409u16, body: None }
            } else if st.spec_db_seq(db) >= u64::MAX || d.gen >= u64::MAX {
                HttpResponseView { status: 500u16, body: None }
            } else {
                HttpResponseView {
                    status: 201u16,
                    body: Some(
                        write_body_val(id, spec_rev_text(d.gen + 1, st.spec_db_seq(db) + 1)),
                    ),
                }
            },
        }
    }
}

/// What a delete answers: as an update, but with status 200 and a tombstone
/// revision.
pub open spec fn spec_delete_response(
    st: ServerState,
    db: Seq<char>,
    id: Seq<char>,
    rev: Seq<char>,
) -> HttpResponseView {
    if !st.spec_has_db(db) {
        HttpResponseView { status: 404u16, body: None }
    } else {
        match st.spec_doc(db, id) {
            None => HttpResponseView { status: 404u16, body: None },
            Some(d) => if d.deleted {
                HttpResponseView { status: 404u16, body: None }
            } else if rev != d.rev() {
                HttpResponseView { status: 409u16, body: None }
            } else if st.spec_db_seq(db) >= u64::MAX || d.gen >= u64::MAX {
                HttpResponseView { status: 500u16, body: None }
            } else {
                HttpResponseView {
                    status: 200u16,
                    body: Some(
                        write_body_val(id, spec_rev_text(d.gen + 1, st.spec_db_seq(db) + 1)),
                    ),
                }
            },
        }
    }
}

/// Build the `{id, ok, rev}` body of a successful write.
fn write_body(id: &String, gen: u64, tag: u64) -> (r: DocValue)
    ensures
        val_of(r) == write_body_val(id@, spec_rev_text(gen as nat, tag as nat)),
{
    let mut out: Vec<(String, DocValue)> = Vec::new();
    out.push((String::from_str("id"), DocValue::Str(id.clone())));
    out.push((String::from_str("ok"), DocValue::Bool(true)));
    out.push((String::from_str("rev"), DocValue::Str(rev_text(gen, tag))));
    proof {
        crate::value::lemma_pair_vals_of(out@);
        assert(pair_vals_of(out@) =~= write_body_val(
            id@,
            spec_rev_text(gen as nat, tag as nat),
        )->Obj_0);
    }
    DocValue::Object(out)
}

impl ServerState {
    /// Insert a document: under the caller's id, or a server-assigned one.
    /// 409 when a live document already holds the id; inserting over a
    /// tombstone continues its revision generations.
    #[verifier::rlimit(100)]
    pub fn apply_insert(&mut self, db: &String, id: Option<String>, payload: DocValue) -> (r:
        HttpResponse)
        requires
            old(self).wf(),
            val_of(payload) is Obj,
        ensures
            final(self).wf(),
            r@ == spec_insert_response(*old(self), db@, crate::database::get::opt_str_view(&id)),
            same_dbs(*old(self), *final(self)),
            same_seqs_except(*old(self), *final(self), db@),
            r@.status != 201 ==> obs_unchanged(*old(self), *final(self)),
            r@.status == 201 ==> ({
                let tid = spec_insert_id(
                    *old(self),
                    db@,
                    crate::database::get::opt_str_view(&id),
                );
                let g: nat = match old(self).spec_doc(db@, tid) {
                    Some(d) => d.gen + 1,
                    None => 1,
                };
                &&& final(self).spec_doc(db@, tid) == Some(
                    DocView {
                        gen: g,
                        tag: old(self).spec_db_seq(db@) + 1,
                        payload: val_of(payload),
                        deleted: false,
                    },
                )
                &&& same_docs_except(*old(self), *final(self), db@, tid)
                &&& final(self).spec_db_seq(db@) == old(self).spec_db_seq(db@) + 1
            }),
    {
        let ghost idv = crate::database::get::opt_str_view(&id);
        let j = match find_db_index(&self.dbs, db) {
            Some(j) => j,
            None => {
                return HttpResponse { status: 404, body: None };
            },
        };
        proof {
            assert(db_wf(self.dbs@[j as int]));
        }
        let seq_now = self.dbs[j].update_seq;
        if seq_now == u64::MAX {
            return HttpResponse { status: 500, body: None };
        }
        let tid: String = match id {
            Some(i) => i,
            None => u64_to_decimal(seq_now + 1),
        };
        proof {
            assert(tid@ == spec_insert_id(*old(self), db@, idv));
        }
        let ghost oldd = self.dbs@;
        let ghost olddocs = self.dbs@[j as int].docs@;
        match find_doc_index(&self.dbs[j].docs, &tid) {
            Some(k) => {
                proof {
                    assert(old(self).spec_doc(db@, tid@) == Some(slot_view(olddocs[k as int])));
                }
                if !self.dbs[j].docs[k].deleted {
                    return HttpResponse { status: 409, body: None };
                }
                if self.dbs[j].docs[k].gen == u64::MAX {
                    return HttpResponse { status: 500, body: None };
                }
                let newgen = self.dbs[j].docs[k].gen + 1;
                let body = write_body(&tid, newgen, seq_now + 1);
                let newslot = DocSlot {
                    id: tid,
                    gen: newgen,
                    tag: seq_now + 1,
                    payload,
                    deleted: false,
                };
                self.dbs[j].docs[k] = newslot;
                self.dbs[j].update_seq = seq_now + 1;
                proof {
                    lemma_post_write(
                        oldd,
                        olddocs,
                        j as int,
                        k as int,
                        self.dbs@,
                        db@,
                        *old(self),
                        *self,
                    );
                }
                HttpResponse { status: 201, body: Some(body) }
            },
            None => {
                let body = write_body(&tid, 1, seq_now + 1);
                let newslot = DocSlot {
                    id: tid,
                    gen: 1,
                    tag: seq_now + 1,
                    payload,
                    deleted: false,
                };
                self.dbs[j].docs.push(newslot);
                self.dbs[j].update_seq = seq_now + 1;
                proof {
                    lemma_post_push(oldd, olddocs, j as int, self.dbs@, db@, *old(self), *self);
                }
                HttpResponse { status: 201, body: Some(body) }
            },
        }
    }

    /// Update the document `id`, which must hold its current revision: a
    /// stale revision answers 409 and changes nothing.
    #[verifier::rlimit(100)]
    pub fn apply_update(&mut self, db: &String, id: &String, rev: &String, payload: DocValue) -> (r:
        HttpResponse)
        requires
            old(self).wf(),
            val_of(payload) is Obj,
        ensures
            final(self).wf(),
            r@ == spec_update_response(*old(self), db@, id@, rev@),
            same_dbs(*old(self), *final(self)),
            same_seqs_except(*old(self), *final(self), db@),
            r@.status != 201 ==> obs_unchanged(*old(self), *final(self)),
            r@.status == 201 ==> ({
                let d = old(self).spec_doc(db@, id@)->Some_0;
                &&& final(self).spec_doc(db@, id@) == Some(
                    DocView {
                        gen: d.gen + 1,
                        tag: old(self).spec_db_seq(db@) + 1,
                        payload: val_of(payload),
                        deleted: false,
                    },
                )
                &&& same_docs_except(*old(self), *final(self), db@, id@)
                &&& final(self).spec_db_seq(db@) == old(self).spec_db_seq(db@) + 1
            }),
    {
        let j = match find_db_index(&self.dbs, db) {
            Some(j) => j,
            None => {
                return HttpResponse { status: 404, body: None };
            },
        };
        proof {
            assert(db_wf(self.dbs@[j as int]));
        }
        let k = match find_doc_index(&self.dbs[j].docs, id) {
            Some(k) => k,
            None => {
                return HttpResponse { status: 404, body: None };
            },
        };
        let ghost oldd = self.dbs@;
        let ghost olddocs = self.dbs@[j as int].docs@;
        proof {
            assert(old(self).spec_doc(db@, id@) == Some(slot_view(olddocs[k as int])));
        }
        if self.dbs[j].docs[k].deleted {
            return HttpResponse { status: 404, body: None };
        }
        let cur_rev = rev_text(self.dbs[j].docs[k].gen, self.dbs[j].docs[k].tag);
        if !(cur_rev == *rev) {
            return HttpResponse { status: 409, body: None };
        }
        let seq_now = self.dbs[j].update_seq;
        if seq_now == u64::MAX || self.dbs[j].docs[k].gen == u64::MAX {
            return HttpResponse { status: 500, body: None };
        }
        let newgen = self.dbs[j].docs[k].gen + 1;
        let body = write_body(id, newgen, seq_now + 1);
        let newslot = DocSlot {
            id: id.clone(),
            gen: newgen,
            tag: seq_now + 1,
            payload,
            deleted: false,
        };
        self.dbs[j].docs[k] = newslot;
        self.dbs[j].update_seq = seq_now + 1;
        proof {
            lemma_post_write(oldd, olddocs, j as int, k as int, self.dbs@, db@, *old(self), *self);
        }
        HttpResponse { status: 201, body: Some(body) }
    }

    /// Delete the document `id` at its current revision: a stale revision
    /// answers 409 and changes nothing; success leaves a tombstone whose
    /// revision the response reports.
    #[verifier::rlimit(100)]
    pub fn apply_delete(&mut self, db: &String, id: &String, rev: &String) -> (r: HttpResponse)
        requires
            old(self).wf(),
        ensures
            final(self).wf(),
            r@ == spec_delete_response(*old(self), db@, id@, rev@),
            same_dbs(*old(self), *final(self)),
            same_seqs_except(*old(self), *final(self), db@),
            r@.status != 200 ==> obs_unchanged(*old(self), *final(self)),
            r@.status == 200 ==> ({
                let d = old(self).spec_doc(db@, id@)->Some_0;
                &&& final(self).spec_doc(db@, id@) == Some(
                    DocView {
                        gen: d.gen + 1,
                        tag: old(self).spec_db_seq(db@) + 1,
                        payload: d.payload,
                        deleted: true,
                    },
                )
                &&& same_docs_except(*old(self), *final(self), db@, id@)
                &&& final(self).spec_db_seq(db@) == old(self).spec_db_seq(db@) + 1
            }),
    {
        let j = match find_db_index(&self.dbs, db) {
            Some(j) => j,
            None => {
                return HttpResponse { status: 404, body: None };
            },
        };
        proof {
            assert(db_wf(self.dbs@[j as int]));
        }
        let k = match find_doc_index(&self.dbs[j].docs, id) {
            Some(k) => k,
            None => {
                return HttpResponse { status: 404, body: None };
            },
        };
        let ghost oldd = self.dbs@;
        let ghost olddocs = self.dbs@[j as int].docs@;
        proof {
            assert(old(self).spec_doc(db@, id@) == Some(slot_view(olddocs[k as int])));
        }
        if self.dbs[j].docs[k].deleted {
            return HttpResponse { status: 404, body: None };
        }
        let cur_rev = rev_text(self.dbs[j].docs[k].gen, self.dbs[j].docs[k].tag);
        if !(cur_rev == *rev) {
            return HttpResponse { status: 409, body: None };
        }
        let seq_now = self.dbs[j].update_seq;
        if seq_now == u64::MAX || self.dbs[j].docs[k].gen == u64::MAX {
            return HttpResponse { status: 500, body: None };
        }
        let newgen = self.dbs[j].docs[k].gen + 1;
        let body = write_body(id, newgen, seq_now + 1);
        let kept = self.dbs[j].docs[k].payload.deep_clone();
        let newslot = DocSlot {
            id: id.clone(),
            gen: newgen,
            tag: seq_now + 1,
            payload: kept,
            deleted: true,
        };
        self.dbs[j].docs[k] = newslot;
        self.dbs[j].update_seq = seq_now + 1;
        proof {
            lemma_post_write(oldd, olddocs, j as int, k as int, self.dbs@, db@, *old(self), *self);
        }
        HttpResponse { status: 200, body: Some(body) }
    }
}

/// After replacing the slot at `k` of the database at `j` (same name, same
/// id) and bumping its counter: the store stays well formed and only that
/// document and that counter changed.
proof fn lemma_post_write(
    oldd: Seq<DbEntry>,
    olddocs: Seq<DocSlot>,
    j: int,
    k: int,
    newd: Seq<DbEntry>,
    db: Seq<char>,
    a: ServerState,
    b: ServerState,
)
    requires
        a.wf(),
        a.dbs@ == oldd,
        b.dbs@ == newd,
        0 <= j < oldd.len(),
        oldd[j].name@ == db,
        olddocs == oldd[j].docs@,
        0 <= k < olddocs.len(),
        newd.len() == oldd.len(),
        newd[j].name@ == db,
        newd[j].docs@ == olddocs.update(k, newd[j].docs@[k]),
        newd[j].docs@[k].id@ == olddocs[k].id@,
        slot_wf(newd[j].docs@[k]),
        forall|m: int| 0 <= m < oldd.len() && m != j ==> newd[m] == #[trigger] oldd[m],
    ensures
        b.wf(),
        same_dbs(a, b),
        same_seqs_except(a, b, db),
        b.spec_db_seq(db) == newd[j].update_seq as nat,
        b.spec_doc(db, olddocs[k].id@) == Some(slot_view(newd[j].docs@[k])),
        same_docs_except(a, b, db, olddocs[k].id@),
{
    let id = olddocs[k].id@;
    let newdocs = newd[j].docs@;
    let e = newd[j];
    assert(newd =~= oldd.update(j, e));
    assert(db_wf(oldd[j]));
    lemma_docs_update(olddocs, k, newdocs[k]);
    lemma_dbs_update(oldd, j, e);
    assert(db_wf(e)) by {
        assert(forall|m: int|
            0 <= m < newdocs.len() && m != k ==> newdocs[m] == #[trigger] olddocs[m]);
        assert(forall|m: int| 0 <= m < newdocs.len() ==> slot_wf(#[trigger] newdocs[m]));
    }
    assert(b.wf()) by {
        assert(forall|m: int| 0 <= m < newd.len() && m != j ==> db_wf(#[trigger] newd[m]));
    }
    assert(db_index_of(oldd, db) == j);
    assert(db_index_of(newd, db) == j);
    assert(olddocs[k].id@ == id && has_doc_in(olddocs, id) && doc_index_of(olddocs, id) == k) by {
        lemma_docs_update(olddocs, k, newdocs[k]);
    }
    assert(b.spec_doc(db, id) == Some(slot_view(newdocs[k]))) by {
        assert(has_doc_in(newdocs, id));
        assert(doc_index_of(newdocs, id) == k);
    }
    assert forall|d: Seq<char>, i: Seq<char>| !(d == db && i == id) implies #[trigger] b.spec_doc(
        d,
        i,
    ) == a.spec_doc(d, i) by {
        if d == db {
            assert(has_doc_in(newdocs, i) == has_doc_in(olddocs, i));
            if has_doc_in(olddocs, i) {
                let m = doc_index_of(olddocs, i);
                assert(doc_index_of(newdocs, i) == m);
                assert(olddocs[m].id@ == i);
                assert(m != k);
                assert(newdocs[m] == olddocs[m]);
            }
        } else {
            assert(has_db_in(newd, d) == has_db_in(oldd, d));
            if has_db_in(oldd, d) {
                let m = db_index_of(oldd, d);
                assert(db_index_of(newd, d) == m);
                assert(m != j);
                assert(newd[m] == oldd[m]);
            }
        }
    }
    assert forall|n: Seq<char>| n != db && a.spec_has_db(n) implies #[trigger] b.spec_db_seq(n)
        == a.spec_db_seq(n) by {
        let m = db_index_of(oldd, n);
        assert(db_index_of(newd, n) == m);
        assert(oldd[m].name@ == n);
        assert(m != j);
        assert(newd[m] == oldd[m]);
    }
}

/// After pushing a fresh slot onto the database at `j` (same name, new id)
/// and bumping its counter: the store stays well formed and only that
/// document and that counter changed.
proof fn lemma_post_push(
    oldd: Seq<DbEntry>,
    olddocs: Seq<DocSlot>,
    j: int,
    newd: Seq<DbEntry>,
    db: Seq<char>,
    a: ServerState,
    b: ServerState,
)
    requires
        a.wf(),
        a.dbs@ == oldd,
        b.dbs@ == newd,
        0 <= j < oldd.len(),
        oldd[j].name@ == db,
        olddocs == oldd[j].docs@,
        newd.len() == oldd.len(),
        newd[j].name@ == db,
        newd[j].docs@ == olddocs.push(newd[j].docs@.last()),
        !has_doc_in(olddocs, newd[j].docs@.last().id@),
        slot_wf(newd[j].docs@.last()),
        forall|m: int| 0 <= m < oldd.len() && m != j ==> newd[m] == #[trigger] oldd[m],
    ensures
        b.wf(),
        same_dbs(a, b),
        same_seqs_except(a, b, db),
        b.spec_db_seq(db) == newd[j].update_seq as nat,
        b.spec_doc(db, newd[j].docs@.last().id@) == Some(slot_view(newd[j].docs@.last())),
        same_docs_except(a, b, db, newd[j].docs@.last().id@),
        a.spec_doc(db, newd[j].docs@.last().id@) is None,
    {
    let newdocs = newd[j].docs@;
    let id = newdocs.last().id@;
    let e = newd[j];
    assert(newd =~= oldd.update(j, e));
    assert(db_wf(oldd[j]));
    lemma_docs_push(olddocs, newdocs.last());
    lemma_dbs_update(oldd, j, e);
    assert(db_wf(e)) by {
        assert(forall|m: int|
            0 <= m < olddocs.len() ==> newdocs[m] == #[trigger] olddocs[m]);
        assert(newdocs[newdocs.len() - 1] == newdocs.last());
        assert(forall|m: int| 0 <= m < newdocs.len() ==> slot_wf(#[trigger] newdocs[m]));
    }
    assert(b.wf()) by {
        assert(forall|m: int| 0 <= m < newd.len() && m != j ==> db_wf(#[trigger] newd[m]));
    }
    assert(db_index_of(oldd, db) == j);
    assert(db_index_of(newd, db) == j);
    assert(b.spec_doc(db, id) == Some(slot_view(newdocs.last()))) by {
        assert(has_doc_in(newdocs, id));
        assert(doc_index_of(newdocs, id) == olddocs.len());
        assert(newdocs[olddocs.len() as int] == newdocs.last());
    }
    assert(a.spec_doc(db, id) is None);
    assert forall|d: Seq<char>, i: Seq<char>| !(d == db && i == id) implies #[trigger] b.spec_doc(
        d,
        i,
    ) == a.spec_doc(d, i) by {
        if d == db {
            assert(has_doc_in(newdocs, i) == has_doc_in(olddocs, i));
            if has_doc_in(olddocs, i) {
                let m = doc_index_of(olddocs, i);
                assert(doc_index_of(newdocs, i) == m);
                assert(0 <= m < olddocs.len());
                assert(newdocs[m] == olddocs[m]);
            }
        } else {
            assert(has_db_in(newd, d) == has_db_in(oldd, d));
            if has_db_in(oldd, d) {
                let m = db_index_of(oldd, d);
                assert(db_index_of(newd, d) == m);
                assert(oldd[m].name@ == d);
                assert(m != j);
                assert(newd[m] == oldd[m]);
            }
        }
    }
    assert forall|n: Seq<char>| n != db && a.spec_has_db(n) implies #[trigger] b.spec_db_seq(n)
        == a.spec_db_seq(n) by {
        let m = db_index_of(oldd, n);
        assert(db_index_of(newd, n) == m);
        assert(oldd[m].name@ == n);
        assert(m != j);
        assert(newd[m] == oldd[m]);
    }
}



/// A stored document implies its database exists, and a live document pins
/// the branch the response functions take.
pub proof fn lemma_doc_implies_db(st: ServerState, db: Seq<char>, id: Seq<char>)
    ensures
        st.spec_doc(db, id) is Some ==> st.spec_has_db(db),
{
}

} // verus!
