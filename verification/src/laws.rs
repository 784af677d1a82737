//! The laws of the protocol layer, proved against the reference server
//! semantics and the response interpreters: idempotent creation, existence,
//! the optimistic-concurrency contract, the insert/get round trip, and
//! delete-then-get.

use vstd::prelude::*;

use crate::database::get::{spec_decode_get_body, spec_interpret_get, GetQueryView};
use crate::database::{
    spec_decode_write, spec_interpret_create, spec_interpret_exists, spec_interpret_write,
};
use crate::error::ChesterfieldError;
use crate::request::HttpResponseView;
use crate::server::{
    envelope_body, spec_create_status, spec_delete_response, spec_exists_status,
    spec_get_response, spec_update_response, write_body_val, DocView, ServerState,
};
use crate::text::{lemma_rev_text_gen, lemma_rev_text_nonempty, spec_rev_text};
use crate::value::{
    lemma_lookup_absent, lemma_lookup_concat, lemma_strip_all_meta, lemma_strip_meta_concat,
    lemma_strip_no_meta, spec_is_meta_key, spec_lookup, spec_strip_meta, Val,
};

verus! {

/// The body a successful write answers with decodes back to exactly the id,
/// `ok: true`, and the revision it was built from.
pub proof fn lemma_decode_write_body(id: Seq<char>, rev: Seq<char>)
    ensures
        spec_decode_write(write_body_val(id, rev)) == Ok::<_, ChesterfieldError>((id, true, rev)),
{
    reveal_with_fuel(crate::value::spec_lookup, 5);
    reveal_strlit("id");
    reveal_strlit("ok");
    reveal_strlit("rev");
    assert("id"@.len() == 2 && "ok"@.len() == 2 && "rev"@.len() == 3);
    assert("id"@[0] == 'i' && "ok"@[0] == 'o');
    let pairs = write_body_val(id, rev)->Obj_0;
    assert(pairs.drop_first() =~= seq![("ok"@, Val::Bool(true)), ("rev"@, Val::Str(rev))]);
    assert(pairs.drop_first().drop_first() =~= seq![("rev"@, Val::Str(rev))]);
    assert(pairs.drop_first().drop_first().drop_first() =~= Seq::<(Seq<char>, Val)>::empty());
    assert(spec_lookup(pairs, "id"@) == Some(Val::Str(id)));
    assert(spec_lookup(pairs, "ok"@) == Some(Val::Bool(true)));
    assert(spec_lookup(pairs, "rev"@) == Some(Val::Str(rev)));
}

/// Creating a database reports success whether or not it already existed:
/// calling create twice never fails the second time.
pub proof fn lemma_create_always_succeeds(st: ServerState, name: Seq<char>)
    ensures
        spec_interpret_create(spec_create_status(st, name)) == Ok::<(), ChesterfieldError>(()),
{
}

/// An existence check answers exactly whether the database exists: false for
/// a never-created name, true after a create has put it there.
pub proof fn lemma_exists_reflects_state(st: ServerState, name: Seq<char>)
    ensures
        spec_interpret_exists(spec_exists_status(st, name)) == Ok::<bool, ChesterfieldError>(
            st.spec_has_db(name),
        ),
{
}

/// Updating with a stale revision — any token but the document's current
/// one, such as one superseded by an earlier successful update — always
/// interprets as a conflict, and never as success.
pub proof fn lemma_stale_update_conflict(
    st: ServerState,
    db: Seq<char>,
    id: Seq<char>,
    rev: Seq<char>,
)
    requires
        st.spec_doc(db, id) matches Some(d) && !d.deleted && rev != d.rev(),
    ensures
        spec_interpret_write(spec_update_response(st, db, id, rev)) == Err::<
            (Seq<char>, bool, Seq<char>),
            ChesterfieldError,
        >(ChesterfieldError::Conflict),
{
    crate::server::lemma_doc_implies_db(st, db, id);
}

/// Updating with the current revision succeeds and returns a new revision
/// token different from the supplied one, and nonempty.
pub proof fn lemma_fresh_update_succeeds(
    st: ServerState,
    db: Seq<char>,
    id: Seq<char>,
    rev: Seq<char>,
)
    requires
        st.spec_doc(db, id) matches Some(d) && !d.deleted && rev == d.rev() && d.gen < u64::MAX,
        st.spec_db_seq(db) < u64::MAX,
    ensures
        ({
            let r = spec_interpret_write(spec_update_response(st, db, id, rev));
            let d = st.spec_doc(db, id)->Some_0;
            &&& r is Ok
            &&& r->Ok_0.0 == id
            &&& r->Ok_0.1 == true
            &&& r->Ok_0.2 == spec_rev_text(d.gen + 1, st.spec_db_seq(db) + 1)
            &&& r->Ok_0.2 != rev
            &&& r->Ok_0.2.len() > 0
        }),
{
    crate::server::lemma_doc_implies_db(st, db, id);
    let d = st.spec_doc(db, id)->Some_0;
    let newrev = spec_rev_text(d.gen + 1, st.spec_db_seq(db) + 1);
    lemma_decode_write_body(id, newrev);
    lemma_rev_text_nonempty(d.gen + 1, st.spec_db_seq(db) + 1);
    if newrev == rev {
        lemma_rev_text_gen(d.gen + 1, st.spec_db_seq(db) + 1, d.gen, d.tag);
    }
}

/// Inserting into an existing database, under an id no live document holds,
/// succeeds: the response interprets as Ok with the target id, and a
/// nonempty revision token.
pub proof fn lemma_insert_succeeds(st: ServerState, db: Seq<char>, id: Option<Seq<char>>)
    requires
        st.spec_has_db(db),
        st.spec_db_seq(db) < u64::MAX,
        match st.spec_doc(db, crate::server::spec_insert_id(st, db, id)) {
            None => true,
            Some(d) => d.deleted && d.gen < u64::MAX,
        },
    ensures
        ({
            let r = spec_interpret_write(crate::server::spec_insert_response(st, db, id));
            &&& r is Ok
            &&& r->Ok_0.0 == crate::server::spec_insert_id(st, db, id)
            &&& r->Ok_0.1 == true
            &&& r->Ok_0.2.len() > 0
        }),
{
    let tid = crate::server::spec_insert_id(st, db, id);
    let g: nat = match st.spec_doc(db, tid) {
        Some(d) => d.gen + 1,
        None => 1,
    };
    lemma_decode_write_body(tid, spec_rev_text(g, st.spec_db_seq(db) + 1));
    lemma_rev_text_nonempty(g, st.spec_db_seq(db) + 1);
}

/// Deleting with the current revision succeeds, with a tombstone revision
/// different from the supplied one.
pub proof fn lemma_fresh_delete_succeeds(
    st: ServerState,
    db: Seq<char>,
    id: Seq<char>,
    rev: Seq<char>,
)
    requires
        st.spec_doc(db, id) matches Some(d) && !d.deleted && rev == d.rev() && d.gen < u64::MAX,
        st.spec_db_seq(db) < u64::MAX,
    ensures
        ({
            let r = spec_interpret_write(spec_delete_response(st, db, id, rev));
            let d = st.spec_doc(db, id)->Some_0;
            &&& r is Ok
            &&& r->Ok_0.0 == id
            &&& r->Ok_0.1 == true
            &&& r->Ok_0.2 == spec_rev_text(d.gen + 1, st.spec_db_seq(db) + 1)
            &&& r->Ok_0.2 != rev
        }),
{
    crate::server::lemma_doc_implies_db(st, db, id);
    let d = st.spec_doc(db, id)->Some_0;
    let newrev = spec_rev_text(d.gen + 1, st.spec_db_seq(db) + 1);
    lemma_decode_write_body(id, newrev);
    if newrev == rev {
        lemma_rev_text_gen(d.gen + 1, st.spec_db_seq(db) + 1, d.gen, d.tag);
    }
}

/// Retrieving a document that is absent — never stored, or deleted at its
/// current revision — interprets as not-found. The deleted premise is
/// precisely what `ServerState::apply_delete` ensures of the state it leaves
/// behind, so a delete followed by a get reports not-found.
pub proof fn lemma_absent_get_not_found(
    st: ServerState,
    db: Seq<char>,
    id: Seq<char>,
    q: GetQueryView,
)
    requires
        match st.spec_doc(db, id) {
            None => true,
            Some(d) => d.deleted,
        },
    ensures
        spec_interpret_get(spec_get_response(st, db, id, q)) == Err::<
            crate::database::get::GetResponseView,
            ChesterfieldError,
        >(ChesterfieldError::NotFound),
{
}

/// The envelope the server answers a retrieval with decodes back to exactly
/// the stored payload and metadata, provided no payload field name begins
/// with an underscore (a payload field such as `_x` would be taken for
/// metadata and stripped).
pub proof fn lemma_decode_envelope(id: Seq<char>, rev: Seq<char>, payload: Val, q: GetQueryView)
    requires
        payload is Obj,
        forall|j: int|
            0 <= j < payload->Obj_0.len() ==> !spec_is_meta_key(#[trigger] payload->Obj_0[j].0),
    ensures
        ({
            let r = spec_decode_get_body(envelope_body(id, rev, payload, q));
            &&& r is Ok
            &&& r->Ok_0.document == Some(payload)
            &&& r->Ok_0.meta.id == id
            &&& r->Ok_0.meta.rev == rev
            &&& r->Ok_0.meta.deleted is None
        }),
{
    reveal_with_fuel(crate::value::spec_lookup, 5);
    reveal_strlit("_id");
    reveal_strlit("_rev");
    reveal_strlit("_deleted");
    reveal_strlit("_attachments");
    reveal_strlit("_conflicts");
    reveal_strlit("_deleted_conflicts");
    reveal_strlit("_local_seq");
    reveal_strlit("_revs_info");
    reveal_strlit("_revisions");
    assert("_id"@.len() == 3 && "_rev"@.len() == 4 && "_deleted"@.len() == 8
        && "_attachments"@.len() == 12 && "_conflicts"@.len() == 10 && "_deleted_conflicts"@.len()
        == 18 && "_local_seq"@.len() == 10 && "_revs_info"@.len() == 10 && "_revisions"@.len()
        == 10);
    assert("_conflicts"@[1] == 'c' && "_local_seq"@[1] == 'l' && "_revs_info"@[1] == 'r'
        && "_revisions"@[1] == 'r');
    assert("_revs_info"@[4] == 's' && "_revisions"@[4] == 'i');
    assert("_id"@[0] == '_' && "_rev"@[0] == '_' && "_conflicts"@[0] == '_'
        && "_deleted_conflicts"@[0] == '_' && "_revs_info"@[0] == '_');
    let m = seq![("_id"@, Val::Str(id)), ("_rev"@, Val::Str(rev))];
    let c = if q.conflicts || q.meta {
        seq![("_conflicts"@, Val::Arr(Seq::<Val>::empty()))]
    } else {
        Seq::<(Seq<char>, Val)>::empty()
    };
    let dc = if q.deleted_conflicts || q.meta {
        seq![("_deleted_conflicts"@, Val::Arr(Seq::<Val>::empty()))]
    } else {
        Seq::<(Seq<char>, Val)>::empty()
    };
    let ri = if q.revs_info || q.meta {
        seq![("_revs_info"@, Val::Arr(Seq::<Val>::empty()))]
    } else {
        Seq::<(Seq<char>, Val)>::empty()
    };
    let pp = payload->Obj_0;
    let pairs = envelope_body(id, rev, payload, q)->Obj_0;
    assert(pairs == m + c + dc + ri + pp);
    // the two required fields
    assert(m.drop_first() =~= seq![("_rev"@, Val::Str(rev))]);
    assert(m.drop_first().drop_first() =~= Seq::<(Seq<char>, Val)>::empty());
    assert(spec_lookup(m, "_id"@) == Some(Val::Str(id)));
    assert(spec_lookup(m, "_rev"@) == Some(Val::Str(rev)));
    let keys = seq!["_id"@, "_rev"@, "_deleted"@, "_attachments"@, "_conflicts"@,
        "_deleted_conflicts"@, "_local_seq"@, "_revs_info"@, "_revisions"@];
    assert forall|ki: int| 0 <= ki < keys.len() implies spec_lookup(pairs, #[trigger] keys[ki])
        == if spec_lookup(m, keys[ki]) is Some {
        spec_lookup(m, keys[ki])
    } else if spec_lookup(c, keys[ki]) is Some {
        spec_lookup(c, keys[ki])
    } else if spec_lookup(dc, keys[ki]) is Some {
        spec_lookup(dc, keys[ki])
    } else if spec_lookup(ri, keys[ki]) is Some {
        spec_lookup(ri, keys[ki])
    } else {
        spec_lookup(pp, keys[ki])
    } by {
        let k = keys[ki];
        lemma_lookup_concat(m + c + dc + ri, pp, k);
        lemma_lookup_concat(m + c + dc, ri, k);
        lemma_lookup_concat(m + c, dc, k);
        lemma_lookup_concat(m, c, k);
    }
    assert forall|ki: int| 2 <= ki < keys.len() implies spec_lookup(m, #[trigger] keys[ki])
        is None by {
        lemma_lookup_absent(m, keys[ki]);
    }
    assert forall|ki: int| 0 <= ki < keys.len() implies spec_lookup(pp, #[trigger] keys[ki])
        is None by {
        assert(spec_is_meta_key(keys[ki]));
        assert forall|j: int| 0 <= j < pp.len() implies (#[trigger] pp[j].0) != keys[ki] by {
            assert(!spec_is_meta_key(pp[j].0));
        }
        lemma_lookup_absent(pp, keys[ki]);
    }
    assert forall|ki: int| 0 <= ki < keys.len() && keys[ki] != "_conflicts"@ implies spec_lookup(
        c,
        #[trigger] keys[ki],
    ) is None by {
        lemma_lookup_absent(c, keys[ki]);
    }
    assert forall|ki: int| 0 <= ki < keys.len() && keys[ki] != "_deleted_conflicts"@
        implies spec_lookup(dc, #[trigger] keys[ki]) is None by {
        lemma_lookup_absent(dc, keys[ki]);
    }
    assert forall|ki: int| 0 <= ki < keys.len() && keys[ki] != "_revs_info"@ implies spec_lookup(
        ri,
        #[trigger] keys[ki],
    ) is None by {
        lemma_lookup_absent(ri, keys[ki]);
    }
    assert(spec_lookup(pairs, "_id"@) == Some(Val::Str(id)));
    assert(spec_lookup(pairs, "_rev"@) == Some(Val::Str(rev)));
    assert(spec_lookup(pairs, "_deleted"@) is None);
    assert(spec_lookup(pairs, "_attachments"@) is None);
    assert(spec_lookup(pairs, "_local_seq"@) is None);
    assert(spec_lookup(pairs, "_revisions"@) is None);
    assert(spec_lookup(pairs, "_conflicts"@) == spec_lookup(c, "_conflicts"@));
    assert(spec_lookup(pairs, "_deleted_conflicts"@) == spec_lookup(dc, "_deleted_conflicts"@));
    assert(spec_lookup(pairs, "_revs_info"@) == spec_lookup(ri, "_revs_info"@));
    if q.conflicts || q.meta {
        assert(c.drop_first() =~= Seq::<(Seq<char>, Val)>::empty());
        assert(spec_lookup(c, "_conflicts"@) == Some(Val::Arr(Seq::<Val>::empty())));
    }
    if q.deleted_conflicts || q.meta {
        assert(dc.drop_first() =~= Seq::<(Seq<char>, Val)>::empty());
        assert(spec_lookup(dc, "_deleted_conflicts"@) == Some(Val::Arr(Seq::<Val>::empty())));
    }
    if q.revs_info || q.meta {
        assert(ri.drop_first() =~= Seq::<(Seq<char>, Val)>::empty());
        assert(spec_lookup(ri, "_revs_info"@) == Some(Val::Arr(Seq::<Val>::empty())));
    }
    // the payload is exactly what stripping the metadata leaves
    lemma_strip_meta_concat(m + c + dc + ri, pp);
    lemma_strip_meta_concat(m + c + dc, ri);
    lemma_strip_meta_concat(m + c, dc);
    lemma_strip_meta_concat(m, c);
    lemma_strip_all_meta(m);
    lemma_strip_all_meta(c);
    lemma_strip_all_meta(dc);
    lemma_strip_all_meta(ri);
    lemma_strip_no_meta(pp);
    assert(spec_strip_meta(pairs) =~= pp);
    assert(Val::Obj(pp) == payload);
}

/// Round trip: a live stored document, retrieved, decodes to a payload equal
/// to the one written, under its id, with its current, nonempty revision.
/// The premise is precisely what `ServerState::apply_insert` ensures of the
/// state it leaves behind, so an insert followed by a get returns the
/// inserted document.
pub proof fn lemma_stored_doc_round_trip(
    st: ServerState,
    db: Seq<char>,
    id: Seq<char>,
    q: GetQueryView,
)
    requires
        st.spec_doc(db, id) matches Some(d) && !d.deleted && d.payload is Obj,
        forall|j: int|
            0 <= j < st.spec_doc(db, id)->Some_0.payload->Obj_0.len() ==> !spec_is_meta_key(
                #[trigger] st.spec_doc(db, id)->Some_0.payload->Obj_0[j].0,
            ),
    ensures
        ({
            let d = st.spec_doc(db, id)->Some_0;
            let r = spec_interpret_get(spec_get_response(st, db, id, q));
            &&& r is Ok
            &&& r->Ok_0.document == Some(d.payload)
            &&& r->Ok_0.meta.id == id
            &&& r->Ok_0.meta.rev == d.rev()
            &&& r->Ok_0.meta.rev.len() > 0
        }),
{
    let d = st.spec_doc(db, id)->Some_0;
    lemma_decode_envelope(id, d.rev(), d.payload, q);
    lemma_rev_text_nonempty(d.gen, d.tag);
}

/// Query equivalence: two option sets asking for the same effective
/// information — `meta` standing for conflicts, deleted conflicts and
/// revision info together — draw the same response from any state.
pub proof fn lemma_effective_options_equal(
    st: ServerState,
    db: Seq<char>,
    id: Seq<char>,
    q1: GetQueryView,
    q2: GetQueryView,
)
    requires
        (q1.conflicts || q1.meta) == (q2.conflicts || q2.meta),
        (q1.deleted_conflicts || q1.meta) == (q2.deleted_conflicts || q2.meta),
        (q1.revs_info || q1.meta) == (q2.revs_info || q2.meta),
    ensures
        spec_get_response(st, db, id, q1) == spec_get_response(st, db, id, q2),
{
}

/// The body a successful write answers with always interprets as success,
/// with exactly the id and revision the server put in it.
pub proof fn lemma_interpret_write_success(status: u16, id: Seq<char>, rev: Seq<char>)
    requires
        200 <= status < 300,
    ensures
        spec_interpret_write(
            HttpResponseView { status, body: Some(write_body_val(id, rev)) },
        ) == Ok::<_, ChesterfieldError>((id, true, rev)),
{
    lemma_decode_write_body(id, rev);
}

} // verus!
