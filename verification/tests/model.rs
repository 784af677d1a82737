//! The reference server semantics, driven through the response interpreters:
//! the round trip, optimistic concurrency, idempotent creation, existence,
//! and delete-then-get.

use chesterfield::database::delete::interpret_delete;
use chesterfield::database::get::{interpret_get, GetRequestQuery};
use chesterfield::database::insert::interpret_insert;
use chesterfield::database::update::interpret_update;
use chesterfield::database::{interpret_create, interpret_exists};
use chesterfield::server::ServerState;
use chesterfield::{ChesterfieldError, DocValue};

fn sample_payload(n: i64) -> DocValue {
    DocValue::Object(vec![
        ("field1".to_string(), DocValue::Int(n)),
        ("field2".to_string(), DocValue::Str("x".to_string())),
    ])
}

#[test]
fn exists_then_create_then_exists() {
    let mut server = ServerState::new();
    let name = "items".to_string();
    assert_eq!(interpret_exists(server.apply_exists(&name)), Ok(false));
    assert_eq!(interpret_create(server.apply_create(&name)), Ok(()));
    assert_eq!(interpret_exists(server.apply_exists(&name)), Ok(true));
}

#[test]
fn create_twice_never_fails() {
    let mut server = ServerState::new();
    let name = "items".to_string();
    assert_eq!(server.apply_create(&name), 201);
    let second = server.apply_create(&name);
    assert_eq!(second, 412);
    assert_eq!(interpret_create(second), Ok(()));
}

#[test]
fn unexpected_status_is_surfaced_not_fatal() {
    assert_eq!(interpret_exists(500), Err(ChesterfieldError::UnexpectedStatus(500)));
    assert_eq!(interpret_create(401), Err(ChesterfieldError::UnexpectedStatus(401)));
}

#[test]
fn insert_then_get_round_trip() {
    let mut server = ServerState::new();
    let db = "items".to_string();
    server.apply_create(&db);
    let response = server.apply_insert(&db, None, sample_payload(5));
    let inserted = interpret_insert(response).unwrap();
    assert!(inserted.ok);
    assert!(!inserted.rev.is_empty());
    let got = interpret_get(server.apply_get(&db, &inserted.id, &GetRequestQuery::default()))
        .unwrap();
    assert_eq!(got.meta_data()._id, inserted.id);
    assert_eq!(got.meta_data()._rev, inserted.rev);
    assert_eq!(got.into_inner(), Some(sample_payload(5)));
}

#[test]
fn document_scenario() {
    let mut server = ServerState::new();
    let db = "items".to_string();
    assert_eq!(server.apply_create(&db), 201);

    // insert {"field1":5,"field2":"x"} with no id: a server-assigned id and
    // a first-generation revision come back
    let inserted = interpret_insert(server.apply_insert(&db, None, sample_payload(5))).unwrap();
    assert_eq!(inserted.id, "1");
    assert!(inserted.ok);
    assert_eq!(inserted.rev, "1-1");

    // get it back: the payload and the same revision
    let got = interpret_get(server.apply_get(&db, &inserted.id, &GetRequestQuery::default()))
        .unwrap();
    assert_eq!(got.meta_data()._id, "1");
    assert_eq!(got.meta_data()._rev, "1-1");
    assert_eq!(got.into_inner(), Some(sample_payload(5)));

    // update with the current revision: a new, different revision
    let updated = interpret_update(server.apply_update(
        &db,
        &inserted.id,
        &inserted.rev,
        sample_payload(6),
    ))
    .unwrap();
    assert!(updated.ok);
    assert_eq!(updated.rev, "2-2");
    assert_ne!(updated.rev, inserted.rev);

    // update again with the superseded revision: a conflict
    let stale = server.apply_update(&db, &inserted.id, &inserted.rev, sample_payload(7));
    assert_eq!(interpret_update(stale).unwrap_err(), ChesterfieldError::Conflict);
}

#[test]
fn stale_update_conflicts_fresh_update_succeeds() {
    let mut server = ServerState::new();
    let db = "items".to_string();
    server.apply_create(&db);
    let inserted =
        interpret_insert(server.apply_insert(&db, Some("a1".to_string()), sample_payload(1)))
            .unwrap();
    let updated =
        interpret_update(server.apply_update(&db, &inserted.id, &inserted.rev, sample_payload(2)))
            .unwrap();
    assert_ne!(updated.rev, inserted.rev);
    let stale = server.apply_update(&db, &inserted.id, &inserted.rev, sample_payload(3));
    assert_eq!(interpret_update(stale).unwrap_err(), ChesterfieldError::Conflict);
    let fresh =
        interpret_update(server.apply_update(&db, &inserted.id, &updated.rev, sample_payload(4)))
            .unwrap();
    assert!(fresh.ok);
    assert_ne!(fresh.rev, updated.rev);
}

#[test]
fn insert_conflicts_on_existing_id() {
    let mut server = ServerState::new();
    let db = "items".to_string();
    server.apply_create(&db);
    let first = server.apply_insert(&db, Some("a1".to_string()), sample_payload(1));
    assert!(interpret_insert(first).is_ok());
    let second = server.apply_insert(&db, Some("a1".to_string()), sample_payload(2));
    assert_eq!(interpret_insert(second).unwrap_err(), ChesterfieldError::Conflict);
}

#[test]
fn insert_into_missing_database_is_not_found() {
    let mut server = ServerState::new();
    let response = server.apply_insert(&"nope".to_string(), None, sample_payload(1));
    assert_eq!(interpret_insert(response).unwrap_err(), ChesterfieldError::NotFound);
}

#[test]
fn delete_then_get_is_not_found() {
    let mut server = ServerState::new();
    let db = "items".to_string();
    server.apply_create(&db);
    let inserted = interpret_insert(server.apply_insert(&db, None, sample_payload(5))).unwrap();
    let deleted =
        interpret_delete(server.apply_delete(&db, &inserted.id, &inserted.rev)).unwrap();
    assert!(deleted.ok);
    assert_ne!(deleted.rev, inserted.rev);
    let got = interpret_get(server.apply_get(&db, &inserted.id, &GetRequestQuery::default()));
    assert_eq!(got.unwrap_err(), ChesterfieldError::NotFound);
}

#[test]
fn delete_with_stale_revision_conflicts() {
    let mut server = ServerState::new();
    let db = "items".to_string();
    server.apply_create(&db);
    let inserted = interpret_insert(server.apply_insert(&db, None, sample_payload(5))).unwrap();
    let updated =
        interpret_update(server.apply_update(&db, &inserted.id, &inserted.rev, sample_payload(6)))
            .unwrap();
    let stale = server.apply_delete(&db, &inserted.id, &inserted.rev);
    assert_eq!(interpret_delete(stale).unwrap_err(), ChesterfieldError::Conflict);
    let fresh = interpret_delete(server.apply_delete(&db, &inserted.id, &updated.rev));
    assert!(fresh.unwrap().ok);
}

#[test]
fn meta_equals_three_options_together() {
    let mut server = ServerState::new();
    let db = "items".to_string();
    server.apply_create(&db);
    let inserted = interpret_insert(server.apply_insert(&db, None, sample_payload(5))).unwrap();

    let client = chesterfield::Client::from_url_str("http://localhost:5984").unwrap();
    let database = client.database("items").unwrap();
    let meta_request = database.get(inserted.id.clone()).meta(true);
    let three_request = database
        .get(inserted.id.clone())
        .conflicts(true)
        .deleted_conflicts(true)
        .revisions_info(true);

    // the two option sets draw responses of the same shape from the server
    let r_meta = server.apply_get(&db, &inserted.id, meta_request.query_options());
    let r_three = server.apply_get(&db, &inserted.id, three_request.query_options());
    assert_eq!(r_meta.status, r_three.status);
    assert_eq!(r_meta.body, r_three.body);
    let decoded = interpret_get(r_meta).unwrap();
    assert_eq!(decoded.meta_data()._conflicts, Some(vec![]));
    assert_eq!(decoded.meta_data()._deleted_conflicts, Some(vec![]));
    assert_eq!(decoded.meta_data()._revs_info, Some(vec![]));

    // though they are distinct on the wire
    let via_meta = meta_request.into_request().unwrap();
    let via_three = three_request.into_request().unwrap();
    assert_ne!(via_meta.query, via_three.query);
}
