//! Envelope decoding and response interpretation on hand-built bodies.

use chesterfield::database::get::{decode_get_body, interpret_get};
use chesterfield::database::insert::interpret_insert;
use chesterfield::database::update::interpret_update;
use chesterfield::{ChesterfieldError, DocValue, HttpResponse};

fn envelope() -> DocValue {
    DocValue::Object(vec![
        ("_id".to_string(), DocValue::Str("doc123".to_string())),
        ("_rev".to_string(), DocValue::Str("1-abc".to_string())),
        ("field1".to_string(), DocValue::Int(5)),
        ("field2".to_string(), DocValue::Str("x".to_string())),
    ])
}

#[test]
fn envelope_splits_metadata_from_payload() {
    let decoded = decode_get_body(envelope()).unwrap();
    assert_eq!(decoded.meta_data()._id, "doc123");
    assert_eq!(decoded.meta_data()._rev, "1-abc");
    assert_eq!(decoded.meta_data()._deleted, None);
    assert_eq!(
        decoded.into_inner(),
        Some(DocValue::Object(vec![
            ("field1".to_string(), DocValue::Int(5)),
            ("field2".to_string(), DocValue::Str("x".to_string())),
        ]))
    );
}

#[test]
fn deleted_envelope_has_no_payload() {
    let body = DocValue::Object(vec![
        ("_id".to_string(), DocValue::Str("doc123".to_string())),
        ("_rev".to_string(), DocValue::Str("2-def".to_string())),
        ("_deleted".to_string(), DocValue::Bool(true)),
    ]);
    let decoded = decode_get_body(body).unwrap();
    assert_eq!(decoded.meta_data()._deleted, Some(true));
    assert_eq!(decoded.into_inner(), None);
}

#[test]
fn envelope_without_revision_fails_decode() {
    let body = DocValue::Object(vec![
        ("_id".to_string(), DocValue::Str("doc123".to_string())),
        ("field1".to_string(), DocValue::Int(5)),
    ]);
    assert_eq!(decode_get_body(body).unwrap_err(), ChesterfieldError::Decode);
}

#[test]
fn envelope_with_wrong_shape_fails_decode() {
    assert_eq!(decode_get_body(DocValue::Int(3)).unwrap_err(), ChesterfieldError::Decode);
    let body = DocValue::Object(vec![
        ("_id".to_string(), DocValue::Int(9)),
        ("_rev".to_string(), DocValue::Str("1-abc".to_string())),
    ]);
    assert_eq!(decode_get_body(body).unwrap_err(), ChesterfieldError::Decode);
}

#[test]
fn get_interpretation_maps_statuses() {
    let not_found = HttpResponse { status: 404, body: None };
    assert_eq!(interpret_get(not_found).unwrap_err(), ChesterfieldError::NotFound);
    let ok = HttpResponse { status: 200, body: Some(envelope()) };
    assert!(interpret_get(ok).is_ok());
    let empty = HttpResponse { status: 200, body: None };
    assert_eq!(interpret_get(empty).unwrap_err(), ChesterfieldError::Decode);
    let odd = HttpResponse { status: 503, body: None };
    assert_eq!(interpret_get(odd).unwrap_err(), ChesterfieldError::UnexpectedStatus(503));
}

#[test]
fn write_interpretation_maps_statuses() {
    let body = DocValue::Object(vec![
        ("id".to_string(), DocValue::Str("doc123".to_string())),
        ("ok".to_string(), DocValue::Bool(true)),
        ("rev".to_string(), DocValue::Str("1-abc".to_string())),
    ]);
    let created = HttpResponse { status: 201, body: Some(body) };
    let response = interpret_insert(created).unwrap();
    assert_eq!(response.id, "doc123");
    assert!(response.ok);
    assert_eq!(response.rev, "1-abc");

    let conflict = HttpResponse { status: 409, body: None };
    assert_eq!(interpret_update(conflict).unwrap_err(), ChesterfieldError::Conflict);
    let missing = HttpResponse { status: 404, body: None };
    assert_eq!(interpret_update(missing).unwrap_err(), ChesterfieldError::NotFound);
    let malformed = HttpResponse { status: 201, body: Some(DocValue::Null) };
    assert_eq!(interpret_update(malformed).unwrap_err(), ChesterfieldError::Decode);
}

#[test]
fn transport_errors_stand_apart() {
    // the transport reports connection failures itself; the taxonomy keeps a
    // distinct variant for them
    assert_ne!(ChesterfieldError::Transport, ChesterfieldError::Decode);
    assert_ne!(ChesterfieldError::Transport, ChesterfieldError::UnexpectedStatus(500));
}
