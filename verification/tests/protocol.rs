//! Requests as values: URL composition, query-option serialization with
//! defaults omitted, and body splicing.

use chesterfield::database::delete::DeleteRequestQuery;
use chesterfield::database::get::GetRequestQuery;
use chesterfield::{ChesterfieldError, Client, DocValue, Method};

#[test]
fn it_works() {
    assert_eq!(2 + 2, 4);
}

#[test]
fn base_url_is_normalized() {
    let client = Client::from_url_str("http://localhost:5984").unwrap();
    assert_eq!(client.url().as_str(), "http://localhost:5984/");
}

#[test]
fn database_url_joins_with_separator() {
    let client = Client::from_url_str("http://localhost:5984").unwrap();
    let database = client.database("items").unwrap();
    assert_eq!(database.url().as_str(), "http://localhost:5984/items/");
    assert_eq!(database.name().as_str(), "items");
}

#[test]
fn base_url_normalization_is_real() {
    // scheme and host fold to lower case, the default port is dropped
    let client = Client::from_url_str("HTTP://Example.COM:80/Items").unwrap();
    assert_eq!(client.url().as_str(), "http://example.com/Items/");
}

#[test]
fn malformed_base_url_is_rejected() {
    let err = Client::from_url_str("not a url").unwrap_err();
    assert_eq!(err, ChesterfieldError::UrlParse);
}

#[test]
fn invalid_database_name_is_rejected() {
    let client = Client::from_url_str("http://localhost:5984").unwrap();
    let err = client.database("bad/name").unwrap_err();
    assert_eq!(err, ChesterfieldError::UrlParse);
}

#[test]
fn default_get_request_has_no_query() {
    let client = Client::from_url_str("http://localhost:5984").unwrap();
    let database = client.database("items").unwrap();
    let request = database.get("doc123".to_string()).into_request().unwrap();
    assert_eq!(request.method, Method::Get);
    assert_eq!(request.url.as_str(), "http://localhost:5984/items/doc123");
    assert!(request.query.is_empty());
    assert!(request.body.is_none());
}

#[test]
fn get_request_serializes_set_options() {
    let client = Client::from_url_str("http://localhost:5984").unwrap();
    let database = client.database("items").unwrap();
    let request = database
        .get("doc123".to_string())
        .conflicts(true)
        .revision(Some("1-abc".to_string()))
        .into_request()
        .unwrap();
    assert_eq!(
        request.query,
        vec![
            ("conflicts".to_string(), "true".to_string()),
            ("rev".to_string(), "1-abc".to_string()),
        ]
    );
}

#[test]
fn get_request_serializes_revision_lists() {
    let client = Client::from_url_str("http://localhost:5984").unwrap();
    let database = client.database("items").unwrap();
    let request = database
        .get("doc123".to_string())
        .attachments_since(vec!["1-a".to_string(), "2-b\"c".to_string()])
        .all_open_revisions(true)
        .into_request()
        .unwrap();
    assert_eq!(
        request.query,
        vec![
            ("atts_since".to_string(), "[\"1-a\",\"2-b\\\"c\"]".to_string()),
            ("open_revs".to_string(), "all".to_string()),
        ]
    );
}

#[test]
fn get_request_rejects_invalid_id() {
    let client = Client::from_url_str("http://localhost:5984").unwrap();
    let database = client.database("items").unwrap();
    let err = database.get("a/b".to_string()).into_request().unwrap_err();
    assert_eq!(err, ChesterfieldError::UrlParse);
}

#[test]
fn query_defaults_serialize_to_nothing() {
    let query = GetRequestQuery::default();
    assert!(query.query_pairs().is_empty());
}

#[test]
fn insert_request_splices_id_into_body() {
    let client = Client::from_url_str("http://localhost:5984").unwrap();
    let database = client.database("items").unwrap();
    let payload = DocValue::Object(vec![("field1".to_string(), DocValue::Int(5))]);
    let request = database.insert(payload, Some("doc123".to_string())).into_request();
    assert_eq!(request.method, Method::Post);
    assert_eq!(request.url.as_str(), "http://localhost:5984/items/");
    assert!(request.query.is_empty());
    assert_eq!(
        request.body,
        Some(DocValue::Object(vec![
            ("_id".to_string(), DocValue::Str("doc123".to_string())),
            ("field1".to_string(), DocValue::Int(5)),
        ]))
    );
}

#[test]
fn insert_request_without_id_keeps_body_unchanged() {
    let client = Client::from_url_str("http://localhost:5984").unwrap();
    let database = client.database("items").unwrap();
    let payload = DocValue::Object(vec![("field1".to_string(), DocValue::Int(5))]);
    let request = database.insert(payload, None).into_request();
    assert_eq!(
        request.body,
        Some(DocValue::Object(vec![("field1".to_string(), DocValue::Int(5))]))
    );
}

#[test]
fn update_request_splices_revision_into_body() {
    let client = Client::from_url_str("http://localhost:5984").unwrap();
    let database = client.database("items").unwrap();
    let payload = DocValue::Object(vec![("field1".to_string(), DocValue::Int(6))]);
    let request = database
        .update(payload, "doc123".to_string(), "1-abc".to_string())
        .into_request()
        .unwrap();
    assert_eq!(request.method, Method::Put);
    assert_eq!(request.url.as_str(), "http://localhost:5984/items/doc123");
    assert!(request.query.is_empty());
    assert_eq!(
        request.body,
        Some(DocValue::Object(vec![
            ("_rev".to_string(), DocValue::Str("1-abc".to_string())),
            ("field1".to_string(), DocValue::Int(6)),
        ]))
    );
}

#[test]
fn delete_request_carries_revision_in_query() {
    let client = Client::from_url_str("http://localhost:5984").unwrap();
    let database = client.database("items").unwrap();
    let request = database
        .delete("doc123".to_string(), "1-abc".to_string())
        .into_request()
        .unwrap();
    assert_eq!(request.method, Method::Delete);
    assert_eq!(request.url.as_str(), "http://localhost:5984/items/doc123");
    assert_eq!(request.query, vec![("rev".to_string(), "1-abc".to_string())]);
    assert!(request.body.is_none());
}

#[test]
fn delete_query_omits_unset_batch() {
    let query = DeleteRequestQuery::new("9-z".to_string());
    assert_eq!(query.query_pairs(), vec![("rev".to_string(), "9-z".to_string())]);
}

#[test]
fn create_and_exists_requests_target_database_root() {
    let client = Client::from_url_str("http://localhost:5984").unwrap();
    let database = client.database("items").unwrap();
    let create = database.create_request();
    assert_eq!(create.method, Method::Put);
    assert_eq!(create.url.as_str(), "http://localhost:5984/items/");
    let exists = database.exists_request();
    assert_eq!(exists.method, Method::Head);
    assert_eq!(exists.url.as_str(), "http://localhost:5984/items/");
}
