//! The small building blocks: decimal rendering, JSON-style quoting, typed
//! documents and the replication descriptor.

use chesterfield::database::replicate::{is_false, is_true, ReplicatePayload};
use chesterfield::document::Document;
use chesterfield::text::{json_list, json_string, rev_text, u64_to_decimal};
use chesterfield::traits::{ExistingDocument, NewDocument};
use chesterfield::DocValue;

#[test]
fn decimal_rendering() {
    assert_eq!(u64_to_decimal(0), "0");
    assert_eq!(u64_to_decimal(7), "7");
    assert_eq!(u64_to_decimal(4096), "4096");
    assert_eq!(u64_to_decimal(u64::MAX), "18446744073709551615");
}

#[test]
fn revision_tokens() {
    assert_eq!(rev_text(1, 1), "1-1");
    assert_eq!(rev_text(12, 34), "12-34");
    assert_ne!(rev_text(1, 5), rev_text(2, 5));
}

#[test]
fn json_quoting_escapes_quotes_and_backslashes() {
    assert_eq!(json_string("plain"), "\"plain\"");
    assert_eq!(json_string("a\"b"), "\"a\\\"b\"");
    assert_eq!(json_string("a\\b"), "\"a\\\\b\"");
    assert_eq!(json_list(&vec!["1-a".to_string(), "2-b".to_string()]), "[\"1-a\",\"2-b\"]");
    assert_eq!(json_list(&vec![]), "[]");
}

#[test]
fn documents_carry_their_metadata() {
    let doc = Document::new(41u32, "doc123".to_string(), "1-abc".to_string());
    assert_eq!(doc._id(), "doc123");
    assert_eq!(doc._rev(), "1-abc");
    assert_eq!(doc.data, 41);
}

struct Draft {
    text: String,
}

struct Stored {
    text: String,
}

impl NewDocument<String> for Draft {
    fn _id(&self) -> &str {
        "draft"
    }

    fn _document(&self) -> &String {
        &self.text
    }
}

impl NewDocument<String> for Stored {
    fn _id(&self) -> &str {
        "stored"
    }

    fn _document(&self) -> &String {
        &self.text
    }
}

impl ExistingDocument<String> for Stored {
    fn _rev(&self) -> &str {
        "3-zzz"
    }
}

#[test]
fn document_traits_are_usable_by_callers() {
    let draft = Draft { text: "hello".to_string() };
    assert_eq!(draft._id(), "draft");
    assert_eq!(draft._document(), "hello");
    let stored = Stored { text: "there".to_string() };
    assert_eq!(stored._rev(), "3-zzz");
}

#[test]
fn replication_descriptor_omits_defaults() {
    let payload = ReplicatePayload::new("/items/".to_string(), "http://other:5984/items/".to_string());
    let body = payload.to_value();
    assert_eq!(
        body,
        DocValue::Object(vec![
            ("source".to_string(), DocValue::Str("/items/".to_string())),
            ("sink".to_string(), DocValue::Str("http://other:5984/items/".to_string())),
        ])
    );
}

#[test]
fn serializer_omission_tests() {
    assert!(is_true(&true));
    assert!(!is_true(&false));
    assert!(is_false(&false));
    assert!(!is_false(&true));
}
