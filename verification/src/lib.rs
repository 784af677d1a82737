//! A typed client library for a CouchDB-style document database HTTP API.
//!
//! The crate models the document-operation protocol layer: URL composition,
//! query-option serialization, the metadata-prefixed JSON envelope, response
//! interpretation under the revision-based optimistic-concurrency contract,
//! and a reference model of the server semantics those contracts assume.
//! Building a request performs no I/O; the caller's transport dispatches it
//! and hands back the status code and decoded body.

pub mod client;
pub mod database;
pub mod document;
pub mod error;
pub mod laws;
pub mod request;
pub mod server;
pub mod text;
pub mod traits;
pub mod value;

pub use crate::client::Client;
pub use crate::database::delete::DeleteRequest;
pub use crate::database::get::GetRequest;
pub use crate::database::insert::InsertRequest;
pub use crate::database::update::UpdateRequest;
pub use crate::database::Database;
pub use crate::error::ChesterfieldError;
pub use crate::error::ChesterfieldError as Error;
pub use crate::request::{HttpRequest, HttpResponse, Method};
pub use crate::value::DocValue;
