//! Wire-level request and response values. A request is a lazy value: building
//! one performs no I/O; the caller's transport dispatches it and hands the
//! status and decoded body back to the interpretation functions.

use vstd::prelude::*;

use crate::value::{val_of, DocValue, Val};

verus! {

/// An HTTP verb.
#[derive(Clone, Copy, Debug, PartialEq, Eq, Structural)]
pub enum Method {
    Get,
    Put,
    Post,
    Delete,
    Head,
}

/// The views of a list of query pairs.
pub open spec fn pairs_view(q: Seq<(String, String)>) -> Seq<(Seq<char>, Seq<char>)> {
    q.map_values(|p: (String, String)| (p.0@, p.1@))
}

/// The view of an optional document value.
pub open spec fn opt_val(o: Option<DocValue>) -> Option<Val> {
    match o {
        Some(v) => Some(val_of(v)),
        None => None,
    }
}

/// One wire request: verb, full URL, query pairs and an optional JSON body.
#[derive(Debug)]
pub struct HttpRequest {
    pub method: Method,
    pub url: String,
    pub query: Vec<(String, String)>,
    pub body: Option<DocValue>,
}

/// The view of a wire request.
pub struct HttpRequestView {
    pub method: Method,
    pub url: Seq<char>,
    pub query: Seq<(Seq<char>, Seq<char>)>,
    pub body: Option<Val>,
}

impl View for HttpRequest {
    type V = HttpRequestView;

    open spec fn view(&self) -> HttpRequestView {
        HttpRequestView {
            method: self.method,
            url: self.url@,
            query: pairs_view(self.query@),
            body: opt_val(self.body),
        }
    }
}

/// One wire response: the status code and the decoded JSON body, if any.
#[derive(Debug)]
pub struct HttpResponse {
    pub status: u16,
    pub body: Option<DocValue>,
}

/// The view of a wire response.
pub struct HttpResponseView {
    pub status: u16,
    pub body: Option<Val>,
}

impl View for HttpResponse {
    type V = HttpResponseView;

    open spec fn view(&self) -> HttpResponseView {
        HttpResponseView { status: self.status, body: opt_val(self.body) }
    }
}

} // verus!
