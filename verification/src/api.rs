//! Error type shared by the HTTP endpoints.
use vstd::prelude::*;
use vstd::string::*;

use crate::notion::{find_last, last_index_of};
use crate::text::chars_of;

verus! {

broadcast use vstd::string::group_string_axioms;

/// Failure of an HTTP endpoint; the message is shown to the caller.
#[derive(Debug)]
pub enum ApiError {
    BadRequest(String),
    Unauthorized(String),
    NotFound(String),
    Internal(String),
}

impl ApiError {
    pub open spec fn is_bad_request_with(self, msg: Seq<char>) -> bool {
        self matches ApiError::BadRequest(m) && m@ == msg
    }

    pub open spec fn is_unauthorized_with(self, msg: Seq<char>) -> bool {
        self matches ApiError::Unauthorized(m) && m@ == msg
    }
}

/// Answer of the health check.
#[derive(Debug)]
pub struct HealthResponse {
    pub status: String,
    pub version: &'static str,
    pub build: &'static str,
    pub profile: &'static str,
}

/// The HTTP status and status text of the health check: `200 ok` when the
/// database answers, `503 unhealthy` otherwise.
pub open spec fn health_status_for(db_ok: bool) -> (u16, Seq<char>) {
    if db_ok {
        (200, "ok"@)
    } else {
        (503, "unhealthy"@)
    }
}

/// Decides the health check's status from whether the database answered.
pub fn health_status(db_ok: bool) -> (r: (u16, &'static str))
    ensures
        r.0 == health_status_for(db_ok).0,
        r.1@ == health_status_for(db_ok).1,
{
    if db_ok {
        (200, "ok")
    } else {
        (503, "unhealthy")
    }
}

/// A knowledge-base document as the API returns it.
#[derive(Debug)]
pub struct DocumentResponse {
    pub id: String,
    pub content: String,
    pub source_path: Option<String>,
    pub origin_url: Option<String>,
}

/// The record key of a document id such as `documents:abc123`: the text
/// after its last `:`, or the whole id when it has none.
pub open spec fn document_key_of(id: Seq<char>) -> Seq<char> {
    match last_index_of(id, ':') {
        Some(i) => id.skip((i + 1) as int),
        None => id,
    }
}

/// Takes the record key out of a document id; see `document_key_of`.
pub fn document_key(id: &str) -> (k: &str)
    ensures
        k@ == document_key_of(id@),
{
    let v = chars_of(id);
    match find_last(&v, ':') {
        Some(i) => {
            proof {
                crate::notion::lemma_last_index_bound(id@, ':');
            }
            let n = v.len();
            assert(i < n);
            let k = id.substring_char(i + 1, n);
            assert(k@ =~= id@.skip(i + 1));
            k
        },
        None => id,
    }
}

/// The API's view of a stored document: missing content reads as empty.
pub fn document_response(
    id: String,
    content: Option<String>,
    source_path: Option<String>,
    origin_url: Option<String>,
) -> (d: DocumentResponse)
    ensures
        d.id == id,
        d.content@ == match content { Some(c) => c@, None => Seq::empty() },
        d.source_path == source_path,
        d.origin_url == origin_url,
{
    DocumentResponse {
        id,
        content: match content {
            Some(c) => c,
            None => String::new(),
        },
        source_path,
        origin_url,
    }
}

} // verus!
