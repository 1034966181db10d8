//! The API client's addressing and error handling.

use vstd::prelude::*;
use crate::error::{prefixed, spec_from_status, SdkError};
use crate::text::{chars_of, opt_text, push_str, string_of_range};

verus! {

/// `s` without its trailing `/` characters.
pub open spec fn trim_slashes(s: Seq<char>) -> Seq<char>
    decreases s.len(),
{
    if s.len() > 0 && s.last() == '/' {
        trim_slashes(s.drop_last())
    } else {
        s
    }
}

/// The base URL of a client: the given URL without trailing slashes.
pub fn base_url(url: &str) -> (r: String)
    ensures
        r@ == trim_slashes(url@),
{
    let cs = chars_of(url);
    let mut n: usize = cs.len();
    assert(cs@.subrange(0, n as int) =~= cs@);
    while n > 0 && cs[n - 1] == '/'
        invariant
            n <= cs@.len(),
            trim_slashes(cs@.subrange(0, n as int)) == trim_slashes(url@),
            cs@ == url@,
        decreases n,
    {
        assert(cs@.subrange(0, n as int).drop_last() =~= cs@.subrange(0, n - 1));
        n = n - 1;
    }
    string_of_range(cs.as_slice(), 0, n)
}

/// The API resources the client talks to.
#[derive(Debug, PartialEq, Eq)]
pub enum Route {
    /// All sandboxes.
    Sandboxes,
    /// One sandbox.
    Sandbox(String),
    /// A sandbox's timeout.
    Timeout(String),
    /// A sandbox's network policy.
    NetworkPolicy(String),
    /// The commands of a sandbox.
    Commands(String),
    /// One command of a sandbox.
    Command(String, String),
    /// Killing one command of a sandbox.
    Kill(String, String),
    /// The files of a sandbox.
    Files(String),
    /// The directories of a sandbox.
    Dirs(String),
    /// The resource usage of a sandbox.
    Metrics(String),
    /// All snapshots.
    Snapshots,
    /// One snapshot.
    Snapshot(String),
}

/// The path of a resource, below the API version prefix.
pub open spec fn spec_route_path(r: Route) -> Seq<char> {
    match r {
        Route::Sandboxes => "/sandboxes"@,
        Route::Sandbox(id) => "/sandboxes/"@ + id@,
        Route::Timeout(id) => "/sandboxes/"@ + id@ + "/timeout"@,
        Route::NetworkPolicy(id) => "/sandboxes/"@ + id@ + "/network-policy"@,
        Route::Commands(id) => "/sandboxes/"@ + id@ + "/commands"@,
        Route::Command(id, c) => "/sandboxes/"@ + id@ + "/commands/"@ + c@,
        Route::Kill(id, c) => "/sandboxes/"@ + id@ + "/commands/"@ + c@ + "/kill"@,
        Route::Files(id) => "/sandboxes/"@ + id@ + "/files"@,
        Route::Dirs(id) => "/sandboxes/"@ + id@ + "/dirs"@,
        Route::Metrics(id) => "/sandboxes/"@ + id@ + "/metrics"@,
        Route::Snapshots => "/snapshots"@,
        Route::Snapshot(id) => "/snapshots/"@ + id@,
    }
}

/// `/sandboxes/<id>` followed by `tail`.
fn sandbox_sub(id: &str, tail: &str) -> (s: String)
    ensures
        s@ == "/sandboxes/"@ + id@ + tail@,
{
    let mut s = prefixed("/sandboxes/", id);
    push_str(&mut s, tail);
    s
}

impl Route {
    /// The path of the resource, below the API version prefix.
    pub fn path(&self) -> (p: String)
        ensures
            p@ == spec_route_path(*self),
    {
        match self {
            Route::Sandboxes => "/sandboxes".to_owned(),
            Route::Sandbox(id) => prefixed("/sandboxes/", id.as_str()),
            Route::Timeout(id) => sandbox_sub(id.as_str(), "/timeout"),
            Route::NetworkPolicy(id) => sandbox_sub(id.as_str(), "/network-policy"),
            Route::Commands(id) => sandbox_sub(id.as_str(), "/commands"),
            Route::Command(id, c) => {
                let mut s = sandbox_sub(id.as_str(), "/commands/");
                push_str(&mut s, c.as_str());
                s
            },
            Route::Kill(id, c) => {
                let mut s = sandbox_sub(id.as_str(), "/commands/");
                push_str(&mut s, c.as_str());
                push_str(&mut s, "/kill");
                s
            },
            Route::Files(id) => sandbox_sub(id.as_str(), "/files"),
            Route::Dirs(id) => sandbox_sub(id.as_str(), "/dirs"),
            Route::Metrics(id) => sandbox_sub(id.as_str(), "/metrics"),
            Route::Snapshots => "/snapshots".to_owned(),
            Route::Snapshot(id) => prefixed("/snapshots/", id.as_str()),
        }
    }
}

/// The full URL of an API path: the base URL, `/v1`, then the path.
pub fn endpoint(base: &str, path: &str) -> (r: String)
    ensures
        r@ == base@ + "/v1"@ + path@,
{
    let mut r = base.to_owned();
    push_str(&mut r, "/v1");
    push_str(&mut r, path);
    r
}

/// Whether an HTTP status is a success (2xx).
pub open spec fn is_success(status: u16) -> bool {
    200 <= status < 300
}

/// The error a response stands for: none for a success; otherwise the
/// error of its status, with the `error` text of a JSON body when it has one
/// and the raw body when not.
pub open spec fn spec_response_error(status: u16, body: String, json_error: Option<String>) -> Option<SdkError> {
    if is_success(status) {
        None
    } else {
        Some(spec_from_status(status, match json_error { Some(m) => m, None => body }))
    }
}

/// Decides what a response means for the caller (see `spec_response_error`);
/// `json_error` is the string under `error` in the body, when the body is
/// JSON with such a field.
pub fn response_error(status: u16, body: String, json_error: Option<String>) -> (r: Option<SdkError>)
    ensures
        r == spec_response_error(status, body, json_error),
{
    if 200 <= status && status < 300 {
        None
    } else {
        let message = match json_error {
            Some(m) => m,
            None => body,
        };
        Some(SdkError::from_status(status, message))
    }
}

/// The string under the key `error` of `body` read as a JSON value by
/// serde_json, if the body is JSON and that field is a string.
pub uninterp spec fn spec_json_error_field(body: Seq<char>) -> Option<Seq<char>>;

/// The `error` string field of a JSON body, by
/// `serde_json::from_str::<serde_json::Value>` and `Value::as_str` on the
/// field: `None` for a body that is not JSON or has no such string field.
/// What serde_json accepts is not spelled out; the result is named.
#[verifier::external_body]
fn json_error_field(body: &str) -> (r: Option<String>)
    ensures
        opt_text(r) == spec_json_error_field(body@),
{
    serde_json::from_str::<serde_json::Value>(body).ok().and_then(|v| v["error"].as_str().map(String::from))
}

/// `e` is the error of `status` and carries the text `m`.
pub open spec fn is_status_error(e: SdkError, status: u16, m: Seq<char>) -> bool {
    match e {
        SdkError::NotFound(x) => status == 404 && x@ == m,
        SdkError::Conflict(x) => status == 409 && x@ == m,
        SdkError::BadRequest(x) => status == 400 && x@ == m,
        SdkError::ServerError(x) => status != 404 && status != 409 && status != 400 && x@ == m,
        _ => false,
    }
}

/// The error a response with `status` and `body` stands for: none for a
/// success; otherwise the error of its status carrying the `error` string
/// of a JSON body, or the body itself when it has none.
pub fn status_error(status: u16, body: String) -> (r: Option<SdkError>)
    ensures
        is_success(status) ==> r is None,
        !is_success(status) ==> (r matches Some(e) && is_status_error(e, status,
            match spec_json_error_field(body@) {
                Some(m) => m,
                None => body@,
            })),
{
    if 200 <= status && status < 300 {
        return None;
    }
    let message = json_error_field(body.as_str());
    response_error(status, body, message)
}

} // verus!
