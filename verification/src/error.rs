//! Error types of the library and their messages.

use vstd::prelude::*;
use crate::text::push_str;

verus! {

/// `prefix` followed by `detail`, as a new string.
pub fn prefixed(prefix: &str, detail: &str) -> (s: String)
    ensures
        s@ == prefix@ + detail@,
{
    let mut s = prefix.to_owned();
    push_str(&mut s, detail);
    s
}

/// Errors of network policy handling.
#[derive(Debug, PartialEq, Eq)]
pub enum NetworkError {
    ConnectionDenied(String),
    InvalidPolicy(String),
    Namespace(String),
    Io(String),
}

/// The message of a network error.
pub open spec fn network_error_text(e: NetworkError) -> Seq<char> {
    match e {
        NetworkError::ConnectionDenied(m) => "connection denied: "@ + m@,
        NetworkError::InvalidPolicy(m) => "invalid policy: "@ + m@,
        NetworkError::Namespace(m) => "namespace error: "@ + m@,
        NetworkError::Io(m) => "io error: "@ + m@,
    }
}

impl NetworkError {
    /// The human-readable message.
    pub fn message(&self) -> (s: String)
        ensures
            s@ == network_error_text(*self),
    {
        match self {
            NetworkError::ConnectionDenied(m) => prefixed("connection denied: ", m.as_str()),
            NetworkError::InvalidPolicy(m) => prefixed("invalid policy: ", m.as_str()),
            NetworkError::Namespace(m) => prefixed("namespace error: ", m.as_str()),
            NetworkError::Io(m) => prefixed("io error: ", m.as_str()),
        }
    }
}

/// Errors of snapshot and image storage.
#[derive(Debug, PartialEq, Eq)]
pub enum StorageError {
    SnapshotNotFound(String),
    BaseImageNotFound(String),
    Database(String),
    Io(String),
    Archive(String),
}

/// The message of a storage error.
pub open spec fn storage_error_text(e: StorageError) -> Seq<char> {
    match e {
        StorageError::SnapshotNotFound(m) => "snapshot not found: "@ + m@,
        StorageError::BaseImageNotFound(m) => "base image not found: "@ + m@,
        StorageError::Database(m) => "database error: "@ + m@,
        StorageError::Io(m) => "io error: "@ + m@,
        StorageError::Archive(m) => "archive error: "@ + m@,
    }
}

impl StorageError {
    /// The human-readable message.
    pub fn message(&self) -> (s: String)
        ensures
            s@ == storage_error_text(*self),
    {
        match self {
            StorageError::SnapshotNotFound(m) => prefixed("snapshot not found: ", m.as_str()),
            StorageError::BaseImageNotFound(m) => prefixed("base image not found: ", m.as_str()),
            StorageError::Database(m) => prefixed("database error: ", m.as_str()),
            StorageError::Io(m) => prefixed("io error: ", m.as_str()),
            StorageError::Archive(m) => prefixed("archive error: ", m.as_str()),
        }
    }
}

/// Errors of the sandbox runtime.
#[derive(Debug, PartialEq, Eq)]
pub enum RustboxError {
    SandboxNotFound(String),
    SnapshotNotFound(String),
    CommandNotFound(String),
    SandboxNotRunning(String),
    VmBackend(String),
    Storage(String),
    Network(String),
    AgentComm(String),
    Timeout(String),
    InvalidConfig(String),
    /// An I/O failure; holds the I/O error's own message.
    Io(String),
    /// A JSON failure; holds the JSON error's own message.
    Json(String),
    Internal(String),
}

/// The message of a runtime error; I/O and JSON errors show their own message.
pub open spec fn rustbox_error_text(e: RustboxError) -> Seq<char> {
    match e {
        RustboxError::SandboxNotFound(m) => "sandbox not found: "@ + m@,
        RustboxError::SnapshotNotFound(m) => "snapshot not found: "@ + m@,
        RustboxError::CommandNotFound(m) => "command not found: "@ + m@,
        RustboxError::SandboxNotRunning(m) => "sandbox not running: "@ + m@,
        RustboxError::VmBackend(m) => "vm backend error: "@ + m@,
        RustboxError::Storage(m) => "storage error: "@ + m@,
        RustboxError::Network(m) => "network error: "@ + m@,
        RustboxError::AgentComm(m) => "agent communication error: "@ + m@,
        RustboxError::Timeout(m) => "timeout: "@ + m@,
        RustboxError::InvalidConfig(m) => "invalid configuration: "@ + m@,
        RustboxError::Io(m) => m@,
        RustboxError::Json(m) => m@,
        RustboxError::Internal(m) => m@,
    }
}

/// The HTTP status a runtime error is answered with: 404 for a missing
/// sandbox, snapshot or command, 409 for a sandbox that is not running, 400
/// for an invalid configuration, 500 for everything else.
pub open spec fn spec_status_for(e: RustboxError) -> u16 {
    match e {
        RustboxError::SandboxNotFound(_) => 404,
        RustboxError::SnapshotNotFound(_) => 404,
        RustboxError::CommandNotFound(_) => 404,
        RustboxError::SandboxNotRunning(_) => 409,
        RustboxError::InvalidConfig(_) => 400,
        _ => 500,
    }
}

impl RustboxError {
    /// The human-readable message.
    pub fn message(&self) -> (s: String)
        ensures
            s@ == rustbox_error_text(*self),
    {
        match self {
            RustboxError::SandboxNotFound(m) => prefixed("sandbox not found: ", m.as_str()),
            RustboxError::SnapshotNotFound(m) => prefixed("snapshot not found: ", m.as_str()),
            RustboxError::CommandNotFound(m) => prefixed("command not found: ", m.as_str()),
            RustboxError::SandboxNotRunning(m) => prefixed("sandbox not running: ", m.as_str()),
            RustboxError::VmBackend(m) => prefixed("vm backend error: ", m.as_str()),
            RustboxError::Storage(m) => prefixed("storage error: ", m.as_str()),
            RustboxError::Network(m) => prefixed("network error: ", m.as_str()),
            RustboxError::AgentComm(m) => prefixed("agent communication error: ", m.as_str()),
            RustboxError::Timeout(m) => prefixed("timeout: ", m.as_str()),
            RustboxError::InvalidConfig(m) => prefixed("invalid configuration: ", m.as_str()),
            RustboxError::Io(m) => m.clone(),
            RustboxError::Json(m) => m.clone(),
            RustboxError::Internal(m) => m.clone(),
        }
    }

    /// The HTTP status code for this error.
    pub fn status_code(&self) -> (code: u16)
        ensures
            code == spec_status_for(*self),
    {
        match self {
            RustboxError::SandboxNotFound(_) => 404,
            RustboxError::SnapshotNotFound(_) => 404,
            RustboxError::CommandNotFound(_) => 404,
            RustboxError::SandboxNotRunning(_) => 409,
            RustboxError::InvalidConfig(_) => 400,
            _ => 500,
        }
    }
}

/// A runtime error as answered over HTTP: its status and its message.
pub struct ApiError(pub RustboxError);

impl ApiError {
    /// The status code and error message of the response.
    pub fn response_parts(&self) -> (r: (u16, String))
        ensures
            r.0 == spec_status_for(self.0),
            r.1@ == rustbox_error_text(self.0),
    {
        (self.0.status_code(), self.0.message())
    }

    /// Wraps a runtime error.
    pub fn from_error(e: RustboxError) -> (r: ApiError)
        ensures
            r.0 == e,
    {
        ApiError(e)
    }
}

/// Errors seen by API clients.
#[derive(Debug, PartialEq, Eq)]
pub enum SdkError {
    NotFound(String),
    Conflict(String),
    BadRequest(String),
    ServerError(String),
    /// A transport failure; holds its message.
    Request(String),
    /// A JSON failure; holds its message.
    Json(String),
}

/// The client error for an HTTP status: 404, 409 and 400 have their own
/// kinds, every other status is a server error.
pub open spec fn spec_from_status(status: u16, message: String) -> SdkError {
    if status == 404 {
        SdkError::NotFound(message)
    } else if status == 409 {
        SdkError::Conflict(message)
    } else if status == 400 {
        SdkError::BadRequest(message)
    } else {
        SdkError::ServerError(message)
    }
}

/// The message of a client error.
pub open spec fn sdk_error_text(e: SdkError) -> Seq<char> {
    match e {
        SdkError::NotFound(m) => "not found: "@ + m@,
        SdkError::Conflict(m) => "conflict: "@ + m@,
        SdkError::BadRequest(m) => "bad request: "@ + m@,
        SdkError::ServerError(m) => "server error: "@ + m@,
        SdkError::Request(m) => "request error: "@ + m@,
        SdkError::Json(m) => "json error: "@ + m@,
    }
}

impl SdkError {
    /// Maps an HTTP status and message to an error.
    pub fn from_status(status: u16, message: String) -> (e: SdkError)
        ensures
            e == spec_from_status(status, message),
    {
        if status == 404 {
            SdkError::NotFound(message)
        } else if status == 409 {
            SdkError::Conflict(message)
        } else if status == 400 {
            SdkError::BadRequest(message)
        } else {
            SdkError::ServerError(message)
        }
    }

    /// The human-readable message.
    pub fn message(&self) -> (s: String)
        ensures
            s@ == sdk_error_text(*self),
    {
        match self {
            SdkError::NotFound(m) => prefixed("not found: ", m.as_str()),
            SdkError::Conflict(m) => prefixed("conflict: ", m.as_str()),
            SdkError::BadRequest(m) => prefixed("bad request: ", m.as_str()),
            SdkError::ServerError(m) => prefixed("server error: ", m.as_str()),
            SdkError::Request(m) => prefixed("request error: ", m.as_str()),
            SdkError::Json(m) => prefixed("json error: ", m.as_str()),
        }
    }
}

/// An error answered by the daemon reaches a client as the kind its status
/// stands for, with the same message: missing sandboxes, snapshots and
/// commands become `NotFound`, a stopped sandbox `Conflict`, an invalid
/// configuration `BadRequest`, and everything else `ServerError`.
pub proof fn law_error_kind_survives_http(e: RustboxError, message: String)
    ensures
        spec_from_status(spec_status_for(e), message) == match e {
            RustboxError::SandboxNotFound(_) => SdkError::NotFound(message),
            RustboxError::SnapshotNotFound(_) => SdkError::NotFound(message),
            RustboxError::CommandNotFound(_) => SdkError::NotFound(message),
            RustboxError::SandboxNotRunning(_) => SdkError::Conflict(message),
            RustboxError::InvalidConfig(_) => SdkError::BadRequest(message),
            _ => SdkError::ServerError(message),
        },
{
}

} // verus!
