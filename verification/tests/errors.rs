use rustbox::error::{ApiError, RustboxError, SdkError};

#[test]
fn display_sandbox_not_found() {
    let e = RustboxError::SandboxNotFound("sb-123".to_string());
    assert!(e.message().contains("sandbox not found"));
    assert!(e.message().contains("sb-123"));
}

#[test]
fn display_snapshot_not_found() {
    let e = RustboxError::SnapshotNotFound("snap-1".to_string());
    assert!(e.message().contains("snapshot not found"));
}

#[test]
fn display_command_not_found() {
    let e = RustboxError::CommandNotFound("cmd-1".to_string());
    assert!(e.message().contains("command not found"));
}

#[test]
fn display_sandbox_not_running() {
    let e = RustboxError::SandboxNotRunning("sb-456".to_string());
    assert!(e.message().contains("sandbox not running"));
}

#[test]
fn display_vm_backend() {
    let e = RustboxError::VmBackend("qemu crashed".to_string());
    assert!(e.message().contains("vm backend error"));
}

#[test]
fn display_timeout() {
    let e = RustboxError::Timeout("30s exceeded".to_string());
    assert!(e.message().contains("timeout"));
}

#[test]
fn display_invalid_config() {
    let e = RustboxError::InvalidConfig("bad cpu".to_string());
    assert!(e.message().contains("invalid configuration"));
}

#[test]
fn from_io_error() {
    let io_err = std::io::Error::new(std::io::ErrorKind::NotFound, "file missing");
    let e = RustboxError::Io(io_err.to_string());
    match &e {
        RustboxError::Io(_) => {}
        other => panic!("expected Io variant, got: {:?}", other),
    }
    assert!(e.message().contains("file missing"));
}

#[test]
fn display_internal() {
    let e = RustboxError::Internal("unexpected".to_string());
    assert_eq!(e.message(), "unexpected");
}

#[test]
fn status_codes() {
    assert_eq!(RustboxError::SandboxNotFound("a".to_string()).status_code(), 404);
    assert_eq!(RustboxError::SnapshotNotFound("a".to_string()).status_code(), 404);
    assert_eq!(RustboxError::CommandNotFound("a".to_string()).status_code(), 404);
    assert_eq!(RustboxError::SandboxNotRunning("a".to_string()).status_code(), 409);
    assert_eq!(RustboxError::InvalidConfig("a".to_string()).status_code(), 400);
    assert_eq!(RustboxError::Storage("a".to_string()).status_code(), 500);
    let (code, msg) = ApiError::from_error(RustboxError::Timeout("t".to_string())).response_parts();
    assert_eq!(code, 500);
    assert_eq!(msg, "timeout: t");
}

#[test]
fn client_errors_follow_status() {
    assert_eq!(SdkError::from_status(404, "m".to_string()), SdkError::NotFound("m".to_string()));
    assert_eq!(SdkError::from_status(409, "m".to_string()), SdkError::Conflict("m".to_string()));
    assert_eq!(SdkError::from_status(400, "m".to_string()), SdkError::BadRequest("m".to_string()));
    assert_eq!(SdkError::from_status(503, "m".to_string()), SdkError::ServerError("m".to_string()));
    assert_eq!(SdkError::NotFound("x".to_string()).message(), "not found: x");
    let e = RustboxError::SandboxNotRunning("sb".to_string());
    let back = SdkError::from_status(e.status_code(), e.message());
    assert_eq!(back, SdkError::Conflict("sandbox not running: sb".to_string()));
}

#[test]
fn from_serde_json_error() {
    let json_err = serde_json::from_str::<serde_json::Value>("not json").unwrap_err();
    let e = RustboxError::Json(json_err.to_string());
    match &e {
        RustboxError::Json(_) => {}
        other => panic!("expected Json variant, got: {:?}", other),
    }
    assert_eq!(e.message(), json_err.to_string());
}
