use rustbox::error::SdkError;
use rustbox::sdk::{base_url, endpoint, response_error, status_error, Route};

#[test]
fn base_url_drops_trailing_slashes() {
    assert_eq!(base_url("http://localhost:8080/"), "http://localhost:8080");
    assert_eq!(base_url("http://localhost:8080///"), "http://localhost:8080");
    assert_eq!(base_url("http://x"), "http://x");
}

#[test]
fn routes_and_endpoints() {
    assert_eq!(endpoint("http://h", &Route::Sandboxes.path()), "http://h/v1/sandboxes");
    assert_eq!(Route::Command("sb".to_string(), "c".to_string()).path(), "/sandboxes/sb/commands/c");
    assert_eq!(Route::Kill("sb".to_string(), "c".to_string()).path(), "/sandboxes/sb/commands/c/kill");
    assert_eq!(Route::NetworkPolicy("sb".to_string()).path(), "/sandboxes/sb/network-policy");
    assert_eq!(Route::Snapshot("s1".to_string()).path(), "/snapshots/s1");
}

#[test]
fn response_errors() {
    assert_eq!(response_error(200, "ok".to_string(), None), None);
    assert_eq!(
        response_error(404, "{\"error\":\"gone\"}".to_string(), Some("gone".to_string())),
        Some(SdkError::NotFound("gone".to_string()))
    );
    assert_eq!(
        response_error(502, "bad gateway".to_string(), None),
        Some(SdkError::ServerError("bad gateway".to_string()))
    );
}

#[test]
fn status_errors_read_the_json_error_field() {
    assert_eq!(status_error(204, "{\"error\":\"x\"}".to_string()), None);
    assert_eq!(
        status_error(404, "{\"error\":\"sandbox not found: a\"}".to_string()),
        Some(SdkError::NotFound("sandbox not found: a".to_string()))
    );
    assert_eq!(
        status_error(409, "{\"error\":\"sandbox not running\",\"code\":1}".to_string()),
        Some(SdkError::Conflict("sandbox not running".to_string()))
    );
    assert_eq!(status_error(400, "plain text".to_string()), Some(SdkError::BadRequest("plain text".to_string())));
    assert_eq!(
        status_error(500, "{\"error\":42}".to_string()),
        Some(SdkError::ServerError("{\"error\":42}".to_string()))
    );
}
