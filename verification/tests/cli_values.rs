use rustbox::cli::{copy_plan, parse_copy_path, parse_env_vars, parse_runtime, CliError, CopyPlan};
use rustbox::sandbox::Runtime;

#[test]
fn parse_runtime_valid() {
    assert!(parse_runtime("node24").is_ok());
    assert!(parse_runtime("node22").is_ok());
    assert!(parse_runtime("python313").is_ok());
    assert_eq!(parse_runtime("node22"), Ok(Runtime::Node22));
}

#[test]
fn parse_runtime_invalid() {
    assert!(parse_runtime("ruby33").is_err());
    let e = parse_runtime("ruby33").unwrap_err();
    assert_eq!(e.message(), "unknown runtime 'ruby33'. Valid options: node24, node22, python313");
}

#[test]
fn parse_env_vars_valid() {
    let vars = vec!["KEY=value".to_string(), "FOO=bar=baz".to_string()];
    let map = parse_env_vars(&vars).unwrap();
    assert_eq!(map.get("KEY").unwrap(), "value");
    assert_eq!(map.get("FOO").unwrap(), "bar=baz");
}

#[test]
fn parse_env_vars_invalid() {
    let vars = vec!["NOEQUALS".to_string()];
    assert!(parse_env_vars(&vars).is_err());
}

#[test]
fn parse_env_vars_later_entry_wins_and_first_bad_entry_is_named() {
    let vars = vec!["A=1".to_string(), "B=2".to_string(), "A=3".to_string()];
    let map = parse_env_vars(&vars).unwrap();
    assert_eq!(map.len(), 2);
    assert_eq!(map.get("A").unwrap(), "3");
    let bad = vec!["A=1".to_string(), "X".to_string(), "Y".to_string()];
    let e = parse_env_vars(&bad).unwrap_err();
    assert_eq!(e, CliError::InvalidEnv("X".to_string()));
    assert_eq!(e.message(), "invalid env format 'X', expected KEY=VALUE");
}

#[test]
fn parse_copy_path_host() {
    let (is_host, id, path) = parse_copy_path("host:/tmp/file.txt").unwrap();
    assert!(is_host);
    assert_eq!(id, "host");
    assert_eq!(path, "/tmp/file.txt");
}

#[test]
fn parse_copy_path_sandbox() {
    let (is_host, id, path) = parse_copy_path("abc123:/data/file.txt").unwrap();
    assert!(!is_host);
    assert_eq!(id, "abc123");
    assert_eq!(path, "/data/file.txt");
}

#[test]
fn parse_copy_path_invalid() {
    assert!(parse_copy_path("nocolon").is_err());
}

#[test]
fn copy_directions() {
    assert_eq!(
        copy_plan("host:/tmp/a", "sb:/data/a"),
        Ok(CopyPlan::Upload { local: "/tmp/a".to_string(), sandbox_id: "sb".to_string(), remote: "/data/a".to_string() })
    );
    assert_eq!(
        copy_plan("sb:/data/a", "host:/tmp/b"),
        Ok(CopyPlan::Download { sandbox_id: "sb".to_string(), remote: "/data/a".to_string(), local: "/tmp/b".to_string() })
    );
    assert_eq!(copy_plan("host:/a", "host:/b"), Err(CliError::BothHost));
    assert_eq!(copy_plan("x:/a", "y:/b"), Err(CliError::SandboxToSandbox));
    assert_eq!(copy_plan("bad", "host:/b"), Err(CliError::InvalidCopyPath("bad".to_string())));
    assert_eq!(copy_plan("host:/a", "bad2"), Err(CliError::InvalidCopyPath("bad2".to_string())));
    assert_eq!(CliError::BothHost.message(), "both source and destination are host paths");
}
