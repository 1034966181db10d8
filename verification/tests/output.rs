use rustbox::cli::{format_sandbox_table, format_snapshot_table, SandboxRow, SnapshotRow};
use rustbox::sandbox::{Runtime, SandboxStatus};
use rustbox::table::format_table;
use rustbox::time::Timestamp;

#[test]
fn format_table_with_data() {
    let headers = &["ID", "STATUS", "RUNTIME"];
    let rows = vec![
        vec!["abc123".into(), "running".into(), "node24".into()],
        vec!["def456".into(), "stopped".into(), "python313".into()],
    ];
    let output = format_table(headers, &rows);
    assert!(output.contains("ID"));
    assert!(output.contains("abc123"));
    assert!(output.contains("def456"));
    assert!(output.contains("running"));
}

#[test]
fn format_table_empty() {
    let headers = &["ID", "STATUS"];
    let rows: Vec<Vec<String>> = vec![];
    let output = format_table(headers, &rows);
    assert!(output.contains("ID"));
}

#[test]
fn format_table_exact_layout() {
    let headers = &["ID", "STATUS", "RUNTIME"];
    let rows = vec![
        vec!["abc123".to_string(), "running".to_string(), "node24".to_string()],
        vec!["d".to_string(), "stopped".to_string(), "python313".to_string()],
    ];
    let output = format_table(headers, &rows);
    assert_eq!(
        output,
        "ID      STATUS   RUNTIME  \nabc123  running  node24   \nd       stopped  python313\n"
    );
    assert_eq!(format_table(&["ID", "STATUS"], &[]), "ID\tSTATUS");
}

#[test]
fn format_table_ragged_rows() {
    let rows = vec![vec!["a".to_string(), "b".to_string(), "extra".to_string()], vec!["ccc".to_string()]];
    assert_eq!(format_table(&["X", "Y"], &rows), "X    Y\na    b  extra\nccc\n");
}

#[test]
fn sandbox_and_snapshot_tables() {
    let t = Timestamp::new(0, 0).unwrap();
    let rows = vec![SandboxRow {
        id: "sb-1".to_string(),
        status: SandboxStatus::Running,
        runtime: Runtime::Node24,
        created_at: t,
    }];
    assert_eq!(
        format_sandbox_table(&rows),
        "ID    STATUS   RUNTIME  CREATED            \nsb-1  running  node24   1970-01-01 00:00:00\n"
    );
    let snaps = vec![SnapshotRow {
        id: "sn".to_string(),
        sandbox_id: "sb-1".to_string(),
        created_at: Timestamp::new(86400, 5).unwrap(),
        size_bytes: 1024,
        description: None,
    }];
    assert_eq!(
        format_snapshot_table(&snaps),
        "ID  SANDBOX  CREATED              SIZE    DESCRIPTION\nsn  sb-1     1970-01-02 00:00:00  1024 B             \n"
    );
}
