use rustbox::args::{ArgsError, Cli, Commands, OutputFormat, SnapshotCommands};

#[test]
fn parse_create_with_runtime() {
    let cli = Cli::try_parse_from(&["sandbox", "create", "--runtime", "node24"]).unwrap();
    match cli.command {
        Commands::Create { runtime, .. } => assert_eq!(runtime, "node24"),
        _ => panic!("expected Create"),
    }
}

#[test]
fn parse_list() {
    let cli = Cli::try_parse_from(&["sandbox", "list"]).unwrap();
    assert!(matches!(cli.command, Commands::List { all: false }));
}

#[test]
fn parse_list_all() {
    let cli = Cli::try_parse_from(&["sandbox", "list", "--all"]).unwrap();
    assert!(matches!(cli.command, Commands::List { all: true }));
}

#[test]
fn parse_exec_with_trailing_args() {
    let cli = Cli::try_parse_from(&["sandbox", "exec", "abc123", "--", "echo", "hello"]).unwrap();
    match cli.command {
        Commands::Exec { id, cmd, .. } => {
            assert_eq!(id, "abc123");
            assert_eq!(cmd, vec!["echo", "hello"]);
        }
        _ => panic!("expected Exec"),
    }
}

#[test]
fn parse_copy() {
    let cli = Cli::try_parse_from(&["sandbox", "copy", "host:/tmp/a", "abc123:/data/a"]).unwrap();
    match cli.command {
        Commands::Copy { src, dst } => {
            assert_eq!(src, "host:/tmp/a");
            assert_eq!(dst, "abc123:/data/a");
        }
        _ => panic!("expected Copy"),
    }
}

#[test]
fn parse_run() {
    let cli = Cli::try_parse_from(&[
        "sandbox", "run", "--runtime", "node24", "--rm", "--", "node", "index.js",
    ])
    .unwrap();
    match cli.command {
        Commands::Run { runtime, rm, cmd } => {
            assert_eq!(runtime, "node24");
            assert!(rm);
            assert_eq!(cmd, vec!["node", "index.js"]);
        }
        _ => panic!("expected Run"),
    }
}

#[test]
fn parse_snapshot_create() {
    let cli = Cli::try_parse_from(&["sandbox", "snapshot", "create", "abc123"]).unwrap();
    match cli.command {
        Commands::Snapshot { command: SnapshotCommands::Create { id } } => {
            assert_eq!(id, "abc123");
        }
        _ => panic!("expected Snapshot Create"),
    }
}

#[test]
fn parse_snapshot_list() {
    let cli = Cli::try_parse_from(&["sandbox", "snapshot", "list"]).unwrap();
    assert!(matches!(cli.command, Commands::Snapshot { command: SnapshotCommands::List }));
}

#[test]
fn parse_snapshot_delete() {
    let cli = Cli::try_parse_from(&["sandbox", "snapshot", "delete", "snap-id"]).unwrap();
    match cli.command {
        Commands::Snapshot { command: SnapshotCommands::Delete { id } } => {
            assert_eq!(id, "snap-id");
        }
        _ => panic!("expected Snapshot Delete"),
    }
}

#[test]
fn custom_url() {
    let cli = Cli::try_parse_from(&["sandbox", "--url", "http://custom:9090", "list"]).unwrap();
    assert_eq!(cli.url, "http://custom:9090");
}

#[test]
fn output_json() {
    let cli = Cli::try_parse_from(&["sandbox", "--output", "json", "list"]).unwrap();
    assert!(matches!(cli.output, OutputFormat::Json));
}

#[test]
fn missing_required_args() {
    assert!(Cli::try_parse_from(&["sandbox", "create"]).is_err());
}

#[test]
fn defaults_when_options_are_absent() {
    let cli = Cli::try_parse_from(&["sandbox", "create", "--runtime", "python313"]).unwrap();
    assert_eq!(cli.url, "http://localhost:8080");
    assert_eq!(cli.output, OutputFormat::Table);
    assert_eq!(
        cli.command,
        Commands::Create { runtime: "python313".to_string(), timeout: 300, snapshot: None }
    );
}

#[test]
fn create_with_all_options_in_equals_form() {
    let cli = Cli::try_parse_from(&[
        "sandbox", "create", "--runtime=node22", "--timeout=60", "--snapshot", "snap-1", "--output=json",
    ])
    .unwrap();
    assert_eq!(cli.output, OutputFormat::Json);
    assert_eq!(
        cli.command,
        Commands::Create {
            runtime: "node22".to_string(),
            timeout: 60,
            snapshot: Some("snap-1".to_string())
        }
    );
}

#[test]
fn global_option_after_subcommand() {
    let cli = Cli::try_parse_from(&["sandbox", "list", "--url", "http://h:1"]).unwrap();
    assert_eq!(cli.url, "http://h:1");
}

#[test]
fn exec_with_all_options() {
    let cli = Cli::try_parse_from(&[
        "sandbox", "exec", "--sudo", "sb", "--workdir", "/app", "--env", "A=1", "--env", "B=2", "--", "ls", "-la",
    ])
    .unwrap();
    assert_eq!(
        cli.command,
        Commands::Exec {
            id: "sb".to_string(),
            sudo: true,
            workdir: Some("/app".to_string()),
            env: vec!["A=1".to_string(), "B=2".to_string()],
            cmd: vec!["ls".to_string(), "-la".to_string()],
        }
    );
}

#[test]
fn exec_without_separator_is_refused() {
    let r = Cli::try_parse_from(&["sandbox", "exec", "abc", "echo"]);
    assert_eq!(r, Err(ArgsError::Usage("unexpected argument 'echo' found".to_string())));
}

#[test]
fn exec_without_command_is_refused() {
    let r = Cli::try_parse_from(&["sandbox", "exec", "abc"]);
    assert_eq!(
        r,
        Err(ArgsError::Usage("the following required arguments were not provided: <CMD>...".to_string()))
    );
}

#[test]
fn invalid_timeout_is_refused() {
    let r = Cli::try_parse_from(&["sandbox", "create", "--runtime", "node24", "--timeout", "soon"]);
    assert_eq!(r, Err(ArgsError::Usage("invalid value 'soon' for '--timeout'".to_string())));
}

#[test]
fn invalid_output_is_refused() {
    let r = Cli::try_parse_from(&["sandbox", "--output", "yaml", "list"]);
    assert_eq!(r, Err(ArgsError::Usage("invalid value 'yaml' for '--output'".to_string())));
}

#[test]
fn repeated_flag_is_refused() {
    let r = Cli::try_parse_from(&["sandbox", "list", "--all", "--all"]);
    assert_eq!(r, Err(ArgsError::Usage("the argument '--all' cannot be used multiple times".to_string())));
}

#[test]
fn option_of_another_subcommand_is_refused() {
    let r = Cli::try_parse_from(&["sandbox", "list", "--runtime", "node24"]);
    assert_eq!(r, Err(ArgsError::Usage("unexpected argument '--runtime' found".to_string())));
}

#[test]
fn missing_option_value_is_refused() {
    let r = Cli::try_parse_from(&["sandbox", "create", "--runtime"]);
    assert_eq!(
        r,
        Err(ArgsError::Usage("a value is required for '--runtime' but none was supplied".to_string()))
    );
}

#[test]
fn unknown_subcommand_is_refused() {
    let r = Cli::try_parse_from(&["sandbox", "destroy"]);
    assert_eq!(r, Err(ArgsError::Usage("unrecognized subcommand 'destroy'".to_string())));
}

#[test]
fn missing_subcommand_is_refused() {
    let r = Cli::try_parse_from(&["sandbox"]);
    assert_eq!(r, Err(ArgsError::Usage("a subcommand is required".to_string())));
    assert!(Cli::try_parse_from(&["sandbox", "snapshot"]).is_err());
}

#[test]
fn help_is_reported() {
    assert_eq!(Cli::try_parse_from(&["sandbox", "--help"]), Err(ArgsError::Help));
    assert_eq!(Cli::try_parse_from(&["sandbox", "list", "-h"]), Err(ArgsError::Help));
    assert_eq!(Cli::try_parse_from(&["sandbox", "help"]), Err(ArgsError::Help));
}

#[test]
fn flag_with_value_is_refused() {
    let r = Cli::try_parse_from(&["sandbox", "list", "--all=yes"]);
    assert_eq!(
        r,
        Err(ArgsError::Usage("unexpected value 'yes' for '--all' found; no more were expected".to_string()))
    );
}

#[test]
fn copy_needs_two_paths() {
    let r = Cli::try_parse_from(&["sandbox", "copy", "host:/a"]);
    assert_eq!(
        r,
        Err(ArgsError::Usage("the following required arguments were not provided: <DST>".to_string()))
    );
}

#[test]
fn stop_connect_and_snapshot_get() {
    let c = Cli::try_parse_from(&["sandbox", "stop", "sb1"]).unwrap();
    assert_eq!(c.command, Commands::Stop { id: "sb1".to_string() });
    let c = Cli::try_parse_from(&["sandbox", "connect", "sb2"]).unwrap();
    assert_eq!(c.command, Commands::Connect { id: "sb2".to_string() });
    let c = Cli::try_parse_from(&["sandbox", "snapshot", "get", "s3"]).unwrap();
    assert_eq!(c.command, Commands::Snapshot { command: SnapshotCommands::Get { id: "s3".to_string() } });
}

#[test]
fn args_error_messages() {
    assert_eq!(ArgsError::Help.message(), "help requested");
    assert_eq!(ArgsError::Usage("x".to_string()).message(), "x");
}
