use rustbox::dto::command_response;
use rustbox::error::{RustboxError, StorageError};
use rustbox::network::{NetworkMode, NetworkPolicy};
use rustbox::registry::{
    reap_plan, reaped_count, snapshot_deletion, snapshot_lookup, stopped_count, CommandTable, OutputPump,
    SandboxTable, TimeoutSweep,
};
use rustbox::sandbox::{
    console_writes, default_cpu, default_timeout, poll_step, CommandOutput, CommandStatus, Console, CpuCount,
    PollStep, Runtime, Sandbox, SandboxConfig, SandboxStatus,
};
use rustbox::string_map::StringMap;
use rustbox::time::{timed_out, Timestamp};

fn config(timeout_secs: u64) -> SandboxConfig {
    SandboxConfig {
        runtime: Runtime::Node24,
        cpu_count: CpuCount::One,
        timeout_secs,
        env: StringMap::new(),
        ports: vec![],
        network_policy: NetworkPolicy::default(),
        source: None,
    }
}

fn at(secs: i64) -> Timestamp {
    Timestamp::new(secs, 0).unwrap()
}

#[test]
fn registry_create_get_list_delete() {
    let mut t = SandboxTable::new();
    t.insert(Sandbox::started("a".to_string(), config(300), at(10)));
    t.insert(Sandbox::started("b".to_string(), config(300), at(11)));
    assert_eq!(t.len(), 2);
    let a = t.get("a").unwrap();
    assert_eq!(a.status, SandboxStatus::Running);
    assert_eq!(a.started_at, Some(at(10)));
    assert!(t.remove("a").is_ok());
    assert_eq!(t.get("a").unwrap_err(), RustboxError::SandboxNotFound("a".to_string()));
    assert_eq!(t.remove("a").unwrap_err(), RustboxError::SandboxNotFound("a".to_string()));
    assert_eq!(t.len(), 1);
}

#[test]
fn registry_updates() {
    let mut t = SandboxTable::new();
    t.insert(Sandbox::started("a".to_string(), config(300), at(0)));
    t.set_timeout("a", 600).unwrap();
    assert_eq!(t.get("a").unwrap().config.timeout_secs, 600);
    let mut p = NetworkPolicy::default();
    p.mode = NetworkMode::DenyAll;
    t.set_network_policy("a", p).unwrap();
    assert_eq!(t.get("a").unwrap().config.network_policy.mode, NetworkMode::DenyAll);
    assert!(t.set_timeout("zz", 1).is_err());
}

#[test]
fn exec_needs_a_running_sandbox() {
    let mut t = SandboxTable::new();
    assert_eq!(t.check_exec("nope"), Err(RustboxError::SandboxNotFound("nope".to_string())));
    let mut s = Sandbox::started("a".to_string(), config(300), at(0));
    s.status = SandboxStatus::Stopped;
    t.insert(s);
    assert_eq!(t.check_exec("a"), Err(RustboxError::SandboxNotRunning("a".to_string())));
    t.insert(Sandbox::started("a".to_string(), config(300), at(0)));
    assert_eq!(t.check_exec("a"), Ok(()));
    assert_eq!(t.len(), 1);
}

#[test]
fn watchdog_picks_timed_out_sandboxes() {
    let mut t = SandboxTable::new();
    t.insert(Sandbox::started("old".to_string(), config(1), at(100)));
    t.insert(Sandbox::started("new".to_string(), config(300), at(100)));
    assert!(t.timed_out_ids(&at(101)).is_empty());
    assert_eq!(t.timed_out_ids(&at(102)), vec!["old".to_string()]);
    assert_eq!(t.timed_out_ids(&at(500)), vec!["old".to_string(), "new".to_string()]);
    assert_eq!(stopped_count(&[Ok(()), Err(RustboxError::Internal("x".to_string())), Ok(())]), 2);
}

#[test]
fn timeout_counts_whole_seconds() {
    let created = Timestamp::new(0, 900_000_000).unwrap();
    assert!(!timed_out(&created, &Timestamp::new(6, 0).unwrap(), 5));
    assert!(timed_out(&created, &Timestamp::new(6, 900_000_000).unwrap(), 5));
    assert!(!timed_out(&at(10), &at(0), 0));
    assert!(Timestamp::new(0, 1_000_000_000).is_none());
    assert_eq!(at(1_700_000_000).text(), "2023-11-14 22:13:20");
}

#[test]
fn command_log_records_output_until_exit() {
    let mut c = CommandTable::new();
    c.start("c1".to_string(), "sb".to_string());
    assert!(!c.record_output("c1", CommandOutput::Stdout(b"hi".to_vec())));
    assert!(!c.record_output("unknown", CommandOutput::Exit(0)));
    assert!(c.record_output("c1", CommandOutput::Exit(3)));
    let rec = c.get("c1").unwrap();
    assert_eq!(rec.status, CommandStatus::Completed(3));
    assert_eq!(rec.output_log, vec![CommandOutput::Stdout(b"hi".to_vec()), CommandOutput::Exit(3)]);
    assert_eq!(c.get("c2").unwrap_err(), RustboxError::CommandNotFound("c2".to_string()));
    let resp = command_response("c1".to_string(), rec);
    assert_eq!(resp.output.len(), 2);
    assert_eq!(resp.output[0].stream, "stdout");
    assert_eq!(resp.output[0].data, Some(b"hi".to_vec()));
    assert_eq!(resp.output[1].stream, "exit");
    assert_eq!(resp.output[1].exit_code, Some(3));
    let writes = console_writes(&resp.output);
    assert_eq!(writes, vec![(Console::Stdout, b"hi".to_vec())]);
}

#[test]
fn snapshot_answers() {
    assert_eq!(snapshot_lookup::<u8>("s", Ok(Some(1))), Ok(1));
    assert_eq!(snapshot_lookup::<u8>("s", Ok(None)), Err(RustboxError::SnapshotNotFound("s".to_string())));
    assert_eq!(
        snapshot_lookup::<u8>("s", Err(StorageError::Database("boom".to_string()))),
        Err(RustboxError::Storage("database error: boom".to_string()))
    );
    assert_eq!(snapshot_deletion("s", Ok(true)), Ok(()));
    assert_eq!(snapshot_deletion("s", Ok(false)), Err(RustboxError::SnapshotNotFound("s".to_string())));
    assert_eq!(reaped_count(&[Ok(true), Ok(false), Err(StorageError::Io("x".to_string())), Ok(true)]), 2);
}

#[test]
fn poll_steps_and_defaults() {
    assert_eq!(poll_step(&CommandStatus::Running), PollStep::Wait);
    assert_eq!(poll_step(&CommandStatus::Completed(2)), PollStep::Exited(2));
    assert_eq!(
        poll_step(&CommandStatus::Failed("oops".to_string())),
        PollStep::Failed("command failed: oops".to_string())
    );
    assert_eq!(poll_step(&CommandStatus::Killed), PollStep::Killed("command was killed".to_string()));
    assert_eq!(default_cpu(), CpuCount::One);
    assert_eq!(default_timeout(), 300);
    assert_eq!(CpuCount::Eight.cpus(), 8);
}

#[test]
fn timed_out_stays_timed_out() {
    let created = at(1000);
    assert!(timed_out(&created, &at(1011), 10));
    for later in [1012, 5000, 1_000_000] {
        assert!(timed_out(&created, &at(later), 10));
    }
}

#[test]
fn failed_create_registers_nothing() {
    let mut t = SandboxTable::new();
    t.enlist("a".to_string(), config(300), at(0), Ok(())).unwrap();
    let err = t.enlist("x".to_string(), config(300), at(0), Err(RustboxError::VmBackend("start failed".to_string())));
    assert_eq!(err, Err(RustboxError::VmBackend("start failed".to_string())));
    assert_eq!(t.len(), 1);
    assert!(t.get("x").is_err());
    t.enlist("b".to_string(), config(60), at(1), Ok(())).unwrap();
    assert_eq!(t.len(), 2);
    let b = t.get("b").unwrap();
    assert_eq!(b.status, SandboxStatus::Running);
    assert_eq!(b.config.timeout_secs, 60);
    assert_eq!(b.started_at, Some(at(1)));
    assert_eq!(b.stopped_at, None);
}

#[test]
fn timeout_sweep_removes_exactly_the_timed_out() {
    let mut t = SandboxTable::new();
    t.insert(Sandbox::started("short".to_string(), config(1), at(0)));
    t.insert(Sandbox::started("long".to_string(), config(300), at(0)));
    t.insert(Sandbox::started("short2".to_string(), config(2), at(0)));
    let ids = t.timed_out_ids(&at(5));
    assert_eq!(ids, vec!["short".to_string(), "short2".to_string()]);
    let outcomes: Vec<Result<(), RustboxError>> = ids.iter().map(|id| t.remove(id).map(|_| ())).collect();
    assert_eq!(stopped_count(&outcomes), 2);
    assert_eq!(t.len(), 1);
    assert_eq!(t.at(0).id, "long");
}

#[test]
fn sweep_steps_stop_exactly_the_timed_out() {
    let mut t = SandboxTable::new();
    t.insert(Sandbox::started("short".to_string(), config(1), at(0)));
    t.insert(Sandbox::started("long".to_string(), config(300), at(0)));
    t.insert(Sandbox::started("short2".to_string(), config(2), at(0)));
    let mut sweep = TimeoutSweep::begin(&t, &at(5));
    let mut seen = Vec::new();
    while let Some(id) = sweep.next_id() {
        seen.push(id);
        sweep.record(&mut t, Ok(())).unwrap();
    }
    assert_eq!(seen, vec!["short".to_string(), "short2".to_string()]);
    assert_eq!(sweep.stopped_count(), 2);
    assert_eq!(t.len(), 1);
    assert_eq!(t.at(0).id, "long");

    let mut t2 = SandboxTable::new();
    t2.insert(Sandbox::started("a".to_string(), config(1), at(0)));
    let mut failing = TimeoutSweep::begin(&t2, &at(9));
    assert_eq!(failing.next_id(), Some("a".to_string()));
    let err = failing.record(&mut t2, Err(RustboxError::VmBackend("busy".to_string())));
    assert_eq!(err, Err(RustboxError::VmBackend("busy".to_string())));
    assert_eq!(failing.next_id(), None);
    assert_eq!(failing.stopped_count(), 0);
    assert_eq!(t2.len(), 1);
}

#[test]
fn pump_logs_output_until_the_exit() {
    let mut table = CommandTable::new();
    let mut pump = OutputPump::begin(&mut table, "c1".to_string(), "s1".to_string());
    assert!(!pump.feed(&mut table, CommandOutput::Stdout(b"hi".to_vec())));
    assert_eq!(table.get("c1").unwrap().status, CommandStatus::Running);
    assert!(pump.feed(&mut table, CommandOutput::Exit(3)));
    assert!(pump.feed(&mut table, CommandOutput::Stderr(b"late".to_vec())));
    let rec = table.get("c1").unwrap();
    assert_eq!(rec.status, CommandStatus::Completed(3));
    assert_eq!(rec.output_log, vec![CommandOutput::Stdout(b"hi".to_vec()), CommandOutput::Exit(3)]);
    assert_eq!(rec.sandbox_id, "s1");
}

#[test]
fn reap_plan_lists_expired_ids() {
    let snap = |id: &str| rustbox::storage::SnapshotMetadata::taken(id.to_string(), "s".to_string(), at(0), None);
    assert_eq!(reap_plan(Ok(vec![snap("x"), snap("y")])), vec!["x".to_string(), "y".to_string()]);
    assert_eq!(reap_plan(Err(StorageError::Database("locked".to_string()))), Vec::<String>::new());
}
