//! Sandbox and command vocabulary: runtimes, CPU counts, lifecycle states and
//! command output.

use vstd::prelude::*;
use crate::network::NetworkPolicy;
use crate::string_map::StringMap;
use crate::text::str_eq;
use crate::time::Timestamp;

verus! {

/// Lifecycle state of a sandbox.
#[derive(Clone, Copy, Debug, PartialEq, Eq, Structural)]
pub enum SandboxStatus {
    Pending,
    Running,
    Stopping,
    Stopped,
    Failed,
}

/// Language runtime of a sandbox image.
#[derive(Clone, Copy, Debug, PartialEq, Eq, Structural)]
pub enum Runtime {
    Node24,
    Node22,
    Python313,
}

/// Number of virtual CPUs of a sandbox.
#[derive(Clone, Copy, Debug, PartialEq, Eq, Structural)]
pub enum CpuCount {
    One,
    Two,
    Four,
    Eight,
}

/// The number of CPUs a count stands for.
pub open spec fn spec_cpus(c: CpuCount) -> u32 {
    match c {
        CpuCount::One => 1,
        CpuCount::Two => 2,
        CpuCount::Four => 4,
        CpuCount::Eight => 8,
    }
}

impl CpuCount {
    /// The number of CPUs.
    pub fn cpus(&self) -> (n: u32)
        ensures
            n == spec_cpus(*self),
    {
        match self {
            CpuCount::One => 1,
            CpuCount::Two => 2,
            CpuCount::Four => 4,
            CpuCount::Eight => 8,
        }
    }
}

/// CPU count of a sandbox created without one: a single CPU.
pub fn default_cpu() -> (c: CpuCount)
    ensures
        c == CpuCount::One,
{
    CpuCount::One
}

/// Timeout, in seconds, of a sandbox created without one: five minutes.
pub fn default_timeout() -> (t: u64)
    ensures
        t == 300,
{
    300
}

/// The lowercase name of a runtime, as used on the command line and in file names.
pub open spec fn spec_runtime_name(r: Runtime) -> Seq<char> {
    match r {
        Runtime::Node24 => "node24"@,
        Runtime::Node22 => "node22"@,
        Runtime::Python313 => "python313"@,
    }
}

/// The lowercase name of a runtime.
pub fn runtime_name(r: Runtime) -> (s: &'static str)
    ensures
        s@ == spec_runtime_name(r),
{
    match r {
        Runtime::Node24 => "node24",
        Runtime::Node22 => "node22",
        Runtime::Python313 => "python313",
    }
}

/// The lowercase name of a sandbox state.
pub open spec fn spec_status_name(s: SandboxStatus) -> Seq<char> {
    match s {
        SandboxStatus::Pending => "pending"@,
        SandboxStatus::Running => "running"@,
        SandboxStatus::Stopping => "stopping"@,
        SandboxStatus::Stopped => "stopped"@,
        SandboxStatus::Failed => "failed"@,
    }
}

/// The lowercase name of a sandbox state.
pub fn status_name(s: SandboxStatus) -> (r: &'static str)
    ensures
        r@ == spec_status_name(s),
{
    match s {
        SandboxStatus::Pending => "pending",
        SandboxStatus::Running => "running",
        SandboxStatus::Stopping => "stopping",
        SandboxStatus::Stopped => "stopped",
        SandboxStatus::Failed => "failed",
    }
}

/// One piece of output of a running command, or its exit.
#[derive(Debug, PartialEq, Eq)]
pub enum CommandOutput {
    Stdout(Vec<u8>),
    Stderr(Vec<u8>),
    Exit(i32),
}

/// State of a command.
#[derive(Debug, PartialEq, Eq)]
pub enum CommandStatus {
    Running,
    Completed(i32),
    Failed(String),
    Killed,
}

/// One entry of a command's output log as sent over the API: the stream name
/// (`stdout`, `stderr` or `exit`), the bytes of an output chunk, or the exit code.
#[derive(Debug, PartialEq, Eq)]
pub struct CommandOutputEntry {
    pub stream: String,
    pub data: Option<Vec<u8>>,
    pub exit_code: Option<i32>,
}

/// The API entry for a piece of command output.
pub open spec fn spec_output_entry(o: CommandOutput) -> (Seq<char>, Option<Seq<u8>>, Option<i32>) {
    match o {
        CommandOutput::Stdout(d) => ("stdout"@, Some(d@), None),
        CommandOutput::Stderr(d) => ("stderr"@, Some(d@), None),
        CommandOutput::Exit(c) => ("exit"@, None, Some(c)),
    }
}

/// The plain contents of an API output entry.
pub open spec fn entry_view(e: CommandOutputEntry) -> (Seq<char>, Option<Seq<u8>>, Option<i32>) {
    (e.stream@, match e.data { Some(d) => Some(d@), None => None }, e.exit_code)
}

/// Turns a piece of command output into its API entry.
pub fn output_entry(o: &CommandOutput) -> (e: CommandOutputEntry)
    ensures
        entry_view(e) == spec_output_entry(*o),
        *o matches CommandOutput::Stdout(d) ==> (e.stream@ == "stdout"@ && (e.data matches Some(x) && x@ == d@)),
        *o matches CommandOutput::Stderr(d) ==> (e.stream@ == "stderr"@ && (e.data matches Some(x) && x@ == d@)),
        *o matches CommandOutput::Exit(c) ==> e.stream@ == "exit"@ && e.data is None && e.exit_code == Some(c),
{
    match o {
        CommandOutput::Stdout(d) => CommandOutputEntry { stream: "stdout".to_owned(), data: Some(d.clone()), exit_code: None },
        CommandOutput::Stderr(d) => CommandOutputEntry { stream: "stderr".to_owned(), data: Some(d.clone()), exit_code: None },
        CommandOutput::Exit(c) => CommandOutputEntry { stream: "exit".to_owned(), data: None, exit_code: Some(*c) },
    }
}

/// Where a piece of output is shown.
#[derive(Clone, Copy, Debug, PartialEq, Eq, Structural)]
pub enum Console {
    Stdout,
    Stderr,
}

/// What is shown of an output log, in order: the data of each `stdout` and
/// `stderr` entry that has data, on that console; other entries show nothing.
pub open spec fn spec_console_writes(entries: Seq<CommandOutputEntry>) -> Seq<(Console, Seq<u8>)>
    decreases entries.len(),
{
    if entries.len() == 0 {
        Seq::empty()
    } else {
        let prev = spec_console_writes(entries.drop_last());
        let e = entries.last();
        match e.data {
            Some(d) => if e.stream@ == "stdout"@ {
                prev.push((Console::Stdout, d@))
            } else if e.stream@ == "stderr"@ {
                prev.push((Console::Stderr, d@))
            } else {
                prev
            },
            None => prev,
        }
    }
}

/// The writes that show an output log.
pub fn console_writes(entries: &[CommandOutputEntry]) -> (w: Vec<(Console, Vec<u8>)>)
    ensures
        w@.map_values(|p: (Console, Vec<u8>)| (p.0, p.1@)) == spec_console_writes(entries@),
{
    let mut w: Vec<(Console, Vec<u8>)> = Vec::new();
    let mut i: usize = 0;
    while i < entries.len()
        invariant
            i <= entries@.len(),
            w@.map_values(|p: (Console, Vec<u8>)| (p.0, p.1@)) == spec_console_writes(entries@.take(i as int)),
        decreases entries@.len() - i,
    {
        let e = &entries[i];
        proof {
            assert(entries@.take(i + 1).drop_last() =~= entries@.take(i as int));
            assert(entries@.take(i + 1).last() == entries@[i as int]);
        }
        let ghost before = w@;
        match &e.data {
            Some(d) => {
                if str_eq(e.stream.as_str(), "stdout") {
                    w.push((Console::Stdout, d.clone()));
                    assert(w@.map_values(|p: (Console, Vec<u8>)| (p.0, p.1@)) =~= before.map_values(|p: (Console, Vec<u8>)| (p.0, p.1@)).push((Console::Stdout, d@)));
                } else if str_eq(e.stream.as_str(), "stderr") {
                    w.push((Console::Stderr, d.clone()));
                    assert(w@.map_values(|p: (Console, Vec<u8>)| (p.0, p.1@)) =~= before.map_values(|p: (Console, Vec<u8>)| (p.0, p.1@)).push((Console::Stderr, d@)));
                }
            },
            None => {},
        }
        i = i + 1;
    }
    assert(entries@.take(entries@.len() as int) =~= entries@);
    w
}

/// What a client polling a command does next.
#[derive(Debug, PartialEq, Eq)]
pub enum PollStep {
    /// Still running: poll again.
    Wait,
    /// Finished with this exit code.
    Exited(i32),
    /// Failed; the message says why.
    Failed(String),
    /// Killed; the message says so.
    Killed(String),
}

/// The next step for a command in state `s`: wait while it runs; otherwise
/// stop, with its exit code or with `command failed: ...` or
/// `command was killed`.
pub fn poll_step(s: &CommandStatus) -> (p: PollStep)
    ensures
        match *s {
            CommandStatus::Running => p == PollStep::Wait,
            CommandStatus::Completed(c) => p == PollStep::Exited(c),
            CommandStatus::Failed(m) => p matches PollStep::Failed(x) && x@ == "command failed: "@ + m@,
            CommandStatus::Killed => p matches PollStep::Killed(x) && x@ == "command was killed"@,
        },
{
    match s {
        CommandStatus::Running => PollStep::Wait,
        CommandStatus::Completed(c) => PollStep::Exited(*c),
        CommandStatus::Failed(m) => PollStep::Failed(crate::error::prefixed("command failed: ", m.as_str())),
        CommandStatus::Killed => PollStep::Killed("command was killed".to_owned()),
    }
}

/// Where a sandbox's files come from.
#[derive(Debug)]
pub enum SandboxSource {
    Git { url: String, username: Option<String>, password: Option<String>, depth: Option<u32>, revision: Option<String> },
    Tarball { url: String },
    Snapshot(String),
}

/// How a sandbox is set up.
#[derive(Debug)]
pub struct SandboxConfig {
    pub runtime: Runtime,
    pub cpu_count: CpuCount,
    /// Time the sandbox may live, in seconds.
    pub timeout_secs: u64,
    pub env: StringMap,
    pub ports: Vec<u16>,
    pub network_policy: NetworkPolicy,
    pub source: Option<SandboxSource>,
}

/// A sandbox known to the daemon.
#[derive(Debug)]
pub struct Sandbox {
    pub id: String,
    pub config: SandboxConfig,
    pub status: SandboxStatus,
    pub created_at: Timestamp,
    pub started_at: Option<Timestamp>,
    pub stopped_at: Option<Timestamp>,
}

impl Sandbox {
    /// A sandbox that was just started at `now`: running, created and
    /// started at `now`, not stopped.
    pub fn started(id: String, config: SandboxConfig, now: Timestamp) -> (s: Sandbox)
        ensures
            s.id == id,
            s.config == config,
            s.status == SandboxStatus::Running,
            s.created_at == now,
            s.started_at == Some(now),
            s.stopped_at is None,
    {
        Sandbox { id, config, status: SandboxStatus::Running, created_at: now, started_at: Some(now), stopped_at: None }
    }
}

} // verus!
