//! Messages of the daemon's HTTP API and of the guest agent protocol.

use vstd::prelude::*;
use crate::registry::CommandRecord;
use crate::sandbox::{output_entry, spec_output_entry, entry_view, CommandOutput, CommandOutputEntry, CommandStatus};
use crate::string_map::StringMap;

verus! {

/// A command to run in a sandbox.
#[derive(Debug)]
pub struct CommandRequest {
    pub cmd: String,
    pub args: Vec<String>,
    pub cwd: Option<String>,
    pub env: Option<StringMap>,
    pub sudo: bool,
    pub detached: bool,
}

/// Body of a request to run a command.
#[derive(Debug)]
pub struct ExecRequest {
    pub cmd: String,
    pub args: Vec<String>,
    pub cwd: Option<String>,
    pub env: Option<StringMap>,
    pub sudo: bool,
    pub detached: bool,
}

impl ExecRequest {
    /// The command the request asks for, field by field.
    pub fn into_command(self) -> (c: CommandRequest)
        ensures
            c.cmd == self.cmd,
            c.args == self.args,
            c.cwd == self.cwd,
            c.env == self.env,
            c.sudo == self.sudo,
            c.detached == self.detached,
    {
        CommandRequest {
            cmd: self.cmd,
            args: self.args,
            cwd: self.cwd,
            env: self.env,
            sudo: self.sudo,
            detached: self.detached,
        }
    }
}

/// Answer to a request to run a command.
#[derive(Debug, PartialEq, Eq)]
pub struct ExecResponse {
    pub command_id: String,
}

/// A command's state and output as the API reports it.
#[derive(Debug)]
pub struct CommandResponse {
    pub command_id: String,
    pub status: CommandStatus,
    pub output: Vec<CommandOutputEntry>,
}

/// The API entries of an output log, in order.
pub open spec fn log_entries(log: Seq<CommandOutput>) -> Seq<(Seq<char>, Option<Seq<u8>>, Option<i32>)> {
    log.map_values(|o: CommandOutput| spec_output_entry(o))
}

/// The plain contents of a list of API entries.
pub open spec fn entries_view(v: Seq<CommandOutputEntry>) -> Seq<(Seq<char>, Option<Seq<u8>>, Option<i32>)> {
    v.map_values(|e: CommandOutputEntry| entry_view(e))
}

/// A copy of a command state.
fn copy_status(s: &CommandStatus) -> (r: CommandStatus)
    ensures
        r == *s,
{
    match s {
        CommandStatus::Running => CommandStatus::Running,
        CommandStatus::Completed(c) => CommandStatus::Completed(*c),
        CommandStatus::Failed(m) => CommandStatus::Failed(m.clone()),
        CommandStatus::Killed => CommandStatus::Killed,
    }
}

/// The API report of command `command_id`: its state and its output log,
/// each piece as an entry.
pub fn command_response(command_id: String, record: &CommandRecord) -> (r: CommandResponse)
    ensures
        r.command_id == command_id,
        r.status == record.status,
        entries_view(r.output@) == log_entries(record.output_log@),
{
    let mut out: Vec<CommandOutputEntry> = Vec::new();
    let mut i: usize = 0;
    while i < record.output_log.len()
        invariant
            i <= record.output_log@.len(),
            entries_view(out@) == log_entries(record.output_log@.take(i as int)),
        decreases record.output_log@.len() - i,
    {
        let e = output_entry(&record.output_log[i]);
        let ghost before = out@;
        out.push(e);
        proof {
            assert(entries_view(out@) =~= entries_view(before).push(entry_view(e)));
            assert(log_entries(record.output_log@.take(i + 1))
                =~= log_entries(record.output_log@.take(i as int)).push(spec_output_entry(record.output_log@[i as int])));
        }
        i = i + 1;
    }
    assert(record.output_log@.take(record.output_log@.len() as int) =~= record.output_log@);
    CommandResponse { command_id, status: copy_status(&record.status), output: out }
}

/// A command as the API client receives it.
#[derive(Debug)]
pub struct CommandInfo {
    pub command_id: String,
    pub status: CommandStatus,
    pub output: Vec<CommandOutputEntry>,
}

/// Body of a request to write a file in a sandbox.
#[derive(Debug, PartialEq, Eq)]
pub struct WriteFileRequest {
    pub path: String,
    pub content: Vec<u8>,
}

/// Answer to a request to read a file in a sandbox.
#[derive(Debug, PartialEq, Eq)]
pub struct ReadFileResponse {
    pub path: String,
    pub content: Vec<u8>,
}

/// Body of a request to create a directory in a sandbox.
#[derive(Debug, PartialEq, Eq)]
pub struct MkdirRequest {
    pub path: String,
}

/// Body of a request to snapshot a sandbox.
#[derive(Debug, PartialEq, Eq)]
pub struct CreateSnapshotRequest {
    pub sandbox_id: String,
    pub description: Option<String>,
}

/// Body of a request to change a sandbox's timeout.
#[derive(Debug, PartialEq, Eq)]
pub struct UpdateTimeoutRequest {
    pub timeout_secs: u64,
}

/// One event of a command's live log.
#[derive(Debug, PartialEq, Eq)]
pub enum StreamEvent {
    Stdout(Vec<u8>),
    Stderr(Vec<u8>),
    Exit(i32),
}

/// Which output stream a chunk came from.
#[derive(Clone, Copy, Debug, PartialEq, Eq, Structural)]
pub enum OutputStream {
    Stdout,
    Stderr,
}

/// A request from the host to the guest agent.
#[derive(Debug)]
pub enum AgentRequest {
    Exec { cmd: String, args: Vec<String>, cwd: Option<String>, env: Option<StringMap>, sudo: bool, detached: bool },
    Kill { command_id: String, signal: i32 },
    WriteFile { path: String, content: Vec<u8> },
    ReadFile { path: String },
    Mkdir { path: String },
    Metrics,
    Ping,
}

} // verus!
