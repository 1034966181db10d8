//! Decisions of the guest agent: how a command is started, what its exit code
//! is reported as, and the messages of failed requests.

use vstd::prelude::*;
use crate::error::prefixed;
use crate::numbers::{decimal_string, decimal_text};
use crate::text::{push_str, texts};

verus! {

/// The program and arguments that run `cmd args`: under `sudo` the program is
/// `sudo` with the command in front of its arguments.
pub open spec fn spec_invocation(cmd: Seq<char>, args: Seq<Seq<char>>, sudo: bool) -> (Seq<char>, Seq<Seq<char>>) {
    if sudo {
        ("sudo"@, seq![cmd] + args)
    } else {
        (cmd, args)
    }
}

/// The program and arguments to spawn for a command.
pub fn exec_invocation(cmd: String, args: Vec<String>, sudo: bool) -> (r: (String, Vec<String>))
    ensures
        (r.0@, texts(r.1@)) == spec_invocation(cmd@, texts(args@), sudo),
{
    if sudo {
        let ghost c = cmd@;
        let ghost a = texts(args@);
        let mut full: Vec<String> = Vec::new();
        full.push(cmd);
        let mut rest = args;
        full.append(&mut rest);
        assert(texts(full@) =~= seq![c] + a);
        ("sudo".to_owned(), full)
    } else {
        (cmd, args)
    }
}

/// The exit code reported for a finished command: the process's own code,
/// or -1 when it has none (killed by a signal), could not be waited for, or
/// was no longer tracked.
pub open spec fn spec_exit_code(waited: Option<Option<i32>>) -> i32 {
    match waited {
        Some(Some(c)) => c,
        _ => -1i32,
    }
}

/// The exit code to report, given what waiting for the process gave (`None`
/// when it could not be waited for).
pub fn exit_code(waited: Option<Option<i32>>) -> (c: i32)
    ensures
        c == spec_exit_code(waited),
{
    match waited {
        Some(Some(c)) => c,
        _ => -1,
    }
}

/// A request the agent could not carry out.
#[derive(Debug, PartialEq, Eq)]
pub enum AgentFailure {
    /// The command could not be started.
    Spawn(String),
    /// A file could not be written.
    WriteFile(String),
    /// A file could not be read.
    ReadFile(String),
    /// A directory could not be created.
    Mkdir(String),
    /// No running command has this id.
    NoSuchCommand(String),
    /// The command's process has already exited.
    AlreadyExited,
    /// The signal number is not a signal.
    InvalidSignal(i32, String),
    /// Sending the signal failed.
    KillFailed(String),
}

/// Decimal text of a signed number.
pub open spec fn signed_text(n: i32) -> Seq<char> {
    if n < 0 { "-"@ + decimal_text((-n) as nat) } else { decimal_text(n as nat) }
}

/// The message sent back for a failed request.
pub open spec fn agent_failure_text(f: AgentFailure) -> Seq<char> {
    match f {
        AgentFailure::Spawn(e) => "failed to spawn command: "@ + e@,
        AgentFailure::WriteFile(e) => "write_file failed: "@ + e@,
        AgentFailure::ReadFile(e) => "read_file failed: "@ + e@,
        AgentFailure::Mkdir(e) => "mkdir failed: "@ + e@,
        AgentFailure::NoSuchCommand(id) => "no such command: "@ + id@,
        AgentFailure::AlreadyExited => "process already exited"@,
        AgentFailure::InvalidSignal(s, e) => "invalid signal "@ + signed_text(s) + ": "@ + e@,
        AgentFailure::KillFailed(e) => "kill failed: "@ + e@,
    }
}

/// Decimal text of a signed number.
fn signed_string(n: i32) -> (s: String)
    ensures
        s@ == signed_text(n),
{
    if n < 0 {
        let m: u64 = (-(n as i64)) as u64;
        prefixed("-", decimal_string(m).as_str())
    } else {
        decimal_string(n as u64)
    }
}

impl AgentFailure {
    /// The message sent back to the host.
    pub fn message(&self) -> (s: String)
        ensures
            s@ == agent_failure_text(*self),
    {
        match self {
            AgentFailure::Spawn(e) => prefixed("failed to spawn command: ", e.as_str()),
            AgentFailure::WriteFile(e) => prefixed("write_file failed: ", e.as_str()),
            AgentFailure::ReadFile(e) => prefixed("read_file failed: ", e.as_str()),
            AgentFailure::Mkdir(e) => prefixed("mkdir failed: ", e.as_str()),
            AgentFailure::NoSuchCommand(id) => prefixed("no such command: ", id.as_str()),
            AgentFailure::AlreadyExited => "process already exited".to_owned(),
            AgentFailure::InvalidSignal(sig, e) => {
                let mut s = prefixed("invalid signal ", signed_string(*sig).as_str());
                push_str(&mut s, ": ");
                push_str(&mut s, e.as_str());
                s
            },
            AgentFailure::KillFailed(e) => prefixed("kill failed: ", e.as_str()),
        }
    }
}

} // verus!
