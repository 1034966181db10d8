//! Values given on the command line: runtimes, environment variables and
//! copy endpoints, and what a `copy` between two endpoints does.

use vstd::prelude::*;
use crate::error::prefixed;
use crate::numbers::{decimal_string, decimal_text};
use crate::sandbox::{runtime_name, spec_runtime_name, spec_status_name, status_name, Runtime, SandboxStatus};
use crate::table::{format_table, row_texts, spec_format_table};
use crate::time::{spec_utc_text, Timestamp, TimestampView};
use crate::string_map::{map_insert, StringMap};
use crate::text::{opt_text, push_str, split_once, split_once_str, str_eq, str_texts, texts};

verus! {

/// Errors in values given on the command line.
#[derive(Debug, PartialEq, Eq)]
pub enum CliError {
    /// A runtime name that is not one of the supported runtimes.
    UnknownRuntime(String),
    /// An environment entry without `=`.
    InvalidEnv(String),
    /// A copy endpoint without `:`.
    InvalidCopyPath(String),
    /// A copy whose two endpoints are both on the host.
    BothHost,
    /// A copy between two sandboxes.
    SandboxToSandbox,
}

/// The message of a command-line error.
pub open spec fn cli_error_text(e: CliError) -> Seq<char> {
    match e {
        CliError::UnknownRuntime(s) => "unknown runtime '"@ + s@ + "'. Valid options: node24, node22, python313"@,
        CliError::InvalidEnv(s) => "invalid env format '"@ + s@ + "', expected KEY=VALUE"@,
        CliError::InvalidCopyPath(s) => "invalid copy path '"@ + s@ + "', expected ID:PATH or host:PATH"@,
        CliError::BothHost => "both source and destination are host paths"@,
        CliError::SandboxToSandbox => "sandbox-to-sandbox copy not supported; copy through host instead"@,
    }
}

/// `a`, then `b`, then `c`, as a new string.
fn between(a: &str, b: &str, c: &str) -> (s: String)
    ensures
        s@ == a@ + b@ + c@,
{
    let mut s = prefixed(a, b);
    push_str(&mut s, c);
    s
}

impl CliError {
    /// The human-readable message.
    pub fn message(&self) -> (s: String)
        ensures
            s@ == cli_error_text(*self),
    {
        match self {
            CliError::UnknownRuntime(s) =>
                between("unknown runtime '", s.as_str(), "'. Valid options: node24, node22, python313"),
            CliError::InvalidEnv(s) => between("invalid env format '", s.as_str(), "', expected KEY=VALUE"),
            CliError::InvalidCopyPath(s) =>
                between("invalid copy path '", s.as_str(), "', expected ID:PATH or host:PATH"),
            CliError::BothHost => "both source and destination are host paths".to_owned(),
            CliError::SandboxToSandbox =>
                "sandbox-to-sandbox copy not supported; copy through host instead".to_owned(),
        }
    }
}

/// The runtime a name stands for, if any.
pub open spec fn spec_runtime_named(s: Seq<char>) -> Option<Runtime> {
    if s == "node24"@ {
        Some(Runtime::Node24)
    } else if s == "node22"@ {
        Some(Runtime::Node22)
    } else if s == "python313"@ {
        Some(Runtime::Python313)
    } else {
        None
    }
}

/// Reads a runtime name: `node24`, `node22` or `python313`.
pub fn parse_runtime(s: &str) -> (r: Result<Runtime, CliError>)
    ensures
        match spec_runtime_named(s@) {
            Some(rt) => r == Ok::<Runtime, CliError>(rt),
            None => r matches Err(CliError::UnknownRuntime(m)) && m@ == s@,
        },
{
    if str_eq(s, "node24") {
        Ok(Runtime::Node24)
    } else if str_eq(s, "node22") {
        Ok(Runtime::Node22)
    } else if str_eq(s, "python313") {
        Ok(Runtime::Python313)
    } else {
        Err(CliError::UnknownRuntime(s.to_owned()))
    }
}

/// The variables set by `KEY=VALUE` entries taken in order (a later entry
/// for the same key replaces the value), or `None` when an entry has no `=`.
pub open spec fn spec_env_vars(entries: Seq<Seq<char>>) -> Option<Seq<(Seq<char>, Seq<char>)>>
    decreases entries.len(),
{
    if entries.len() == 0 {
        Some(Seq::empty())
    } else {
        match (spec_env_vars(entries.drop_last()), split_once(entries.last(), '=')) {
            (Some(m), Some((k, v))) => Some(map_insert(m, k, v)),
            _ => None,
        }
    }
}

/// Entry `i` is the first entry without `=`.
pub open spec fn first_without_eq(entries: Seq<Seq<char>>, i: int) -> bool {
    &&& 0 <= i < entries.len()
    &&& split_once(entries[i], '=') is None
    &&& forall|j: int| 0 <= j < i ==> split_once(#[trigger] entries[j], '=') is Some
}

/// Reads `KEY=VALUE` entries into a map; each entry is split at its first
/// `=`, so the value may hold further `=`. The first entry without `=` is
/// refused.
pub fn parse_env_vars(env: &[String]) -> (r: Result<StringMap, CliError>)
    ensures
        match spec_env_vars(texts(env@)) {
            Some(m) => r matches Ok(x) && x@ == m,
            None => r matches Err(CliError::InvalidEnv(e)) && exists|i: int|
                first_without_eq(texts(env@), i) && e@ == texts(env@)[i],
        },
{
    let ghost all = texts(env@);
    let mut map = StringMap::new();
    let mut i: usize = 0;
    while i < env.len()
        invariant
            i <= env@.len(),
            all == texts(env@),
            spec_env_vars(all.subrange(0, i as int)) == Some(map@),
            forall|j: int| 0 <= j < i ==> split_once(#[trigger] all[j], '=') is Some,
        decreases env@.len() - i,
    {
        proof {
            assert(all.subrange(0, i + 1).drop_last() =~= all.subrange(0, i as int));
            assert(all.subrange(0, i + 1).last() == env@[i as int]@);
        }
        match split_once_str(env[i].as_str(), '=') {
            Some((k, v)) => {
                map.insert(k, v);
            },
            None => {
                proof {
                    assert(first_without_eq(all, i as int));
                    lemma_env_vars_none_after(all, i as int);
                }
                return Err(CliError::InvalidEnv(env[i].clone()));
            },
        }
        i = i + 1;
    }
    assert(all.subrange(0, env@.len() as int) =~= all);
    Ok(map)
}

/// Once an entry without `=` is met, reading the entries fails.
proof fn lemma_env_vars_none_after(entries: Seq<Seq<char>>, i: int)
    requires
        0 <= i < entries.len(),
        split_once(entries[i], '=') is None,
    ensures
        spec_env_vars(entries) is None,
    decreases entries.len(),
{
    if i < entries.len() - 1 {
        lemma_env_vars_none_after(entries.drop_last(), i);
    }
}

/// The parts of a copy endpoint `ID:PATH`: whether `ID` is `host`, `ID` and
/// `PATH`, split at the first `:`.
pub open spec fn spec_copy_path(s: Seq<char>) -> Option<(bool, Seq<char>, Seq<char>)> {
    match split_once(s, ':') {
        Some((id, path)) => Some((id == "host"@, id, path)),
        None => None,
    }
}

/// Parses a copy endpoint like `sandbox_id:/remote/path` or
/// `host:/local/path` into (is it the host, id or `host`, path).
pub fn parse_copy_path(s: &str) -> (r: Result<(bool, String, String), CliError>)
    ensures
        match spec_copy_path(s@) {
            Some((h, id, p)) => r matches Ok((x, y, z)) && x == h && y@ == id && z@ == p,
            None => r matches Err(CliError::InvalidCopyPath(m)) && m@ == s@,
        },
{
    match split_once_str(s, ':') {
        Some((id, path)) => {
            let is_host = str_eq(id.as_str(), "host");
            Ok((is_host, id, path))
        },
        None => Err(CliError::InvalidCopyPath(s.to_owned())),
    }
}

/// What a `copy` between two endpoints does.
#[derive(Debug, PartialEq, Eq)]
pub enum CopyPlan {
    /// Read the host file `local` and write it to `remote` in sandbox `sandbox_id`.
    Upload { local: String, sandbox_id: String, remote: String },
    /// Read `remote` from sandbox `sandbox_id` and write it to the host file `local`.
    Download { sandbox_id: String, remote: String, local: String },
}

/// The plain contents of a copy plan: direction, sandbox, remote and local path.
pub open spec fn spec_copy_plan(src: Seq<char>, dst: Seq<char>) -> Result<(bool, Seq<char>, Seq<char>, Seq<char>), CliError> {
    match (spec_copy_path(src), spec_copy_path(dst)) {
        (Some((sh, sid, sp)), Some((dh, did, dp))) =>
            if sh && !dh {
                Ok((true, did, dp, sp))
            } else if !sh && dh {
                Ok((false, sid, sp, dp))
            } else if sh && dh {
                Err(CliError::BothHost)
            } else {
                Err(CliError::SandboxToSandbox)
            },
        _ => Err(CliError::BothHost),
    }
}

/// Decides a copy from `src` to `dst`: host to sandbox uploads, sandbox to
/// host downloads; two host endpoints or two sandbox endpoints are refused.
/// A malformed source is reported before a malformed destination.
pub fn copy_plan(src: &str, dst: &str) -> (r: Result<CopyPlan, CliError>)
    ensures
        spec_copy_path(src@) is None ==> (r matches Err(CliError::InvalidCopyPath(m)) && m@ == src@),
        spec_copy_path(src@) is Some && spec_copy_path(dst@) is None ==>
            (r matches Err(CliError::InvalidCopyPath(m)) && m@ == dst@),
        spec_copy_path(src@) is Some && spec_copy_path(dst@) is Some ==> match spec_copy_plan(src@, dst@) {
            Ok((up, sid, remote, local)) => if up {
                r matches Ok(CopyPlan::Upload { local: l, sandbox_id: s, remote: m })
                    && l@ == local && s@ == sid && m@ == remote
            } else {
                r matches Ok(CopyPlan::Download { sandbox_id: s, remote: m, local: l })
                    && l@ == local && s@ == sid && m@ == remote
            },
            Err(e) => r == Err::<CopyPlan, CliError>(e),
        },
{
    let (src_is_host, src_id, src_path) = match parse_copy_path(src) {
        Ok(x) => x,
        Err(e) => return Err(e),
    };
    let (dst_is_host, dst_id, dst_path) = match parse_copy_path(dst) {
        Ok(x) => x,
        Err(e) => return Err(e),
    };
    if src_is_host && !dst_is_host {
        Ok(CopyPlan::Upload { local: src_path, sandbox_id: dst_id, remote: dst_path })
    } else if !src_is_host && dst_is_host {
        Ok(CopyPlan::Download { sandbox_id: src_id, remote: src_path, local: dst_path })
    } else if src_is_host && dst_is_host {
        Err(CliError::BothHost)
    } else {
        Err(CliError::SandboxToSandbox)
    }
}

/// A sandbox as the daemon lists it.
pub struct SandboxRow {
    pub id: String,
    pub status: SandboxStatus,
    pub runtime: Runtime,
    pub created_at: Timestamp,
}

/// A snapshot as the daemon lists it.
pub struct SnapshotRow {
    pub id: String,
    pub sandbox_id: String,
    pub created_at: Timestamp,
    pub size_bytes: u64,
    pub description: Option<String>,
}

/// The displayed text of an instant.
pub open spec fn time_text(t: TimestampView) -> Seq<char> {
    match spec_utc_text(t.secs, t.nanos) {
        Some(s) => s,
        None => Seq::empty(),
    }
}

/// The cells of a sandbox line: id, state, runtime and creation time.
pub open spec fn sandbox_cells(r: SandboxRow) -> Seq<Seq<char>> {
    seq![r.id@, spec_status_name(r.status), spec_runtime_name(r.runtime), time_text(r.created_at@)]
}

/// The cells of a snapshot line: id, sandbox, creation time, size in bytes
/// followed by ` B`, and the description (empty when there is none).
pub open spec fn snapshot_cells(r: SnapshotRow) -> Seq<Seq<char>> {
    seq![
        r.id@,
        r.sandbox_id@,
        time_text(r.created_at@),
        decimal_text(r.size_bytes as nat) + " B"@,
        match opt_text(r.description) { Some(d) => d, None => Seq::empty() },
    ]
}

/// The four header words of a sandbox listing.
pub open spec fn sandbox_headers() -> Seq<Seq<char>> {
    seq!["ID"@, "STATUS"@, "RUNTIME"@, "CREATED"@]
}

/// The five header words of a snapshot listing.
pub open spec fn snapshot_headers() -> Seq<Seq<char>> {
    seq!["ID"@, "SANDBOX"@, "CREATED"@, "SIZE"@, "DESCRIPTION"@]
}

/// Formats sandboxes as a table with columns ID, STATUS, RUNTIME, CREATED.
pub fn format_sandbox_table(sandboxes: &[SandboxRow]) -> (r: String)
    ensures
        r@ == spec_format_table(sandbox_headers(), sandboxes@.map_values(|s: SandboxRow| sandbox_cells(s))),
{
    let mut h: Vec<&'static str> = Vec::new();
    h.push("ID");
    h.push("STATUS");
    h.push("RUNTIME");
    h.push("CREATED");
    assert(str_texts(h@) =~= sandbox_headers());
    let mut rows: Vec<Vec<String>> = Vec::new();
    let mut i: usize = 0;
    while i < sandboxes.len()
        invariant
            i <= sandboxes@.len(),
            row_texts(rows@) == sandboxes@.take(i as int).map_values(|s: SandboxRow| sandbox_cells(s)),
        decreases sandboxes@.len() - i,
    {
        let s = &sandboxes[i];
        let mut cells: Vec<String> = Vec::new();
        cells.push(s.id.clone());
        cells.push(status_name(s.status).to_owned());
        cells.push(runtime_name(s.runtime).to_owned());
        cells.push(s.created_at.text());
        assert(texts(cells@) =~= sandbox_cells(*s));
        let ghost before = rows@;
        rows.push(cells);
        proof {
            assert(row_texts(rows@) =~= row_texts(before).push(sandbox_cells(*s)));
            assert(sandboxes@.take(i + 1).map_values(|s: SandboxRow| sandbox_cells(s))
                =~= sandboxes@.take(i as int).map_values(|s: SandboxRow| sandbox_cells(s)).push(sandbox_cells(sandboxes@[i as int])));
        }
        i = i + 1;
    }
    assert(sandboxes@.take(sandboxes@.len() as int) =~= sandboxes@);
    format_table(h.as_slice(), rows.as_slice())
}

/// Formats snapshots as a table with columns ID, SANDBOX, CREATED, SIZE, DESCRIPTION.
pub fn format_snapshot_table(snapshots: &[SnapshotRow]) -> (r: String)
    ensures
        r@ == spec_format_table(snapshot_headers(), snapshots@.map_values(|s: SnapshotRow| snapshot_cells(s))),
{
    let mut h: Vec<&'static str> = Vec::new();
    h.push("ID");
    h.push("SANDBOX");
    h.push("CREATED");
    h.push("SIZE");
    h.push("DESCRIPTION");
    assert(str_texts(h@) =~= snapshot_headers());
    let mut rows: Vec<Vec<String>> = Vec::new();
    let mut i: usize = 0;
    while i < snapshots.len()
        invariant
            i <= snapshots@.len(),
            row_texts(rows@) == snapshots@.take(i as int).map_values(|s: SnapshotRow| snapshot_cells(s)),
        decreases snapshots@.len() - i,
    {
        let s = &snapshots[i];
        let mut cells: Vec<String> = Vec::new();
        cells.push(s.id.clone());
        cells.push(s.sandbox_id.clone());
        cells.push(s.created_at.text());
        let mut size = decimal_string(s.size_bytes);
        push_str(&mut size, " B");
        cells.push(size);
        let desc = match &s.description {
            Some(d) => d.clone(),
            None => String::new(),
        };
        cells.push(desc);
        assert(texts(cells@) =~= snapshot_cells(*s));
        let ghost before = rows@;
        rows.push(cells);
        proof {
            assert(row_texts(rows@) =~= row_texts(before).push(snapshot_cells(*s)));
            assert(snapshots@.take(i + 1).map_values(|s: SnapshotRow| snapshot_cells(s))
                =~= snapshots@.take(i as int).map_values(|s: SnapshotRow| snapshot_cells(s)).push(snapshot_cells(snapshots@[i as int])));
        }
        i = i + 1;
    }
    assert(snapshots@.take(snapshots@.len() as int) =~= snapshots@);
    format_table(h.as_slice(), rows.as_slice())
}

} // verus!
