//! The daemon's books: the sandboxes it runs and the commands started in
//! them, each kept under its id.

use vstd::prelude::*;
use crate::error::{storage_error_text, RustboxError, StorageError};
use crate::storage::SnapshotMetadata;
use crate::network::NetworkPolicy;
use crate::sandbox::{CommandOutput, CommandStatus, Sandbox, SandboxConfig, SandboxStatus};
use crate::text::{str_eq, texts};
use crate::time::{spec_timed_out, timed_out, Timestamp};

verus! {

/// No two sandboxes share an id.
pub open spec fn sandbox_ids_distinct(s: Seq<Sandbox>) -> bool {
    forall|i: int, j: int| 0 <= i < s.len() && 0 <= j < s.len() && i != j ==> s[i].id@ != s[j].id@
}

/// Position of the sandbox with id `id`, if any.
pub open spec fn sandbox_index(s: Seq<Sandbox>, id: Seq<char>) -> Option<int> {
    if exists|i: int| 0 <= i < s.len() && s[i].id@ == id {
        Some(choose|i: int| 0 <= i < s.len() && s[i].id@ == id)
    } else {
        None
    }
}

/// The sandboxes known to the daemon, in the order they were added.
pub struct SandboxTable {
    entries: Vec<Sandbox>,
}

impl View for SandboxTable {
    type V = Seq<Sandbox>;

    closed spec fn view(&self) -> Seq<Sandbox> {
        self.entries@
    }
}

/// The sandboxes after adding `s`: one with the same id is replaced in
/// place; otherwise `s` goes at the end.
pub open spec fn spec_insert(t: Seq<Sandbox>, s: Sandbox) -> Seq<Sandbox> {
    match sandbox_index(t, s.id@) {
        Some(i) => t.update(i, s),
        None => t.push(s),
    }
}

/// The sandbox `Sandbox::started` makes: running, created and started at
/// `now`, not stopped.
pub open spec fn spec_started(id: String, config: SandboxConfig, now: Timestamp) -> Sandbox {
    Sandbox {
        id,
        config,
        status: SandboxStatus::Running,
        created_at: now,
        started_at: Some(now),
        stopped_at: None,
    }
}

/// The sandboxes after removing the one with id `id`, if there is one.
pub open spec fn spec_remove_id(t: Seq<Sandbox>, id: Seq<char>) -> Seq<Sandbox> {
    match sandbox_index(t, id) {
        Some(i) => t.remove(i),
        None => t,
    }
}

/// The sandboxes after removing those with the given ids, one after another.
pub open spec fn spec_remove_all(t: Seq<Sandbox>, ids: Seq<Seq<char>>) -> Seq<Sandbox>
    decreases ids.len(),
{
    if ids.len() == 0 {
        t
    } else {
        spec_remove_all(spec_remove_id(t, ids[0]), ids.drop_first())
    }
}

/// The sandbox at `i` with a new timeout.
pub open spec fn with_timeout(s: Sandbox, secs: u64) -> Sandbox {
    Sandbox { config: SandboxConfig { timeout_secs: secs, ..s.config }, ..s }
}

/// The sandbox at `i` with a new network policy.
pub open spec fn with_policy(s: Sandbox, p: NetworkPolicy) -> Sandbox {
    Sandbox { config: SandboxConfig { network_policy: p, ..s.config }, ..s }
}

/// `SandboxNotFound` for `id`.
pub open spec fn not_found(e: RustboxError, id: Seq<char>) -> bool {
    e matches RustboxError::SandboxNotFound(m) && m@ == id
}

/// The ids of the sandboxes that have run out of time at `now`, in order.
pub open spec fn spec_timed_out_ids(s: Seq<Sandbox>, now: Timestamp) -> Seq<Seq<char>>
    decreases s.len(),
{
    if s.len() == 0 {
        Seq::empty()
    } else {
        let prev = spec_timed_out_ids(s.drop_last(), now);
        let x = s.last();
        if spec_timed_out(x.created_at@, now@, x.config.timeout_secs) { prev.push(x.id@) } else { prev }
    }
}

impl SandboxTable {
    #[verifier::type_invariant]
    spec fn inv(self) -> bool {
        sandbox_ids_distinct(self.entries@)
    }

    /// An empty table.
    pub fn new() -> (t: SandboxTable)
        ensures
            t@ == Seq::<Sandbox>::empty(),
    {
        SandboxTable { entries: Vec::new() }
    }

    /// Number of sandboxes.
    pub fn len(&self) -> (n: usize)
        ensures
            n == self@.len(),
    {
        self.entries.len()
    }

    /// The `i`-th sandbox, in the order they were added.
    pub fn at(&self, i: usize) -> (s: &Sandbox)
        requires
            i < self@.len(),
        ensures
            *s == self@[i as int],
    {
        &self.entries[i]
    }

    /// Position of the sandbox with id `id`.
    pub fn position(&self, id: &str) -> (r: Option<usize>)
        ensures
            match sandbox_index(self@, id@) {
                Some(i) => r matches Some(j) && j == i && 0 <= i < self@.len() && self@[i].id@ == id@,
                None => r is None,
            },
    {
        proof { use_type_invariant(self); }
        let mut i: usize = 0;
        while i < self.entries.len()
            invariant
                i <= self@.len(),
                self@ == self.entries@,
                sandbox_ids_distinct(self@),
                forall|j: int| 0 <= j < i ==> self@[j].id@ != id@,
            decreases self@.len() - i,
        {
            if str_eq(self.entries[i].id.as_str(), id) {
                proof {
                    let k = choose|k: int| 0 <= k < self@.len() && self@[k].id@ == id@;
                    assert(k == i);
                }
                return Some(i);
            }
            i = i + 1;
        }
        None
    }

    /// Adds a sandbox; one with the same id is replaced in place.
    pub fn insert(&mut self, s: Sandbox)
        ensures
            final(self)@ == spec_insert(old(self)@, s),
    {
        proof { use_type_invariant(&*self); }
        let ghost before = self@;
        let ghost sid = s.id@;
        let pos = self.position(s.id.as_str());
        let mut entries: Vec<Sandbox> = Vec::new();
        std::mem::swap(&mut entries, &mut self.entries);
        match pos {
            Some(i) => {
                entries.set(i, s);
                assert(sandbox_ids_distinct(entries@));
            },
            None => {
                entries.push(s);
                assert(sandbox_ids_distinct(entries@));
            },
        }
        self.entries = entries;
    }

    /// Enlists sandbox `id` once the backend has created and started it
    /// (`backend` is the outcome of those two steps, the first failure if
    /// any): a sandbox that came up is registered as just started at `now`;
    /// a failure registers nothing and is handed back.
    pub fn enlist(&mut self, id: String, config: SandboxConfig, now: Timestamp, backend: Result<(), RustboxError>)
        -> (r: Result<(), RustboxError>)
        ensures
            match backend {
                Ok(()) => r is Ok && final(self)@ == spec_insert(old(self)@, spec_started(id, config, now)),
                Err(e) => r == Err::<(), RustboxError>(e) && final(self)@ == old(self)@,
            },
    {
        match backend {
            Ok(()) => {
                let s = Sandbox::started(id, config, now);
                self.insert(s);
                Ok(())
            },
            Err(e) => Err(e),
        }
    }

    /// The sandbox with id `id`, or `SandboxNotFound`.
    pub fn get(&self, id: &str) -> (r: Result<&Sandbox, RustboxError>)
        ensures
            match sandbox_index(self@, id@) {
                Some(i) => r matches Ok(s) && *s == self@[i],
                None => r matches Err(e) && not_found(e, id@),
            },
    {
        match self.position(id) {
            Some(i) => Ok(&self.entries[i]),
            None => Err(RustboxError::SandboxNotFound(id.to_owned())),
        }
    }

    /// Removes the sandbox with id `id`, or reports `SandboxNotFound` and
    /// changes nothing.
    pub fn remove(&mut self, id: &str) -> (r: Result<Sandbox, RustboxError>)
        ensures
            match sandbox_index(old(self)@, id@) {
                Some(i) => r matches Ok(s) && s == old(self)@[i] && final(self)@ == old(self)@.remove(i),
                None => r matches Err(e) && not_found(e, id@) && final(self)@ == old(self)@,
            },
            final(self)@ == spec_remove_id(old(self)@, id@),
    {
        proof { use_type_invariant(&*self); }
        match self.position(id) {
            Some(i) => {
                let ghost before = self@;
                let mut entries: Vec<Sandbox> = Vec::new();
                std::mem::swap(&mut entries, &mut self.entries);
                let s = entries.remove(i);
                proof {
                    assert forall|a: int, b: int| 0 <= a < entries@.len() && 0 <= b < entries@.len() && a != b
                        implies entries@[a].id@ != entries@[b].id@ by {
                        let a2 = if a < i { a } else { a + 1 };
                        let b2 = if b < i { b } else { b + 1 };
                        assert(entries@[a] == before[a2]);
                        assert(entries@[b] == before[b2]);
                    }
                }
                self.entries = entries;
                Ok(s)
            },
            None => Err(RustboxError::SandboxNotFound(id.to_owned())),
        }
    }

    /// Sets the timeout of the sandbox with id `id`.
    pub fn set_timeout(&mut self, id: &str, secs: u64) -> (r: Result<(), RustboxError>)
        ensures
            match sandbox_index(old(self)@, id@) {
                Some(i) => r is Ok && final(self)@ == old(self)@.update(i, with_timeout(old(self)@[i], secs)),
                None => r matches Err(e) && not_found(e, id@) && final(self)@ == old(self)@,
            },
    {
        proof { use_type_invariant(&*self); }
        match self.position(id) {
            Some(i) => {
                let ghost before = self@;
                let mut entries: Vec<Sandbox> = Vec::new();
                std::mem::swap(&mut entries, &mut self.entries);
                let mut s = entries.remove(i);
                s.config.timeout_secs = secs;
                entries.insert(i, s);
                proof {
                    assert(entries@ =~= before.update(i as int, with_timeout(before[i as int], secs)));
                    assert(sandbox_ids_distinct(entries@));
                }
                self.entries = entries;
                Ok(())
            },
            None => Err(RustboxError::SandboxNotFound(id.to_owned())),
        }
    }

    /// Sets the network policy of the sandbox with id `id`.
    pub fn set_network_policy(&mut self, id: &str, policy: NetworkPolicy) -> (r: Result<(), RustboxError>)
        ensures
            match sandbox_index(old(self)@, id@) {
                Some(i) => r is Ok && final(self)@ == old(self)@.update(i, with_policy(old(self)@[i], policy)),
                None => r matches Err(e) && not_found(e, id@) && final(self)@ == old(self)@,
            },
    {
        proof { use_type_invariant(&*self); }
        match self.position(id) {
            Some(i) => {
                let ghost before = self@;
                let mut entries: Vec<Sandbox> = Vec::new();
                std::mem::swap(&mut entries, &mut self.entries);
                let mut s = entries.remove(i);
                s.config.network_policy = policy;
                entries.insert(i, s);
                proof {
                    assert(entries@ =~= before.update(i as int, with_policy(before[i as int], policy)));
                    assert(sandbox_ids_distinct(entries@));
                }
                self.entries = entries;
                Ok(())
            },
            None => Err(RustboxError::SandboxNotFound(id.to_owned())),
        }
    }

    /// Whether a command may be started in sandbox `id`: it must exist
    /// (else `SandboxNotFound`) and be running (else `SandboxNotRunning`).
    pub fn check_exec(&self, id: &str) -> (r: Result<(), RustboxError>)
        ensures
            match sandbox_index(self@, id@) {
                Some(i) => if self@[i].status == SandboxStatus::Running {
                    r is Ok
                } else {
                    r matches Err(RustboxError::SandboxNotRunning(m)) && m@ == id@
                },
                None => r matches Err(e) && not_found(e, id@),
            },
    {
        match self.position(id) {
            Some(i) => {
                if self.entries[i].status == SandboxStatus::Running {
                    Ok(())
                } else {
                    Err(RustboxError::SandboxNotRunning(id.to_owned()))
                }
            },
            None => Err(RustboxError::SandboxNotFound(id.to_owned())),
        }
    }

    /// The ids of the sandboxes that have run out of time at `now`, in the
    /// order they were added.
    pub fn timed_out_ids(&self, now: &Timestamp) -> (r: Vec<String>)
        ensures
            texts(r@) == spec_timed_out_ids(self@, *now),
    {
        let mut out: Vec<String> = Vec::new();
        let mut i: usize = 0;
        while i < self.entries.len()
            invariant
                i <= self@.len(),
                self@ == self.entries@,
                texts(out@) == spec_timed_out_ids(self@.take(i as int), *now),
            decreases self@.len() - i,
        {
            let s = &self.entries[i];
            proof {
                assert(self@.take(i + 1).drop_last() =~= self@.take(i as int));
                assert(self@.take(i + 1).last() == self@[i as int]);
            }
            if timed_out(&s.created_at, now, s.config.timeout_secs) {
                let ghost before = out@;
                out.push(s.id.clone());
                assert(texts(out@) =~= texts(before).push(s.id@));
            }
            i = i + 1;
        }
        assert(self@.take(self@.len() as int) =~= self@);
        out
    }
}

/// Removing by a list of ids, then by one more id, is removing by the
/// longer list.
proof fn lemma_remove_all_push(t: Seq<Sandbox>, ids: Seq<Seq<char>>, x: Seq<char>)
    ensures
        spec_remove_all(t, ids.push(x)) == spec_remove_id(spec_remove_all(t, ids), x),
    decreases ids.len(),
{
    let longer = ids.push(x);
    assert(longer[0] == if ids.len() == 0 { x } else { ids[0] });
    if ids.len() == 0 {
        assert(longer.drop_first() =~= Seq::<Seq<char>>::empty());
        assert(spec_remove_all(spec_remove_id(t, x), longer.drop_first()) == spec_remove_id(t, x));
        assert(spec_remove_all(t, ids) == t);
    } else {
        assert(longer.drop_first() =~= ids.drop_first().push(x));
        lemma_remove_all_push(spec_remove_id(t, ids[0]), ids.drop_first(), x);
    }
}

/// A timeout sweep under way: the ids of the sandboxes found out of time
/// when it began, how many of them it has handled, and how many it stopped.
pub struct TimeoutSweep {
    ids: Vec<String>,
    next: usize,
    stopped: usize,
    start: Ghost<Seq<Sandbox>>,
    now: Ghost<Timestamp>,
    clean: Ghost<bool>,
}

impl TimeoutSweep {
    #[verifier::type_invariant]
    spec fn inv(self) -> bool {
        &&& texts(self.ids@) == spec_timed_out_ids(self.start@, self.now@)
        &&& self.next <= self.ids@.len()
        &&& self.stopped <= self.next
        &&& sandbox_ids_distinct(self.start@)
    }

    /// The ids found out of time when the sweep began, in table order.
    pub closed spec fn ids(self) -> Seq<Seq<char>> {
        texts(self.ids@)
    }

    /// How many of those ids have been handled.
    pub closed spec fn handled(self) -> nat {
        self.next as nat
    }

    /// How many sandboxes the sweep has stopped.
    pub closed spec fn stopped(self) -> nat {
        self.stopped as nat
    }

    /// The table when the sweep began.
    pub closed spec fn start(self) -> Seq<Sandbox> {
        self.start@
    }

    /// The time the sweep judges by.
    pub closed spec fn now(self) -> Timestamp {
        self.now@
    }

    /// Whether every sandbox handled so far was stopped and removed.
    pub closed spec fn clean(self) -> bool {
        self.clean@
    }

    /// While every step has succeeded, the table is the starting table
    /// without the sandboxes handled so far, and each was counted.
    pub open spec fn on_track(self, t: Seq<Sandbox>) -> bool {
        self.clean() ==> (t == spec_remove_all(self.start(), self.ids().take(self.handled() as int))
            && self.stopped() == self.handled())
    }

    /// Begins a sweep of `table` at `now`: the sandboxes out of time then.
    pub fn begin(table: &SandboxTable, now: &Timestamp) -> (w: TimeoutSweep)
        ensures
            w.ids() == spec_timed_out_ids(table@, *now),
            w.start() == table@,
            sandbox_ids_distinct(w.start()),
            w.now() == *now,
            w.handled() == 0,
            w.stopped() == 0,
            w.clean(),
            w.on_track(table@),
    {
        proof { use_type_invariant(table); }
        let ids = table.timed_out_ids(now);
        let w = TimeoutSweep {
            ids,
            next: 0,
            stopped: 0,
            start: Ghost(table@),
            now: Ghost(*now),
            clean: Ghost(true),
        };
        assert(w.ids().take(0) =~= Seq::<Seq<char>>::empty());
        w
    }

    /// The id of the next sandbox to stop, if any is left.
    pub fn next_id(&self) -> (r: Option<String>)
        ensures
            self.handled() < self.ids().len() ==> (r matches Some(x) && x@ == self.ids()[self.handled() as int]),
            self.handled() >= self.ids().len() ==> r is None,
    {
        proof { use_type_invariant(self); }
        if self.next < self.ids.len() {
            Some(self.ids[self.next].clone())
        } else {
            None
        }
    }

    /// The number of sandboxes stopped so far.
    pub fn stopped_count(&self) -> (n: usize)
        ensures
            n == self.stopped(),
    {
        self.stopped
    }

    /// Handles the next sandbox, given how stopping it in the backend went:
    /// a stopped sandbox is removed from `table` and counted (or reported
    /// missing if it is gone already); a failed stop leaves `table` alone and
    /// is handed back.
    pub fn record(&mut self, table: &mut SandboxTable, stop: Result<(), RustboxError>) -> (r: Result<(), RustboxError>)
        requires
            old(self).handled() < old(self).ids().len(),
        ensures
            ({
                let id = old(self).ids()[old(self).handled() as int];
                &&& final(self).ids() == old(self).ids()
                &&& final(self).start() == old(self).start()
                &&& final(self).now() == old(self).now()
                &&& final(self).handled() == old(self).handled() + 1
                &&& match stop {
                    Ok(()) => match sandbox_index(old(table)@, id) {
                        Some(i) => r is Ok && final(table)@ == old(table)@.remove(i)
                            && final(self).stopped() == old(self).stopped() + 1,
                        None => r matches Err(e) && not_found(e, id) && final(table)@ == old(table)@
                            && final(self).stopped() == old(self).stopped(),
                    },
                    Err(e) => r == Err::<(), RustboxError>(e) && final(table)@ == old(table)@
                        && final(self).stopped() == old(self).stopped(),
                }
                &&& final(self).clean() == (old(self).clean() && r is Ok)
                &&& old(self).on_track(old(table)@) ==> final(self).on_track(final(table)@)
            }),
    {
        proof { use_type_invariant(&*self); }
        let n = self.next;
        let st = self.stopped;
        let len = self.ids.len();
        assert(st <= n && n < len);
        let ghost before = table@;
        let ghost old_ids = texts(self.ids@);
        let ghost k = self.next as int;
        let r = match stop {
            Ok(()) => {
                let id = self.ids[self.next].clone();
                match table.remove(id.as_str()) {
                    Ok(_) => Ok(()),
                    Err(e) => Err(e),
                }
            },
            Err(e) => Err(e),
        };
        let done_ok = r.is_ok();
        self.next = n + 1;
        if done_ok {
            self.stopped = st + 1;
        }
        proof {
            self.clean@ = self.clean@ && done_ok;
            if self.clean@ {
                assert(old_ids.take(k + 1) =~= old_ids.take(k).push(old_ids[k]));
                lemma_remove_all_push(self.start@, old_ids.take(k), old_ids[k]);
            }
        }
        r
    }
}

/// A command started in a sandbox: its state and the output it produced so far.
#[derive(Debug)]
pub struct CommandRecord {
    pub id: String,
    pub sandbox_id: String,
    pub status: CommandStatus,
    pub output_log: Vec<CommandOutput>,
}

/// No two commands share an id.
pub open spec fn command_ids_distinct(s: Seq<CommandRecord>) -> bool {
    forall|i: int, j: int| 0 <= i < s.len() && 0 <= j < s.len() && i != j ==> s[i].id@ != s[j].id@
}

/// Position of the command with id `id`, if any.
pub open spec fn command_index(s: Seq<CommandRecord>, id: Seq<char>) -> Option<int> {
    if exists|i: int| 0 <= i < s.len() && s[i].id@ == id {
        Some(choose|i: int| 0 <= i < s.len() && s[i].id@ == id)
    } else {
        None
    }
}

/// The record after one more piece of output: the output is appended to the
/// log, and an exit completes the command with its code.
pub open spec fn after_output(old: CommandRecord, new: CommandRecord, o: CommandOutput) -> bool {
    &&& new.id == old.id
    &&& new.sandbox_id == old.sandbox_id
    &&& new.output_log@ == old.output_log@.push(o)
    &&& new.status == match o {
        CommandOutput::Exit(c) => CommandStatus::Completed(c),
        _ => old.status,
    }
}

/// The output a command's log collects from what its process delivers:
/// everything up to and including the first exit.
pub open spec fn collected(d: Seq<CommandOutput>) -> Seq<CommandOutput>
    decreases d.len(),
{
    if d.len() == 0 {
        Seq::empty()
    } else if d[0] is Exit {
        seq![d[0]]
    } else {
        seq![d[0]] + collected(d.drop_first())
    }
}

/// The state a command reaches on what its process delivers: completed with
/// the code of the first exit, running while there is none.
pub open spec fn stream_status(d: Seq<CommandOutput>) -> CommandStatus
    decreases d.len(),
{
    if d.len() == 0 {
        CommandStatus::Running
    } else {
        match d[0] {
            CommandOutput::Exit(c) => CommandStatus::Completed(c),
            _ => stream_status(d.drop_first()),
        }
    }
}

/// The commands started through the daemon.
pub struct CommandTable {
    entries: Vec<CommandRecord>,
}

impl View for CommandTable {
    type V = Seq<CommandRecord>;

    closed spec fn view(&self) -> Seq<CommandRecord> {
        self.entries@
    }
}

impl CommandTable {
    #[verifier::type_invariant]
    spec fn inv(self) -> bool {
        command_ids_distinct(self.entries@)
    }

    /// An empty table.
    pub fn new() -> (t: CommandTable)
        ensures
            t@ == Seq::<CommandRecord>::empty(),
    {
        CommandTable { entries: Vec::new() }
    }

    /// Position of the command with id `id`.
    pub fn position(&self, id: &str) -> (r: Option<usize>)
        ensures
            match command_index(self@, id@) {
                Some(i) => r matches Some(j) && j == i && 0 <= i < self@.len() && self@[i].id@ == id@,
                None => r is None,
            },
    {
        proof { use_type_invariant(self); }
        let mut i: usize = 0;
        while i < self.entries.len()
            invariant
                i <= self@.len(),
                self@ == self.entries@,
                command_ids_distinct(self@),
                forall|j: int| 0 <= j < i ==> self@[j].id@ != id@,
            decreases self@.len() - i,
        {
            if str_eq(self.entries[i].id.as_str(), id) {
                proof {
                    let k = choose|k: int| 0 <= k < self@.len() && self@[k].id@ == id@;
                    assert(k == i);
                }
                return Some(i);
            }
            i = i + 1;
        }
        None
    }

    /// Records a command just started in sandbox `sandbox_id`: running, with
    /// no output yet. A command with the same id is replaced in place.
    pub fn start(&mut self, id: String, sandbox_id: String)
        ensures
            ({
                let rec = |r: CommandRecord| r.id == id && r.sandbox_id == sandbox_id
                    && r.status == CommandStatus::Running && r.output_log@.len() == 0;
                match command_index(old(self)@, id@) {
                    Some(i) => final(self)@.len() == old(self)@.len() && rec(final(self)@[i])
                        && forall|j: int| 0 <= j < old(self)@.len() && j != i ==> final(self)@[j] == old(self)@[j],
                    None => final(self)@.len() == old(self)@.len() + 1 && rec(final(self)@.last())
                        && forall|j: int| 0 <= j < old(self)@.len() ==> final(self)@[j] == old(self)@[j],
                }
            }),
    {
        proof { use_type_invariant(&*self); }
        let pos = self.position(id.as_str());
        let rec = CommandRecord { id, sandbox_id, status: CommandStatus::Running, output_log: Vec::new() };
        let mut entries: Vec<CommandRecord> = Vec::new();
        std::mem::swap(&mut entries, &mut self.entries);
        match pos {
            Some(i) => {
                entries.set(i, rec);
                assert(command_ids_distinct(entries@));
            },
            None => {
                entries.push(rec);
                assert(command_ids_distinct(entries@));
            },
        }
        self.entries = entries;
    }

    /// The command with id `id`, or `CommandNotFound`.
    pub fn get(&self, id: &str) -> (r: Result<&CommandRecord, RustboxError>)
        ensures
            match command_index(self@, id@) {
                Some(i) => r matches Ok(c) && *c == self@[i],
                None => r matches Err(RustboxError::CommandNotFound(m)) && m@ == id@,
            },
    {
        match self.position(id) {
            Some(i) => Ok(&self.entries[i]),
            None => Err(RustboxError::CommandNotFound(id.to_owned())),
        }
    }

    /// Records one piece of output of command `id`; answers whether that was
    /// its exit, after which no more output is collected. Output for an
    /// unknown command is dropped.
    pub fn record_output(&mut self, id: &str, o: CommandOutput) -> (finished: bool)
        ensures
            match command_index(old(self)@, id@) {
                Some(i) => {
                    &&& final(self)@.len() == old(self)@.len()
                    &&& after_output(old(self)@[i], final(self)@[i], o)
                    &&& forall|j: int| 0 <= j < old(self)@.len() && j != i ==> final(self)@[j] == old(self)@[j]
                    &&& finished == (o is Exit)
                },
                None => final(self)@ == old(self)@ && !finished,
            },
    {
        proof { use_type_invariant(&*self); }
        match self.position(id) {
            Some(i) => {
                let ghost before = self@;
                let mut entries: Vec<CommandRecord> = Vec::new();
                std::mem::swap(&mut entries, &mut self.entries);
                let mut rec = entries.remove(i);
                let finished = match &o {
                    CommandOutput::Exit(c) => {
                        rec.status = CommandStatus::Completed(*c);
                        true
                    },
                    _ => false,
                };
                rec.output_log.push(o);
                entries.insert(i, rec);
                proof {
                    assert(entries@.len() == before.len());
                    assert forall|j: int| 0 <= j < before.len() && j != i implies entries@[j] == before[j] by {}
                    assert(command_ids_distinct(entries@)) by {
                        assert forall|a: int, b: int| 0 <= a < entries@.len() && 0 <= b < entries@.len() && a != b
                            implies entries@[a].id@ != entries@[b].id@ by {
                            assert(entries@[a].id == before[a].id);
                            assert(entries@[b].id == before[b].id);
                        }
                    }
                }
                self.entries = entries;
                finished
            },
            None => false,
        }
    }
}

/// Whether the delivered output holds an exit.
pub open spec fn has_exit(d: Seq<CommandOutput>) -> bool {
    exists|k: int| 0 <= k < d.len() && (#[trigger] d[k]) is Exit
}

/// Without an exit, everything delivered is collected and the command is
/// still running; one more piece of output is collected too and decides the
/// state if it is the exit.
pub(crate) proof fn lemma_stream_without_exit(d: Seq<CommandOutput>, o: CommandOutput)
    requires
        !has_exit(d),
    ensures
        collected(d) == d,
        stream_status(d) == CommandStatus::Running,
        collected(d.push(o)) == d.push(o),
        stream_status(d.push(o)) == match o {
            CommandOutput::Exit(c) => CommandStatus::Completed(c),
            _ => CommandStatus::Running,
        },
    decreases d.len(),
{
    let e = d.push(o);
    if d.len() == 0 {
        assert(e.drop_first() =~= Seq::<CommandOutput>::empty());
        assert(seq![e[0]] + collected(e.drop_first()) =~= e);
    } else {
        assert(!(d[0] is Exit));
        let rest = d.drop_first();
        assert(!has_exit(rest)) by {
            if has_exit(rest) {
                let k = choose|k: int| 0 <= k < rest.len() && (#[trigger] rest[k]) is Exit;
                assert(d[k + 1] == rest[k]);
            }
        }
        lemma_stream_without_exit(rest, o);
        assert(e.drop_first() =~= rest.push(o));
        assert(e[0] == d[0]);
        assert(seq![d[0]] + rest =~= d);
        assert(seq![d[0]] + rest.push(o) =~= e);
    }
}

/// Once an exit was delivered, more output changes neither what is
/// collected nor the state.
proof fn lemma_stream_after_exit(d: Seq<CommandOutput>, o: CommandOutput)
    requires
        has_exit(d),
    ensures
        collected(d.push(o)) == collected(d),
        stream_status(d.push(o)) == stream_status(d),
    decreases d.len(),
{
    let e = d.push(o);
    assert(e[0] == d[0]);
    if !(d[0] is Exit) {
        let rest = d.drop_first();
        assert(has_exit(rest)) by {
            let k = choose|k: int| 0 <= k < d.len() && (#[trigger] d[k]) is Exit;
            assert(k != 0);
            assert(rest[k - 1] == d[k]);
        }
        lemma_stream_after_exit(rest, o);
        assert(e.drop_first() =~= rest.push(o));
    }
}

/// Feeds a command's output into its record as the process delivers it,
/// until the exit; what was offered is kept to state what the log holds.
pub struct OutputPump {
    id: String,
    done: bool,
    offered: Ghost<Seq<CommandOutput>>,
}

impl OutputPump {
    #[verifier::type_invariant]
    spec fn inv(self) -> bool {
        self.done == has_exit(self.offered@)
    }

    /// The command whose output is fed.
    pub closed spec fn id(self) -> Seq<char> {
        self.id@
    }

    /// Everything the process delivered so far, in order.
    pub closed spec fn offered(self) -> Seq<CommandOutput> {
        self.offered@
    }

    /// Whether the exit has been fed.
    pub closed spec fn done(self) -> bool {
        self.done
    }

    /// The command's record holds exactly what was offered up to and
    /// including the first exit, and the state that output leads to.
    pub open spec fn in_step(self, t: Seq<CommandRecord>) -> bool {
        &&& command_index(t, self.id()) matches Some(i)
        &&& t[i].output_log@ == collected(self.offered())
        &&& t[i].status == stream_status(self.offered())
    }

    /// Records command `id` as just started in sandbox `sandbox_id` (as
    /// `CommandTable::start`) and begins feeding its output.
    pub fn begin(table: &mut CommandTable, id: String, sandbox_id: String) -> (p: OutputPump)
        ensures
            p.id() == id@,
            p.offered() == Seq::<CommandOutput>::empty(),
            !p.done(),
            p.in_step(final(table)@),
            ({
                let rec = |r: CommandRecord| r.id == id && r.sandbox_id == sandbox_id
                    && r.status == CommandStatus::Running && r.output_log@.len() == 0;
                match command_index(old(table)@, id@) {
                    Some(i) => final(table)@.len() == old(table)@.len() && rec(final(table)@[i])
                        && forall|j: int| 0 <= j < old(table)@.len() && j != i ==> final(table)@[j] == old(table)@[j],
                    None => final(table)@.len() == old(table)@.len() + 1 && rec(final(table)@.last())
                        && forall|j: int| 0 <= j < old(table)@.len() ==> final(table)@[j] == old(table)@[j],
                }
            }),
    {
        let key = id.clone();
        table.start(id, sandbox_id);
        proof {
            use_type_invariant(&*table);
            let t = table@;
            let i = match command_index(old(table)@, key@) {
                Some(i) => i,
                None => old(table)@.len() as int,
            };
            assert(0 <= i < t.len() && t[i].id@ == key@);
            let j = choose|j: int| 0 <= j < t.len() && t[j].id@ == key@;
            assert(j == i);
            assert(t[i].output_log@ =~= collected(Seq::<CommandOutput>::empty()));
        }
        OutputPump { id: key, done: false, offered: Ghost(Seq::empty()) }
    }

    /// Feeds one piece of delivered output; answers whether the exit has
    /// now been fed, after which the caller stops. Output after the exit is
    /// not recorded.
    pub fn feed(&mut self, table: &mut CommandTable, o: CommandOutput) -> (finished: bool)
        ensures
            final(self).id() == old(self).id(),
            final(self).offered() == old(self).offered().push(o),
            finished == final(self).done(),
            old(self).done() ==> final(table)@ == old(table)@,
            old(self).in_step(old(table)@) ==> final(self).in_step(final(table)@),
    {
        proof { use_type_invariant(&*self); }
        let ghost before = self.offered@;
        let ghost o_spec = o;
        let ghost e = before.push(o_spec);
        let id = self.id.clone();
        if self.done {
            proof {
                lemma_stream_after_exit(before, o_spec);
                assert(has_exit(e)) by {
                    let k = choose|k: int| 0 <= k < before.len() && (#[trigger] before[k]) is Exit;
                    assert(e[k] == before[k]);
                }
            }
            *self = OutputPump { id, done: true, offered: Ghost(e) };
            return true;
        }
        let is_exit = match &o {
            CommandOutput::Exit(_) => true,
            _ => false,
        };
        table.record_output(id.as_str(), o);
        proof {
            lemma_stream_without_exit(before, o_spec);
            assert(has_exit(e) == (o_spec is Exit)) by {
                if has_exit(e) {
                    let k = choose|k: int| 0 <= k < e.len() && (#[trigger] e[k]) is Exit;
                    if k < before.len() {
                        assert(e[k] == before[k]);
                    }
                }
                if o_spec is Exit {
                    assert(e[before.len() as int] == o_spec);
                }
            }
            use_type_invariant(&*table);
            if old(self).in_step(old(table)@) {
                let i = command_index(old(table)@, id@)->0;
                let t = table@;
                assert(t[i].id == old(table)@[i].id);
                let j = choose|j: int| 0 <= j < t.len() && t[j].id@ == id@;
                assert(j == i);
            }
        }
        *self = OutputPump { id, done: is_exit, offered: Ghost(e) };
        is_exit
    }
}

/// A storage failure as a runtime error, with the storage error's message.
pub fn storage_failure(e: &StorageError) -> (r: RustboxError)
    ensures
        r matches RustboxError::Storage(m) && m@ == storage_error_text(*e),
{
    RustboxError::Storage(e.message())
}

/// The snapshot `id` as the store answered: the snapshot, `SnapshotNotFound`
/// when the store has none, or the store's failure as a `Storage` error.
pub fn snapshot_lookup<T>(id: &str, found: Result<Option<T>, StorageError>) -> (r: Result<T, RustboxError>)
    ensures
        match found {
            Ok(Some(x)) => r == Ok::<T, RustboxError>(x),
            Ok(None) => r matches Err(RustboxError::SnapshotNotFound(m)) && m@ == id@,
            Err(e) => r matches Err(RustboxError::Storage(m)) && m@ == storage_error_text(e),
        },
{
    match found {
        Ok(Some(x)) => Ok(x),
        Ok(None) => Err(RustboxError::SnapshotNotFound(id.to_owned())),
        Err(e) => Err(storage_failure(&e)),
    }
}

/// The outcome of deleting snapshot `id`: done when the store removed it,
/// `SnapshotNotFound` when it had none, or the store's failure.
pub fn snapshot_deletion(id: &str, deleted: Result<bool, StorageError>) -> (r: Result<(), RustboxError>)
    ensures
        match deleted {
            Ok(true) => r is Ok,
            Ok(false) => r matches Err(RustboxError::SnapshotNotFound(m)) && m@ == id@,
            Err(e) => r matches Err(RustboxError::Storage(m)) && m@ == storage_error_text(e),
        },
{
    match deleted {
        Ok(true) => Ok(()),
        Ok(false) => Err(RustboxError::SnapshotNotFound(id.to_owned())),
        Err(e) => Err(storage_failure(&e)),
    }
}

/// The ids a reaping pass deletes: those of the snapshots listed as
/// expired, in order; none when listing failed.
pub open spec fn spec_reap_plan(listed: Result<Vec<SnapshotMetadata>, StorageError>) -> Seq<Seq<char>> {
    match listed {
        Ok(v) => v@.map_values(|m: SnapshotMetadata| m.id@),
        Err(_) => Seq::empty(),
    }
}

/// The ids of the snapshots to delete in a reaping pass (see
/// `spec_reap_plan`).
pub fn reap_plan(listed: Result<Vec<SnapshotMetadata>, StorageError>) -> (ids: Vec<String>)
    ensures
        texts(ids@) == spec_reap_plan(listed),
{
    let mut out: Vec<String> = Vec::new();
    match listed {
        Ok(v) => {
            let ghost want = v@.map_values(|m: SnapshotMetadata| m.id@);
            let mut i: usize = 0;
            while i < v.len()
                invariant
                    i <= v@.len(),
                    want == v@.map_values(|m: SnapshotMetadata| m.id@),
                    texts(out@) == want.take(i as int),
                decreases v@.len() - i,
            {
                let ghost before = out@;
                out.push(v[i].id.clone());
                assert(texts(out@) =~= texts(before).push(v@[i as int].id@));
                assert(want.take(i + 1) =~= want.take(i as int).push(want[i as int]));
                i = i + 1;
            }
            assert(want.take(v@.len() as int) =~= want);
            out
        },
        Err(_) => {
            assert(texts(out@) =~= Seq::<Seq<char>>::empty());
            out
        },
    }
}

/// How many of the outcomes are successes.
pub open spec fn count_ok<T, E>(rs: Seq<Result<T, E>>) -> nat
    decreases rs.len(),
{
    if rs.len() == 0 {
        0
    } else {
        count_ok(rs.drop_last()) + if rs.last() is Ok { 1nat } else { 0nat }
    }
}

/// How many outcomes are `Ok(true)`.
pub open spec fn count_true<E>(rs: Seq<Result<bool, E>>) -> nat
    decreases rs.len(),
{
    if rs.len() == 0 {
        0
    } else {
        count_true(rs.drop_last()) + if rs.last() == Ok::<bool, E>(true) { 1nat } else { 0nat }
    }
}

/// The number of sandboxes a timeout sweep stopped: the stops that succeeded.
pub fn stopped_count(outcomes: &[Result<(), RustboxError>]) -> (n: usize)
    ensures
        n == count_ok(outcomes@),
{
    let mut n: usize = 0;
    let mut i: usize = 0;
    while i < outcomes.len()
        invariant
            i <= outcomes@.len(),
            n == count_ok(outcomes@.take(i as int)),
            n <= i,
        decreases outcomes@.len() - i,
    {
        assert(outcomes@.take(i + 1).drop_last() =~= outcomes@.take(i as int));
        if outcomes[i].is_ok() {
            n = n + 1;
        }
        i = i + 1;
    }
    assert(outcomes@.take(outcomes@.len() as int) =~= outcomes@);
    n
}

/// The number of snapshots a reaping pass deleted: the deletions the store
/// confirmed (`Ok(true)`).
pub fn reaped_count(outcomes: &[Result<bool, StorageError>]) -> (n: usize)
    ensures
        n == count_true(outcomes@),
{
    let mut n: usize = 0;
    let mut i: usize = 0;
    while i < outcomes.len()
        invariant
            i <= outcomes@.len(),
            n == count_true(outcomes@.take(i as int)),
            n <= i,
        decreases outcomes@.len() - i,
    {
        assert(outcomes@.take(i + 1).drop_last() =~= outcomes@.take(i as int));
        match &outcomes[i] {
            Ok(true) => {
                n = n + 1;
            },
            _ => {},
        }
        i = i + 1;
    }
    assert(outcomes@.take(outcomes@.len() as int) =~= outcomes@);
    n
}

} // verus!
