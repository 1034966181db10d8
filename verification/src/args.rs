//! The command-line grammar of the `sandbox` tool and its parser.
//!
//! Tokens are read left to right. `--url` and `--output` are accepted at
//! every level; each subcommand accepts its own options and positional
//! arguments; `--` ends option parsing, and for `exec` and `run` everything
//! after it is the command to run. An option given twice, an option that
//! needs a value but gets none, an unknown option or subcommand, or a missing
//! required argument is refused.

use vstd::prelude::*;
use crate::error::prefixed;
use crate::numbers::{parse_unsigned, spec_parse_unsigned};
use crate::text::{chars_of, opt_text, push_str, split_once, str_eq, str_texts, string_of_range, texts,
    find_char_from, first_index_of, lemma_first_index_of};

verus! {

/// Output format of the command-line tool.
#[derive(Clone, Copy, Debug, PartialEq, Eq, Structural)]
pub enum OutputFormat {
    Table,
    Json,
}

/// Snapshot subcommands.
#[derive(Debug, PartialEq, Eq)]
pub enum SnapshotCommands {
    Create { id: String },
    List,
    Get { id: String },
    Delete { id: String },
}

/// Subcommands of the tool.
#[derive(Debug, PartialEq, Eq)]
pub enum Commands {
    Create { runtime: String, timeout: u64, snapshot: Option<String> },
    List { all: bool },
    Stop { id: String },
    Exec { id: String, sudo: bool, workdir: Option<String>, env: Vec<String>, cmd: Vec<String> },
    Copy { src: String, dst: String },
    Run { runtime: String, rm: bool, cmd: Vec<String> },
    Connect { id: String },
    Snapshot { command: SnapshotCommands },
}

/// A parsed command line.
#[derive(Debug, PartialEq, Eq)]
pub struct Cli {
    pub url: String,
    pub output: OutputFormat,
    pub command: Commands,
}

/// The plain contents of a subcommand.
#[verifier::ext_equal]
pub enum CommandsView {
    Create { runtime: Seq<char>, timeout: u64, snapshot: Option<Seq<char>> },
    List { all: bool },
    Stop { id: Seq<char> },
    Exec { id: Seq<char>, sudo: bool, workdir: Option<Seq<char>>, env: Seq<Seq<char>>, cmd: Seq<Seq<char>> },
    Copy { src: Seq<char>, dst: Seq<char> },
    Run { runtime: Seq<char>, rm: bool, cmd: Seq<Seq<char>> },
    Connect { id: Seq<char> },
    SnapshotCreate { id: Seq<char> },
    SnapshotList,
    SnapshotGet { id: Seq<char> },
    SnapshotDelete { id: Seq<char> },
}

/// The plain contents of a parsed command line.
#[verifier::ext_equal]
pub struct CliView {
    pub url: Seq<char>,
    pub output: OutputFormat,
    pub command: CommandsView,
}

impl View for Commands {
    type V = CommandsView;

    open spec fn view(&self) -> CommandsView {
        match *self {
            Commands::Create { runtime, timeout, snapshot } =>
                CommandsView::Create { runtime: runtime@, timeout, snapshot: opt_text(snapshot) },
            Commands::List { all } => CommandsView::List { all },
            Commands::Stop { id } => CommandsView::Stop { id: id@ },
            Commands::Exec { id, sudo, workdir, env, cmd } => CommandsView::Exec {
                id: id@,
                sudo,
                workdir: opt_text(workdir),
                env: texts(env@),
                cmd: texts(cmd@),
            },
            Commands::Copy { src, dst } => CommandsView::Copy { src: src@, dst: dst@ },
            Commands::Run { runtime, rm, cmd } => CommandsView::Run { runtime: runtime@, rm, cmd: texts(cmd@) },
            Commands::Connect { id } => CommandsView::Connect { id: id@ },
            Commands::Snapshot { command } => match command {
                SnapshotCommands::Create { id } => CommandsView::SnapshotCreate { id: id@ },
                SnapshotCommands::List => CommandsView::SnapshotList,
                SnapshotCommands::Get { id } => CommandsView::SnapshotGet { id: id@ },
                SnapshotCommands::Delete { id } => CommandsView::SnapshotDelete { id: id@ },
            },
        }
    }
}

impl View for Cli {
    type V = CliView;

    open spec fn view(&self) -> CliView {
        CliView { url: self.url@, output: self.output, command: self.command@ }
    }
}

/// Why a command line was not accepted.
#[derive(Debug, PartialEq, Eq)]
pub enum ArgsError {
    /// Help was asked for (`-h`, `--help` or the `help` subcommand).
    Help,
    /// The command line does not fit the grammar; the message says why.
    Usage(String),
}

/// The plain contents of an argument error.
#[verifier::ext_equal]
pub enum ArgsFailure {
    Help,
    Usage(Seq<char>),
}

impl View for ArgsError {
    type V = ArgsFailure;

    open spec fn view(&self) -> ArgsFailure {
        match *self {
            ArgsError::Help => ArgsFailure::Help,
            ArgsError::Usage(m) => ArgsFailure::Usage(m@),
        }
    }
}

impl ArgsError {
    /// The human-readable message.
    pub fn message(&self) -> (s: String)
        ensures
            s@ == match self@ {
                ArgsFailure::Help => "help requested"@,
                ArgsFailure::Usage(m) => m,
            },
    {
        match self {
            ArgsError::Help => "help requested".to_owned(),
            ArgsError::Usage(m) => m.clone(),
        }
    }
}

/// Where in the grammar the parser stands.
#[derive(Clone, Copy, Debug, PartialEq, Eq, Structural)]
pub enum Level {
    Top,
    Create,
    List,
    Stop,
    Exec,
    Copy,
    Run,
    Connect,
    SnapshotTop,
    SnapshotCreate,
    SnapshotList,
    SnapshotGet,
    SnapshotDelete,
}

/// The long options of the tool.
#[derive(Clone, Copy, Debug, PartialEq, Eq, Structural)]
pub enum Opt {
    Url,
    Output,
    Runtime,
    Timeout,
    Snapshot,
    All,
    Sudo,
    Workdir,
    Env,
    Rm,
}

/// The name of an option, without its leading `--`.
pub open spec fn spec_opt_name(o: Opt) -> Seq<char> {
    match o {
        Opt::Url => "url"@,
        Opt::Output => "output"@,
        Opt::Runtime => "runtime"@,
        Opt::Timeout => "timeout"@,
        Opt::Snapshot => "snapshot"@,
        Opt::All => "all"@,
        Opt::Sudo => "sudo"@,
        Opt::Workdir => "workdir"@,
        Opt::Env => "env"@,
        Opt::Rm => "rm"@,
    }
}

/// The option with a name, if any.
pub open spec fn spec_opt_named(n: Seq<char>) -> Option<Opt> {
    if n == "url"@ {
        Some(Opt::Url)
    } else if n == "output"@ {
        Some(Opt::Output)
    } else if n == "runtime"@ {
        Some(Opt::Runtime)
    } else if n == "timeout"@ {
        Some(Opt::Timeout)
    } else if n == "snapshot"@ {
        Some(Opt::Snapshot)
    } else if n == "all"@ {
        Some(Opt::All)
    } else if n == "sudo"@ {
        Some(Opt::Sudo)
    } else if n == "workdir"@ {
        Some(Opt::Workdir)
    } else if n == "env"@ {
        Some(Opt::Env)
    } else if n == "rm"@ {
        Some(Opt::Rm)
    } else {
        None
    }
}

/// Which options a level accepts: `--url` and `--output` everywhere, the
/// others only on their own subcommand.
pub open spec fn opt_allowed(l: Level, o: Opt) -> bool {
    match o {
        Opt::Url | Opt::Output => true,
        Opt::Runtime => l == Level::Create || l == Level::Run,
        Opt::Timeout | Opt::Snapshot => l == Level::Create,
        Opt::All => l == Level::List,
        Opt::Sudo | Opt::Workdir | Opt::Env => l == Level::Exec,
        Opt::Rm => l == Level::Run,
    }
}

/// Options that take a value (the others are on/off flags).
pub open spec fn takes_value(o: Opt) -> bool {
    !(o == Opt::All || o == Opt::Sudo || o == Opt::Rm)
}

/// How many positional arguments a level takes before `--`.
pub open spec fn max_positionals(l: Level) -> nat {
    match l {
        Level::Stop | Level::Exec | Level::Connect | Level::SnapshotCreate | Level::SnapshotGet
        | Level::SnapshotDelete => 1,
        Level::Copy => 2,
        _ => 0,
    }
}

/// Levels whose arguments after `--` are the command to run.
pub open spec fn has_trailing(l: Level) -> bool {
    l == Level::Exec || l == Level::Run
}

/// Levels that expect a subcommand name.
pub open spec fn has_subcommands(l: Level) -> bool {
    l == Level::Top || l == Level::SnapshotTop
}

/// The subcommand a name selects at a level, if any.
pub open spec fn spec_subcommand(l: Level, n: Seq<char>) -> Option<Level> {
    if l == Level::Top {
        if n == "create"@ {
            Some(Level::Create)
        } else if n == "list"@ {
            Some(Level::List)
        } else if n == "stop"@ {
            Some(Level::Stop)
        } else if n == "exec"@ {
            Some(Level::Exec)
        } else if n == "copy"@ {
            Some(Level::Copy)
        } else if n == "run"@ {
            Some(Level::Run)
        } else if n == "connect"@ {
            Some(Level::Connect)
        } else if n == "snapshot"@ {
            Some(Level::SnapshotTop)
        } else {
            None
        }
    } else if l == Level::SnapshotTop {
        if n == "create"@ {
            Some(Level::SnapshotCreate)
        } else if n == "list"@ {
            Some(Level::SnapshotList)
        } else if n == "get"@ {
            Some(Level::SnapshotGet)
        } else if n == "delete"@ {
            Some(Level::SnapshotDelete)
        } else {
            None
        }
    } else {
        None
    }
}

/// What has been read so far.
#[verifier::ext_equal]
pub struct ScanView {
    pub level: Level,
    pub url: Option<Seq<char>>,
    pub output: Option<OutputFormat>,
    pub runtime: Option<Seq<char>>,
    pub timeout: Option<u64>,
    pub snapshot: Option<Seq<char>>,
    pub all: bool,
    pub sudo: bool,
    pub rm: bool,
    pub workdir: Option<Seq<char>>,
    pub env: Seq<Seq<char>>,
    pub positionals: Seq<Seq<char>>,
    pub trailing: Seq<Seq<char>>,
    pub dashdash: bool,
}

/// Nothing read yet.
pub open spec fn initial_scan() -> ScanView {
    ScanView {
        level: Level::Top,
        url: None,
        output: None,
        runtime: None,
        timeout: None,
        snapshot: None,
        all: false,
        sudo: false,
        rm: false,
        workdir: None,
        env: Seq::empty(),
        positionals: Seq::empty(),
        trailing: Seq::empty(),
        dashdash: false,
    }
}

/// A token of the form `--...`.
pub open spec fn is_long(t: Seq<char>) -> bool {
    t.len() >= 2 && t[0] == '-' && t[1] == '-'
}

/// A token that starts with `-` and is more than `-` alone: never a value.
pub open spec fn is_dashed(t: Seq<char>) -> bool {
    t.len() >= 2 && t[0] == '-'
}

/// The option name of a long token: the text after `--` up to the first `=`.
pub open spec fn long_name(t: Seq<char>) -> Seq<char> {
    match split_once(t.skip(2), '=') {
        Some((n, _)) => n,
        None => t.skip(2),
    }
}

/// The value given with `=` in a long token, if any.
pub open spec fn long_inline(t: Seq<char>) -> Option<Seq<char>> {
    match split_once(t.skip(2), '=') {
        Some((_, v)) => Some(v),
        None => None,
    }
}

pub open spec fn quoted(a: Seq<char>, x: Seq<char>, b: Seq<char>) -> Seq<char> {
    a + x + b
}

/// Message for a token that does not fit where it stands.
pub open spec fn unexpected_msg(t: Seq<char>) -> Seq<char> {
    quoted("unexpected argument '"@, t, "' found"@)
}

/// Message for an option given twice.
pub open spec fn repeated_msg(o: Opt) -> Seq<char> {
    quoted("the argument '--"@, spec_opt_name(o), "' cannot be used multiple times"@)
}

/// Message for an option whose value is missing.
pub open spec fn missing_value_msg(o: Opt) -> Seq<char> {
    quoted("a value is required for '--"@, spec_opt_name(o), "' but none was supplied"@)
}

/// Message for a value given to an on/off flag.
pub open spec fn flag_value_msg(o: Opt, v: Seq<char>) -> Seq<char> {
    quoted("unexpected value '"@, v, "' for '--"@) + spec_opt_name(o) + "' found; no more were expected"@
}

/// Message for a value an option does not accept.
pub open spec fn invalid_value_msg(o: Opt, v: Seq<char>) -> Seq<char> {
    quoted("invalid value '"@, v, "' for '--"@) + spec_opt_name(o) + "'"@
}

/// Message for an unknown subcommand.
pub open spec fn unrecognized_msg(t: Seq<char>) -> Seq<char> {
    quoted("unrecognized subcommand '"@, t, "'"@)
}

/// Message for missing required arguments.
pub open spec fn missing_msg(what: Seq<char>) -> Seq<char> {
    "the following required arguments were not provided: "@ + what
}

/// The output format a value names, if any.
pub open spec fn spec_output_named(v: Seq<char>) -> Option<OutputFormat> {
    if v == "table"@ {
        Some(OutputFormat::Table)
    } else if v == "json"@ {
        Some(OutputFormat::Json)
    } else {
        None
    }
}

/// Records value `v` of option `o` (which takes a value).
pub open spec fn apply_value(s: ScanView, o: Opt, v: Seq<char>) -> Result<ScanView, ArgsFailure> {
    let rep = Err(ArgsFailure::Usage(repeated_msg(o)));
    match o {
        Opt::Url => if s.url is Some { rep } else { Ok(ScanView { url: Some(v), ..s }) },
        Opt::Output => if s.output is Some {
            rep
        } else {
            match spec_output_named(v) {
                Some(f) => Ok(ScanView { output: Some(f), ..s }),
                None => Err(ArgsFailure::Usage(invalid_value_msg(o, v))),
            }
        },
        Opt::Runtime => if s.runtime is Some { rep } else { Ok(ScanView { runtime: Some(v), ..s }) },
        Opt::Timeout => if s.timeout is Some {
            rep
        } else {
            match spec_parse_unsigned(v, u64::MAX as nat) {
                Some(n) => Ok(ScanView { timeout: Some(n as u64), ..s }),
                None => Err(ArgsFailure::Usage(invalid_value_msg(o, v))),
            }
        },
        Opt::Snapshot => if s.snapshot is Some { rep } else { Ok(ScanView { snapshot: Some(v), ..s }) },
        Opt::Workdir => if s.workdir is Some { rep } else { Ok(ScanView { workdir: Some(v), ..s }) },
        Opt::Env => Ok(ScanView { env: s.env.push(v), ..s }),
        _ => rep,
    }
}

/// Turns on flag `o`.
pub open spec fn set_flag(s: ScanView, o: Opt) -> Result<ScanView, ArgsFailure> {
    let rep = Err(ArgsFailure::Usage(repeated_msg(o)));
    match o {
        Opt::All => if s.all { rep } else { Ok(ScanView { all: true, ..s }) },
        Opt::Sudo => if s.sudo { rep } else { Ok(ScanView { sudo: true, ..s }) },
        Opt::Rm => if s.rm { rep } else { Ok(ScanView { rm: true, ..s }) },
        _ => rep,
    }
}

/// Pairs a new state with the position after the tokens it consumed.
pub open spec fn advance(r: Result<ScanView, ArgsFailure>, j: int) -> Result<(ScanView, int), ArgsFailure> {
    match r {
        Ok(s) => Ok((s, j)),
        Err(e) => Err(e),
    }
}

/// Reads the long option token `t[i]`.
pub open spec fn scan_long(t: Seq<Seq<char>>, i: int, s: ScanView) -> Result<(ScanView, int), ArgsFailure> {
    let tok = t[i];
    match spec_opt_named(long_name(tok)) {
        Some(o) => if !opt_allowed(s.level, o) {
            Err(ArgsFailure::Usage(unexpected_msg(tok)))
        } else if !takes_value(o) {
            match long_inline(tok) {
                Some(v) => Err(ArgsFailure::Usage(flag_value_msg(o, v))),
                None => advance(set_flag(s, o), i + 1),
            }
        } else {
            match long_inline(tok) {
                Some(v) => advance(apply_value(s, o, v), i + 1),
                None => if i + 1 < t.len() && !is_dashed(t[i + 1]) {
                    advance(apply_value(s, o, t[i + 1]), i + 2)
                } else {
                    Err(ArgsFailure::Usage(missing_value_msg(o)))
                },
            }
        },
        None => Err(ArgsFailure::Usage(unexpected_msg(tok))),
    }
}

/// Reads the token `t[i]` that is neither an option nor `--`.
pub open spec fn scan_plain(t: Seq<Seq<char>>, i: int, s: ScanView) -> Result<(ScanView, int), ArgsFailure> {
    let tok = t[i];
    if has_subcommands(s.level) {
        if tok == "help"@ {
            Err(ArgsFailure::Help)
        } else {
            match spec_subcommand(s.level, tok) {
                Some(l) => Ok((ScanView { level: l, ..s }, i + 1)),
                None => Err(ArgsFailure::Usage(unrecognized_msg(tok))),
            }
        }
    } else if s.positionals.len() < max_positionals(s.level) {
        Ok((ScanView { positionals: s.positionals.push(tok), ..s }, i + 1))
    } else {
        Err(ArgsFailure::Usage(unexpected_msg(tok)))
    }
}

/// Reads the token at `i`; gives the new state and the position of the next
/// unread token.
pub open spec fn scan_step(t: Seq<Seq<char>>, i: int, s: ScanView) -> Result<(ScanView, int), ArgsFailure> {
    let tok = t[i];
    if s.dashdash {
        if has_trailing(s.level) {
            Ok((ScanView { trailing: s.trailing.push(tok), ..s }, i + 1))
        } else if s.positionals.len() < max_positionals(s.level) {
            Ok((ScanView { positionals: s.positionals.push(tok), ..s }, i + 1))
        } else {
            Err(ArgsFailure::Usage(unexpected_msg(tok)))
        }
    } else if tok == "--"@ {
        Ok((ScanView { dashdash: true, ..s }, i + 1))
    } else if tok == "--help"@ || tok == "-h"@ {
        Err(ArgsFailure::Help)
    } else if is_long(tok) {
        scan_long(t, i, s)
    } else if is_dashed(tok) {
        Err(ArgsFailure::Usage(unexpected_msg(tok)))
    } else {
        scan_plain(t, i, s)
    }
}

/// Reads the tokens from `i` on.
pub open spec fn scan_from(t: Seq<Seq<char>>, i: int, s: ScanView) -> Result<ScanView, ArgsFailure>
    decreases t.len() - i,
{
    if i < 0 || i >= t.len() {
        Ok(s)
    } else {
        match scan_step(t, i, s) {
            Ok((s2, j)) => if i < j <= t.len() { scan_from(t, j, s2) } else { Ok(s2) },
            Err(e) => Err(e),
        }
    }
}

/// The command line once every token is read: the subcommand and its
/// required arguments must be there; the URL defaults to
/// `http://localhost:8080`, the format to a table and the timeout to 300.
pub open spec fn finish(s: ScanView) -> Result<CliView, ArgsFailure> {
    let url = match s.url { Some(u) => u, None => "http://localhost:8080"@ };
    let output = match s.output { Some(f) => f, None => OutputFormat::Table };
    let done = |c: CommandsView| Ok::<CliView, ArgsFailure>(CliView { url, output, command: c });
    let need_id = Err(ArgsFailure::Usage(missing_msg("<ID>"@)));
    let need_runtime = Err(ArgsFailure::Usage(missing_msg("--runtime <RUNTIME>"@)));
    let need_cmd = Err(ArgsFailure::Usage(missing_msg("<CMD>..."@)));
    match s.level {
        Level::Top | Level::SnapshotTop => Err(ArgsFailure::Usage("a subcommand is required"@)),
        Level::Create => match s.runtime {
            Some(r) => done(CommandsView::Create {
                runtime: r,
                timeout: match s.timeout { Some(n) => n, None => 300 },
                snapshot: s.snapshot,
            }),
            None => need_runtime,
        },
        Level::List => done(CommandsView::List { all: s.all }),
        Level::Stop => if s.positionals.len() == 0 { need_id } else { done(CommandsView::Stop { id: s.positionals[0] }) },
        Level::Exec => if s.positionals.len() == 0 {
            need_id
        } else if s.trailing.len() == 0 {
            need_cmd
        } else {
            done(CommandsView::Exec {
                id: s.positionals[0],
                sudo: s.sudo,
                workdir: s.workdir,
                env: s.env,
                cmd: s.trailing,
            })
        },
        Level::Copy => if s.positionals.len() == 0 {
            Err(ArgsFailure::Usage(missing_msg("<SRC> <DST>"@)))
        } else if s.positionals.len() == 1 {
            Err(ArgsFailure::Usage(missing_msg("<DST>"@)))
        } else {
            done(CommandsView::Copy { src: s.positionals[0], dst: s.positionals[1] })
        },
        Level::Run => match s.runtime {
            Some(r) => if s.trailing.len() == 0 { need_cmd } else { done(CommandsView::Run { runtime: r, rm: s.rm, cmd: s.trailing }) },
            None => need_runtime,
        },
        Level::Connect => if s.positionals.len() == 0 { need_id } else { done(CommandsView::Connect { id: s.positionals[0] }) },
        Level::SnapshotCreate => if s.positionals.len() == 0 { need_id } else { done(CommandsView::SnapshotCreate { id: s.positionals[0] }) },
        Level::SnapshotList => done(CommandsView::SnapshotList),
        Level::SnapshotGet => if s.positionals.len() == 0 { need_id } else { done(CommandsView::SnapshotGet { id: s.positionals[0] }) },
        Level::SnapshotDelete => if s.positionals.len() == 0 { need_id } else { done(CommandsView::SnapshotDelete { id: s.positionals[0] }) },
    }
}

/// The meaning of a whole command line; its first token is the program name.
pub open spec fn spec_parse_cli(args: Seq<Seq<char>>) -> Result<CliView, ArgsFailure> {
    match scan_from(args, 1, initial_scan()) {
        Ok(s) => finish(s),
        Err(e) => Err(e),
    }
}

/// The parser's state while reading tokens.
struct ScanState {
    level: Level,
    url: Option<String>,
    output: Option<OutputFormat>,
    runtime: Option<String>,
    timeout: Option<u64>,
    snapshot: Option<String>,
    all: bool,
    sudo: bool,
    rm: bool,
    workdir: Option<String>,
    env: Vec<String>,
    positionals: Vec<String>,
    trailing: Vec<String>,
    dashdash: bool,
}

impl ScanState {
    spec fn sv(&self) -> ScanView {
        ScanView {
            level: self.level,
            url: opt_text(self.url),
            output: self.output,
            runtime: opt_text(self.runtime),
            timeout: self.timeout,
            snapshot: opt_text(self.snapshot),
            all: self.all,
            sudo: self.sudo,
            rm: self.rm,
            workdir: opt_text(self.workdir),
            env: texts(self.env@),
            positionals: texts(self.positionals@),
            trailing: texts(self.trailing@),
            dashdash: self.dashdash,
        }
    }

    fn initial() -> (s: ScanState)
        ensures
            s.sv() == initial_scan(),
    {
        let s = ScanState {
            level: Level::Top,
            url: None,
            output: None,
            runtime: None,
            timeout: None,
            snapshot: None,
            all: false,
            sudo: false,
            rm: false,
            workdir: None,
            env: Vec::new(),
            positionals: Vec::new(),
            trailing: Vec::new(),
            dashdash: false,
        };
        assert(s.sv() =~= initial_scan());
        s
    }
}

/// An exec result agrees with a spec result.
spec fn agrees<T, V>(r: Result<T, ArgsError>, v: Result<V, ArgsFailure>, f: spec_fn(T) -> V) -> bool {
    match r {
        Ok(x) => v == Ok::<V, ArgsFailure>(f(x)),
        Err(e) => v == Err::<V, ArgsFailure>(e@),
    }
}

spec fn step_of(p: (ScanState, usize)) -> (ScanView, int) {
    (p.0.sv(), p.1 as int)
}

fn usage(m: String) -> (e: ArgsError)
    ensures
        e@ == ArgsFailure::Usage(m@),
{
    ArgsError::Usage(m)
}

fn opt_named(n: &str) -> (r: Option<Opt>)
    ensures
        r == spec_opt_named(n@),
{
    if str_eq(n, "url") {
        Some(Opt::Url)
    } else if str_eq(n, "output") {
        Some(Opt::Output)
    } else if str_eq(n, "runtime") {
        Some(Opt::Runtime)
    } else if str_eq(n, "timeout") {
        Some(Opt::Timeout)
    } else if str_eq(n, "snapshot") {
        Some(Opt::Snapshot)
    } else if str_eq(n, "all") {
        Some(Opt::All)
    } else if str_eq(n, "sudo") {
        Some(Opt::Sudo)
    } else if str_eq(n, "workdir") {
        Some(Opt::Workdir)
    } else if str_eq(n, "env") {
        Some(Opt::Env)
    } else if str_eq(n, "rm") {
        Some(Opt::Rm)
    } else {
        None
    }
}

fn opt_name(o: Opt) -> (r: &'static str)
    ensures
        r@ == spec_opt_name(o),
{
    match o {
        Opt::Url => "url",
        Opt::Output => "output",
        Opt::Runtime => "runtime",
        Opt::Timeout => "timeout",
        Opt::Snapshot => "snapshot",
        Opt::All => "all",
        Opt::Sudo => "sudo",
        Opt::Workdir => "workdir",
        Opt::Env => "env",
        Opt::Rm => "rm",
    }
}

fn allowed(l: Level, o: Opt) -> (b: bool)
    ensures
        b == opt_allowed(l, o),
{
    match o {
        Opt::Url | Opt::Output => true,
        Opt::Runtime => l == Level::Create || l == Level::Run,
        Opt::Timeout | Opt::Snapshot => l == Level::Create,
        Opt::All => l == Level::List,
        Opt::Sudo | Opt::Workdir | Opt::Env => l == Level::Exec,
        Opt::Rm => l == Level::Run,
    }
}

fn max_positional_count(l: Level) -> (n: usize)
    ensures
        n == max_positionals(l),
{
    match l {
        Level::Stop | Level::Exec | Level::Connect | Level::SnapshotCreate | Level::SnapshotGet
        | Level::SnapshotDelete => 1,
        Level::Copy => 2,
        _ => 0,
    }
}

fn subcommand(l: Level, n: &str) -> (r: Option<Level>)
    ensures
        r == spec_subcommand(l, n@),
{
    if l == Level::Top {
        if str_eq(n, "create") {
            Some(Level::Create)
        } else if str_eq(n, "list") {
            Some(Level::List)
        } else if str_eq(n, "stop") {
            Some(Level::Stop)
        } else if str_eq(n, "exec") {
            Some(Level::Exec)
        } else if str_eq(n, "copy") {
            Some(Level::Copy)
        } else if str_eq(n, "run") {
            Some(Level::Run)
        } else if str_eq(n, "connect") {
            Some(Level::Connect)
        } else if str_eq(n, "snapshot") {
            Some(Level::SnapshotTop)
        } else {
            None
        }
    } else if l == Level::SnapshotTop {
        if str_eq(n, "create") {
            Some(Level::SnapshotCreate)
        } else if str_eq(n, "list") {
            Some(Level::SnapshotList)
        } else if str_eq(n, "get") {
            Some(Level::SnapshotGet)
        } else if str_eq(n, "delete") {
            Some(Level::SnapshotDelete)
        } else {
            None
        }
    } else {
        None
    }
}

fn dashed(t: &str) -> (b: bool)
    ensures
        b == is_dashed(t@),
{
    let cs = chars_of(t);
    cs.len() >= 2 && cs[0] == '-'
}

fn quote(a: &str, x: &str, b: &str) -> (s: String)
    ensures
        s@ == quoted(a@, x@, b@),
{
    let mut s = prefixed(a, x);
    push_str(&mut s, b);
    s
}

fn unexpected(t: &str) -> (e: ArgsError)
    ensures
        e@ == ArgsFailure::Usage(unexpected_msg(t@)),
{
    usage(quote("unexpected argument '", t, "' found"))
}

fn repeated(o: Opt) -> (e: ArgsError)
    ensures
        e@ == ArgsFailure::Usage(repeated_msg(o)),
{
    usage(quote("the argument '--", opt_name(o), "' cannot be used multiple times"))
}

fn invalid_value(o: Opt, v: &str) -> (e: ArgsError)
    ensures
        e@ == ArgsFailure::Usage(invalid_value_msg(o, v@)),
{
    let mut s = quote("invalid value '", v, "' for '--");
    push_str(&mut s, opt_name(o));
    push_str(&mut s, "'");
    usage(s)
}

fn output_named(v: &str) -> (r: Option<OutputFormat>)
    ensures
        r == spec_output_named(v@),
{
    if str_eq(v, "table") {
        Some(OutputFormat::Table)
    } else if str_eq(v, "json") {
        Some(OutputFormat::Json)
    } else {
        None
    }
}

fn record_value(s: ScanState, o: Opt, v: String) -> (r: Result<ScanState, ArgsError>)
    requires
        takes_value(o),
    ensures
        agrees(r, apply_value(s.sv(), o, v@), |x: ScanState| x.sv()),
{
    match o {
        Opt::Url => {
            if s.url.is_some() {
                return Err(repeated(o));
            }
            let s2 = ScanState { url: Some(v), ..s };
            assert(s2.sv() =~= (ScanView { url: Some(v@), ..s.sv() }));
            Ok(s2)
        },
        Opt::Output => {
            if s.output.is_some() {
                return Err(repeated(o));
            }
            match output_named(v.as_str()) {
                Some(f) => {
                    let s2 = ScanState { output: Some(f), ..s };
                    assert(s2.sv() =~= (ScanView { output: Some(f), ..s.sv() }));
                    Ok(s2)
                },
                None => Err(invalid_value(o, v.as_str())),
            }
        },
        Opt::Runtime => {
            if s.runtime.is_some() {
                return Err(repeated(o));
            }
            let s2 = ScanState { runtime: Some(v), ..s };
            assert(s2.sv() =~= (ScanView { runtime: Some(v@), ..s.sv() }));
            Ok(s2)
        },
        Opt::Timeout => {
            if s.timeout.is_some() {
                return Err(repeated(o));
            }
            let cs = chars_of(v.as_str());
            match parse_unsigned(cs.as_slice(), u64::MAX) {
                Some(n) => {
                    let s2 = ScanState { timeout: Some(n), ..s };
                    assert(s2.sv() =~= (ScanView { timeout: Some(n), ..s.sv() }));
                    Ok(s2)
                },
                None => Err(invalid_value(o, v.as_str())),
            }
        },
        Opt::Snapshot => {
            if s.snapshot.is_some() {
                return Err(repeated(o));
            }
            let s2 = ScanState { snapshot: Some(v), ..s };
            assert(s2.sv() =~= (ScanView { snapshot: Some(v@), ..s.sv() }));
            Ok(s2)
        },
        Opt::Workdir => {
            if s.workdir.is_some() {
                return Err(repeated(o));
            }
            let s2 = ScanState { workdir: Some(v), ..s };
            assert(s2.sv() =~= (ScanView { workdir: Some(v@), ..s.sv() }));
            Ok(s2)
        },
        Opt::Env => {
            let ghost before = s.sv();
            let mut s2 = s;
            s2.env.push(v);
            assert(texts(s2.env@) =~= before.env.push(v@));
            assert(s2.sv() =~= (ScanView { env: before.env.push(v@), ..before }));
            Ok(s2)
        },
        _ => Err(repeated(o)),
    }
}

fn record_flag(s: ScanState, o: Opt) -> (r: Result<ScanState, ArgsError>)
    ensures
        agrees(r, set_flag(s.sv(), o), |x: ScanState| x.sv()),
{
    match o {
        Opt::All => {
            if s.all {
                return Err(repeated(o));
            }
            let s2 = ScanState { all: true, ..s };
            assert(s2.sv() =~= (ScanView { all: true, ..s.sv() }));
            Ok(s2)
        },
        Opt::Sudo => {
            if s.sudo {
                return Err(repeated(o));
            }
            let s2 = ScanState { sudo: true, ..s };
            assert(s2.sv() =~= (ScanView { sudo: true, ..s.sv() }));
            Ok(s2)
        },
        Opt::Rm => {
            if s.rm {
                return Err(repeated(o));
            }
            let s2 = ScanState { rm: true, ..s };
            assert(s2.sv() =~= (ScanView { rm: true, ..s.sv() }));
            Ok(s2)
        },
        _ => Err(repeated(o)),
    }
}

fn flag_value(o: Opt, v: &str) -> (e: ArgsError)
    ensures
        e@ == ArgsFailure::Usage(flag_value_msg(o, v@)),
{
    let mut s = quote("unexpected value '", v, "' for '--");
    push_str(&mut s, opt_name(o));
    push_str(&mut s, "' found; no more were expected");
    usage(s)
}

fn missing_value(o: Opt) -> (e: ArgsError)
    ensures
        e@ == ArgsFailure::Usage(missing_value_msg(o)),
{
    usage(quote("a value is required for '--", opt_name(o), "' but none was supplied"))
}

/// The option name and inline value of a long token.
fn split_long(tok: &str) -> (r: (String, Option<String>))
    requires
        is_long(tok@),
    ensures
        r.0@ == long_name(tok@),
        opt_text(r.1) == long_inline(tok@),
{
    let cs = chars_of(tok);
    let n = cs.len();
    let ghost body = tok@.skip(2);
    match find_char_from(cs.as_slice(), 2, '=') {
        Some(k) => {
            assert(2 <= k < n) by {
                lemma_first_index_of(cs@.skip(2), '=');
                match first_index_of(cs@.skip(2), '=') {
                    Some(_) => {},
                    None => {},
                }
            }
            let name = string_of_range(cs.as_slice(), 2, k);
            let value = string_of_range(cs.as_slice(), k + 1, n);
            assert(name@ =~= body.take(k - 2));
            assert(value@ =~= body.skip(k - 2 + 1));
            (name, Some(value))
        },
        None => {
            let name = string_of_range(cs.as_slice(), 2, n);
            assert(name@ =~= body);
            (name, None)
        },
    }
}

fn with_position(r: Result<ScanState, ArgsError>, j: usize) -> (out: Result<(ScanState, usize), ArgsError>)
    ensures
        match r {
            Ok(s) => out matches Ok(p) && p.0 == s && p.1 == j,
            Err(e) => out == Err::<(ScanState, usize), ArgsError>(e),
        },
{
    match r {
        Ok(s) => Ok((s, j)),
        Err(e) => Err(e),
    }
}

fn read_long(t: &[&str], i: usize, s: ScanState) -> (r: Result<(ScanState, usize), ArgsError>)
    requires
        i < t@.len(),
        is_long(t@[i as int]@),
    ensures
        agrees(r, scan_long(str_texts(t@), i as int, s.sv()), |p: (ScanState, usize)| step_of(p)),
        r matches Ok(p) ==> i < p.1 <= t@.len(),
{
    let ghost tt = str_texts(t@);
    assert(tt[i as int] == t@[i as int]@);
    let tok = t[i];
    let (name, inline) = split_long(tok);
    match opt_named(name.as_str()) {
        Some(o) => {
            if !allowed(s.level, o) {
                return Err(unexpected(tok));
            }
            if o == Opt::All || o == Opt::Sudo || o == Opt::Rm {
                match inline {
                    Some(v) => Err(flag_value(o, v.as_str())),
                    None => with_position(record_flag(s, o), i + 1),
                }
            } else {
                match inline {
                    Some(v) => with_position(record_value(s, o, v), i + 1),
                    None => {
                        if i + 1 < t.len() && !dashed(t[i + 1]) {
                            assert(tt[i + 1] == t@[i + 1]@);
                            let v = t[i + 1].to_owned();
                            with_position(record_value(s, o, v), i + 2)
                        } else {
                            proof {
                                if i + 1 < t@.len() {
                                    assert(tt[i + 1] == t@[i + 1]@);
                                }
                            }
                            Err(missing_value(o))
                        }
                    },
                }
            }
        },
        None => Err(unexpected(tok)),
    }
}

fn push_text(v: &mut Vec<String>, x: String)
    ensures
        texts(final(v)@) == texts(old(v)@).push(x@),
{
    v.push(x);
    assert(texts(v@) =~= texts(old(v)@).push(x@));
}

fn read_plain(t: &[&str], i: usize, s: ScanState) -> (r: Result<(ScanState, usize), ArgsError>)
    requires
        i < t@.len(),
    ensures
        agrees(r, scan_plain(str_texts(t@), i as int, s.sv()), |p: (ScanState, usize)| step_of(p)),
        r matches Ok(p) ==> p.1 == i + 1,
{
    let ghost tt = str_texts(t@);
    assert(tt[i as int] == t@[i as int]@);
    let tok = t[i];
    if s.level == Level::Top || s.level == Level::SnapshotTop {
        if str_eq(tok, "help") {
            return Err(ArgsError::Help);
        }
        match subcommand(s.level, tok) {
            Some(l) => {
                let s2 = ScanState { level: l, ..s };
                assert(s2.sv() =~= (ScanView { level: l, ..s.sv() }));
                Ok((s2, i + 1))
            },
            None => Err(usage(quote("unrecognized subcommand '", tok, "'"))),
        }
    } else if s.positionals.len() < max_positional_count(s.level) {
        let ghost before = s.sv();
        let mut s2 = s;
        push_text(&mut s2.positionals, tok.to_owned());
        assert(s2.sv() =~= (ScanView { positionals: before.positionals.push(tok@), ..before }));
        Ok((s2, i + 1))
    } else {
        Err(unexpected(tok))
    }
}

fn read_token(t: &[&str], i: usize, s: ScanState) -> (r: Result<(ScanState, usize), ArgsError>)
    requires
        i < t@.len(),
    ensures
        agrees(r, scan_step(str_texts(t@), i as int, s.sv()), |p: (ScanState, usize)| step_of(p)),
        r matches Ok(p) ==> i < p.1 <= t@.len(),
{
    let ghost tt = str_texts(t@);
    assert(tt[i as int] == t@[i as int]@);
    let tok = t[i];
    if s.dashdash {
        if s.level == Level::Exec || s.level == Level::Run {
            let ghost before = s.sv();
            let mut s2 = s;
            push_text(&mut s2.trailing, tok.to_owned());
            assert(s2.sv() =~= (ScanView { trailing: before.trailing.push(tok@), ..before }));
            Ok((s2, i + 1))
        } else if s.positionals.len() < max_positional_count(s.level) {
            let ghost before = s.sv();
            let mut s2 = s;
            push_text(&mut s2.positionals, tok.to_owned());
            assert(s2.sv() =~= (ScanView { positionals: before.positionals.push(tok@), ..before }));
            Ok((s2, i + 1))
        } else {
            Err(unexpected(tok))
        }
    } else if str_eq(tok, "--") {
        let s2 = ScanState { dashdash: true, ..s };
        assert(s2.sv() =~= (ScanView { dashdash: true, ..s.sv() }));
        Ok((s2, i + 1))
    } else if str_eq(tok, "--help") || str_eq(tok, "-h") {
        Err(ArgsError::Help)
    } else {
        let cs = chars_of(tok);
        if cs.len() >= 2 && cs[0] == '-' && cs[1] == '-' {
            read_long(t, i, s)
        } else if cs.len() >= 2 && cs[0] == '-' {
            Err(unexpected(tok))
        } else {
            read_plain(t, i, s)
        }
    }
}

fn missing(what: &str) -> (e: ArgsError)
    ensures
        e@ == ArgsFailure::Usage(missing_msg(what@)),
{
    usage(prefixed("the following required arguments were not provided: ", what))
}

fn finish_state(s: ScanState) -> (r: Result<Cli, ArgsError>)
    ensures
        agrees(r, finish(s.sv()), |c: Cli| c@),
{
    let ghost sv = s.sv();
    let ScanState { level, url, output, runtime, timeout, snapshot, all, sudo, rm, workdir, env, positionals, trailing, dashdash: _ } = s;
    let mut positionals = positionals;
    let url = match url {
        Some(u) => u,
        None => "http://localhost:8080".to_owned(),
    };
    let output = match output {
        Some(f) => f,
        None => OutputFormat::Table,
    };
    let ghost url_v = match sv.url { Some(u) => u, None => "http://localhost:8080"@ };
    assert(url@ == url_v);
    let ghost pos = sv.positionals;
    assert(pos == texts(positionals@));
    let command = match level {
        Level::Top | Level::SnapshotTop => {
            return Err(usage("a subcommand is required".to_owned()));
        },
        Level::Create => match runtime {
            Some(r) => {
                let timeout = match timeout {
                    Some(n) => n,
                    None => 300,
                };
                Commands::Create { runtime: r, timeout, snapshot }
            },
            None => {
                return Err(missing("--runtime <RUNTIME>"));
            },
        },
        Level::List => Commands::List { all },
        Level::Stop => {
            if positionals.len() == 0 {
                return Err(missing("<ID>"));
            }
            assert(pos[0] == positionals@[0]@);
            Commands::Stop { id: positionals.swap_remove(0) }
        },
        Level::Exec => {
            if positionals.len() == 0 {
                return Err(missing("<ID>"));
            }
            if trailing.len() == 0 {
                return Err(missing("<CMD>..."));
            }
            assert(pos[0] == positionals@[0]@);
            let id = positionals.swap_remove(0);
            Commands::Exec { id, sudo, workdir, env, cmd: trailing }
        },
        Level::Copy => {
            if positionals.len() == 0 {
                return Err(missing("<SRC> <DST>"));
            }
            if positionals.len() == 1 {
                return Err(missing("<DST>"));
            }
            assert(pos[0] == positionals@[0]@);
            assert(pos[1] == positionals@[1]@);
            let dst = positionals.remove(1);
            let src = positionals.remove(0);
            Commands::Copy { src, dst }
        },
        Level::Run => match runtime {
            Some(r) => {
                if trailing.len() == 0 {
                    return Err(missing("<CMD>..."));
                }
                Commands::Run { runtime: r, rm, cmd: trailing }
            },
            None => {
                return Err(missing("--runtime <RUNTIME>"));
            },
        },
        Level::Connect => {
            if positionals.len() == 0 {
                return Err(missing("<ID>"));
            }
            assert(pos[0] == positionals@[0]@);
            Commands::Connect { id: positionals.swap_remove(0) }
        },
        Level::SnapshotCreate => {
            if positionals.len() == 0 {
                return Err(missing("<ID>"));
            }
            assert(pos[0] == positionals@[0]@);
            Commands::Snapshot { command: SnapshotCommands::Create { id: positionals.swap_remove(0) } }
        },
        Level::SnapshotList => Commands::Snapshot { command: SnapshotCommands::List },
        Level::SnapshotGet => {
            if positionals.len() == 0 {
                return Err(missing("<ID>"));
            }
            assert(pos[0] == positionals@[0]@);
            Commands::Snapshot { command: SnapshotCommands::Get { id: positionals.swap_remove(0) } }
        },
        Level::SnapshotDelete => {
            if positionals.len() == 0 {
                return Err(missing("<ID>"));
            }
            assert(pos[0] == positionals@[0]@);
            Commands::Snapshot { command: SnapshotCommands::Delete { id: positionals.swap_remove(0) } }
        },
    };
    let cli = Cli { url, output, command };
    proof {
        match finish(sv) {
            Ok(c) => {
                assert(c.command =~= cli.command@);
                assert(c =~= cli@);
            },
            Err(_) => {},
        }
    }
    Ok(cli)
}

impl Cli {
    /// Parses a command line; its first token is the program name.
    pub fn try_parse_from(args: &[&str]) -> (r: Result<Cli, ArgsError>)
        ensures
            match spec_parse_cli(str_texts(args@)) {
                Ok(c) => r matches Ok(x) && x@ == c,
                Err(e) => r matches Err(x) && x@ == e,
            },
    {
        let ghost tt = str_texts(args@);
        let mut s = ScanState::initial();
        let mut i: usize = 1;
        while i < args.len()
            invariant
                1 <= i,
                i <= args@.len() || args@.len() == 0,
                tt == str_texts(args@),
                scan_from(tt, i as int, s.sv()) == scan_from(tt, 1, initial_scan()),
            decreases args@.len() - i,
        {
            let ghost before = s.sv();
            proof {
                assert(before == s.sv());
            }
            match read_token(args, i, s) {
                Ok((s2, j)) => {
                    assert(scan_step(tt, i as int, before) == Ok::<(ScanView, int), ArgsFailure>((s2.sv(), j as int)));
                    assert(scan_from(tt, i as int, before) == scan_from(tt, j as int, s2.sv()));
                    s = s2;
                    i = j;
                },
                Err(e) => {
                    assert(scan_from(tt, i as int, before) == Err::<ScanView, ArgsFailure>(e@));
                    
                    assert(spec_parse_cli(tt) == Err::<CliView, ArgsFailure>(e@));
                    return Err(e);
                },
            }
        }
        finish_state(s)
    }
}

} // verus!
