//! Properties that hold across the library's operations.

use vstd::prelude::*;
use crate::args::{
    is_dashed, is_long, long_inline, long_name, scan_from, scan_step, spec_opt_named, spec_parse_cli, CliView,
    CommandsView, Opt, ScanView, initial_scan, ArgsFailure,
};
use crate::cli::spec_env_vars;
use crate::text::lemma_first_index_of;
use crate::credential::no_rule_matches;
use crate::domain::matches_lowered;
use crate::firewall::spec_policy_rules;
use crate::network::{spec_cidr_text, spec_in_any, IpAddress, NetworkMode, NetworkPolicy};
use crate::policy::{spec_allow_domain, spec_allow_ip, spec_evaluate, PolicyDecision};
use crate::proxy::{header_lines, spec_extract_port, spec_needs_domain_proxy, spliced};
use crate::error::{RustboxError, StorageError};
use crate::registry::{
    after_output, collected, command_index, count_ok, count_true, has_exit, sandbox_ids_distinct, sandbox_index, spec_insert,
    spec_reap_plan, spec_remove_all, spec_remove_id, spec_started, spec_timed_out_ids, stream_status,
    with_timeout, lemma_stream_without_exit, CommandRecord, OutputPump, TimeoutSweep,
};
use crate::sandbox::SandboxConfig;
use crate::storage::SnapshotMetadata;
use crate::sandbox::{
    spec_console_writes, spec_output_entry, entry_view, CommandOutput, CommandOutputEntry, CommandStatus, Console,
    Sandbox, SandboxStatus,
};
use crate::dto::log_entries;
use crate::redirect::{spec_delete_args, spec_deletions};
use crate::tls::{ca_request_view, server_request_view, CA_NAME, CA_VALID_FROM, CA_VALID_UNTIL};
use crate::sdk::trim_slashes;
use crate::storage::{overlay_dir, spec_join};
use crate::string_map::{index_of_name, map_insert, names_distinct};
use crate::text::{last_index_of, split_once};
use crate::time::{spec_timed_out, total_nanos, whole_seconds, Timestamp, TimestampView};

verus! {

/// A wildcard pattern `*.s` never matches the bare domain `s`.
pub proof fn law_wildcard_rejects_bare(s: Seq<char>)
    ensures
        !matches_lowered(seq!['*', '.'] + s, s),
{
    assert((seq!['*', '.'] + s).skip(2) =~= s);
}

/// A wildcard pattern `*.s` matches every domain that ends in `.s`, however
/// deeply nested.
pub proof fn law_wildcard_matches_subdomains(s: Seq<char>, x: Seq<char>)
    ensures
        matches_lowered(seq!['*', '.'] + s, x + seq!['.'] + s),
{
    let d = x + seq!['.'] + s;
    assert((seq!['*', '.'] + s).skip(2) =~= s);
    assert(d.skip(d.len() - s.len() - 1) =~= seq!['.'] + s);
}

/// An address inside a denied subnet is always refused, whatever the mode
/// and the allowed subnets.
pub proof fn law_denied_subnet_refuses(p: NetworkPolicy, ip: IpAddress)
    requires
        spec_in_any(p.subnets_deny@, ip),
    ensures
        !spec_allow_ip(p, ip),
{
}

/// Under `AllowAll` every domain passes the domain check.
pub proof fn law_allow_all_allows_domains(p: NetworkPolicy, d: Seq<char>)
    requires
        p.mode == NetworkMode::AllowAll,
    ensures
        spec_allow_domain(p, d),
{
}

/// Under `DenyAll` with no allowed domains, no domain passes.
pub proof fn law_deny_all_without_list_denies(p: NetworkPolicy, d: Seq<char>)
    requires
        p.mode == NetworkMode::DenyAll,
        p.allow_domains@.len() == 0,
    ensures
        !spec_allow_domain(p, d),
{
}

/// A header rule that matches the domain decides the connection: it is
/// allowed with that rule's headers, whatever the mode and the lists say.
pub proof fn law_transform_rule_wins(p: NetworkPolicy, d: Seq<char>, ip: IpAddress, r: PolicyDecision)
    requires
        !no_rule_matches(p.transform_rules@, d),
        spec_evaluate(p, d, ip, r),
    ensures
        r is AllowWithTransform,
{
}

/// Without a matching header rule, a connection is allowed exactly when both
/// its domain and its address are.
pub proof fn law_plain_decision(p: NetworkPolicy, d: Seq<char>, ip: IpAddress, r: PolicyDecision)
    requires
        no_rule_matches(p.transform_rules@, d),
        spec_evaluate(p, d, ip, r),
    ensures
        (r is Allow) <==> (spec_allow_domain(p, d) && spec_allow_ip(p, ip)),
        r is Allow || r is Deny,
{
}

/// Injecting headers keeps the request up to the end of its last header line
/// and everything from the empty line on (the body included); only the new
/// header lines come between.
pub proof fn law_injection_keeps_request(r: Seq<u8>, i: int, h: Seq<(Seq<char>, Seq<char>)>)
    requires
        0 <= i,
        i + 2 <= r.len(),
    ensures
        spliced(r, i, h).take(i + 2) == r.take(i + 2),
        spliced(r, i, h).skip(i + 2 + header_lines(h).len()) == r.skip(i + 2),
        spliced(r, i, h).len() == r.len() + header_lines(h).len(),
{
    let s = spliced(r, i, h);
    assert(s.take(i + 2) =~= r.take(i + 2));
    assert(s.skip(i + 2 + header_lines(h).len()) =~= r.skip(i + 2));
}

/// A host without `:` has no port of its own: the default is used.
pub proof fn law_port_defaults_without_colon(host: Seq<char>, default_port: u16)
    requires
        forall|k: int| 0 <= k < host.len() ==> host[k] != ':',
    ensures
        spec_extract_port(host, default_port) == default_port,
    decreases host.len(),
{
    lemma_no_last_index(host, ':');
}

proof fn lemma_no_last_index(s: Seq<char>, c: char)
    requires
        forall|k: int| 0 <= k < s.len() ==> s[k] != c,
    ensures
        last_index_of(s, c) is None,
    decreases s.len(),
{
    if s.len() > 0 {
        lemma_no_last_index(s.drop_last(), c);
    }
}

/// The firewall ends every rule set with the mode's own rule, `accept` under
/// `AllowAll`, `drop` under `DenyAll`; under `DenyAll` loopback traffic is
/// accepted first.
pub proof fn law_firewall_default_verdict(p: NetworkPolicy)
    ensures
        spec_policy_rules(p).len() >= 1,
        p.mode == NetworkMode::AllowAll ==> spec_policy_rules(p).last() == "add rule inet filter output accept"@,
        p.mode == NetworkMode::DenyAll ==> spec_policy_rules(p).last() == "add rule inet filter output drop"@
            && spec_policy_rules(p)[0] == "add rule inet filter output oif lo accept"@,
{
}

/// Policies with neither header rules nor an allow-list under `DenyAll` are
/// enforced by the firewall alone, without the domain proxy.
pub proof fn law_subnet_only_needs_no_proxy(p: NetworkPolicy)
    requires
        p.transform_rules@.len() == 0,
        p.allow_domains@.len() == 0 || p.mode == NetworkMode::AllowAll,
    ensures
        !spec_needs_domain_proxy(p),
{
}

/// After setting `k` to `v`, the entry for `k` holds `v`, and keys stay unique.
pub proof fn law_map_insert_then_get(s: Seq<(Seq<char>, Seq<char>)>, k: Seq<char>, v: Seq<char>)
    requires
        names_distinct(s),
    ensures
        names_distinct(map_insert(s, k, v)),
        index_of_name(map_insert(s, k, v), k) matches Some(i) && map_insert(s, k, v)[i] == (k, v),
{
    let m = map_insert(s, k, v);
    match index_of_name(s, k) {
        Some(i) => {
            assert(m[i].0 == k);
            assert(names_distinct(m));
            let j = choose|j: int| 0 <= j < m.len() && m[j].0 == k;
            assert(j == i);
        },
        None => {
            assert(m[s.len() as int].0 == k);
            assert(names_distinct(m));
            let j = choose|j: int| 0 <= j < m.len() && m[j].0 == k;
            assert(j == s.len());
        },
    }
}

/// A sandbox added to the table is found under its id afterwards.
pub proof fn law_sandbox_insert_then_find(t: Seq<Sandbox>, s: Sandbox)
    requires
        sandbox_ids_distinct(t),
    ensures
        ({
            let t2 = match sandbox_index(t, s.id@) {
                Some(i) => t.update(i, s),
                None => t.push(s),
            };
            sandbox_index(t2, s.id@) matches Some(j) && t2[j] == s
        }),
{
    let t2 = match sandbox_index(t, s.id@) {
        Some(i) => t.update(i, s),
        None => t.push(s),
    };
    match sandbox_index(t, s.id@) {
        Some(i) => {
            assert(t2[i].id@ == s.id@);
            let j = choose|j: int| 0 <= j < t2.len() && t2[j].id@ == s.id@;
            if j != i {
                assert(t2[j] == t[j]);
            }
        },
        None => {
            assert(t2[t.len() as int].id@ == s.id@);
            let j = choose|j: int| 0 <= j < t2.len() && t2[j].id@ == s.id@;
            if j != t.len() {
                assert(t2[j] == t[j]);
            }
        },
    }
}

/// Once a sandbox is removed, its id is no longer found.
pub proof fn law_sandbox_remove_then_missing(t: Seq<Sandbox>, id: Seq<char>)
    requires
        sandbox_ids_distinct(t),
        sandbox_index(t, id) is Some,
    ensures
        sandbox_index(t.remove(sandbox_index(t, id)->0), id) is None,
{
    let i = sandbox_index(t, id)->0;
    let t2 = t.remove(i);
    assert forall|j: int| 0 <= j < t2.len() implies t2[j].id@ != id by {
        if j < i {
            assert(t2[j] == t[j]);
        } else {
            assert(t2[j] == t[j + 1]);
        }
    }
}

/// Whole seconds never decrease as the span grows.
proof fn lemma_whole_seconds_monotone(a: int, b: int)
    requires
        a <= b,
    ensures
        whole_seconds(a) <= whole_seconds(b),
{
    if a >= 0 {
        assert(a / 1_000_000_000 <= b / 1_000_000_000) by (nonlinear_arith)
            requires 0 <= a <= b;
    } else if b >= 0 {
        assert(-((-a) / 1_000_000_000) <= 0) by (nonlinear_arith)
            requires a < 0;
        assert(b / 1_000_000_000 >= 0) by (nonlinear_arith)
            requires b >= 0;
    } else {
        assert((-b) / 1_000_000_000 <= (-a) / 1_000_000_000) by (nonlinear_arith)
            requires 0 < -b <= -a;
    }
}

/// A sandbox that has run out of time stays out of time later on.
pub proof fn law_timeout_is_permanent(created: TimestampView, now: TimestampView, later: TimestampView, timeout_secs: u64)
    requires
        total_nanos(now) <= total_nanos(later),
        spec_timed_out(created, now, timeout_secs),
    ensures
        spec_timed_out(created, later, timeout_secs),
{
    lemma_whole_seconds_monotone(total_nanos(now) - total_nanos(created), total_nanos(later) - total_nanos(created));
}

/// The client's base URL never ends with `/` and is a prefix of the URL given.
pub proof fn law_base_url_trimmed(url: Seq<char>)
    ensures
        trim_slashes(url).len() == 0 || trim_slashes(url).last() != '/',
        trim_slashes(url).is_prefix_of(url),
    decreases url.len(),
{
    if url.len() > 0 && url.last() == '/' {
        law_base_url_trimmed(url.drop_last());
        assert(url.drop_last().is_prefix_of(url));
    } else {
        assert(url.is_prefix_of(url));
    }
}

/// Two sandboxes with different relative ids get different overlay
/// directories of every kind.
pub proof fn law_overlay_dirs_distinct(base: Seq<char>, kind: Seq<char>, a: Seq<char>, b: Seq<char>)
    requires
        a != b,
        a.len() == 0 || a[0] != '/',
        b.len() == 0 || b[0] != '/',
    ensures
        overlay_dir(base, kind, a) != overlay_dir(base, kind, b),
{
    let k = spec_join(base, kind);
    if k.len() > 0 && k.last() != '/' {
        let pa = k + "/"@;
        if overlay_dir(base, kind, a) == overlay_dir(base, kind, b) {
            assert((pa + a).skip(pa.len() as int) =~= a);
            assert((pa + b).skip(pa.len() as int) =~= b);
        }
    } else {
        if overlay_dir(base, kind, a) == overlay_dir(base, kind, b) {
            assert((k + a).skip(k.len() as int) =~= a);
            assert((k + b).skip(k.len() as int) =~= b);
        }
    }
}

/// Reading environment entries never yields the same key twice.
proof fn lemma_env_vars_distinct(entries: Seq<Seq<char>>)
    requires
        spec_env_vars(entries) is Some,
    ensures
        names_distinct(spec_env_vars(entries)->0),
    decreases entries.len(),
{
    if entries.len() > 0 {
        lemma_env_vars_distinct(entries.drop_last());
        let (k, v) = split_once(entries.last(), '=')->0;
        law_map_insert_then_get(spec_env_vars(entries.drop_last())->0, k, v);
    }
}

/// Every entry of a readable list has a `=`.
proof fn lemma_env_entry_splits(entries: Seq<Seq<char>>, j: int)
    requires
        0 <= j < entries.len(),
        spec_env_vars(entries) is Some,
    ensures
        split_once(entries[j], '=') is Some,
    decreases entries.len(),
{
    if j < entries.len() - 1 {
        lemma_env_entry_splits(entries.drop_last(), j);
    }
}

/// Setting another key keeps an entry where it is.
proof fn lemma_insert_keeps_other(s: Seq<(Seq<char>, Seq<char>)>, k: Seq<char>, v: Seq<char>, i: int)
    requires
        names_distinct(s),
        0 <= i < s.len(),
        s[i].0 != k,
        index_of_name(s, s[i].0) == Some(i),
    ensures
        index_of_name(map_insert(s, k, v), s[i].0) == Some(i),
        map_insert(s, k, v)[i] == s[i],
{
    let m = map_insert(s, k, v);
    law_map_insert_then_get(s, k, v);
    match index_of_name(s, k) {
        Some(j) => {
            assert(j != i);
            assert(m[i] == s[i]);
        },
        None => {
            assert(m[i] == s[i]);
        },
    }
    let c = choose|c: int| 0 <= c < m.len() && m[c].0 == s[i].0;
    assert(m[i].0 == s[i].0);
    assert(c == i);
}

/// The key of an environment entry: the text before its first `=`.
pub open spec fn env_key(e: Seq<char>) -> Seq<char> {
    match split_once(e, '=') {
        Some((k, _)) => k,
        None => e,
    }
}

/// In environment entries read in order, the value a key ends up with is
/// the one of its last entry.
pub proof fn law_env_last_entry_wins(entries: Seq<Seq<char>>, j: int)
    requires
        0 <= j < entries.len(),
        spec_env_vars(entries) is Some,
        forall|k: int| j < k < entries.len() ==> env_key(#[trigger] entries[k]) != env_key(entries[j]),
    ensures
        ({
            let kv = split_once(entries[j], '=')->0;
            let m = spec_env_vars(entries)->0;
            index_of_name(m, kv.0) matches Some(i) && m[i] == kv
        }),
    decreases entries.len(),
{
    let n = entries.len();
    let prev = entries.drop_last();
    lemma_env_vars_distinct(prev);
    let (k, v) = split_once(entries.last(), '=')->0;
    if j == n - 1 {
        law_map_insert_then_get(spec_env_vars(prev)->0, k, v);
    } else {
        assert forall|x: int| j < x < prev.len() implies
            env_key(#[trigger] prev[x]) != env_key(prev[j]) by {
            assert(prev[x] == entries[x]);
        }
        law_env_last_entry_wins(prev, j);
        let kv = split_once(entries[j], '=')->0;
        let pm = spec_env_vars(prev)->0;
        let i = index_of_name(pm, kv.0)->0;
        lemma_env_entry_splits(entries, j);
        lemma_env_entry_splits(entries, n - 1);
        assert(env_key(entries[n - 1]) != env_key(entries[j]));
        assert(k != kv.0);
        lemma_insert_keeps_other(pm, k, v, i);
    }
}

/// A sandbox created under a fresh id is added at the end: the list grows
/// by one, keeps what it had, and the new id finds the new sandbox.
pub proof fn law_create_adds_one(t: Seq<Sandbox>, s: Sandbox)
    requires
        sandbox_ids_distinct(t),
        sandbox_index(t, s.id@) is None,
    ensures
        spec_insert(t, s).len() == t.len() + 1,
        spec_insert(t, s).take(t.len() as int) == t,
        spec_insert(t, s)[t.len() as int] == s,
        sandbox_index(spec_insert(t, s), s.id@) == Some(t.len() as int),
        sandbox_ids_distinct(spec_insert(t, s)),
{
    let t2 = t.push(s);
    assert(t2.take(t.len() as int) =~= t);
    assert forall|j: int| 0 <= j < t.len() implies t[j].id@ != s.id@ by {
        if t[j].id@ == s.id@ {
            assert(exists|i: int| 0 <= i < t.len() && t[i].id@ == s.id@);
        }
    }
    assert forall|a: int, b: int| 0 <= a < t2.len() && 0 <= b < t2.len() && a != b implies t2[a].id@ != t2[b].id@ by {
        if a < t.len() {
            assert(t2[a] == t[a]);
        }
        if b < t.len() {
            assert(t2[b] == t[b]);
        }
    }
    assert(t2[t.len() as int].id@ == s.id@);
    let j = choose|j: int| 0 <= j < t2.len() && t2[j].id@ == s.id@;
    if j != t.len() {
        assert(t2[j] == t[j]);
    }
}

/// After a sandbox's timeout is set, looking it up by id gives the same
/// sandbox with that timeout and everything else as it was.
pub proof fn law_timeout_then_get(t: Seq<Sandbox>, id: Seq<char>, secs: u64)
    requires
        sandbox_ids_distinct(t),
        sandbox_index(t, id) is Some,
    ensures
        ({
            let i = sandbox_index(t, id)->0;
            let t2 = t.update(i, with_timeout(t[i], secs));
            &&& sandbox_index(t2, id) == Some(i)
            &&& t2[i] == with_timeout(t[i], secs)
            &&& t2[i].config.timeout_secs == secs
            &&& sandbox_ids_distinct(t2)
        }),
{
    let i = sandbox_index(t, id)->0;
    let t2 = t.update(i, with_timeout(t[i], secs));
    assert(t2[i].id@ == id);
    assert forall|a: int, b: int| 0 <= a < t2.len() && 0 <= b < t2.len() && a != b implies t2[a].id@ != t2[b].id@ by {
        assert(t2[a].id == t[a].id);
        assert(t2[b].id == t[b].id);
    }
    let j = choose|j: int| 0 <= j < t2.len() && t2[j].id@ == id;
    if j != i {
        assert(t2[j] == t[j]);
    }
}

/// Step `k` of a command's log: the record after the `k`-th piece of output.
pub open spec fn logged_step(recs: Seq<CommandRecord>, outs: Seq<CommandOutput>, k: int) -> bool {
    after_output(recs[k], recs[k + 1], outs[k])
}

/// What is collected is what was delivered, cut after the first exit.
proof fn lemma_collected_prefix(d: Seq<CommandOutput>)
    ensures
        collected(d).is_prefix_of(d),
    decreases d.len(),
{
    if d.len() > 0 && !(d[0] is Exit) {
        lemma_collected_prefix(d.drop_first());
        let c = collected(d);
        assert forall|k: int| 0 <= k < c.len() implies c[k] == d[k] by {
            if k > 0 {
                assert(c[k] == collected(d.drop_first())[k - 1]);
            }
        }
    }
}

/// The stream law from any log a running command already has.
proof fn lemma_output_stream(recs: Seq<CommandRecord>, d: Seq<CommandOutput>, start: Seq<CommandOutput>)
    requires
        recs.len() == collected(d).len() + 1,
        recs[0].status == CommandStatus::Running,
        recs[0].output_log@ == start,
        forall|k: int| 0 <= k < collected(d).len() ==> #[trigger] logged_step(recs, collected(d), k),
    ensures
        recs.last().output_log@ == start + collected(d),
        recs.last().status == stream_status(d),
        forall|k: int| 0 <= k < recs.len() - 1 ==> (#[trigger] recs[k]).status == CommandStatus::Running,
    decreases d.len(),
{
    if d.len() == 0 {
        assert(start + collected(d) =~= start);
    } else {
        assert(logged_step(recs, collected(d), 0));
        assert(collected(d)[0] == d[0]);
        if d[0] is Exit {
            assert(start + collected(d) =~= start.push(d[0]));
        } else {
            let rest = d.drop_first();
            let r2 = recs.drop_first();
            assert(collected(d) == seq![d[0]] + collected(rest));
            assert forall|k: int| 0 <= k < collected(rest).len() implies #[trigger] logged_step(r2, collected(rest), k) by {
                assert(logged_step(recs, collected(d), k + 1));
                assert(collected(d)[k + 1] == collected(rest)[k]);
                assert(r2[k] == recs[k + 1]);
                assert(r2[k + 1] == recs[k + 2]);
            }
            lemma_output_stream(r2, rest, start.push(d[0]));
            assert(start.push(d[0]) + collected(rest) =~= start + collected(d));
            assert(r2.last() == recs.last());
            assert forall|k: int| 0 <= k < recs.len() - 1 implies (#[trigger] recs[k]).status == CommandStatus::Running by {
                if k > 0 {
                    assert(recs[k] == r2[k - 1]);
                }
            }
        }
    }
}

/// A just-started command fed what its process delivers, up to and
/// including the first exit, logs exactly that output in order; it is
/// running until the exit is logged and then completed with the exit's code.
pub proof fn law_output_stream(recs: Seq<CommandRecord>, d: Seq<CommandOutput>)
    requires
        recs.len() == collected(d).len() + 1,
        recs[0].status == CommandStatus::Running,
        recs[0].output_log@.len() == 0,
        forall|k: int| 0 <= k < collected(d).len() ==> #[trigger] logged_step(recs, collected(d), k),
    ensures
        collected(d).is_prefix_of(d),
        recs.last().output_log@ == collected(d),
        recs.last().status == stream_status(d),
        forall|k: int| 0 <= k < recs.len() - 1 ==> (#[trigger] recs[k]).status == CommandStatus::Running,
{
    lemma_collected_prefix(d);
    lemma_output_stream(recs, d, recs[0].output_log@);
    assert(recs[0].output_log@ + collected(d) =~= collected(d));
}

/// Removing by id keeps ids distinct and keeps exactly the sandboxes with
/// another id.
proof fn lemma_remove_id(t: Seq<Sandbox>, x: Seq<char>)
    requires
        sandbox_ids_distinct(t),
    ensures
        sandbox_ids_distinct(spec_remove_id(t, x)),
        forall|s: Sandbox| #[trigger] spec_remove_id(t, x).contains(s) <==> (t.contains(s) && s.id@ != x),
{
    match sandbox_index(t, x) {
        None => {
            assert forall|s: Sandbox| #[trigger] t.contains(s) implies s.id@ != x by {
                let k = choose|k: int| 0 <= k < t.len() && t[k] == s;
                if s.id@ == x {
                    assert(0 <= k < t.len() && t[k].id@ == x);
                }
            }
        },
        Some(i) => {
            assert(0 <= i < t.len() && t[i].id@ == x);
            let r = t.remove(i);
            assert forall|a: int, b: int| 0 <= a < r.len() && 0 <= b < r.len() && a != b implies r[a].id@ != r[b].id@ by {
                let a2 = if a < i { a } else { a + 1 };
                let b2 = if b < i { b } else { b + 1 };
                assert(r[a] == t[a2]);
                assert(r[b] == t[b2]);
            }
            assert forall|s: Sandbox| #[trigger] r.contains(s) <==> (t.contains(s) && s.id@ != x) by {
                if r.contains(s) {
                    let j = choose|j: int| 0 <= j < r.len() && r[j] == s;
                    let j2 = if j < i { j } else { j + 1 };
                    assert(r[j] == t[j2]);
                    assert(t[j2] == s);
                    assert(j2 != i);
                }
                if t.contains(s) && s.id@ != x {
                    let k = choose|k: int| 0 <= k < t.len() && t[k] == s;
                    assert(k != i);
                    let j = if k < i { k } else { k - 1 };
                    assert(r[j] == t[k]);
                }
            }
        },
    }
}

/// Removing sandboxes by a list of ids keeps exactly those whose id is not
/// in the list.
proof fn lemma_remove_all(t: Seq<Sandbox>, ids: Seq<Seq<char>>)
    requires
        sandbox_ids_distinct(t),
    ensures
        forall|s: Sandbox| #[trigger] spec_remove_all(t, ids).contains(s) <==> (t.contains(s) && !ids.contains(s.id@)),
    decreases ids.len(),
{
    if ids.len() > 0 {
        let t1 = spec_remove_id(t, ids[0]);
        lemma_remove_id(t, ids[0]);
        lemma_remove_all(t1, ids.drop_first());
        assert(spec_remove_all(t, ids) == spec_remove_all(t1, ids.drop_first()));
        assert forall|s: Sandbox| #[trigger] spec_remove_all(t, ids).contains(s) <==> (t.contains(s) && !ids.contains(s.id@)) by {
            let y = s.id@;
            assert(spec_remove_all(t1, ids.drop_first()).contains(s) <==> (t1.contains(s) && !ids.drop_first().contains(y)));
            assert(t1.contains(s) <==> (t.contains(s) && y != ids[0]));
            if ids.contains(y) {
                let k = choose|k: int| 0 <= k < ids.len() && ids[k] == y;
                if k > 0 {
                    assert(ids.drop_first()[k - 1] == ids[k]);
                }
            }
            if ids.drop_first().contains(y) {
                let k = choose|k: int| 0 <= k < ids.drop_first().len() && ids.drop_first()[k] == y;
                assert(ids[k + 1] == ids.drop_first()[k]);
            }
            if ids[0] == y {
                assert(ids.contains(y));
            }
        }
    }
}

/// An id is among the timed-out ids exactly when a sandbox with that id has
/// run out of time.
proof fn lemma_timed_out_ids(t: Seq<Sandbox>, now: Timestamp)
    ensures
        forall|id: Seq<char>| #[trigger] spec_timed_out_ids(t, now).contains(id) <==> exists|k: int|
            0 <= k < t.len() && t[k].id@ == id && spec_timed_out(t[k].created_at@, now@, t[k].config.timeout_secs),
    decreases t.len(),
{
    if t.len() > 0 {
        let p = t.drop_last();
        lemma_timed_out_ids(p, now);
        let prev = spec_timed_out_ids(p, now);
        let x = t.last();
        assert forall|id: Seq<char>| #[trigger] spec_timed_out_ids(t, now).contains(id) <==> exists|k: int|
            0 <= k < t.len() && t[k].id@ == id && spec_timed_out(t[k].created_at@, now@, t[k].config.timeout_secs) by {
            let last_hit = x.id@ == id && spec_timed_out(x.created_at@, now@, x.config.timeout_secs);
            if prev.contains(id) {
                let k = choose|k: int|
                    0 <= k < p.len() && p[k].id@ == id && spec_timed_out(p[k].created_at@, now@, p[k].config.timeout_secs);
                assert(t[k] == p[k]);
            }
            if exists|k: int| 0 <= k < t.len() && t[k].id@ == id && spec_timed_out(t[k].created_at@, now@, t[k].config.timeout_secs) {
                let k = choose|k: int|
                    0 <= k < t.len() && t[k].id@ == id && spec_timed_out(t[k].created_at@, now@, t[k].config.timeout_secs);
                if k < t.len() - 1 {
                    assert(p[k] == t[k]);
                    assert(prev.contains(id));
                } else {
                    assert(last_hit);
                }
            }
            if spec_timed_out(x.created_at@, now@, x.config.timeout_secs) {
                let ids = prev.push(x.id@);
                assert(ids[prev.len() as int] == x.id@);
                if prev.contains(id) {
                    let k = choose|k: int| 0 <= k < prev.len() && prev[k] == id;
                    assert(ids[k] == prev[k]);
                }
                if ids.contains(id) {
                    let k = choose|k: int| 0 <= k < ids.len() && ids[k] == id;
                    if k < prev.len() {
                        assert(ids[k] == prev[k]);
                    }
                }
                if last_hit {
                    assert(t[t.len() - 1] == x);
                }
            } else {
                if last_hit {
                    assert(false);
                }
            }
        }
    }
}

/// A timeout sweep that stops every sandbox it finds out of time leaves
/// exactly the sandboxes that still have time.
pub proof fn law_timeout_sweep(t: Seq<Sandbox>, now: Timestamp)
    requires
        sandbox_ids_distinct(t),
    ensures
        forall|s: Sandbox| #[trigger] spec_remove_all(t, spec_timed_out_ids(t, now)).contains(s)
            <==> (t.contains(s) && !spec_timed_out(s.created_at@, now@, s.config.timeout_secs)),
{
    let e = spec_timed_out_ids(t, now);
    lemma_remove_all(t, e);
    lemma_timed_out_ids(t, now);
    assert forall|s: Sandbox| #[trigger] spec_remove_all(t, e).contains(s)
        <==> (t.contains(s) && !spec_timed_out(s.created_at@, now@, s.config.timeout_secs)) by {
        if t.contains(s) {
            let k = choose|k: int| 0 <= k < t.len() && t[k] == s;
            if e.contains(s.id@) {
                let k2 = choose|k2: int| 0 <= k2 < t.len() && t[k2].id@ == s.id@
                    && spec_timed_out(t[k2].created_at@, now@, t[k2].config.timeout_secs);
                assert(k2 == k);
            }
            if spec_timed_out(s.created_at@, now@, s.config.timeout_secs) {
                assert(t[k].id@ == s.id@);
                assert(e.contains(s.id@));
            }
        }
    }
}

/// When every stop succeeds, the sweep counts one per sandbox it stopped.
pub proof fn law_all_stops_counted(outcomes: Seq<Result<(), RustboxError>>)
    requires
        forall|i: int| 0 <= i < outcomes.len() ==> (#[trigger] outcomes[i]) is Ok,
    ensures
        count_ok(outcomes) == outcomes.len(),
    decreases outcomes.len(),
{
    if outcomes.len() > 0 {
        let p = outcomes.drop_last();
        assert forall|i: int| 0 <= i < p.len() implies (#[trigger] p[i]) is Ok by {
            assert(p[i] == outcomes[i]);
        }
        law_all_stops_counted(p);
    }
}

/// A reaping pass counts exactly the deletions the store confirmed: all of
/// them when every deletion is confirmed, none when nothing was listed.
pub proof fn law_confirmed_deletions_counted(outcomes: Seq<Result<bool, StorageError>>)
    requires
        forall|i: int| 0 <= i < outcomes.len() ==> (#[trigger] outcomes[i]) == Ok::<bool, StorageError>(true),
    ensures
        count_true(outcomes) == outcomes.len(),
        count_true(Seq::<Result<bool, StorageError>>::empty()) == 0,
    decreases outcomes.len(),
{
    if outcomes.len() > 0 {
        let p = outcomes.drop_last();
        assert forall|i: int| 0 <= i < p.len() implies (#[trigger] p[i]) == Ok::<bool, StorageError>(true) by {
            assert(p[i] == outcomes[i]);
        }
        law_confirmed_deletions_counted(p);
    }
}

/// Creating a sandbox under a fresh id: once the backend has created and
/// started it, the list has one more entry, the earlier ones unchanged, and
/// looking the id up gives a running sandbox with the configuration asked
/// for, started and not stopped.
pub proof fn law_create_then_get(t: Seq<Sandbox>, id: String, config: SandboxConfig, now: Timestamp)
    requires
        sandbox_ids_distinct(t),
        sandbox_index(t, id@) is None,
    ensures
        ({
            let t2 = spec_insert(t, spec_started(id, config, now));
            &&& t2.len() == t.len() + 1
            &&& t2.take(t.len() as int) == t
            &&& sandbox_index(t2, id@) == Some(t.len() as int)
            &&& t2[t.len() as int].id == id
            &&& t2[t.len() as int].status == SandboxStatus::Running
            &&& t2[t.len() as int].config == config
            &&& t2[t.len() as int].created_at == now
            &&& t2[t.len() as int].started_at == Some(now)
            &&& t2[t.len() as int].stopped_at is None
        }),
{
    law_create_adds_one(t, spec_started(id, config, now));
}

/// A timeout sweep in which every sandbox found out of time was stopped and
/// removed leaves exactly the sandboxes that still had time, and counts one
/// per sandbox found.
pub proof fn law_sweep_complete(w: TimeoutSweep, t: Seq<Sandbox>)
    requires
        sandbox_ids_distinct(w.start()),
        w.ids() == spec_timed_out_ids(w.start(), w.now()),
        w.on_track(t),
        w.clean(),
        w.handled() == w.ids().len(),
    ensures
        forall|s: Sandbox| #[trigger] t.contains(s)
            <==> (w.start().contains(s) && !spec_timed_out(s.created_at@, w.now()@, s.config.timeout_secs)),
        w.stopped() == spec_timed_out_ids(w.start(), w.now()).len(),
{
    assert(w.ids().take(w.handled() as int) =~= w.ids());
    law_timeout_sweep(w.start(), w.now());
}

/// What a command's log holds while its output is fed: everything
/// delivered, in order, and running, until the exit; from the exit on, the
/// output up to and including it and completed with its code.
pub proof fn law_pump_log(p: OutputPump, t: Seq<CommandRecord>)
    requires
        p.in_step(t),
    ensures
        ({
            let i = command_index(t, p.id())->0;
            &&& t[i].output_log@.is_prefix_of(p.offered())
            &&& !has_exit(p.offered()) ==> t[i].output_log@ == p.offered() && t[i].status == CommandStatus::Running
            &&& t[i].output_log@ == collected(p.offered())
            &&& t[i].status == stream_status(p.offered())
        }),
{
    lemma_collected_prefix(p.offered());
    if !has_exit(p.offered()) {
        lemma_stream_without_exit(p.offered(), CommandOutput::Exit(0));
    }
}

/// A reaping pass in which every listed snapshot was deleted counts them
/// all; one whose listing failed deletes and counts nothing.
pub proof fn law_reap_pass(listed: Result<Vec<SnapshotMetadata>, StorageError>, outcomes: Seq<Result<bool, StorageError>>)
    requires
        outcomes.len() == spec_reap_plan(listed).len(),
        forall|i: int| 0 <= i < outcomes.len() ==> (#[trigger] outcomes[i]) == Ok::<bool, StorageError>(true),
    ensures
        count_true(outcomes) == spec_reap_plan(listed).len(),
        listed is Err ==> spec_reap_plan(listed).len() == 0 && count_true(outcomes) == 0,
{
    law_confirmed_deletions_counted(outcomes);
}

/// Every subnet of the policy's list gets its own rule, in list order,
/// between the fixed rules: under `AllowAll` a drop rule per denied subnet and
/// then the final accept; under `DenyAll` the loopback accept, an accept rule
/// per allowed subnet, then the final drop.
pub proof fn law_firewall_rule_per_subnet(p: NetworkPolicy)
    ensures
        p.mode == NetworkMode::AllowAll ==> {
            let r = spec_policy_rules(p);
            &&& r.len() == p.subnets_deny@.len() + 1
            &&& forall|i: int| 0 <= i < p.subnets_deny@.len() ==> r[i]
                == "add rule inet filter output ip daddr "@ + spec_cidr_text((#[trigger] p.subnets_deny@[i])@) + " drop"@
            &&& r[r.len() - 1] == "add rule inet filter output accept"@
        },
        p.mode == NetworkMode::DenyAll ==> {
            let r = spec_policy_rules(p);
            &&& r.len() == p.subnets_allow@.len() + 2
            &&& r[0] == "add rule inet filter output oif lo accept"@
            &&& forall|i: int| 0 <= i < p.subnets_allow@.len() ==> r[i + 1]
                == "add rule inet filter output ip daddr "@ + spec_cidr_text((#[trigger] p.subnets_allow@[i])@) + " accept"@
            &&& r[r.len() - 1] == "add rule inet filter output drop"@
        },
{
}

/// Cleaning up removes every listed redirect rule for the interface: one
/// deletion per line that is such a rule, in listing order, each with that
/// line's arguments.
pub proof fn law_deletions_one_per_rule_line(lines: Seq<Seq<char>>, interface: Seq<char>)
    ensures
        spec_deletions(lines, interface) == lines.filter(|l: Seq<char>| spec_delete_args(l, interface) is Some)
            .map_values(|l: Seq<char>| spec_delete_args(l, interface)->0),
    decreases lines.len(),
{
    reveal(Seq::filter);
    if lines.len() > 0 {
        law_deletions_one_per_rule_line(lines.drop_last(), interface);
        let pred = |l: Seq<char>| spec_delete_args(l, interface) is Some;
        let f = |l: Seq<char>| spec_delete_args(l, interface)->0;
        let prev = lines.drop_last().filter(pred);
        if pred(lines.last()) {
            assert(prev.push(lines.last()).map_values(f) =~= prev.map_values(f).push(f(lines.last())));
        }
    }
}

/// The authority's own certificate is requested as an unconstrained CA named
/// `CA_NAME`, with no alternative names, valid from `CA_VALID_FROM` to
/// `CA_VALID_UNTIL`; a server certificate for `d` is requested for exactly
/// the one name `d`, as no CA, with no common name and rcgen's validity.
pub proof fn law_certificate_requests(d: Seq<char>)
    ensures
        ca_request_view().names.len() == 0,
        ca_request_view().is_ca,
        ca_request_view().common_name == Some(CA_NAME@),
        ca_request_view().validity == Some((CA_VALID_FROM, CA_VALID_UNTIL)),
        server_request_view(d).names.len() == 1,
        server_request_view(d).names[0] == d,
        !server_request_view(d).is_ca,
        server_request_view(d).common_name is None,
        server_request_view(d).validity is None,
{
}

/// The three stream labels are different texts.
proof fn lemma_stream_labels_differ()
    ensures
        "stdout"@ != "stderr"@,
        "stdout"@ != "exit"@,
        "stderr"@ != "exit"@,
{
    reveal_strlit("stdout");
    reveal_strlit("stderr");
    reveal_strlit("exit");
    assert("stdout"@.len() == 6 && "stderr"@.len() == 6 && "exit"@.len() == 4);
    assert("stdout"@[4] != "stderr"@[4]);
}

/// Each kind of output is reported under its own stream: standard output as
/// `stdout` with its bytes, error output as `stderr` with its bytes, the exit
/// as `exit` with its code; so kinds are told apart by their label.
pub proof fn law_output_streams(o: CommandOutput)
    ensures
        o matches CommandOutput::Stdout(d) ==> spec_output_entry(o) == ("stdout"@, Some(d@), None::<i32>),
        o matches CommandOutput::Stderr(d) ==> spec_output_entry(o) == ("stderr"@, Some(d@), None::<i32>),
        o matches CommandOutput::Exit(c) ==> spec_output_entry(o) == ("exit"@, None::<Seq<u8>>, Some(c)),
        forall|p: CommandOutput| (#[trigger] spec_output_entry(p)).0 == spec_output_entry(o).0 ==> (
            (p is Stdout <==> o is Stdout) && (p is Stderr <==> o is Stderr) && (p is Exit <==> o is Exit)),
{
    lemma_stream_labels_differ();
}

/// A reported log shows each piece where it came from: the `i`-th entry of
/// a command's report is labelled `stderr` exactly when the `i`-th piece of
/// output was error output, `stdout` exactly when it was standard output.
pub proof fn law_reported_log_labels(log: Seq<CommandOutput>, i: int)
    requires
        0 <= i < log.len(),
    ensures
        log_entries(log).len() == log.len(),
        log_entries(log)[i].0 == "stderr"@ <==> log[i] is Stderr,
        log_entries(log)[i].0 == "stdout"@ <==> log[i] is Stdout,
{
    law_output_streams(log[i]);
    lemma_stream_labels_differ();
}

/// Reporting a piece of output and showing the report puts it back where it
/// came from: error output on the error console, standard output on the
/// standard console, and an exit nowhere.
pub proof fn law_reported_output_shown_in_place(o: CommandOutput, e: CommandOutputEntry)
    requires
        entry_view(e) == spec_output_entry(o),
    ensures
        o matches CommandOutput::Stdout(d) ==> spec_console_writes(seq![e]) == seq![(Console::Stdout, d@)],
        o matches CommandOutput::Stderr(d) ==> spec_console_writes(seq![e]) == seq![(Console::Stderr, d@)],
        o is Exit ==> spec_console_writes(seq![e]).len() == 0,
{
    lemma_stream_labels_differ();
    let s = seq![e];
    assert(s.drop_last() =~= Seq::<CommandOutputEntry>::empty());
    assert(s.last() == e);
    assert(spec_console_writes(s.drop_last()) == Seq::<(Console, Seq<u8>)>::empty());
}

/// A `--rm` token comes among the tokens from `i` on before any `--`.
pub open spec fn rm_requested(t: Seq<Seq<char>>, i: int) -> bool {
    exists|k: int| i <= k < t.len() && #[trigger] t[k] == "--rm"@ && forall|m: int| i <= m < k ==> t[m] != "--"@
}

/// `--rm` is the long option `rm` with no value.
proof fn lemma_rm_token()
    ensures
        is_long("--rm"@),
        long_name("--rm"@) == "rm"@,
        long_inline("--rm"@) is None,
        spec_opt_named("rm"@) == Some(Opt::Rm),
        "--rm"@ != "--"@,
        "--rm"@ != "--help"@,
        "--rm"@ != "-h"@,
        is_dashed("--rm"@),
        is_dashed("--"@),
{
    reveal_strlit("--rm");
    reveal_strlit("rm");
    reveal_strlit("--");
    reveal_strlit("--help");
    reveal_strlit("-h");
    reveal_strlit("url");
    reveal_strlit("output");
    reveal_strlit("runtime");
    reveal_strlit("timeout");
    reveal_strlit("snapshot");
    reveal_strlit("all");
    reveal_strlit("sudo");
    reveal_strlit("workdir");
    reveal_strlit("env");
    assert("rm"@.len() == 2);
    assert("url"@.len() == 3 && "all"@.len() == 3 && "env"@.len() == 3 && "sudo"@.len() == 4);
    assert("output"@.len() == 6 && "runtime"@.len() == 7 && "timeout"@.len() == 7);
    assert("snapshot"@.len() == 8 && "workdir"@.len() == 7);
    let t = "--rm"@;
    assert(t.skip(2) =~= "rm"@);
    lemma_first_index_of(t.skip(2), '=');
}

/// A long token named `rm` with no value is `--rm` itself.
proof fn lemma_only_rm_token(tok: Seq<char>)
    requires
        is_long(tok),
        long_name(tok) == "rm"@,
        long_inline(tok) is None,
    ensures
        tok == "--rm"@,
{
    reveal_strlit("--rm");
    reveal_strlit("rm");
    assert(tok.skip(2) == "rm"@);
    assert(tok =~= "--rm"@) by {
        assert(tok.len() == 4);
        assert(tok[2] == tok.skip(2)[0]);
        assert(tok[3] == tok.skip(2)[1]);
    }
}

/// One token read: how the `rm` flag and the `--` marker change, and how far
/// it reads. A token other than `--` and `--rm` leaves the flag alone and
/// reads at most one more token, which is never dashed.
proof fn lemma_step_rm(t: Seq<Seq<char>>, i: int, s: ScanView, s1: ScanView, j: int)
    requires
        0 <= i < t.len(),
        scan_step(t, i, s) == Ok::<(ScanView, int), ArgsFailure>((s1, j)),
    ensures
        s.dashdash ==> s1.dashdash && s1.rm == s.rm && j == i + 1,
        !s.dashdash && t[i] == "--"@ ==> s1.dashdash && s1.rm == s.rm && j == i + 1,
        !s.dashdash && t[i] == "--rm"@ ==> !s1.dashdash && s1.rm && j == i + 1,
        !s.dashdash && t[i] != "--"@ && t[i] != "--rm"@ ==> !s1.dashdash && s1.rm == s.rm
            && (j == i + 1 || (j == i + 2 && i + 1 < t.len() && !is_dashed(t[i + 1]))),
{
    lemma_rm_token();
    let tok = t[i];
    if !s.dashdash && tok != "--"@ && tok != "--help"@ && tok != "-h"@ && is_long(tok) {
        match spec_opt_named(long_name(tok)) {
            Some(o) => {
                if o == Opt::Rm && long_inline(tok) is None {
                    assert(long_name(tok) == "rm"@) by {
                        reveal_strlit("rm");
                        reveal_strlit("url");
                        reveal_strlit("output");
                        reveal_strlit("runtime");
                        reveal_strlit("timeout");
                        reveal_strlit("snapshot");
                        reveal_strlit("all");
                        reveal_strlit("sudo");
                        reveal_strlit("workdir");
                        reveal_strlit("env");
                    }
                    lemma_only_rm_token(tok);
                }
            },
            None => {},
        }
    }
}

/// Reading the tokens from `i` on turns the `rm` flag on exactly when a
/// `--rm` comes before any `--` (and the marker was not already read).
proof fn lemma_scan_from_rm(t: Seq<Seq<char>>, i: int, s: ScanView, s2: ScanView)
    requires
        0 <= i,
        scan_from(t, i, s) == Ok::<ScanView, ArgsFailure>(s2),
    ensures
        s2.rm == (s.rm || (!s.dashdash && rm_requested(t, i))),
    decreases t.len() - i,
{
    lemma_rm_token();
    if i >= t.len() {
        assert(!rm_requested(t, i));
    } else {
        match scan_step(t, i, s) {
            Ok((s1, j)) => {
                lemma_step_rm(t, i, s, s1, j);
                lemma_scan_from_rm(t, j, s1, s2);
                if !s.dashdash {
                    if t[i] == "--"@ {
                        assert(!rm_requested(t, i)) by {
                            if rm_requested(t, i) {
                                let k = choose|k: int| i <= k < t.len() && #[trigger] t[k] == "--rm"@
                                    && forall|m: int| i <= m < k ==> t[m] != "--"@;
                                assert(k != i);
                                assert(t[i] != "--"@);
                            }
                        }
                    } else if t[i] == "--rm"@ {
                        assert(rm_requested(t, i)) by {
                            assert(i <= i < t.len() && t[i] == "--rm"@ && forall|m: int| i <= m < i ==> t[m] != "--"@);
                        }
                    } else {
                        assert(rm_requested(t, j) == rm_requested(t, i)) by {
                            if j == i + 2 {
                                assert(t[i + 1] != "--rm"@ && t[i + 1] != "--"@);
                            }
                            if rm_requested(t, j) {
                                let k = choose|k: int| j <= k < t.len() && #[trigger] t[k] == "--rm"@
                                    && forall|m: int| j <= m < k ==> t[m] != "--"@;
                                assert forall|m: int| i <= m < k implies t[m] != "--"@ by {
                                    if m >= j {
                                    }
                                }
                                assert(i <= k < t.len() && t[k] == "--rm"@);
                            }
                            if rm_requested(t, i) {
                                let k = choose|k: int| i <= k < t.len() && #[trigger] t[k] == "--rm"@
                                    && forall|m: int| i <= m < k ==> t[m] != "--"@;
                                assert(k != i);
                                assert(k >= j);
                                assert(j <= k < t.len() && t[k] == "--rm"@);
                            }
                        }
                    }
                }
            },
            Err(_) => {},
        }
    }
}

/// A parsed `run` command deletes its sandbox afterwards exactly when a
/// `--rm` token came before any `--` on the command line; without `--rm`
/// the sandbox is kept.
pub proof fn law_run_rm_only_when_asked(args: Seq<Seq<char>>, c: CliView)
    requires
        spec_parse_cli(args) == Ok::<CliView, ArgsFailure>(c),
        c.command is Run,
    ensures
        c.command->Run_rm == rm_requested(args, 1),
        !args.contains("--rm"@) ==> !c.command->Run_rm,
{
    match scan_from(args, 1, initial_scan()) {
        Ok(s) => {
            lemma_scan_from_rm(args, 1, initial_scan(), s);
        },
        Err(_) => {},
    }
    if !args.contains("--rm"@) && rm_requested(args, 1) {
        let k = choose|k: int| 1 <= k < args.len() && #[trigger] args[k] == "--rm"@
            && forall|m: int| 1 <= m < k ==> args[m] != "--"@;
        assert(args.contains("--rm"@));
    }
}

} // verus!
