//! The iptables NAT rules that send a sandbox's web traffic (ports 80 and
//! 443) to the transparent proxy, and how they are found again for removal.

use vstd::prelude::*;
use crate::error::prefixed;
use crate::numbers::{decimal_string, decimal_text};
use crate::text::{chars_of, first_index_of, lemma_first_index_of, push_str, string_of_range, str_texts, texts};

verus! {

/// The arguments that add a rule redirecting TCP traffic for `dport` coming
/// in on `interface` to `proxy_port`.
pub open spec fn spec_redirect_args(interface: Seq<char>, dport: u16, proxy_port: u16) -> Seq<Seq<char>> {
    seq![
        "-t"@, "nat"@, "-A"@, "PREROUTING"@, "-i"@, interface, "-p"@, "tcp"@, "--dport"@,
        decimal_text(dport as nat), "-j"@, "REDIRECT"@, "--to-port"@, decimal_text(proxy_port as nat),
    ]
}

fn push_word(v: &mut Vec<String>, w: &str)
    ensures
        texts(final(v)@) == texts(old(v)@).push(w@),
{
    v.push(w.to_owned());
    assert(texts(v@) =~= texts(old(v)@).push(w@));
}

/// The iptables arguments of a redirect rule.
pub fn redirect_args(interface: &str, dport: u16, proxy_port: u16) -> (r: Vec<String>)
    ensures
        texts(r@) == spec_redirect_args(interface@, dport, proxy_port),
{
    let mut v: Vec<String> = Vec::new();
    push_word(&mut v, "-t");
    push_word(&mut v, "nat");
    push_word(&mut v, "-A");
    push_word(&mut v, "PREROUTING");
    push_word(&mut v, "-i");
    push_word(&mut v, interface);
    push_word(&mut v, "-p");
    push_word(&mut v, "tcp");
    push_word(&mut v, "--dport");
    push_word(&mut v, decimal_string(dport as u64).as_str());
    push_word(&mut v, "-j");
    push_word(&mut v, "REDIRECT");
    push_word(&mut v, "--to-port");
    push_word(&mut v, decimal_string(proxy_port as u64).as_str());
    assert(texts(v@) =~= spec_redirect_args(interface@, dport, proxy_port));
    v
}

/// Whether `c` is white space (Unicode `White_Space`, as `char::is_whitespace`).
pub open spec fn is_space(c: char) -> bool {
    ('\u{9}' <= c && c <= '\u{d}') || c == ' ' || c == '\u{85}' || c == '\u{a0}' || c == '\u{1680}'
        || ('\u{2000}' <= c && c <= '\u{200a}') || c == '\u{2028}' || c == '\u{2029}' || c == '\u{202f}'
        || c == '\u{205f}' || c == '\u{3000}'
}

fn space(c: char) -> (b: bool)
    ensures
        b == is_space(c),
{
    ('\u{9}' <= c && c <= '\u{d}') || c == ' ' || c == '\u{85}' || c == '\u{a0}' || c == '\u{1680}'
        || ('\u{2000}' <= c && c <= '\u{200a}') || c == '\u{2028}' || c == '\u{2029}' || c == '\u{202f}'
        || c == '\u{205f}' || c == '\u{3000}'
}

/// Length of the run of non-space characters at the start of `s`.
pub open spec fn word_len(s: Seq<char>) -> nat
    decreases s.len(),
{
    if s.len() == 0 || is_space(s[0]) { 0 } else { 1 + word_len(s.drop_first()) }
}

/// The words of `s`: its maximal runs of non-space characters, in order
/// (as `str::split_whitespace` gives them).
pub open spec fn spec_words(s: Seq<char>) -> Seq<Seq<char>>
    decreases s.len(),
{
    if s.len() == 0 {
        Seq::empty()
    } else if is_space(s[0]) {
        spec_words(s.drop_first())
    } else {
        let k = word_len(s);
        if 0 < k <= s.len() { seq![s.take(k as int)] + spec_words(s.skip(k as int)) } else { Seq::empty() }
    }
}

proof fn lemma_word_len(s: Seq<char>, n: int)
    requires
        0 <= n <= s.len(),
        forall|m: int| 0 <= m < n ==> !is_space(s[m]),
        n == s.len() || is_space(s[n]),
    ensures
        word_len(s) == n,
    decreases n,
{
    if n > 0 {
        lemma_word_len(s.drop_first(), n - 1);
    }
}

/// The words of a line.
fn words(s: &[char]) -> (r: Vec<String>)
    ensures
        texts(r@) == spec_words(s@),
{
    let mut out: Vec<String> = Vec::new();
    let mut i: usize = 0;
    assert(s@.skip(0) =~= s@);
    while i < s.len()
        invariant
            i <= s@.len(),
            texts(out@) + spec_words(s@.skip(i as int)) == spec_words(s@),
        decreases s@.len() - i,
    {
        let ghost rest = s@.skip(i as int);
        if space(s[i]) {
            assert(rest.drop_first() =~= s@.skip(i + 1));
            i = i + 1;
        } else {
            let mut j: usize = i;
            while j < s.len() && !space(s[j])
                invariant
                    i <= j <= s@.len(),
                    forall|m: int| i <= m < j ==> !is_space(s@[m]),
                decreases s@.len() - j,
            {
                j = j + 1;
            }
            proof {
                assert(j > i) by {
                    assert(!is_space(s@[i as int]));
                }
                lemma_word_len(rest, j - i);
                assert(rest.take(j - i) =~= s@.subrange(i as int, j as int));
                assert(rest.skip(j - i) =~= s@.skip(j as int));
            }
            let w = string_of_range(s, i, j);
            let ghost before = out@;
            out.push(w);
            proof {
                assert(texts(out@) =~= texts(before).push(w@));
                assert(texts(out@) + spec_words(s@.skip(j as int)) =~= texts(before) + spec_words(rest));
            }
            i = j;
        }
    }
    assert(spec_words(s@.skip(i as int)) =~= Seq::<Seq<char>>::empty());
    assert(texts(out@) + Seq::<Seq<char>>::empty() =~= texts(out@));
    out
}

/// A line without the carriage return of a `\r\n` ending.
pub open spec fn strip_cr(l: Seq<char>) -> Seq<char> {
    if l.len() > 0 && l.last() == '\r' { l.drop_last() } else { l }
}

/// The lines of `s` as `str::lines` gives them: split at `\n`, a `\r` just
/// before a `\n` dropped, no empty line after a final `\n`.
pub open spec fn spec_lines(s: Seq<char>) -> Seq<Seq<char>>
    decreases s.len(),
{
    if s.len() == 0 {
        Seq::empty()
    } else {
        match first_index_of(s, '\n') {
            Some(i) => if 0 <= i < s.len() { seq![strip_cr(s.take(i))] + spec_lines(s.skip(i + 1)) } else { Seq::empty() },
            None => seq![s],
        }
    }
}

/// Whether `t` occurs in `s`.
pub open spec fn contains(s: Seq<char>, t: Seq<char>) -> bool {
    exists|i: int| 0 <= i && i + t.len() <= s.len() && #[trigger] s.subrange(i, i + t.len()) == t
}

fn occurs_at(s: &[char], t: &[char], i: usize) -> (b: bool)
    requires
        i + t@.len() <= s@.len(),
    ensures
        b == (s@.subrange(i as int, i + t@.len()) == t@),
{
    let n = s.len();
    let mut k: usize = 0;
    while k < t.len()
        invariant
            k <= t@.len(),
            n == s@.len(),
            i + t@.len() <= s@.len(),
            forall|m: int| 0 <= m < k ==> s@[i + m] == t@[m],
        decreases t@.len() - k,
    {
        if s[i + k] != t[k] {
            assert(s@.subrange(i as int, i + t@.len())[k as int] != t@[k as int]);
            return false;
        }
        k = k + 1;
    }
    assert(s@.subrange(i as int, i + t@.len()) =~= t@);
    true
}

/// Whether `t` occurs in `s`.
fn find_in(s: &[char], t: &[char]) -> (b: bool)
    ensures
        b == contains(s@, t@),
{
    let n = s.len();
    let m = t.len();
    if m > n {
        return false;
    }
    let mut i: usize = 0;
    loop
        invariant
            n == s@.len(),
            m == t@.len(),
            m <= n,
            i <= n - m,
            forall|k: int| 0 <= k < i ==> #[trigger] s@.subrange(k, k + t@.len()) != t@,
        decreases n - m - i,
    {
        if occurs_at(s, t, i) {
            return true;
        }
        if i == n - m {
            return false;
        }
        i = i + 1;
    }
}

/// The arguments that delete the rule listed as `line`, if the line is an
/// appended rule (`-A ...`) that mentions `interface` and `REDIRECT`.
pub open spec fn spec_delete_args(line: Seq<char>, interface: Seq<char>) -> Option<Seq<Seq<char>>> {
    if contains(line, interface) && contains(line, "REDIRECT"@) && line.len() >= 3 && line.take(3) == "-A "@ {
        Some(seq!["-t"@, "nat"@, "-D"@] + spec_words(line.skip(3)))
    } else {
        None
    }
}

/// The deletions for every listed line that is a redirect rule for
/// `interface`, in listing order.
pub open spec fn spec_deletions(lines: Seq<Seq<char>>, interface: Seq<char>) -> Seq<Seq<Seq<char>>>
    decreases lines.len(),
{
    if lines.len() == 0 {
        Seq::empty()
    } else {
        let prev = spec_deletions(lines.drop_last(), interface);
        match spec_delete_args(lines.last(), interface) {
            Some(a) => prev.push(a),
            None => prev,
        }
    }
}

/// The deletion arguments for one listed line.
fn delete_args(line: &[char], interface: &[char]) -> (r: Option<Vec<String>>)
    ensures
        match spec_delete_args(line@, interface@) {
            Some(a) => r matches Some(v) && texts(v@) == a,
            None => r is None,
        },
{
    proof { reveal_strlit("REDIRECT"); reveal_strlit("-A "); }
    let redirect = chars_of("REDIRECT");
    if !find_in(line, interface) || !find_in(line, redirect.as_slice()) {
        return None;
    }
    if line.len() < 3 || line[0] != '-' || line[1] != 'A' || line[2] != ' ' {
        proof {
            if line@.len() >= 3 && line@.take(3) == "-A "@ {
                assert(line@.take(3)[0] == '-');
                assert(line@.take(3)[1] == 'A');
                assert(line@.take(3)[2] == ' ');
            }
        }
        return None;
    }
    assert(line@.take(3) =~= "-A "@);
    let mut rest: Vec<char> = Vec::new();
    let mut k: usize = 3;
    while k < line.len()
        invariant
            3 <= k <= line@.len(),
            rest@ == line@.subrange(3, k as int),
        decreases line@.len() - k,
    {
        rest.push(line[k]);
        k = k + 1;
    }
    assert(rest@ =~= line@.skip(3));
    let ws = words(rest.as_slice());
    let mut v: Vec<String> = Vec::new();
    push_word(&mut v, "-t");
    push_word(&mut v, "nat");
    push_word(&mut v, "-D");
    let mut i: usize = 0;
    let ghost head = texts(v@);
    while i < ws.len()
        invariant
            i <= ws@.len(),
            texts(v@) == head + texts(ws@).take(i as int),
        decreases ws@.len() - i,
    {
        let ghost before = v@;
        v.push(ws[i].clone());
        assert(texts(v@) =~= texts(before).push(ws@[i as int]@));
        assert(texts(ws@).take(i + 1) =~= texts(ws@).take(i as int).push(ws@[i as int]@));
        i = i + 1;
    }
    assert(texts(ws@).take(ws@.len() as int) =~= texts(ws@));
    assert(texts(v@) =~= seq!["-t"@, "nat"@, "-D"@] + spec_words(line@.skip(3)));
    Some(v)
}

/// From an `iptables -t nat -S PREROUTING` listing, the arguments that delete
/// each redirect rule for `interface`, in listing order.
pub fn deletions(listing: &str, interface: &str) -> (r: Vec<Vec<String>>)
    ensures
        r@.map_values(|v: Vec<String>| texts(v@)) == spec_deletions(spec_lines(listing@), interface@),
{
    let cs = chars_of(listing);
    let ic = chars_of(interface);
    let ghost all = spec_lines(listing@);
    let mut out: Vec<Vec<String>> = Vec::new();
    let ghost mut done: Seq<Seq<char>> = Seq::empty();
    let mut i: usize = 0;
    assert(cs@.skip(0) =~= cs@);
    while i < cs.len()
        invariant
            i <= cs@.len(),
            cs@ == listing@,
            ic@ == interface@,
            done + spec_lines(cs@.skip(i as int)) == all,
            out@.map_values(|v: Vec<String>| texts(v@)) == spec_deletions(done, interface@),
        decreases cs@.len() - i,
    {
        let ghost rest = cs@.skip(i as int);
        proof { lemma_first_index_of(rest, '\n'); }
        let end = match crate::text::find_char_from(cs.as_slice(), i, '\n') {
            Some(e) => e,
            None => cs.len(),
        };
        proof {
            match first_index_of(rest, '\n') {
                Some(e) => {
                    assert(end == e + i);
                },
                None => {},
            }
        }
        let mut line_end = end;
        if line_end > i && end < cs.len() && cs[line_end - 1] == '\r' {
            line_end = line_end - 1;
        }
        let line = string_of_range(cs.as_slice(), i, line_end);
        let lc = chars_of(line.as_str());
        let ghost this_line = lc@;
        proof {
            match first_index_of(rest, '\n') {
                Some(e) => {
                    assert(rest.take(e) =~= cs@.subrange(i as int, end as int));
                    assert(strip_cr(rest.take(e)) =~= this_line);
                    assert(rest.skip(e + 1) =~= cs@.skip(end + 1));
                    assert(spec_lines(rest) == seq![this_line] + spec_lines(cs@.skip(end + 1)));
                },
                None => {
                    assert(rest =~= this_line);
                    assert(spec_lines(rest) == seq![this_line]);
                },
            }
        }
        let ghost before = out@;
        match delete_args(lc.as_slice(), ic.as_slice()) {
            Some(a) => {
                out.push(a);
                proof {
                    assert((done.push(this_line)).drop_last() =~= done);
                    assert(out@.map_values(|v: Vec<String>| texts(v@))
                        =~= before.map_values(|v: Vec<String>| texts(v@)).push(texts(a@)));
                }
            },
            None => {
                assert((done.push(this_line)).drop_last() =~= done);
            },
        }
        proof {
            let nd = done.push(this_line);
            if end < cs@.len() {
                assert(nd + spec_lines(cs@.skip(end + 1)) =~= done + (seq![this_line] + spec_lines(cs@.skip(end + 1))));
            } else {
                assert(cs@.skip(cs@.len() as int) =~= Seq::<char>::empty());
                assert(nd + spec_lines(cs@.skip(end as int)) =~= done + seq![this_line]);
            }
            done = nd;
        }
        if end < cs.len() {
            i = end + 1;
        } else {
            i = end;
        }
    }
    proof {
        assert(cs@.skip(i as int) =~= Seq::<char>::empty());
        assert(done =~= all);
    }
    out
}

/// The message of a failed iptables run: the arguments joined by spaces and
/// what iptables printed on its error output.
pub open spec fn spec_failure_text(args: Seq<Seq<char>>, stderr: Seq<char>) -> Seq<char> {
    "iptables "@ + joined(args) + " failed: "@ + stderr
}

/// The words with one space between each two.
pub open spec fn joined(args: Seq<Seq<char>>) -> Seq<char>
    decreases args.len(),
{
    if args.len() == 0 {
        Seq::empty()
    } else if args.len() == 1 {
        args[0]
    } else {
        joined(args.drop_last()) + " "@ + args.last()
    }
}

/// The message of a failed iptables run.
pub fn failure_text(args: &[&str], stderr: &str) -> (r: String)
    ensures
        r@ == spec_failure_text(str_texts(args@), stderr@),
{
    let ghost a = str_texts(args@);
    let mut j = String::new();
    let mut i: usize = 0;
    while i < args.len()
        invariant
            i <= args@.len(),
            a == str_texts(args@),
            j@ == joined(a.take(i as int)),
        decreases args@.len() - i,
    {
        assert(a.take(i + 1).drop_last() =~= a.take(i as int));
        if i > 0 {
            push_str(&mut j, " ");
        }
        push_str(&mut j, args[i]);
        i = i + 1;
    }
    assert(a.take(args@.len() as int) =~= a);
    let mut r = prefixed("iptables ", j.as_str());
    push_str(&mut r, " failed: ");
    push_str(&mut r, stderr);
    r
}

} // verus!
