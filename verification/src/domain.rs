//! Domain pattern matching: exact patterns and `*.suffix` wildcards.

use vstd::prelude::*;
use crate::text::{chars_of, lowercase, spec_lowercase};

verus! {

/// The suffix after a leading `*.`, if the pattern is a wildcard.
pub open spec fn wildcard_suffix(p: Seq<char>) -> Option<Seq<char>> {
    if p.len() >= 2 && p[0] == '*' && p[1] == '.' {
        Some(p.skip(2))
    } else {
        None
    }
}

/// Matching of an already lowercased pattern against an already lowercased
/// domain: a wildcard `*.s` matches exactly the domains that end in `.s`
/// (so never `s` itself); any other pattern matches only itself.
pub open spec fn matches_lowered(p: Seq<char>, d: Seq<char>) -> bool {
    match wildcard_suffix(p) {
        Some(s) => d.len() > s.len() && d.skip(d.len() - s.len() - 1) == seq!['.'] + s,
        None => d == p,
    }
}

/// Case-insensitive matching: both sides are lowercased first.
pub open spec fn spec_domain_matches(p: Seq<char>, d: Seq<char>) -> bool {
    matches_lowered(spec_lowercase(p), spec_lowercase(d))
}

/// Whether `d` ends with `.` followed by `s`.
fn ends_with_dot_suffix(d: &[char], s: &[char]) -> (r: bool)
    ensures
        r == (d@.len() > s@.len() && d@.skip(d@.len() - s@.len() - 1) == seq!['.'] + s@),
{
    if d.len() <= s.len() {
        return false;
    }
    let off = d.len() - s.len();
    if d[off - 1] != '.' {
        assert(d@.skip(d@.len() - s@.len() - 1)[0] != (seq!['.'] + s@)[0]);
        return false;
    }
    let mut i: usize = 0;
    while i < s.len()
        invariant
            off == d@.len() - s@.len(),
            off >= 1,
            d@.len() > s@.len(),
            d@.len() <= usize::MAX,
            i <= s@.len(),
            forall|j: int| 0 <= j < i ==> d@[off + j] == s@[j],
        decreases s@.len() - i,
    {
        assert(off + i < d@.len());
        if d[off + i] != s[i] {
            assert(d@.skip(d@.len() - s@.len() - 1)[i + 1] != (seq!['.'] + s@)[i + 1]);
            return false;
        }
        i = i + 1;
    }
    assert(d@.skip(d@.len() - s@.len() - 1) =~= seq!['.'] + s@);
    true
}

/// Matches a pattern against a domain, both taken as given (no case folding).
/// See `matches_lowered` for the rule.
pub fn matches_lowercased(pattern: &str, domain: &str) -> (r: bool)
    ensures
        r == matches_lowered(pattern@, domain@),
{
    let p = chars_of(pattern);
    let d = chars_of(domain);
    if p.len() >= 2 && p[0] == '*' && p[1] == '.' {
        let mut s: Vec<char> = Vec::new();
        let mut i: usize = 2;
        while i < p.len()
            invariant
                2 <= i <= p@.len(),
                s@ == p@.subrange(2, i as int),
            decreases p@.len() - i,
        {
            s.push(p[i]);
            i = i + 1;
        }
        assert(s@ =~= p@.skip(2));
        // A domain equal to the suffix itself is never a match.
        if crate::text::chars_eq(d.as_slice(), s.as_slice()) {
            return false;
        }
        ends_with_dot_suffix(d.as_slice(), s.as_slice())
    } else {
        crate::text::chars_eq(d.as_slice(), p.as_slice())
    }
}

/// Checks if a domain matches a pattern. Patterns are exact (`example.com`)
/// or wildcards (`*.example.com`); a wildcard matches any subdomain but not
/// the bare domain itself. Matching is case-insensitive.
pub fn domain_matches(pattern: &str, domain: &str) -> (r: bool)
    ensures
        r == spec_domain_matches(pattern@, domain@),
{
    let p = lowercase(pattern);
    let d = lowercase(domain);
    matches_lowercased(p.as_str(), d.as_str())
}

} // verus!
