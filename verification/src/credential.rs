//! Lookup of the header rule that applies to a domain.

use vstd::prelude::*;
use crate::domain::{domain_matches, spec_domain_matches};
use crate::network::TransformRule;

verus! {

/// Rule `i` is the first rule whose domain pattern matches `d`.
pub open spec fn is_first_match(rules: Seq<TransformRule>, d: Seq<char>, i: int) -> bool {
    &&& 0 <= i < rules.len()
    &&& spec_domain_matches(rules[i].domain@, d)
    &&& forall|j: int| 0 <= j < i ==> !spec_domain_matches(#[trigger] rules[j].domain@, d)
}

/// No rule's domain pattern matches `d`.
pub open spec fn no_rule_matches(rules: Seq<TransformRule>, d: Seq<char>) -> bool {
    forall|j: int| 0 <= j < rules.len() ==> !spec_domain_matches(#[trigger] rules[j].domain@, d)
}

/// Index of the first rule whose pattern matches `domain`.
pub fn first_matching_rule(domain: &str, rules: &[TransformRule]) -> (r: Option<usize>)
    ensures
        match r {
            Some(i) => is_first_match(rules@, domain@, i as int),
            None => no_rule_matches(rules@, domain@),
        },
{
    let mut i: usize = 0;
    while i < rules.len()
        invariant
            i <= rules@.len(),
            forall|j: int| 0 <= j < i ==> !spec_domain_matches(#[trigger] rules@[j].domain@, domain@),
        decreases rules@.len() - i,
    {
        if domain_matches(rules[i].domain.as_str(), domain) {
            return Some(i);
        }
        i = i + 1;
    }
    None
}

/// Returns the first rule whose domain pattern matches `domain`, if any.
pub fn find_credential_headers<'a>(domain: &str, rules: &'a [TransformRule]) -> (r: Option<&'a TransformRule>)
    ensures
        match r {
            Some(t) => exists|i: int| is_first_match(rules@, domain@, i) && *t == rules@[i],
            None => no_rule_matches(rules@, domain@),
        },
{
    match first_matching_rule(domain, rules) {
        Some(i) => Some(&rules[i]),
        None => None,
    }
}

} // verus!
