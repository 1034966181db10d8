//! Allow/deny decisions for outbound connections.

use vstd::prelude::*;
use crate::credential::{first_matching_rule, is_first_match, no_rule_matches};
use crate::domain::{domain_matches, spec_domain_matches};
use crate::network::{ip_in_any_subnet, spec_in_any, IpAddress, NetworkMode, NetworkPolicy, TransformRule};

verus! {

/// The outcome of evaluating a connection against a policy.
#[derive(Debug)]
pub enum PolicyDecision {
    Allow,
    Deny,
    AllowWithTransform(TransformRule),
}

impl PartialEq for PolicyDecision {
    fn eq(&self, other: &Self) -> (r: bool) {
        match (self, other) {
            (PolicyDecision::Allow, PolicyDecision::Allow) => true,
            (PolicyDecision::Deny, PolicyDecision::Deny) => true,
            (PolicyDecision::AllowWithTransform(a), PolicyDecision::AllowWithTransform(b)) => {
                a.domain == b.domain && a.headers.equals(&b.headers)
            },
            _ => false,
        }
    }
}

impl vstd::std_specs::cmp::PartialEqSpecImpl for PolicyDecision {
    open spec fn obeys_eq_spec() -> bool {
        true
    }

    open spec fn eq_spec(&self, other: &PolicyDecision) -> bool {
        match (*self, *other) {
            (PolicyDecision::Allow, PolicyDecision::Allow) => true,
            (PolicyDecision::Deny, PolicyDecision::Deny) => true,
            (PolicyDecision::AllowWithTransform(a), PolicyDecision::AllowWithTransform(b)) => a.same_rule(b),
            _ => false,
        }
    }
}

/// Whether a domain may be reached: every one under `AllowAll`, and under `DenyAll`
/// only domains that match one of the allowed patterns.
pub open spec fn spec_allow_domain(p: NetworkPolicy, d: Seq<char>) -> bool {
    match p.mode {
        NetworkMode::AllowAll => true,
        NetworkMode::DenyAll => exists|i: int|
            0 <= i < p.allow_domains@.len() && spec_domain_matches(#[trigger] p.allow_domains@[i]@, d),
    }
}

/// Whether an address may be reached: a denied subnet always refuses; otherwise
/// `AllowAll` accepts and `DenyAll` accepts only allowed subnets.
pub open spec fn spec_allow_ip(p: NetworkPolicy, ip: IpAddress) -> bool {
    &&& !spec_in_any(p.subnets_deny@, ip)
    &&& (p.mode == NetworkMode::AllowAll || spec_in_any(p.subnets_allow@, ip))
}

/// The decision for a connection, as far as its kind goes: the first
/// matching header rule wins; otherwise both the domain and the address must
/// be allowed.
pub open spec fn spec_evaluate(p: NetworkPolicy, d: Seq<char>, ip: IpAddress, r: PolicyDecision) -> bool {
    if no_rule_matches(p.transform_rules@, d) {
        if spec_allow_domain(p, d) && spec_allow_ip(p, ip) {
            r is Allow
        } else {
            r is Deny
        }
    } else {
        exists|i: int| is_first_match(p.transform_rules@, d, i)
            && (r matches PolicyDecision::AllowWithTransform(t) && t@ == p.transform_rules@[i]@)
    }
}

/// Evaluates connections against a network policy.
pub struct NetworkPolicyEvaluator {
    policy: NetworkPolicy,
}

impl NetworkPolicyEvaluator {
    /// The policy being enforced.
    pub closed spec fn policy(self) -> NetworkPolicy {
        self.policy
    }

    /// An evaluator for `policy`.
    pub fn new(policy: NetworkPolicy) -> (e: NetworkPolicyEvaluator)
        ensures
            e.policy() == policy,
    {
        NetworkPolicyEvaluator { policy }
    }

    /// Whether a connection to `domain` is allowed at the domain level.
    pub fn should_allow_domain(&self, domain: &str) -> (b: bool)
        ensures
            b == spec_allow_domain(self.policy(), domain@),
    {
        match self.policy.mode {
            NetworkMode::AllowAll => true,
            NetworkMode::DenyAll => {
                let list = &self.policy.allow_domains;
                let mut i: usize = 0;
                while i < list.len()
                    invariant
                        i <= list@.len(),
                        list@ == self.policy.allow_domains@,
                        self.policy.mode == NetworkMode::DenyAll,
                        forall|j: int| 0 <= j < i ==> !spec_domain_matches(#[trigger] list@[j]@, domain@),
                    decreases list@.len() - i,
                {
                    if domain_matches(list[i].as_str(), domain) {
                        assert(spec_domain_matches(list@[i as int]@, domain@));
                        return true;
                    }
                    i = i + 1;
                }
                false
            },
        }
    }

    /// Whether a connection to `ip` is allowed at the address level.
    pub fn should_allow_ip(&self, ip: IpAddress) -> (b: bool)
        ensures
            b == spec_allow_ip(self.policy(), ip),
    {
        if ip_in_any_subnet(ip, self.policy.subnets_deny.as_slice()) {
            return false;
        }
        match self.policy.mode {
            NetworkMode::AllowAll => true,
            NetworkMode::DenyAll => ip_in_any_subnet(ip, self.policy.subnets_allow.as_slice()),
        }
    }

    /// Decides a connection to `domain` at `ip`: header rules first, then the
    /// domain check, then the address check.
    pub fn evaluate_connection(&self, domain: &str, ip: IpAddress) -> (r: PolicyDecision)
        ensures
            spec_evaluate(self.policy(), domain@, ip, r),
    {
        match first_matching_rule(domain, self.policy.transform_rules.as_slice()) {
            Some(i) => {
                let rule = self.policy.transform_rules[i].duplicate();
                return PolicyDecision::AllowWithTransform(rule);
            },
            None => {},
        }
        if !self.should_allow_domain(domain) {
            return PolicyDecision::Deny;
        }
        if !self.should_allow_ip(ip) {
            return PolicyDecision::Deny;
        }
        PolicyDecision::Allow
    }
}

} // verus!
