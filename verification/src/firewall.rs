//! nftables rule generation from a network policy.

use vstd::prelude::*;
use crate::network::{spec_cidr_text, Cidr, CidrView, NetworkMode, NetworkPolicy};
use crate::text::{push_str, texts};

verus! {

/// The rule for one subnet with the given verdict text (` drop` or ` accept`).
pub open spec fn subnet_rule_text(c: CidrView, verdict: Seq<char>) -> Seq<char> {
    "add rule inet filter output ip daddr "@ + spec_cidr_text(c) + verdict
}

/// One rule per subnet, in order.
pub open spec fn subnet_rules(subnets: Seq<Cidr>, verdict: Seq<char>) -> Seq<Seq<char>> {
    Seq::new(subnets.len(), |i: int| subnet_rule_text(subnets[i]@, verdict))
}

/// The rules for a policy: under `AllowAll`, a drop rule per denied subnet
/// and then a final accept; under `DenyAll`, loopback accept, an accept rule
/// per allowed subnet and then a final drop.
pub open spec fn spec_policy_rules(p: NetworkPolicy) -> Seq<Seq<char>> {
    match p.mode {
        NetworkMode::AllowAll =>
            subnet_rules(p.subnets_deny@, " drop"@).push("add rule inet filter output accept"@),
        NetworkMode::DenyAll =>
            (seq!["add rule inet filter output oif lo accept"@] + subnet_rules(p.subnets_allow@, " accept"@))
                .push("add rule inet filter output drop"@),
    }
}

/// A list of nftables rule strings.
pub struct NftablesRuleSet {
    pub rules: Vec<String>,
}

/// Appends one rule per subnet to `rules`.
fn push_subnet_rules(rules: &mut Vec<String>, subnets: &[Cidr], verdict: &str)
    ensures
        texts(final(rules)@) == texts(old(rules)@) + subnet_rules(subnets@, verdict@),
{
    let ghost start = texts(rules@);
    let mut i: usize = 0;
    while i < subnets.len()
        invariant
            i <= subnets@.len(),
            texts(rules@) == start + subnet_rules(subnets@, verdict@).subrange(0, i as int),
        decreases subnets@.len() - i,
    {
        let mut line = "add rule inet filter output ip daddr ".to_owned();
        let t = subnets[i].to_text();
        push_str(&mut line, t.as_str());
        push_str(&mut line, verdict);
        let ghost before = rules@;
        rules.push(line);
        proof {
            assert(rules@ == before.push(line));
            assert(texts(rules@) =~= texts(before).push(line@));
            assert(subnet_rules(subnets@, verdict@).subrange(0, i + 1)
                =~= subnet_rules(subnets@, verdict@).subrange(0, i as int).push(line@));
        }
        i = i + 1;
    }
    proof {
        assert(subnet_rules(subnets@, verdict@).subrange(0, subnets@.len() as int)
            =~= subnet_rules(subnets@, verdict@));
    }
}

impl NftablesRuleSet {
    /// Generates the nftables rules for a policy.
    pub fn from_policy(policy: &NetworkPolicy) -> (r: NftablesRuleSet)
        ensures
            texts(r.rules@) == spec_policy_rules(*policy),
    {
        let mut rules: Vec<String> = Vec::new();
        match policy.mode {
            NetworkMode::AllowAll => {
                push_subnet_rules(&mut rules, policy.subnets_deny.as_slice(), " drop");
                let ghost before = rules@;
                rules.push("add rule inet filter output accept".to_owned());
                proof {
                    assert(texts(rules@) =~= texts(before).push("add rule inet filter output accept"@));
                }
            },
            NetworkMode::DenyAll => {
                rules.push("add rule inet filter output oif lo accept".to_owned());
                proof {
                    assert(texts(rules@) =~= seq!["add rule inet filter output oif lo accept"@]);
                }
                push_subnet_rules(&mut rules, policy.subnets_allow.as_slice(), " accept");
                let ghost before = rules@;
                rules.push("add rule inet filter output drop".to_owned());
                proof {
                    assert(texts(rules@) =~= texts(before).push("add rule inet filter output drop"@));
                }
            },
        }
        NftablesRuleSet { rules }
    }
}

} // verus!
