use rustbox::credential::find_credential_headers;
use rustbox::firewall::NftablesRuleSet;
use rustbox::network::{ip_in_any_subnet, Cidr, IpAddress, NetworkMode, NetworkPolicy, TransformRule};
use rustbox::policy::{NetworkPolicyEvaluator, PolicyDecision};
use rustbox::string_map::StringMap;

fn v4(a: u8, b: u8, c: u8, d: u8) -> IpAddress {
    IpAddress::V4(u32::from_be_bytes([a, b, c, d]))
}

fn cidr(s: &str) -> Cidr {
    Cidr::parse(s).unwrap()
}

fn make_rule(domain: &str, key: &str, value: &str) -> TransformRule {
    let mut rule = TransformRule::new(domain);
    rule.headers.insert(key.to_string(), value.to_string());
    rule
}

fn policy(mode: NetworkMode) -> NetworkPolicy {
    NetworkPolicy {
        mode,
        allow_domains: vec![],
        subnets_allow: vec![],
        subnets_deny: vec![],
        transform_rules: vec![],
    }
}

#[test]
fn ipv4_in_cidr() {
    let subnets = vec![cidr("192.168.1.0/24")];
    assert!(ip_in_any_subnet(v4(192, 168, 1, 5), &subnets));
}

#[test]
fn ipv4_not_in_cidr() {
    let subnets = vec![cidr("192.168.1.0/24")];
    assert!(!ip_in_any_subnet(v4(10, 0, 0, 1), &subnets));
}

#[test]
fn ipv6_in_cidr() {
    let subnets = vec![cidr("::1/128")];
    assert!(ip_in_any_subnet(IpAddress::V6(1), &subnets));
}

#[test]
fn multiple_subnets() {
    let subnets = vec![cidr("192.168.1.0/24"), cidr("10.0.0.0/8")];
    assert!(ip_in_any_subnet(v4(10, 0, 0, 1), &subnets));
}

#[test]
fn empty_subnet_list() {
    let subnets: Vec<Cidr> = vec![];
    assert!(!ip_in_any_subnet(v4(192, 168, 1, 5), &subnets));
}

#[test]
fn cidr_parse_and_text() {
    assert!(Cidr::parse("not a cidr").is_none());
    assert!(Cidr::parse("10.0.0.0/33").is_none());
    assert_eq!(cidr("10.1.2.3/8").to_text(), "10.1.2.3/8");
    assert_eq!(cidr("fe80::/10").to_text(), "fe80::/10");
    assert!(cidr("0.0.0.0/0").contains(v4(8, 8, 8, 8)));
    assert!(!cidr("0.0.0.0/0").contains(IpAddress::V6(1)));
    assert!(Cidr::v4(0, 33).is_none());
}

#[test]
fn find_matching_rule() {
    let rules = vec![
        make_rule("api.example.com", "Authorization", "Bearer token123"),
        make_rule("other.com", "X-Key", "secret"),
    ];
    let result = find_credential_headers("api.example.com", &rules);
    assert!(result.is_some());
    let rule = result.unwrap();
    assert_eq!(rule.headers.get("Authorization").unwrap(), "Bearer token123");
}

#[test]
fn no_match_returns_none() {
    let rules = vec![make_rule("api.example.com", "Authorization", "Bearer tok")];
    let result = find_credential_headers("unknown.com", &rules);
    assert!(result.is_none());
}

#[test]
fn wildcard_domain_match() {
    let rules = vec![make_rule("*.example.com", "Authorization", "Bearer wildcard")];
    let result = find_credential_headers("sub.example.com", &rules);
    assert!(result.is_some());
    assert_eq!(result.unwrap().headers.get("Authorization").unwrap(), "Bearer wildcard");
}

#[test]
fn first_matching_rule_wins() {
    let rules = vec![make_rule("*.example.com", "A", "1"), make_rule("api.example.com", "A", "2")];
    let rule = find_credential_headers("api.example.com", &rules).unwrap();
    assert_eq!(rule.headers.get("A").unwrap(), "1");
}

#[test]
fn allow_all_allows_any() {
    let evaluator = NetworkPolicyEvaluator::new(NetworkPolicy::default());
    assert!(evaluator.should_allow_domain("anything.example.com"));
}

#[test]
fn deny_all_denies_by_default() {
    let evaluator = NetworkPolicyEvaluator::new(policy(NetworkMode::DenyAll));
    assert!(!evaluator.should_allow_domain("example.com"));
}

#[test]
fn deny_all_with_allowlist() {
    let mut p = policy(NetworkMode::DenyAll);
    p.allow_domains = vec!["example.com".to_string()];
    let evaluator = NetworkPolicyEvaluator::new(p);
    assert!(evaluator.should_allow_domain("example.com"));
    assert!(!evaluator.should_allow_domain("other.com"));
}

#[test]
fn allow_all_subnet_deny() {
    let mut p = policy(NetworkMode::AllowAll);
    p.subnets_deny = vec![cidr("192.168.1.0/24")];
    let evaluator = NetworkPolicyEvaluator::new(p);
    assert!(!evaluator.should_allow_ip(v4(192, 168, 1, 5)));
    assert!(evaluator.should_allow_ip(v4(192, 168, 2, 5)));
}

#[test]
fn evaluate_connection_transform() {
    let rule = make_rule("api.example.com", "Authorization", "Bearer tok");
    let mut p = policy(NetworkMode::AllowAll);
    p.transform_rules = vec![rule];
    let evaluator = NetworkPolicyEvaluator::new(p);
    let decision = evaluator.evaluate_connection("api.example.com", v4(1, 2, 3, 4));
    let expected_rule = make_rule("api.example.com", "Authorization", "Bearer tok");
    assert_eq!(decision, PolicyDecision::AllowWithTransform(expected_rule));
}

#[test]
fn deny_all_allows_only_listed_domain_and_subnet() {
    let mut p = policy(NetworkMode::DenyAll);
    p.allow_domains = vec!["*.ok.com".to_string()];
    p.subnets_allow = vec![cidr("10.0.0.0/8")];
    let evaluator = NetworkPolicyEvaluator::new(p);
    assert_eq!(evaluator.evaluate_connection("a.ok.com", v4(10, 1, 1, 1)), PolicyDecision::Allow);
    assert_eq!(evaluator.evaluate_connection("a.ok.com", v4(11, 1, 1, 1)), PolicyDecision::Deny);
    assert_eq!(evaluator.evaluate_connection("bad.com", v4(10, 1, 1, 1)), PolicyDecision::Deny);
}

#[test]
fn network_policy_default_is_allow_all_empty_vecs() {
    let policy = NetworkPolicy::default();
    match policy.mode {
        NetworkMode::AllowAll => {}
        _ => panic!("expected AllowAll"),
    }
    assert!(policy.allow_domains.is_empty());
    assert!(policy.subnets_allow.is_empty());
    assert!(policy.subnets_deny.is_empty());
    assert!(policy.transform_rules.is_empty());
}

#[test]
fn allow_all_generates_accept() {
    let ruleset = NftablesRuleSet::from_policy(&NetworkPolicy::default());
    assert_eq!(ruleset.rules, vec!["add rule inet filter output accept"]);
}

#[test]
fn deny_all_generates_drop() {
    let ruleset = NftablesRuleSet::from_policy(&policy(NetworkMode::DenyAll));
    assert_eq!(
        ruleset.rules,
        vec!["add rule inet filter output oif lo accept", "add rule inet filter output drop"]
    );
}

#[test]
fn deny_specific_subnets() {
    let mut p = policy(NetworkMode::AllowAll);
    p.subnets_deny = vec![cidr("10.0.0.0/8")];
    let ruleset = NftablesRuleSet::from_policy(&p);
    assert_eq!(
        ruleset.rules,
        vec!["add rule inet filter output ip daddr 10.0.0.0/8 drop", "add rule inet filter output accept"]
    );
}

#[test]
fn deny_all_accepts_allowed_subnets() {
    let mut p = policy(NetworkMode::DenyAll);
    p.subnets_allow = vec![cidr("192.168.0.0/16"), cidr("::1/128")];
    let ruleset = NftablesRuleSet::from_policy(&p);
    assert_eq!(
        ruleset.rules,
        vec![
            "add rule inet filter output oif lo accept",
            "add rule inet filter output ip daddr 192.168.0.0/16 accept",
            "add rule inet filter output ip daddr ::1/128 accept",
            "add rule inet filter output drop",
        ]
    );
}

#[test]
fn string_map_insert_replaces_in_place() {
    let mut m = StringMap::new();
    m.insert("a".to_string(), "1".to_string());
    m.insert("b".to_string(), "2".to_string());
    m.insert("a".to_string(), "3".to_string());
    assert_eq!(m.len(), 2);
    assert_eq!(m.entry(0), (&"a".to_string(), &"3".to_string()));
    assert_eq!(m.get("a").unwrap(), "3");
    assert!(m.get("c").is_none());
    let copy = m.duplicate();
    assert!(copy.equals(&m));
}
