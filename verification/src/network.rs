//! Network policy model: modes, IP addresses, CIDR blocks and header rules.

use vstd::prelude::*;
use vstd::arithmetic::power2::pow2;
use crate::string_map::StringMap;

verus! {

/// Whether outbound traffic is allowed or denied by default.
#[derive(Clone, Copy, Debug, PartialEq, Eq, Structural)]
pub enum NetworkMode {
    AllowAll,
    DenyAll,
}

/// An IPv4 or IPv6 address as an integer.
#[derive(Clone, Copy, Debug, PartialEq, Eq, Structural)]
pub enum IpAddress {
    V4(u32),
    V6(u128),
}

/// The plain contents of a CIDR block: address family, address and prefix length.
#[derive(Clone, Copy, Debug, PartialEq, Eq, Structural)]
pub struct CidrView {
    pub v6: bool,
    pub addr: u128,
    pub prefix_len: u8,
}

/// Number of address bits of a family.
pub open spec fn family_bits(v6: bool) -> nat {
    if v6 { 128 } else { 32 }
}

/// A block is well formed when its prefix fits its family and an IPv4
/// address fits in 32 bits.
pub open spec fn cidr_wf(c: CidrView) -> bool {
    &&& c.prefix_len as nat <= family_bits(c.v6)
    &&& !c.v6 ==> c.addr < 0x1_0000_0000
}

/// The top `p` of `w` bits of `x` and `y` agree.
pub open spec fn same_prefix(x: int, y: int, p: nat, w: nat) -> bool {
    p == 0 || x / (pow2((w - p) as nat) as int) == y / (pow2((w - p) as nat) as int)
}

/// Membership of an address in a block: same family, and the address lies
/// between the block's network and broadcast addresses, i.e. agrees with the
/// block's address on the first `prefix_len` bits.
pub open spec fn spec_contains(c: CidrView, ip: IpAddress) -> bool {
    match ip {
        IpAddress::V4(a) => !c.v6 && same_prefix(c.addr as int, a as int, c.prefix_len as nat, 32),
        IpAddress::V6(a) => c.v6 && same_prefix(c.addr as int, a as int, c.prefix_len as nat, 128),
    }
}

/// What `"...".parse::<ipnet::IpNet>()` yields for a text, as plain values.
pub uninterp spec fn spec_parse_ip_net(s: Seq<char>) -> Option<CidrView>;

/// The text `ipnet::Ipv4Net` displays for an address and prefix.
pub uninterp spec fn spec_ipv4_net_text(addr: u32, prefix_len: u8) -> Seq<char>;

/// The text `ipnet::Ipv6Net` displays for an address and prefix.
pub uninterp spec fn spec_ipv6_net_text(addr: u128, prefix_len: u8) -> Seq<char>;

/// Parses a CIDR text with `ipnet::IpNet::from_str`.
/// Trusted: the result equals `spec_parse_ip_net` of the text; a parsed
/// block has a prefix that fits its family (ipnet's parser reads at most 32
/// or 128) and an IPv4 address that fits 32 bits.
#[verifier::external_body]
fn parse_ip_net(s: &str) -> (r: Option<CidrView>)
    ensures
        r == spec_parse_ip_net(s@),
        r matches Some(c) ==> cidr_wf(c),
{
    match s.parse::<ipnet::IpNet>() {
        Ok(ipnet::IpNet::V4(n)) => Some(CidrView { v6: false, addr: u32::from(n.addr()) as u128, prefix_len: n.prefix_len() }),
        Ok(ipnet::IpNet::V6(n)) => Some(CidrView { v6: true, addr: u128::from(n.addr()), prefix_len: n.prefix_len() }),
        Err(_) => None,
    }
}

/// Displays an IPv4 block with `ipnet::Ipv4Net`'s `Display`.
/// Trusted: the text equals `spec_ipv4_net_text` of the arguments.
#[verifier::external_body]
fn ipv4_net_text(addr: u32, prefix_len: u8) -> (r: String)
    requires
        prefix_len <= 32,
    ensures
        r@ == spec_ipv4_net_text(addr, prefix_len),
{
    ipnet::Ipv4Net::new_assert(addr.into(), prefix_len).to_string()
}

/// Displays an IPv6 block with `ipnet::Ipv6Net`'s `Display`.
/// Trusted: the text equals `spec_ipv6_net_text` of the arguments.
#[verifier::external_body]
fn ipv6_net_text(addr: u128, prefix_len: u8) -> (r: String)
    requires
        prefix_len <= 128,
    ensures
        r@ == spec_ipv6_net_text(addr, prefix_len),
{
    ipnet::Ipv6Net::new_assert(addr.into(), prefix_len).to_string()
}

/// An IPv4 or IPv6 network block (address and prefix length).
#[derive(Debug)]
pub struct Cidr {
    v6: bool,
    addr: u128,
    prefix_len: u8,
}

impl View for Cidr {
    type V = CidrView;

    closed spec fn view(&self) -> CidrView {
        CidrView { v6: self.v6, addr: self.addr, prefix_len: self.prefix_len }
    }
}

/// The text of a well-formed block.
pub open spec fn spec_cidr_text(c: CidrView) -> Seq<char> {
    if c.v6 {
        spec_ipv6_net_text(c.addr, c.prefix_len)
    } else {
        spec_ipv4_net_text(c.addr as u32, c.prefix_len)
    }
}

impl Cidr {
    #[verifier::type_invariant]
    spec fn inv(self) -> bool {
        cidr_wf(self@)
    }

    /// An IPv4 block; `None` when the prefix is longer than 32 bits.
    pub fn v4(addr: u32, prefix_len: u8) -> (r: Option<Cidr>)
        ensures
            prefix_len <= 32 <==> r is Some,
            r matches Some(c) ==> c@ == (CidrView { v6: false, addr: addr as u128, prefix_len }),
    {
        if prefix_len > 32 {
            None
        } else {
            Some(Cidr { v6: false, addr: addr as u128, prefix_len })
        }
    }

    /// An IPv6 block; `None` when the prefix is longer than 128 bits.
    pub fn v6(addr: u128, prefix_len: u8) -> (r: Option<Cidr>)
        ensures
            prefix_len <= 128 <==> r is Some,
            r matches Some(c) ==> c@ == (CidrView { v6: true, addr, prefix_len }),
    {
        if prefix_len > 128 {
            None
        } else {
            Some(Cidr { v6: true, addr, prefix_len })
        }
    }

    /// Parses a block such as `10.0.0.0/8` or `::1/128`.
    pub fn parse(s: &str) -> (r: Option<Cidr>)
        ensures
            match spec_parse_ip_net(s@) {
                Some(c) => r matches Some(x) && x@ == c,
                None => r is None,
            },
    {
        match parse_ip_net(s) {
            Some(c) => Some(Cidr { v6: c.v6, addr: c.addr, prefix_len: c.prefix_len }),
            None => None,
        }
    }

    /// A copy of the block.
    pub fn copy(&self) -> (r: Cidr)
        ensures
            r@ == self@,
    {
        proof { use_type_invariant(self); }
        Cidr { v6: self.v6, addr: self.addr, prefix_len: self.prefix_len }
    }

    /// The block as text, `address/prefix`, as ipnet displays it.
    pub fn to_text(&self) -> (r: String)
        ensures
            r@ == spec_cidr_text(self@),
    {
        proof { use_type_invariant(self); }
        if self.v6 {
            ipv6_net_text(self.addr, self.prefix_len)
        } else {
            ipv4_net_text(self.addr as u32, self.prefix_len)
        }
    }

    /// Whether `ip` lies in this block.
    pub fn contains(&self, ip: IpAddress) -> (b: bool)
        ensures
            b == spec_contains(self@, ip),
    {
        proof { use_type_invariant(self); }
        let (a, w): (u128, u8) = match ip {
            IpAddress::V4(a) => {
                if self.v6 {
                    return false;
                }
                (a as u128, 32u8)
            },
            IpAddress::V6(a) => {
                if !self.v6 {
                    return false;
                }
                (a, 128u8)
            },
        };
        if self.prefix_len == 0 {
            return true;
        }
        let shift: u128 = (w - self.prefix_len) as u128;
        proof {
            vstd::bits::lemma_u128_shr_is_div(self.addr, shift);
            vstd::bits::lemma_u128_shr_is_div(a, shift);
        }
        (self.addr >> shift) == (a >> shift)
    }
}

/// Whether `ip` lies in at least one of the blocks.
pub open spec fn spec_in_any(subnets: Seq<Cidr>, ip: IpAddress) -> bool {
    exists|i: int| 0 <= i < subnets.len() && spec_contains(#[trigger] subnets[i]@, ip)
}

/// Checks whether an IP address falls within any of the given subnets.
pub fn ip_in_any_subnet(ip: IpAddress, subnets: &[Cidr]) -> (b: bool)
    ensures
        b == spec_in_any(subnets@, ip),
{
    let mut i: usize = 0;
    while i < subnets.len()
        invariant
            i <= subnets@.len(),
            forall|j: int| 0 <= j < i ==> !spec_contains(#[trigger] subnets@[j]@, ip),
        decreases subnets@.len() - i,
    {
        if subnets[i].contains(ip) {
            return true;
        }
        i = i + 1;
    }
    false
}

/// Headers to add to requests for domains matching `domain`.
#[derive(Debug)]
pub struct TransformRule {
    pub domain: String,
    pub headers: StringMap,
}

/// The plain contents of a rule.
pub struct TransformRuleView {
    pub domain: Seq<char>,
    pub headers: Seq<(Seq<char>, Seq<char>)>,
}

impl View for TransformRule {
    type V = TransformRuleView;

    open spec fn view(&self) -> TransformRuleView {
        TransformRuleView { domain: self.domain@, headers: self.headers@ }
    }
}

impl TransformRule {
    /// A rule for `domain` with no headers yet.
    pub fn new(domain: &str) -> (r: TransformRule)
        ensures
            r.domain@ == domain@,
            r.headers@ == Seq::<(Seq<char>, Seq<char>)>::empty(),
    {
        TransformRule { domain: domain.to_owned(), headers: StringMap::new() }
    }

    /// A copy with the same domain and the same headers in the same order.
    pub fn duplicate(&self) -> (r: TransformRule)
        ensures
            r@ == self@,
    {
        TransformRule { domain: self.domain.clone(), headers: self.headers.duplicate() }
    }

    /// Same domain and the same header entries.
    pub open spec fn same_rule(self, other: TransformRule) -> bool {
        self.domain@ == other.domain@ && self.headers.same_entries(other.headers)
    }
}

/// Outbound network policy of a sandbox.
#[derive(Debug)]
pub struct NetworkPolicy {
    pub mode: NetworkMode,
    pub allow_domains: Vec<String>,
    pub subnets_allow: Vec<Cidr>,
    pub subnets_deny: Vec<Cidr>,
    pub transform_rules: Vec<TransformRule>,
}

impl NetworkPolicy {
    /// The default policy: allow everything, with no lists and no rules.
    pub fn default_policy() -> (p: NetworkPolicy)
        ensures
            p.mode == NetworkMode::AllowAll,
            p.allow_domains@.len() == 0,
            p.subnets_allow@.len() == 0,
            p.subnets_deny@.len() == 0,
            p.transform_rules@.len() == 0,
    {
        NetworkPolicy {
            mode: NetworkMode::AllowAll,
            allow_domains: Vec::new(),
            subnets_allow: Vec::new(),
            subnets_deny: Vec::new(),
            transform_rules: Vec::new(),
        }
    }
}

impl Default for NetworkPolicy {
    fn default() -> (p: NetworkPolicy)
        ensures
            p.mode == NetworkMode::AllowAll,
            p.allow_domains@.len() == 0,
            p.subnets_allow@.len() == 0,
            p.subnets_deny@.len() == 0,
            p.transform_rules@.len() == 0,
    {
        NetworkPolicy::default_policy()
    }
}

} // verus!
