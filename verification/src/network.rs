//! The network policy of a sandbox: how it is made from a request, what is
//! refused, and how it is shown.

use vstd::prelude::*;

use crate::text;

verus! {

/// An IPv4 network: the big-endian value of an address and a prefix length of
/// at most 32.
#[derive(Debug, Clone, Copy, PartialEq, Eq, Structural)]
pub struct V4Cidr {
    addr: u32,
    prefix: u8,
}

/// An IPv6 network: the big-endian value of an address and a prefix length of
/// at most 128.
#[derive(Debug, Clone, Copy, PartialEq, Eq, Structural)]
pub struct V6Cidr {
    addr: u128,
    prefix: u8,
}

impl V4Cidr {
    #[verifier::type_invariant]
    spec fn prefix_fits(self) -> bool {
        self.prefix <= 32
    }

    /// The address.
    pub closed spec fn addr(self) -> u32 {
        self.addr
    }

    /// The prefix length.
    pub closed spec fn prefix(self) -> u8 {
        self.prefix
    }

    /// A network, if the prefix length fits.
    pub fn new(addr: u32, prefix: u8) -> (cidr: Option<V4Cidr>)
        ensures
            match cidr {
                Some(cidr) => prefix <= 32 && cidr.addr() == addr && cidr.prefix() == prefix,
                None => prefix > 32,
            },
    {
        if prefix <= 32 {
            Some(V4Cidr { addr, prefix })
        } else {
            None
        }
    }
}

impl V6Cidr {
    #[verifier::type_invariant]
    spec fn prefix_fits(self) -> bool {
        self.prefix <= 128
    }

    /// The address.
    pub closed spec fn addr(self) -> u128 {
        self.addr
    }

    /// The prefix length.
    pub closed spec fn prefix(self) -> u8 {
        self.prefix
    }

    /// A network, if the prefix length fits.
    pub fn new(addr: u128, prefix: u8) -> (cidr: Option<V6Cidr>)
        ensures
            match cidr {
                Some(cidr) => prefix <= 128 && cidr.addr() == addr && cidr.prefix() == prefix,
                None => prefix > 128,
            },
    {
        if prefix <= 128 {
            Some(V6Cidr { addr, prefix })
        } else {
            None
        }
    }
}

/// A network of either kind.
#[derive(Debug, Clone, Copy, PartialEq, Eq, Structural)]
pub enum Cidr {
    V4(V4Cidr),
    V6(V6Cidr),
}

/// The dotted text of an IPv4 network, with its prefix length behind a slash.
pub open spec fn v4_text(addr: u32, prefix: u8) -> Seq<char> {
    text::decimal((addr / 0x100_0000) as nat) + "."@ + text::decimal(
        (addr / 0x1_0000 % 0x100) as nat,
    ) + "."@ + text::decimal((addr / 0x100 % 0x100) as nat) + "."@ + text::decimal(
        (addr % 0x100) as nat,
    ) + "/"@ + text::decimal(prefix as nat)
}

/// The text of an IPv6 network.
pub uninterp spec fn v6_text(addr: u128, prefix: u8) -> Seq<char>;

/// The text of a network.
pub open spec fn cidr_text(cidr: Cidr) -> Seq<char> {
    match cidr {
        Cidr::V4(network) => v4_text(network.addr(), network.prefix()),
        Cidr::V6(network) => v6_text(network.addr(), network.prefix()),
    }
}

/// The `Display` form of `ipnetwork::Ipv4Network`: the dotted address, a slash
/// and the prefix length.
#[verifier::external_body]
fn ipv4_network_to_string(addr: u32, prefix: u8) -> (text: String)
    requires
        prefix <= 32,
    ensures
        text@ == v4_text(addr, prefix),
{
    ipnetwork::Ipv4Network::new(addr.into(), prefix).unwrap().to_string()
}

/// The `Display` form of `ipnetwork::Ipv6Network`, which depends on the address
/// and the prefix length alone.
#[verifier::external_body]
fn ipv6_network_to_string(addr: u128, prefix: u8) -> (text: String)
    requires
        prefix <= 128,
    ensures
        text@ == v6_text(addr, prefix),
{
    ipnetwork::Ipv6Network::new(addr.into(), prefix).unwrap().to_string()
}

impl Cidr {
    /// Renders the network.
    pub fn to_text(self) -> (text: String)
        ensures
            text@ == cidr_text(self),
    {
        match self {
            Cidr::V4(network) => {
                proof {
                    use_type_invariant(network);
                }
                ipv4_network_to_string(network.addr, network.prefix)
            },
            Cidr::V6(network) => {
                proof {
                    use_type_invariant(network);
                }
                ipv6_network_to_string(network.addr, network.prefix)
            },
        }
    }
}

/// Whether a network is all of IPv4.
pub open spec fn is_all_traffic(cidr: Cidr) -> bool {
    cidr matches Cidr::V4(network) && network.addr() == 0 && network.prefix() == 0
}

/// Where a sandbox may connect to.
#[derive(Debug)]
pub struct SandboxNetworkEgressPolicy {
    pub allowed_cidrs: Vec<Cidr>,
    pub allowed_domains: Vec<String>,
    pub denied_cidrs: Vec<Cidr>,
}

/// What holds of connections that no rule is about.
#[derive(Debug, Clone, Copy, PartialEq, Eq, Structural)]
pub enum BaseSandboxNetworkPolicy {
    Default,
    Allow,
    Deny,
}

/// The network policy of a sandbox.
#[derive(Debug)]
pub struct SandboxNetworkPolicy {
    pub allow_public_traffic: bool,
    pub base_policy: BaseSandboxNetworkPolicy,
    pub egress: SandboxNetworkEgressPolicy,
}

impl Default for SandboxNetworkPolicy {
    fn default() -> (policy: Self)
        ensures
            policy.allow_public_traffic,
            policy.base_policy == BaseSandboxNetworkPolicy::Default,
            policy.egress.allowed_cidrs@.len() == 0,
            policy.egress.allowed_domains@.len() == 0,
            policy.egress.denied_cidrs@.len() == 0,
    {
        SandboxNetworkPolicy {
            allow_public_traffic: true,
            base_policy: BaseSandboxNetworkPolicy::Default,
            egress: SandboxNetworkEgressPolicy {
                allowed_cidrs: Vec::new(),
                allowed_domains: Vec::new(),
                denied_cidrs: Vec::new(),
            },
        }
    }
}

impl SandboxNetworkPolicy {
    /// Whether connections to some domains are allowed by name.
    pub fn has_domain_allow_rules(&self) -> (has: bool)
        ensures
            has == (self.egress.allowed_domains@.len() > 0),
    {
        self.egress.allowed_domains.len() > 0
    }

    /// Whether there is any rule on connections to the outside.
    pub open spec fn restricts_egress(self) -> bool {
        self.egress.allowed_cidrs@.len() > 0 || self.egress.allowed_domains@.len() > 0
            || self.egress.denied_cidrs@.len() > 0
    }

    /// Whether there is any rule on connections to the outside.
    pub fn has_explicit_egress_rules(&self) -> (has: bool)
        ensures
            has == self.restricts_egress(),
    {
        self.egress.allowed_cidrs.len() > 0 || self.egress.allowed_domains.len() > 0
            || self.egress.denied_cidrs.len() > 0
    }
}

/// The network part of a request to create a sandbox, and of a reply.
#[derive(Debug)]
pub struct SandboxNetworkConfig {
    pub allow_public_traffic: Option<bool>,
    pub allow_out: Option<Vec<String>>,
    pub deny_out: Option<Vec<String>>,
    pub mask_request_host: Option<String>,
}

/// A request to replace the network policy of a sandbox.
#[derive(Debug)]
pub struct SandboxNetworkUpdateConfig {
    pub allow_out: Option<Vec<String>>,
    pub deny_out: Option<Vec<String>>,
    pub allow_internet_access: Option<bool>,
}

/// What a request says of connections that no rule is about.
pub fn base_policy_from_allow_internet_access(value: Option<bool>) -> (policy:
    BaseSandboxNetworkPolicy)
    ensures
        policy == base_policy(value),
{
    match value {
        Some(true) => BaseSandboxNetworkPolicy::Allow,
        Some(false) => BaseSandboxNetworkPolicy::Deny,
        None => BaseSandboxNetworkPolicy::Default,
    }
}

/// What a request says of connections that no rule is about.
pub open spec fn base_policy(value: Option<bool>) -> BaseSandboxNetworkPolicy {
    match value {
        Some(allowed) => if allowed {
            BaseSandboxNetworkPolicy::Allow
        } else {
            BaseSandboxNetworkPolicy::Deny
        },
        None => BaseSandboxNetworkPolicy::Default,
    }
}

/// A value of a reply that may be null.
#[derive(Debug)]
pub enum Nullable<T> {
    Null,
    Present(T),
}

/// How a reply shows what holds of connections that no rule is about.
pub fn allow_internet_access_from_base_policy(policy: BaseSandboxNetworkPolicy) -> (value: Nullable<
    bool,
>)
    ensures
        value == internet_access(policy),
{
    match policy {
        BaseSandboxNetworkPolicy::Default => Nullable::Null,
        BaseSandboxNetworkPolicy::Allow => Nullable::Present(true),
        BaseSandboxNetworkPolicy::Deny => Nullable::Present(false),
    }
}

/// How a reply shows what holds of connections that no rule is about.
pub open spec fn internet_access(policy: BaseSandboxNetworkPolicy) -> Nullable<bool> {
    match policy {
        BaseSandboxNetworkPolicy::Default => Nullable::Null,
        BaseSandboxNetworkPolicy::Allow => Nullable::Present(true),
        BaseSandboxNetworkPolicy::Deny => Nullable::Present(false),
    }
}

/// What a request says of the base policy is what a reply shows of it.
pub proof fn law_base_policy_round_trip(value: Option<bool>)
    ensures
        internet_access(base_policy(value)) == (match value {
            Some(allowed) => Nullable::Present(allowed),
            None => Nullable::Null,
        }),
{
}

/// Whether a policy speaks of an IPv6 network.
pub open spec fn mentions_ipv6(egress: SandboxNetworkEgressPolicy) -> bool {
    ||| exists|i: int|
        0 <= i < egress.allowed_cidrs@.len() && #[trigger] egress.allowed_cidrs@[i] is V6
    ||| exists|i: int| 0 <= i < egress.denied_cidrs@.len() && #[trigger] egress.denied_cidrs@[i] is V6
}

/// Whether a policy denies all of IPv4.
pub open spec fn denies_all_traffic(egress: SandboxNetworkEgressPolicy) -> bool {
    exists|i: int|
        0 <= i < egress.denied_cidrs@.len() && is_all_traffic(#[trigger] egress.denied_cidrs@[i])
}

/// What is wrong with a policy, or nothing. Domains are allowed only on top of a
/// denial of everything else.
pub open spec fn policy_fault(egress: SandboxNetworkEgressPolicy) -> Option<Seq<char>> {
    if mentions_ipv6(egress) {
        Some("IPv6 CIDRs are not supported by the sandbox network API"@)
    } else if egress.allowed_domains@.len() > 0 && !denies_all_traffic(egress) {
        Some("allowOut contains domains but denyOut is missing 0.0.0.0/0 (ALL_TRAFFIC)"@)
    } else {
        None
    }
}

fn any_ipv6(cidrs: &Vec<Cidr>) -> (found: bool)
    ensures
        found == exists|i: int| 0 <= i < cidrs@.len() && #[trigger] cidrs@[i] is V6,
{
    let mut i: usize = 0;
    while i < cidrs.len()
        invariant
            i <= cidrs.len(),
            forall|j: int| 0 <= j < i ==> !(#[trigger] cidrs@[j] is V6),
        decreases cidrs.len() - i,
    {
        if let Cidr::V6(_) = cidrs[i] {
            assert(cidrs@[i as int] is V6);
            return true;
        }
        i = i + 1;
    }
    false
}

/// Refuses a policy that speaks of an IPv6 network.
pub fn validate_ipv4_cidrs(policy: &SandboxNetworkPolicy) -> (result: Result<(), String>)
    ensures
        match result {
            Ok(()) => !mentions_ipv6(policy.egress),
            Err(message) => mentions_ipv6(policy.egress) && message@
                == "IPv6 CIDRs are not supported by the sandbox network API"@,
        },
{
    if any_ipv6(&policy.egress.allowed_cidrs) || any_ipv6(&policy.egress.denied_cidrs) {
        Err("IPv6 CIDRs are not supported by the sandbox network API".to_owned())
    } else {
        Ok(())
    }
}

/// Refuses a policy that allows domains without denying everything else. A policy
/// of domains and networks is not refused: its explicit network grants hold on
/// every port.
pub fn validate_domain_allowlist(policy: &SandboxNetworkPolicy) -> (result: Result<(), String>)
    ensures
        match result {
            Ok(()) => policy.egress.allowed_domains@.len() == 0 || denies_all_traffic(policy.egress),
            Err(message) => policy.egress.allowed_domains@.len() > 0 && !denies_all_traffic(
                policy.egress,
            ) && message@
                == "allowOut contains domains but denyOut is missing 0.0.0.0/0 (ALL_TRAFFIC)"@,
        },
{
    if !policy.has_domain_allow_rules() {
        return Ok(());
    }
    let mut i: usize = 0;
    while i < policy.egress.denied_cidrs.len()
        invariant
            i <= policy.egress.denied_cidrs.len(),
            forall|j: int|
                0 <= j < i ==> !is_all_traffic(#[trigger] policy.egress.denied_cidrs@[j]),
        decreases policy.egress.denied_cidrs.len() - i,
    {
        if let Cidr::V4(network) = policy.egress.denied_cidrs[i] {
            if network.addr == 0 && network.prefix == 0 {
                assert(is_all_traffic(policy.egress.denied_cidrs@[i as int]));
                return Ok(());
            }
        }
        i = i + 1;
    }
    Err("allowOut contains domains but denyOut is missing 0.0.0.0/0 (ALL_TRAFFIC)".to_owned())
}

fn checked(policy: SandboxNetworkPolicy) -> (result: Result<SandboxNetworkPolicy, String>)
    ensures
        match policy_fault(policy.egress) {
            Some(message) => result matches Err(error) && error@ == message,
            None => result == Ok::<SandboxNetworkPolicy, String>(policy),
        },
{
    match validate_ipv4_cidrs(&policy) {
        Err(error) => Err(error),
        Ok(()) => match validate_domain_allowlist(&policy) {
            Err(error) => Err(error),
            Ok(()) => Ok(policy),
        },
    }
}

/// The policy of a new sandbox. The egress rules are those that the request's
/// lists were read as; where they could not be read, the request is refused with
/// that error.
pub fn network_policy_from_create(
    allow_internet_access: Option<bool>,
    network: Option<&SandboxNetworkConfig>,
    egress: Result<SandboxNetworkEgressPolicy, String>,
) -> (result: Result<SandboxNetworkPolicy, String>)
    ensures
        match egress {
            Err(error) => result == Err::<SandboxNetworkPolicy, String>(error),
            Ok(rules) => match policy_fault(rules) {
                Some(message) => result matches Err(error) && error@ == message,
                None => result == Ok::<SandboxNetworkPolicy, String>(
                    SandboxNetworkPolicy {
                        allow_public_traffic: match network {
                            Some(network) => network.allow_public_traffic != Some(false),
                            None => true,
                        },
                        base_policy: base_policy(allow_internet_access),
                        egress: rules,
                    },
                ),
            },
        },
{
    match egress {
        Err(error) => Err(error),
        Ok(egress) => {
            let allow_public_traffic = match network {
                Some(network) => match network.allow_public_traffic {
                    Some(allowed) => allowed,
                    None => true,
                },
                None => true,
            };
            checked(
                SandboxNetworkPolicy {
                    allow_public_traffic,
                    base_policy: base_policy_from_allow_internet_access(allow_internet_access),
                    egress,
                },
            )
        },
    }
}

/// The policy that replaces that of a sandbox. Public traffic is always allowed
/// by it. The egress rules are those that the request's lists were read as.
pub fn network_policy_from_update(
    body: &SandboxNetworkUpdateConfig,
    egress: Result<SandboxNetworkEgressPolicy, String>,
) -> (result: Result<SandboxNetworkPolicy, String>)
    ensures
        match egress {
            Err(error) => result == Err::<SandboxNetworkPolicy, String>(error),
            Ok(rules) => match policy_fault(rules) {
                Some(message) => result matches Err(error) && error@ == message,
                None => result == Ok::<SandboxNetworkPolicy, String>(
                    SandboxNetworkPolicy {
                        allow_public_traffic: true,
                        base_policy: base_policy(body.allow_internet_access),
                        egress: rules,
                    },
                ),
            },
        },
{
    match egress {
        Err(error) => Err(error),
        Ok(egress) => checked(
            SandboxNetworkPolicy {
                allow_public_traffic: true,
                base_policy: base_policy_from_allow_internet_access(body.allow_internet_access),
                egress,
            },
        ),
    }
}

/// The texts of networks.
pub open spec fn cidr_texts(cidrs: Seq<Cidr>) -> Seq<Seq<char>> {
    cidrs.map_values(|cidr: Cidr| cidr_text(cidr))
}

fn render_cidrs(cidrs: &Vec<Cidr>) -> (list: Vec<String>)
    ensures
        text::texts(list@) == cidr_texts(cidrs@),
{
    let mut list: Vec<String> = Vec::new();
    let mut i: usize = 0;
    while i < cidrs.len()
        invariant
            i <= cidrs.len(),
            list@.len() == i,
            forall|j: int| 0 <= j < i ==> (#[trigger] list@[j])@ == cidr_text(cidrs@[j]),
        decreases cidrs.len() - i,
    {
        list.push(cidrs[i].to_text());
        i = i + 1;
    }
    assert(text::texts(list@) =~= cidr_texts(cidrs@));
    list
}

/// What an optional list of strings says.
pub open spec fn optional_texts(list: Option<Vec<String>>) -> Option<Seq<Seq<char>>> {
    match list {
        Some(list) => Some(text::texts(list@)),
        None => None,
    }
}

/// How a reply shows a policy. The allowed networks come before the allowed
/// domains, and an empty list is left out.
pub fn network_config(policy: &SandboxNetworkPolicy) -> (config: SandboxNetworkConfig)
    ensures
        config.allow_public_traffic == Some(policy.allow_public_traffic),
        config.mask_request_host is None,
        optional_texts(config.allow_out) == shown_allow_out(policy.egress),
        optional_texts(config.deny_out) == shown_deny_out(policy.egress),
{
    let egress = &policy.egress;
    let allow_out = if egress.allowed_cidrs.len() > 0 || egress.allowed_domains.len() > 0 {
        let mut list = render_cidrs(&egress.allowed_cidrs);
        let ghost first = text::texts(list@);
        let mut i: usize = 0;
        assert(first + text::texts(egress.allowed_domains@).take(0) =~= first);
        while i < egress.allowed_domains.len()
            invariant
                i <= egress.allowed_domains.len(),
                egress == policy.egress,
                text::texts(list@) == first + text::texts(egress.allowed_domains@).take(i as int),
            decreases egress.allowed_domains.len() - i,
        {
            let ghost before = list@;
            list.push(egress.allowed_domains[i].clone());
            assert(text::texts(list@) =~= text::texts(before).push(
                egress.allowed_domains@[i as int]@,
            ));
            assert(text::texts(list@) =~= first + text::texts(egress.allowed_domains@).take(i + 1));
            i = i + 1;
        }
        assert(text::texts(egress.allowed_domains@).take(i as int) =~= text::texts(
            egress.allowed_domains@,
        ));
        Some(list)
    } else {
        None
    };
    let deny_out = if egress.denied_cidrs.len() > 0 {
        Some(render_cidrs(&egress.denied_cidrs))
    } else {
        None
    };
    SandboxNetworkConfig {
        allow_public_traffic: Some(policy.allow_public_traffic),
        allow_out,
        deny_out,
        mask_request_host: None,
    }
}

/// What a reply shows as the allowed destinations.
pub open spec fn shown_allow_out(egress: SandboxNetworkEgressPolicy) -> Option<Seq<Seq<char>>> {
    if egress.allowed_cidrs@.len() > 0 || egress.allowed_domains@.len() > 0 {
        Some(cidr_texts(egress.allowed_cidrs@) + text::texts(egress.allowed_domains@))
    } else {
        None
    }
}

/// What a reply shows as the denied destinations.
pub open spec fn shown_deny_out(egress: SandboxNetworkEgressPolicy) -> Option<Seq<Seq<char>>> {
    if egress.denied_cidrs@.len() > 0 {
        Some(cidr_texts(egress.denied_cidrs@))
    } else {
        None
    }
}

} // verus!
