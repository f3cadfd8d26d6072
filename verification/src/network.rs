//! IP addresses and subnets.

use ipnet::{IpNet, Ipv4Net, Ipv6Net};
use vstd::arithmetic::div_mod::lemma_fundamental_div_mod;
use vstd::arithmetic::power2::{lemma2_to64, lemma_pow2_adds, lemma_pow2_pos, pow2};
use vstd::prelude::*;

verus! {

/// An IP address, as a number.
#[derive(Debug, Clone, Copy, PartialEq, Eq, Structural)]
pub enum IpAddress {
    V4(u32),
    V6(u128),
}

/// A subnet: an address in it, and how many of its leading bits are fixed.
#[derive(Debug, Clone, Copy, PartialEq, Eq, Structural)]
pub enum Subnet {
    V4(u32, u8),
    V6(u128, u8),
}

impl Subnet {
    /// Whether there are as many bits as are fixed.
    pub open spec fn wf(self) -> bool {
        match self {
            Subnet::V4(_, prefix) => prefix <= 32,
            Subnet::V6(_, prefix) => prefix <= 128,
        }
    }

    /// Whether `ip` is of the same kind and agrees with the subnet in the fixed bits.
    pub open spec fn holds(self, ip: IpAddress) -> bool {
        match (self, ip) {
            (Subnet::V4(address, prefix), IpAddress::V4(ip)) => {
                let hosts = pow2((32 - prefix) as nat) as int;
                address as int / hosts == ip as int / hosts
            },
            (Subnet::V6(address, prefix), IpAddress::V6(ip)) => {
                let hosts = pow2((128 - prefix) as nat) as int;
                address as int / hosts == ip as int / hosts
            },
            _ => false,
        }
    }
}

/// The IP address that `text` writes, if it writes one.
pub uninterp spec fn ip_of_text(text: Seq<char>) -> Option<IpAddress>;

/// The subnet that `text` writes in CIDR notation, if it writes one.
pub uninterp spec fn subnet_of_text(text: Seq<char>) -> Option<Subnet>;

/// Parses an IP address.
///
/// Trusted: `FromStr` of the standard IP address, which `IpNet::new` takes, decides by
/// the text alone.
#[verifier::external_body]
pub(crate) fn parse_ip(text: &str) -> (r: Option<IpAddress>)
    ensures
        r == ip_of_text(text@),
{
    match IpNet::new(text.parse().ok()?, 0).ok()? {
        IpNet::V4(net) => Some(IpAddress::V4(net.addr().into())),
        IpNet::V6(net) => Some(IpAddress::V6(net.addr().into())),
    }
}

/// Parses a subnet.
///
/// Trusted: `<ipnet::IpNet as FromStr>::from_str` decides by the text alone, and
/// accepts no more fixed bits than an address has.
#[verifier::external_body]
pub(crate) fn parse_subnet(text: &str) -> (r: Option<Subnet>)
    ensures
        r == subnet_of_text(text@),
        r matches Some(net) ==> net.wf(),
{
    match text.parse::<IpNet>().ok()? {
        IpNet::V4(n) => Some(Subnet::V4(n.addr().into(), n.prefix_len())),
        IpNet::V6(n) => Some(Subnet::V6(n.addr().into(), n.prefix_len())),
    }
}

/// Whether `ip` lies in `subnet`.
///
/// Trusted: `IpNet::contains` of an IP address is false across the two kinds, and else
/// compares the fixed bits. `Ipv4Net::new_assert` and `Ipv6Net::new_assert` panic where
/// more bits are fixed than there are.
#[verifier::external_body]
fn net_contains(subnet: &Subnet, ip: &IpAddress) -> (r: bool)
    requires
        subnet.wf(),
    ensures
        r == subnet.holds(*ip),
{
    let net = match *subnet {
        Subnet::V4(address, prefix) => IpNet::V4(Ipv4Net::new_assert(address.into(), prefix)),
        Subnet::V6(address, prefix) => IpNet::V6(Ipv6Net::new_assert(address.into(), prefix)),
    };
    let host = match *ip {
        IpAddress::V4(ip) => IpNet::V4(Ipv4Net::new_assert(ip.into(), 32)),
        IpAddress::V6(ip) => IpNet::V6(Ipv6Net::new_assert(ip.into(), 128)),
    };
    net.contains(&host.addr())
}

impl Subnet {
    /// Whether `ip` lies in the subnet.
    pub fn contains(&self, ip: IpAddress) -> (r: bool)
        requires
            self.wf(),
        ensures
            r == self.holds(ip),
    {
        net_contains(self, &ip)
    }
}

/// A subnet without fixed bits, such as `0.0.0.0/0`, holds every address of its kind.
pub proof fn unfixed_subnet_holds_all()
    ensures
        forall|a: u32, ip: u32| #[trigger] Subnet::V4(a, 0).holds(IpAddress::V4(ip)),
        forall|a: u128, ip: u128| #[trigger] Subnet::V6(a, 0).holds(IpAddress::V6(ip)),
{
    lemma2_to64();
    lemma_pow2_adds(64, 64);
    assert(pow2(128) == 0x1_0000_0000_0000_0000_0000_0000_0000_0000int);
    assert forall|a: u32, ip: u32| #[trigger] Subnet::V4(a, 0).holds(IpAddress::V4(ip)) by {
        assert(a as int / 0x1_0000_0000 == 0);
        assert(ip as int / 0x1_0000_0000 == 0);
    }
    assert forall|a: u128, ip: u128| #[trigger] Subnet::V6(a, 0).holds(IpAddress::V6(ip)) by {
        assert(a as int / 0x1_0000_0000_0000_0000_0000_0000_0000_0000int == 0);
        assert(ip as int / 0x1_0000_0000_0000_0000_0000_0000_0000_0000int == 0);
    }
}

/// The addresses of a subnet are those of one run of addresses, of the length that the
/// free bits allow, that starts at a multiple of it: the run that the subnet's own address
/// lies in.
pub proof fn a_subnet_is_one_run_of_addresses(net: u32, prefix: u8, ip: u32, run: int)
    requires
        prefix <= 32,
        run * pow2((32 - prefix) as nat) <= net < (run + 1) * pow2((32 - prefix) as nat),
    ensures
        Subnet::V4(net, prefix).holds(IpAddress::V4(ip)) <==> run * pow2((32 - prefix) as nat) <= ip
            < (run + 1) * pow2((32 - prefix) as nat),
{
    let hosts = pow2((32 - prefix) as nat) as int;
    lemma_pow2_pos((32 - prefix) as nat);
    lemma_run(net as int, ip as int, hosts, run);
}

/// The same for the longer addresses.
pub proof fn a_long_subnet_is_one_run_of_addresses(net: u128, prefix: u8, ip: u128, run: int)
    requires
        prefix <= 128,
        run * pow2((128 - prefix) as nat) <= net < (run + 1) * pow2((128 - prefix) as nat),
    ensures
        Subnet::V6(net, prefix).holds(IpAddress::V6(ip)) <==> run * pow2((128 - prefix) as nat)
            <= ip < (run + 1) * pow2((128 - prefix) as nat),
{
    let hosts = pow2((128 - prefix) as nat) as int;
    lemma_pow2_pos((128 - prefix) as nat);
    lemma_run(net as int, ip as int, hosts, run);
}

/// No subnet holds an address of the other kind.
pub proof fn subnets_hold_their_own_kind(a: u32, b: u128, prefix: u8)
    ensures
        !Subnet::V4(a, prefix).holds(IpAddress::V6(b)),
        !Subnet::V6(b, prefix).holds(IpAddress::V4(a)),
{
}

proof fn lemma_run(a: int, b: int, hosts: int, run: int)
    requires
        0 < hosts,
        run * hosts <= a < (run + 1) * hosts,
    ensures
        a / hosts == b / hosts <==> run * hosts <= b < (run + 1) * hosts,
{
    lemma_fundamental_div_mod(a, hosts);
    lemma_fundamental_div_mod(b, hosts);
    assert(a / hosts == run) by (nonlinear_arith)
        requires
            0 < hosts,
            run * hosts <= a < (run + 1) * hosts,
            a == hosts * (a / hosts) + a % hosts,
            0 <= a % hosts < hosts,
    ;
    if a / hosts == b / hosts {
        assert(run * hosts <= b < (run + 1) * hosts) by (nonlinear_arith)
            requires
                b / hosts == run,
                b == hosts * (b / hosts) + b % hosts,
                0 <= b % hosts < hosts,
        ;
    }
    if run * hosts <= b < (run + 1) * hosts {
        assert(b / hosts == run) by (nonlinear_arith)
            requires
                0 < hosts,
                run * hosts <= b < (run + 1) * hosts,
                b == hosts * (b / hosts) + b % hosts,
                0 <= b % hosts < hosts,
        ;
    }
}

}
