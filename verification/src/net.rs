//! Internet addresses and networks as plain numbers.

use vstd::arithmetic::power2::pow2;
use vstd::prelude::*;

verus! {

/// An IP address, as the number that its octets spell in network order.
#[derive(Debug, Clone, Copy, PartialEq, Eq, Structural)]
pub enum IpAddr {
    /// The 32 bits of an IPv4 address.
    V4(u32),
    /// The 128 bits of an IPv6 address.
    V6(u128),
}

/// An IP address and a port.
#[derive(Debug, Clone, Copy, PartialEq, Eq, Structural)]
pub struct SocketAddr {
    pub ip: IpAddr,
    pub port: u16,
    /// The flow label and traffic class of an IPv6 address; zero with IPv4.
    pub flowinfo: u32,
    /// The zone of an IPv6 address; zero with IPv4.
    pub scope_id: u32,
}

impl SocketAddr {
    /// An address and a port, without a flow label and a zone.
    pub open spec fn of(ip: IpAddr, port: u16) -> SocketAddr {
        SocketAddr { ip, port, flowinfo: 0, scope_id: 0 }
    }

    /// An address and a port, without a flow label and a zone.
    pub fn new(ip: IpAddr, port: u16) -> (r: SocketAddr)
        ensures
            r == SocketAddr::of(ip, port),
    {
        SocketAddr { ip, port, flowinfo: 0, scope_id: 0 }
    }

    /// The same address on another port.
    pub fn with_port(&self, port: u16) -> (r: SocketAddr)
        ensures
            r == (SocketAddr { port, ..*self }),
    {
        SocketAddr { ip: self.ip, port, flowinfo: self.flowinfo, scope_id: self.scope_id }
    }
}

/// An address together with the length of its network prefix, such as `10.0.0.1/24`.
#[derive(Debug, Clone, Copy, PartialEq, Eq, Structural)]
pub struct Cidr {
    pub ip: IpAddr,
    pub prefix: u8,
}

/// The number that bytes spell, the most significant byte first.
pub open spec fn be_value(bytes: Seq<u8>) -> nat
    decreases bytes.len(),
{
    if bytes.len() == 0 {
        0
    } else {
        be_value(bytes.drop_last()) * 256 + bytes.last() as nat
    }
}

impl IpAddr {
    /// The IPv4 address `a.b.c.d`.
    pub fn v4(a: u8, b: u8, c: u8, d: u8) -> (r: IpAddr)
        ensures
            r == IpAddr::V4((a * 0x100_0000 + b * 0x1_0000 + c * 0x100 + d) as u32),
    {
        IpAddr::V4(a as u32 * 0x100_0000 + b as u32 * 0x1_0000 + c as u32 * 0x100 + d as u32)
    }

    /// Whether this is an IPv4 address.
    pub fn is_ipv4(&self) -> (r: bool)
        ensures
            r == (self is V4),
    {
        match self {
            IpAddr::V4(_) => true,
            IpAddr::V6(_) => false,
        }
    }

    /// The loopback addresses: `127.0.0.0/8` and `::1`.
    pub open spec fn loopback(self) -> bool {
        match self {
            IpAddr::V4(bits) => bits / 0x100_0000 == 127,
            IpAddr::V6(bits) => bits == 1,
        }
    }

    /// Whether this is a loopback address.
    pub fn is_loopback(&self) -> (r: bool)
        ensures
            r == self.loopback(),
    {
        match self {
            IpAddr::V4(bits) => *bits / 0x100_0000 == 127,
            IpAddr::V6(bits) => *bits == 1,
        }
    }
}

impl Cidr {
    /// The prefix is no longer than the address.
    pub open spec fn valid(self) -> bool {
        match self.ip {
            IpAddr::V4(_) => self.prefix <= 32,
            IpAddr::V6(_) => self.prefix <= 128,
        }
    }

    /// `ip` is of the same family and begins with the same `prefix` bits.
    pub open spec fn covers(self, ip: IpAddr) -> bool {
        match (self.ip, ip) {
            (IpAddr::V4(net), IpAddr::V4(bits)) => net as nat / pow2((32 - self.prefix) as nat)
                == bits as nat / pow2((32 - self.prefix) as nat),
            (IpAddr::V6(net), IpAddr::V6(bits)) => net as nat / pow2((128 - self.prefix) as nat)
                == bits as nat / pow2((128 - self.prefix) as nat),
            _ => false,
        }
    }
}

/// The address that a text spells, if it spells one, as the text parser of the
/// standard library's IP address type reads it.
pub uninterp spec fn ip_of_text(text: Seq<char>) -> Option<IpAddr>;

/// The network that a text spells, if it spells one, as `ipnetwork` reads it.
pub uninterp spec fn cidr_of_text(text: Seq<char>) -> Option<Cidr>;

/// Reads an IP address.
///
/// Calls `str::parse` for the standard library's IP address type; the result
/// goes through `IpNetwork::new`, which keeps the address and takes a prefix of
/// length zero for both families, to tell the two apart. Trusted: the result
/// depends on the text alone.
#[verifier::external_body]
pub(crate) fn parse_ip(text: &str) -> (r: Option<IpAddr>)
    ensures
        r == ip_of_text(text@),
{
    match ipnetwork::IpNetwork::new(text.parse().ok()?, 0).ok()? {
        ipnetwork::IpNetwork::V4(net) => Some(IpAddr::V4(net.ip().into())),
        ipnetwork::IpNetwork::V6(net) => Some(IpAddr::V6(net.ip().into())),
    }
}

/// Reads a network.
///
/// Calls `str::parse` for `ipnetwork::IpNetwork`. Trusted: the result depends
/// on the text alone, and a network that was read has a prefix no longer than
/// its address.
#[verifier::external_body]
pub(crate) fn parse_cidr(text: &str) -> (r: Option<Cidr>)
    ensures
        r == cidr_of_text(text@),
        r matches Some(cidr) ==> cidr.valid(),
{
    match text.parse::<ipnetwork::IpNetwork>().ok()? {
        ipnetwork::IpNetwork::V4(net) => Some(
            Cidr { ip: IpAddr::V4(net.ip().into()), prefix: net.prefix() },
        ),
        ipnetwork::IpNetwork::V6(net) => Some(
            Cidr { ip: IpAddr::V6(net.ip().into()), prefix: net.prefix() },
        ),
    }
}

/// Whether an address lies in a network.
///
/// Calls `IpNetwork::contains`. Trusted: it compares the leading bits that the
/// prefix covers, and an address of the other family lies outside.
#[verifier::external_body]
pub(crate) fn cidr_contains(cidr: Cidr, ip: IpAddr) -> (r: bool)
    requires
        cidr.valid(),
    ensures
        r == cidr.covers(ip),
{
    let base = match cidr.ip {
        IpAddr::V4(bits) => bits.to_be_bytes().into(),
        IpAddr::V6(bits) => bits.to_be_bytes().into(),
    };
    let addr = match ip {
        IpAddr::V4(bits) => bits.to_be_bytes().into(),
        IpAddr::V6(bits) => bits.to_be_bytes().into(),
    };
    ipnetwork::IpNetwork::new(base, cidr.prefix).is_ok_and(|net| net.contains(addr))
}

/// A network holds the addresses of its own family that share its leading
/// bits: all with the prefix zero, itself alone with the longest one, those
/// with the same first three octets with the prefix 24.
pub proof fn networks_hold_what_shares_their_bits(net: u32, bits: u32, long: u128, other: u128)
    ensures
        (Cidr { ip: IpAddr::V4(net), prefix: 0 }).covers(IpAddr::V4(bits)),
        (Cidr { ip: IpAddr::V4(net), prefix: 8 }).covers(IpAddr::V4(bits)) <==> net / 0x100_0000
            == bits / 0x100_0000,
        (Cidr { ip: IpAddr::V4(net), prefix: 16 }).covers(IpAddr::V4(bits)) <==> net / 0x1_0000
            == bits / 0x1_0000,
        (Cidr { ip: IpAddr::V4(net), prefix: 24 }).covers(IpAddr::V4(bits)) <==> net / 0x100
            == bits / 0x100,
        (Cidr { ip: IpAddr::V4(net), prefix: 32 }).covers(IpAddr::V4(bits)) <==> net == bits,
        (Cidr { ip: IpAddr::V6(long), prefix: 128 }).covers(IpAddr::V6(other)) <==> long == other,
        (Cidr { ip: IpAddr::V6(long), prefix: 64 }).covers(IpAddr::V6(other)) <==> long
            / 0x1_0000_0000_0000_0000 == other / 0x1_0000_0000_0000_0000,
        !(Cidr { ip: IpAddr::V4(net), prefix: 0 }).covers(IpAddr::V6(other)),
        !(Cidr { ip: IpAddr::V6(long), prefix: 0 }).covers(IpAddr::V4(bits)),
{
    vstd::arithmetic::power2::lemma2_to64();
    vstd::arithmetic::power2::lemma2_to64_rest();
    assert(net as nat / pow2(32) == 0 && bits as nat / pow2(32) == 0) by {
        assert(pow2(32) == 0x1_0000_0000);
    }
    assert(net as nat / pow2(0) == net && bits as nat / pow2(0) == bits) by {
        assert(pow2(0) == 1);
    }
    assert(long as nat / pow2(0) == long && other as nat / pow2(0) == other) by {
        assert(pow2(0) == 1);
    }
}

/// A network holds its own address.
pub proof fn networks_hold_themselves(cidr: Cidr)
    ensures
        cidr.covers(cidr.ip),
{
}

/// The loopback addresses are those that begin with 127, and `::1`.
pub proof fn loopback_addresses(a: u8, rest: u32, long: u128)
    requires
        rest < 0x100_0000,
    ensures
        IpAddr::V4((a * 0x100_0000 + rest) as u32).loopback() <==> a == 127,
        IpAddr::V6(long).loopback() <==> long == 1,
{
}

/// A longer prefix holds no more.
pub proof fn longer_prefixes_hold_less(net: u32, prefix: u8, bits: u32)
    requires
        1 <= prefix <= 32,
        (Cidr { ip: IpAddr::V4(net), prefix }).covers(IpAddr::V4(bits)),
    ensures
        (Cidr { ip: IpAddr::V4(net), prefix: (prefix - 1) as u8 }).covers(IpAddr::V4(bits)),
{
    let n = (32 - prefix) as nat;
    let (a, b) = (net as int, bits as int);
    vstd::arithmetic::power2::lemma_pow2_pos(n);
    vstd::arithmetic::power2::lemma_pow2_unfold(n + 1);
    let p = pow2(n) as int;
    vstd::arithmetic::div_mod::lemma_div_denominator(a, p, 2);
    vstd::arithmetic::div_mod::lemma_div_denominator(b, p, 2);
    assert(p * 2 == pow2(n + 1));
}

} // verus!
