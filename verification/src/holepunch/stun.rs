//! The addresses at which this node may be reached: those of its own
//! interfaces, and the one that a STUN server (RFC 5389) observes.

use vstd::prelude::*;
use vstd::string::*;

use crate::cdn::rules;
use crate::net::{IpAddr, SocketAddr};
use crate::text;
use crate::types::{Candidate, CandidateType};

verus! {

/// How long to wait for the server's answer, in seconds.
pub const STUN_TIMEOUT_SECS: u64 = 5;

/// How long candidates may be kept, in nanoseconds.
pub const CACHE_TTL_NANOS: u128 = 300_000_000_000;

/// The type of a binding request.
pub const BINDING_REQUEST: u16 = 0x0001;

/// The type of a binding response.
pub const BINDING_RESPONSE: u16 = 0x0101;

/// The type of the attribute XOR-MAPPED-ADDRESS.
pub const ATTR_XOR_MAPPED_ADDRESS: u16 = 0x0020;

/// The magic cookie.
pub const MAGIC_COOKIE: u32 = 0x2112_A442;

/// The upper half of the magic cookie, with which ports are masked.
pub const MAGIC_PORT: u16 = 0x2112;

/// The magic cookie as it is sent.
pub open spec fn cookie_bytes() -> Seq<u8> {
    seq![0x21, 0x12, 0xA4, 0x42]
}

/// The number in two bytes, the upper one first.
pub open spec fn pair_value(high: u8, low: u8) -> u16 {
    (high * 256 + low) as u16
}

/// The number in four bytes, the uppermost one first.
pub open spec fn quad_value(a: u8, b: u8, c: u8, d: u8) -> u32 {
    (a * 0x100_0000 + b * 0x1_0000 + c * 0x100 + d) as u32
}

/// Why a response gives no address.
#[derive(Debug, Clone, Copy, PartialEq, Eq, Structural)]
pub enum StunError {
    /// It has no complete header; the number is its length.
    TooShort(usize),
    /// It is no binding response; the number is its type.
    NotAResponse(u16),
    /// It does not hold the magic cookie.
    BadCookie,
    /// No attribute tells an address.
    NoMappedAddress,
    /// The attribute is too short.
    AddressTooShort,
    /// The address is an IPv6 address.
    Ipv6,
    /// The address is of an unknown family.
    UnknownFamily(u8),
}

impl StunError {
    /// The message for a reader.
    pub open spec fn text(self) -> Seq<char> {
        match self {
            StunError::TooShort(n) => "STUN 响应太短 ("@ + text::decimal(n as nat) + ")"@,
            StunError::NotAResponse(kind) => "非 Binding Response (type=0x"@ + rules::hex_of(
                seq![(kind / 256) as u8, (kind % 256) as u8],
            ) + ")"@,
            StunError::BadCookie => "Magic Cookie 不匹配"@,
            StunError::NoMappedAddress => "未找到 XOR-MAPPED-ADDRESS attribute"@,
            StunError::AddressTooShort => "XOR-MAPPED-ADDRESS 太短"@,
            StunError::Ipv6 => "IPv6 XOR-MAPPED-ADDRESS 暂不支持"@,
            StunError::UnknownFamily(family) => "不支持的地址族: 0x"@ + rules::hex_of(seq![family]),
        }
    }

    /// The message for a reader.
    pub fn message(&self) -> (r: String)
        ensures
            r@ == self.text(),
    {
        match self {
            StunError::TooShort(n) => text::concat3(
                "STUN 响应太短 (",
                text::decimal_text(*n as u64).as_str(),
                ")",
            ),
            StunError::NotAResponse(kind) => {
                let bytes: Vec<u8> = vec![(*kind / 256) as u8, (*kind % 256) as u8];
                proof {
                    assert(bytes@ =~= seq![(*kind / 256) as u8, (*kind % 256) as u8]);
                }
                text::concat3(
                    "非 Binding Response (type=0x",
                    rules::hex_text(&bytes).as_str(),
                    ")",
                )
            },
            StunError::BadCookie => "Magic Cookie 不匹配".to_owned(),
            StunError::NoMappedAddress => "未找到 XOR-MAPPED-ADDRESS attribute".to_owned(),
            StunError::AddressTooShort => "XOR-MAPPED-ADDRESS 太短".to_owned(),
            StunError::Ipv6 => "IPv6 XOR-MAPPED-ADDRESS 暂不支持".to_owned(),
            StunError::UnknownFamily(family) => {
                let bytes: Vec<u8> = vec![*family];
                proof {
                    assert(bytes@ =~= seq![*family]);
                }
                text::concat("不支持的地址族: 0x", rules::hex_text(&bytes).as_str())
            },
        }
    }
}

/// The address in the value of an XOR-MAPPED-ADDRESS attribute.
pub open spec fn mapped_address(value: Seq<u8>) -> Result<SocketAddr, StunError> {
    if value.len() < 8 {
        Err(StunError::AddressTooShort)
    } else if value[1] == 1 {
        Ok(
            SocketAddr::of(
                IpAddr::V4(quad_value(value[4], value[5], value[6], value[7]) ^ MAGIC_COOKIE),
                pair_value(value[2], value[3]) ^ MAGIC_PORT,
            ),
        )
    } else if value[1] == 2 {
        Err(StunError::Ipv6)
    } else {
        Err(StunError::UnknownFamily(value[1]))
    }
}

/// The address in the value of an XOR-MAPPED-ADDRESS attribute.
pub fn parse_xor_mapped_address(value: &[u8]) -> (r: Result<SocketAddr, StunError>)
    ensures
        r == mapped_address(value@),
{
    if value.len() < 8 {
        return Err(StunError::AddressTooShort);
    }
    let family = value[1];
    if family == 1 {
        let xor_port: u16 = value[2] as u16 * 256 + value[3] as u16;
        let xor_bits: u32 = value[4] as u32 * 0x100_0000 + value[5] as u32 * 0x1_0000
            + value[6] as u32 * 0x100 + value[7] as u32;
        Ok(
            SocketAddr::new(IpAddr::V4(xor_bits ^ MAGIC_COOKIE), xor_port ^ MAGIC_PORT),
        )
    } else if family == 2 {
        Err(StunError::Ipv6)
    } else {
        Err(StunError::UnknownFamily(family))
    }
}

/// The length of an attribute's value together with its padding.
pub open spec fn padded(len: int) -> int {
    (len + 3) / 4 * 4
}

/// The address that the attributes from `pos` on tell: the first
/// XOR-MAPPED-ADDRESS of sufficient length decides.
pub open spec fn address_from(data: Seq<u8>, pos: int) -> Result<SocketAddr, StunError>
    decreases data.len() + 4 - pos,
{
    if pos + 4 > data.len() {
        Err(StunError::NoMappedAddress)
    } else {
        let kind = pair_value(data[pos], data[pos + 1]);
        let len = pair_value(data[pos + 2], data[pos + 3]) as int;
        if pos + 4 + len > data.len() {
            Err(StunError::NoMappedAddress)
        } else if kind == ATTR_XOR_MAPPED_ADDRESS && len >= 8 {
            mapped_address(data.subrange(pos + 4, pos + 4 + len))
        } else {
            address_from(data, pos + 4 + padded(len))
        }
    }
}

/// The address that a binding response tells.
pub open spec fn response_address(data: Seq<u8>) -> Result<SocketAddr, StunError> {
    if data.len() < 20 {
        Err(StunError::TooShort(data.len() as usize))
    } else if pair_value(data[0], data[1]) != BINDING_RESPONSE {
        Err(StunError::NotAResponse(pair_value(data[0], data[1])))
    } else if data.subrange(4, 8) != cookie_bytes() {
        Err(StunError::BadCookie)
    } else {
        address_from(data, 20)
    }
}

/// The address that a binding response tells.
pub fn parse_binding_response(data: &[u8]) -> (r: Result<SocketAddr, StunError>)
    ensures
        r == response_address(data@),
{
    if data.len() < 20 {
        return Err(StunError::TooShort(data.len()));
    }
    let kind: u16 = data[0] as u16 * 256 + data[1] as u16;
    if kind != BINDING_RESPONSE {
        return Err(StunError::NotAResponse(kind));
    }
    let ghost cookie = data@.subrange(4, 8);
    if data[4] != 0x21 || data[5] != 0x12 || data[6] != 0xA4 || data[7] != 0x42 {
        proof {
            assert(cookie[0] == data@[4] && cookie[1] == data@[5] && cookie[2] == data@[6]
                && cookie[3] == data@[7]);
            assert(cookie != cookie_bytes());
        }
        return Err(StunError::BadCookie);
    }
    proof {
        assert(cookie =~= cookie_bytes());
    }
    let mut pos: usize = 20;
    while data.len() - pos >= 4
        invariant
            20 <= pos <= data.len(),
            response_address(data@) == address_from(data@, pos as int),
        decreases data.len() - pos,
    {
        let kind: u16 = data[pos] as u16 * 256 + data[pos + 1] as u16;
        let len: usize = data[pos + 2] as usize * 256 + data[pos + 3] as usize;
        let start: usize = pos + 4;
        if len > data.len() - start {
            return Err(StunError::NoMappedAddress);
        }
        if kind == ATTR_XOR_MAPPED_ADDRESS && len >= 8 {
            return parse_xor_mapped_address(
                vstd::slice::slice_subrange(data, start, start + len),
            );
        }
        let whole: usize = (len + 3) / 4 * 4;
        if whole > data.len() - start {
            proof {
                reveal_with_fuel(address_from, 2);
            }
            return Err(StunError::NoMappedAddress);
        }
        pos = start + whole;
    }
    Err(StunError::NoMappedAddress)
}

/// A byte at random.
///
/// Calls `rand::random`. Nothing is trusted of the byte.
#[verifier::external_body]
fn random_byte() -> (r: u8) {
    rand::random::<u8>()
}

/// A binding request: its type, the length of its attributes (none), the
/// magic cookie and the transaction id.
pub open spec fn request_of(transaction: Seq<u8>) -> Seq<u8> {
    seq![0x00u8, 0x01, 0x00, 0x00] + cookie_bytes() + transaction
}

/// The binding request under a transaction id of twelve bytes.
pub fn request_with(transaction: &Vec<u8>) -> (r: Vec<u8>)
    requires
        transaction@.len() == 12,
    ensures
        r@ == request_of(transaction@),
{
    let mut r: Vec<u8> = vec![0x00, 0x01, 0x00, 0x00, 0x21, 0x12, 0xA4, 0x42];
    let ghost head = r@;
    let mut i: usize = 0;
    while i < 12
        invariant
            i <= 12,
            transaction@.len() == 12,
            r@ == head + transaction@.take(i as int),
        decreases 12 - i,
    {
        r.push(transaction[i]);
        i = i + 1;
        proof {
            assert(head + transaction@.take(i as int) =~= (head + transaction@.take(i - 1)).push(
                transaction@[i - 1],
            ));
        }
    }
    proof {
        assert(r@ =~= request_of(transaction@));
    }
    r
}

/// A binding request under a random transaction id.
pub fn build_binding_request() -> (r: Vec<u8>)
    ensures
        r@.len() == 20,
        r@ == request_of(r@.skip(8)),
{
    let mut transaction: Vec<u8> = Vec::new();
    while transaction.len() < 12
        invariant
            transaction@.len() <= 12,
        decreases 12 - transaction@.len(),
    {
        transaction.push(random_byte());
    }
    let r = request_with(&transaction);
    proof {
        assert(request_of(transaction@).skip(8) =~= transaction@);
    }
    r
}

/// An address that peers may use: an IPv4 address, not a loopback one.
pub open spec fn usable(ip: IpAddr) -> bool {
    ip is V4 && !ip.loopback()
}

/// The candidates for the usable ones of the first `n` addresses.
pub open spec fn hosts_among(ips: Seq<IpAddr>, port: u16, n: int) -> Seq<Candidate>
    decreases n,
{
    if n <= 0 {
        Seq::empty()
    } else if usable(ips[n - 1]) {
        hosts_among(ips, port, n - 1).push(host_at(ips[n - 1], port))
    } else {
        hosts_among(ips, port, n - 1)
    }
}

/// The candidate for an address of this node.
pub open spec fn host_at(ip: IpAddr, port: u16) -> Candidate {
    Candidate { addr_type: CandidateType::Host, address: SocketAddr::of(ip, port) }
}

/// The candidates for the addresses of this node: those that its name
/// resolves to, else the one from which it would send.
pub open spec fn hosts_of(ips: Seq<IpAddr>, fallback: Option<IpAddr>, port: u16) -> Seq<Candidate> {
    let named = hosts_among(ips, port, ips.len() as int);
    if named.len() == 0 {
        match fallback {
            Some(ip) => if usable(ip) {
                seq![host_at(ip, port)]
            } else {
                named
            },
            None => named,
        }
    } else {
        named
    }
}

/// Whether peers may use an address.
fn is_usable(ip: IpAddr) -> (r: bool)
    ensures
        r == usable(ip),
{
    ip.is_ipv4() && !ip.is_loopback()
}

/// The candidates for the addresses of this node, on the port of its
/// transport. `ips` are the addresses that its name resolves to, `fallback`
/// is the one from which it would send.
pub fn get_host_candidates(ips: &Vec<IpAddr>, fallback: Option<IpAddr>, local_port: u16) -> (r: Vec<
    Candidate,
>)
    ensures
        r@ == hosts_of(ips@, fallback, local_port),
{
    let mut r: Vec<Candidate> = Vec::new();
    let mut i: usize = 0;
    while i < ips.len()
        invariant
            i <= ips.len(),
            r@ == hosts_among(ips@, local_port, i as int),
        decreases ips.len() - i,
    {
        let ip = ips[i];
        if is_usable(ip) {
            r.push(
                Candidate {
                    addr_type: CandidateType::Host,
                    address: SocketAddr::new(ip, local_port),
                },
            );
        }
        i = i + 1;
    }
    if r.len() == 0 {
        match fallback {
            Some(ip) => {
                if is_usable(ip) {
                    r.push(
                        Candidate {
                            addr_type: CandidateType::Host,
                            address: SocketAddr::new(ip, local_port),
                        },
                    );
                    proof {
                        assert(r@ =~= seq![host_at(ip, local_port)]);
                    }
                }
            },
            None => {},
        }
    }
    r
}

/// All candidates: those of this node, and behind them the address that the
/// server observed, on the port of the transport.
pub open spec fn with_observed(
    hosts: Seq<Candidate>,
    observed: Option<SocketAddr>,
    port: u16,
) -> Seq<Candidate> {
    match observed {
        Some(mapped) => hosts.push(
            Candidate {
                addr_type: CandidateType::Srflx,
                address: SocketAddr { port, ..mapped },
            },
        ),
        None => hosts,
    }
}

/// All candidates: those of this node, and behind them the address that the
/// server observed, on the port of the transport.
pub fn gather_candidates(
    hosts: Vec<Candidate>,
    observed: Option<SocketAddr>,
    local_port: u16,
) -> (r: Vec<Candidate>)
    ensures
        r@ == with_observed(hosts@, observed, local_port),
{
    let mut r = hosts;
    match observed {
        Some(mapped) => {
            r.push(
                Candidate {
                    addr_type: CandidateType::Srflx,
                    address: mapped.with_port(local_port),
                },
            );
        },
        None => {},
    }
    r
}

/// Candidates that may be kept: there are some, and all have a port.
pub open spec fn cacheable(candidates: Seq<Candidate>) -> bool {
    candidates.len() > 0 && forall|i: int|
        0 <= i < candidates.len() ==> (#[trigger] candidates[i]).address.port != 0
}

/// What is kept after candidates were found at a time.
pub open spec fn kept_after(
    before: Option<(u128, Seq<Candidate>)>,
    candidates: Seq<Candidate>,
    now: u128,
) -> Option<(u128, Seq<Candidate>)> {
    if cacheable(candidates) {
        Some((now, candidates))
    } else {
        before
    }
}

/// The candidates that were found last, with the time at which that was.
/// Times are nanoseconds since some fixed moment.
#[derive(Debug, Clone)]
pub struct CandidateCache {
    entry: Option<(u128, Vec<Candidate>)>,
}

impl CandidateCache {
    /// What is kept, and since when.
    pub closed spec fn kept(self) -> Option<(u128, Seq<Candidate>)> {
        match self.entry {
            Some(entry) => Some((entry.0, entry.1@)),
            None => None,
        }
    }

    /// What can be used at a time.
    pub open spec fn fresh(self, now: u128) -> Option<Seq<Candidate>> {
        match self.kept() {
            Some(entry) => if now - entry.0 < CACHE_TTL_NANOS {
                Some(entry.1)
            } else {
                None
            },
            None => None,
        }
    }

    /// Keeps nothing yet.
    pub fn new() -> (r: CandidateCache)
        ensures
            r.kept() is None,
    {
        CandidateCache { entry: None }
    }

    /// The candidates, if they were found less than five minutes ago.
    pub fn get_cached(&self, now: u128) -> (r: Option<Vec<Candidate>>)
        ensures
            match r {
                Some(candidates) => self.fresh(now) == Some(candidates@),
                None => self.fresh(now) is None,
            },
    {
        match &self.entry {
            Some(entry) => {
                let elapsed: u128 = if now > entry.0 {
                    now - entry.0
                } else {
                    0
                };
                if elapsed < CACHE_TTL_NANOS {
                    Some(copy_candidates(&entry.1))
                } else {
                    None
                }
            },
            None => None,
        }
    }

    /// Keeps candidates that may be kept; others leave everything as it was.
    pub fn set_cached(&mut self, candidates: &Vec<Candidate>, now: u128)
        ensures
            final(self).kept() == kept_after(old(self).kept(), candidates@, now),
    {
        if candidates.len() == 0 {
            return;
        }
        let mut i: usize = 0;
        while i < candidates.len()
            invariant
                i <= candidates.len(),
                *self == *old(self),
                forall|j: int| 0 <= j < i ==> (#[trigger] candidates@[j]).address.port != 0,
            decreases candidates.len() - i,
        {
            if candidates[i].address.port == 0 {
                return;
            }
            i = i + 1;
        }
        self.entry = Some((now, copy_candidates(candidates)));
    }
}

/// A copy of candidates.
fn copy_candidates(candidates: &Vec<Candidate>) -> (r: Vec<Candidate>)
    ensures
        r@ == candidates@,
{
    let mut r: Vec<Candidate> = Vec::new();
    let mut i: usize = 0;
    while i < candidates.len()
        invariant
            i <= candidates.len(),
            r@ == candidates@.take(i as int),
        decreases candidates.len() - i,
    {
        r.push(candidates[i]);
        i = i + 1;
        proof {
            assert(candidates@.take(i as int) =~= candidates@.take(i - 1).push(
                candidates@[i - 1],
            ));
        }
    }
    proof {
        assert(candidates@.take(i as int) =~= candidates@);
    }
    r
}

/// Two bytes that spell a number, the upper one first.
pub open spec fn pair_bytes(n: u16) -> Seq<u8> {
    seq![(n / 256) as u8, (n % 256) as u8]
}

/// Four bytes that spell a number, the uppermost one first.
pub open spec fn quad_bytes(n: u32) -> Seq<u8> {
    seq![
        (n / 0x100_0000) as u8,
        (n / 0x1_0000 % 0x100) as u8,
        (n / 0x100 % 0x100) as u8,
        (n % 0x100) as u8,
    ]
}

/// The response in which a server tells an IPv4 address.
pub open spec fn response_of(transaction: Seq<u8>, bits: u32, port: u16) -> Seq<u8> {
    seq![0x01u8, 0x01, 0x00, 0x0C] + cookie_bytes() + transaction + seq![
        0x00u8,
        0x20,
        0x00,
        0x08,
        0x00,
        0x01,
    ] + pair_bytes(port ^ MAGIC_PORT) + quad_bytes(bits ^ MAGIC_COOKIE)
}

/// The address that a server tells is the one that is read.
pub proof fn response_round_trip(transaction: Seq<u8>, bits: u32, port: u16)
    requires
        transaction.len() == 12,
    ensures
        response_address(response_of(transaction, bits, port)) == Ok::<SocketAddr, StunError>(
            SocketAddr::of(IpAddr::V4(bits), port),
        ),
{
    let data = response_of(transaction, bits, port);
    let p = port ^ MAGIC_PORT;
    let b = bits ^ MAGIC_COOKIE;
    assert(data.len() == 32);
    assert(data.subrange(4, 8) =~= cookie_bytes());
    assert(data[20] == 0x00 && data[21] == 0x20 && data[22] == 0x00 && data[23] == 0x08);
    let value = data.subrange(24, 32);
    assert(value =~= seq![0x00u8, 0x01] + pair_bytes(p) + quad_bytes(b));
    assert(value[1] == 1);
    assert(value[2] == (p / 256) as u8 && value[3] == (p % 256) as u8);
    assert(value[4] == (b / 0x100_0000) as u8 && value[5] == (b / 0x1_0000 % 0x100) as u8
        && value[6] == (b / 0x100 % 0x100) as u8 && value[7] == (b % 0x100) as u8);
    assert(pair_value(value[2], value[3]) == p);
    assert(quad_value(value[4], value[5], value[6], value[7]) == b);
    assert(p ^ 0x2112u16 == port) by (bit_vector)
        requires
            p == port ^ 0x2112u16,
    ;
    assert(b ^ 0x2112_A442u32 == bits) by (bit_vector)
        requires
            b == bits ^ 0x2112_A442u32,
    ;
    assert(mapped_address(value) == Ok::<SocketAddr, StunError>(
        SocketAddr::of(IpAddr::V4(bits), port),
    ));
}

/// Candidates of this node come before the observed one.
pub proof fn hosts_come_first(
    ips: Seq<IpAddr>,
    fallback: Option<IpAddr>,
    observed: Option<SocketAddr>,
    port: u16,
    i: int,
    j: int,
)
    requires
        0 <= i < j < with_observed(hosts_of(ips, fallback, port), observed, port).len(),
    ensures
        with_observed(hosts_of(ips, fallback, port), observed, port)[i].addr_type
            == CandidateType::Host,
{
    hosts_are_hosts(ips, port, ips.len() as int);
}

/// Every candidate has the port of the transport.
pub proof fn candidates_share_the_port(
    ips: Seq<IpAddr>,
    fallback: Option<IpAddr>,
    observed: Option<SocketAddr>,
    port: u16,
    i: int,
)
    requires
        0 <= i < with_observed(hosts_of(ips, fallback, port), observed, port).len(),
    ensures
        with_observed(hosts_of(ips, fallback, port), observed, port)[i].address.port == port,
{
    hosts_are_hosts(ips, port, ips.len() as int);
}

/// Each candidate among the usable addresses is one of this node, on its port.
proof fn hosts_are_hosts(ips: Seq<IpAddr>, port: u16, n: int)
    requires
        n <= ips.len(),
    ensures
        forall|i: int|
            0 <= i < hosts_among(ips, port, n).len() ==> (#[trigger] hosts_among(
                ips,
                port,
                n,
            )[i]).addr_type == CandidateType::Host && hosts_among(ips, port, n)[i].address.port
                == port,
    decreases n,
{
    if n > 0 {
        hosts_are_hosts(ips, port, n - 1);
    }
}

/// What was kept is found until five minutes have passed, and not after.
pub proof fn kept_for_five_minutes(cache: CandidateCache, since: u128, now: u128)
    requires
        cache.kept() matches Some(entry) && entry.0 == since,
    ensures
        cache.fresh(now) is Some <==> now - since < 300_000_000_000,
{
}

/// An attribute as it is sent: its type, the length of its value, the value,
/// and what fills it up to four bytes.
pub open spec fn attribute(kind: u16, value: Seq<u8>, padding: Seq<u8>) -> Seq<u8> {
    seq![
        (kind / 256) as u8,
        (kind % 256) as u8,
        (value.len() / 256) as u8,
        (value.len() % 256) as u8,
    ] + value + padding
}

/// Attributes as they are sent, one behind the other; each is given as its
/// type, its value and what fills it up.
pub open spec fn attributes(attrs: Seq<(u16, Seq<u8>, Seq<u8>)>) -> Seq<u8>
    decreases attrs.len(),
{
    if attrs.len() == 0 {
        Seq::empty()
    } else {
        attribute(attrs[0].0, attrs[0].1, attrs[0].2) + attributes(attrs.skip(1))
    }
}

/// The length of a value can be sent, and the value is filled up to a multiple
/// of four bytes.
pub open spec fn well_padded(attr: (u16, Seq<u8>, Seq<u8>)) -> bool {
    attr.1.len() <= 0xFFFF && attr.2.len() < 4 && (attr.1.len() + attr.2.len()) % 4 == 0
}

/// The header of a binding response: its type, some length, the magic cookie,
/// and twelve bytes of transaction id.
pub open spec fn is_response_header(head: Seq<u8>) -> bool {
    &&& head.len() == 20
    &&& head[0] == 0x01
    &&& head[1] == 0x01
    &&& head[4] == 0x21
    &&& head[5] == 0x12
    &&& head[6] == 0xA4
    &&& head[7] == 0x42
}

/// Ports and addresses are masked byte by byte with the magic cookie, and come
/// with the upper byte first.
pub proof fn addresses_are_unmasked(value: Seq<u8>)
    requires
        value.len() >= 8,
        value[1] == 1,
    ensures
        mapped_address(value) matches Ok(addr) && {
            &&& addr.ip matches IpAddr::V4(bits) && bits == (value[4] ^ 0x21) * 0x100_0000 + (
            value[5] ^ 0x12) * 0x1_0000 + (value[6] ^ 0xA4) * 0x100 + (value[7] ^ 0x42)
            &&& addr.port == (value[2] ^ 0x21) * 256 + (value[3] ^ 0x12)
            &&& addr.flowinfo == 0
            &&& addr.scope_id == 0
        },
{
    let (a, b, c, d) = (value[4], value[5], value[6], value[7]);
    let (h, l) = (value[2], value[3]);
    let n = quad_value(a, b, c, d);
    let p = pair_value(h, l);
    assert(n ^ 0x2112_A442u32 == (a ^ 0x21) * 0x100_0000 + (b ^ 0x12) * 0x1_0000 + (c ^ 0xA4) * 0x100
        + (d ^ 0x42)) by (bit_vector)
        requires
            n == a * 0x100_0000 + b * 0x1_0000 + c * 0x100 + d,
    ;
    assert(p ^ 0x2112u16 == (h ^ 0x21) * 256 + (l ^ 0x12)) by (bit_vector)
        requires
            p == h * 256 + l,
    ;
}

/// The family of an address decides whether it is read: IPv4 is, IPv6 and
/// unknown families are told apart, and a value of less than eight bytes holds
/// no address.
pub proof fn families_are_told_apart(value: Seq<u8>)
    ensures
        value.len() < 8 ==> mapped_address(value) == Err::<SocketAddr, StunError>(
            StunError::AddressTooShort,
        ),
        value.len() >= 8 && value[1] == 2 ==> mapped_address(value) == Err::<SocketAddr, StunError>(
            StunError::Ipv6,
        ),
        value.len() >= 8 && value[1] != 1 && value[1] != 2 ==> mapped_address(value) == Err::<
            SocketAddr,
            StunError,
        >(StunError::UnknownFamily(value[1])),
{
}

/// Only an XOR-MAPPED-ADDRESS of sufficient length tells an address: the
/// attributes before the first one do not matter, whatever they are, nor does
/// what follows it.
pub proof fn other_attributes_do_not_matter(
    head: Seq<u8>,
    attrs: Seq<(u16, Seq<u8>, Seq<u8>)>,
    value: Seq<u8>,
    rest: Seq<u8>,
)
    requires
        is_response_header(head),
        forall|i: int| 0 <= i < attrs.len() ==> well_padded(#[trigger] attrs[i]),
        forall|i: int|
            0 <= i < attrs.len() ==> (#[trigger] attrs[i]).0 != 0x0020 || attrs[i].1.len() < 8,
        8 <= value.len() <= 0xFFFF,
    ensures
        response_address(head + attributes(attrs) + attribute(0x0020, value, rest))
            == mapped_address(value),
{
    let tail = attribute(0x0020, value, rest);
    let front = head + attributes(attrs);
    let data = front + tail;
    let pos = front.len() as int;
    assert(data =~= head + attributes(attrs) + tail);
    assert(data.len() == front.len() + tail.len());
    assert(forall|i: int| 0 <= i < 20 ==> data[i] == head[i]);
    assert(data.subrange(4, 8) =~= cookie_bytes());
    attributes_are_passed(head, attrs, tail);
    assert(data[pos] == tail[0] && data[pos + 1] == tail[1] && data[pos + 2] == tail[2] && data[pos
        + 3] == tail[3]);
    assert(data.subrange(pos + 4, pos + 4 + value.len()) =~= value);
}

/// A response with an XOR-MAPPED-ADDRESS for an address gives that address,
/// whatever other attributes stand before it.
pub proof fn mapped_addresses_are_found(
    head: Seq<u8>,
    attrs: Seq<(u16, Seq<u8>, Seq<u8>)>,
    reserved: u8,
    bits: u32,
    port: u16,
    rest: Seq<u8>,
)
    requires
        is_response_header(head),
        forall|i: int| 0 <= i < attrs.len() ==> well_padded(#[trigger] attrs[i]),
        forall|i: int| 0 <= i < attrs.len() ==> (#[trigger] attrs[i]).0 != 0x0020,
    ensures
        response_address(
            head + attributes(attrs) + (seq![
                0x00u8,
                0x20,
                0x00,
                0x08,
                reserved,
                0x01,
                (port / 256) as u8 ^ 0x21,
                (port % 256) as u8 ^ 0x12,
                (bits / 0x100_0000) as u8 ^ 0x21,
                (bits / 0x1_0000 % 256) as u8 ^ 0x12,
                (bits / 0x100 % 256) as u8 ^ 0xA4,
                (bits % 256) as u8 ^ 0x42,
            ] + rest),
        ) == Ok::<SocketAddr, StunError>(
            (SocketAddr { ip: IpAddr::V4(bits), port, flowinfo: 0, scope_id: 0 }),
        ),
{
    let (h, l) = ((port / 256) as u8, (port % 256) as u8);
    let (a, b, c, d) = (
        (bits / 0x100_0000) as u8,
        (bits / 0x1_0000 % 256) as u8,
        (bits / 0x100 % 256) as u8,
        (bits % 256) as u8,
    );
    let value = seq![
        reserved,
        0x01u8,
        h ^ 0x21,
        l ^ 0x12,
        a ^ 0x21,
        b ^ 0x12,
        c ^ 0xA4,
        d ^ 0x42,
    ];
    let sent = seq![
        0x00u8,
        0x20,
        0x00,
        0x08,
        reserved,
        0x01,
        h ^ 0x21,
        l ^ 0x12,
        a ^ 0x21,
        b ^ 0x12,
        c ^ 0xA4,
        d ^ 0x42,
    ] + rest;
    assert(attribute(0x0020, value, rest) =~= sent);
    other_attributes_do_not_matter(head, attrs, value, rest);
    addresses_are_unmasked(value);
    assert((h ^ 0x21) ^ 0x21 == h && (l ^ 0x12) ^ 0x12 == l) by (bit_vector);
    assert((a ^ 0x21) ^ 0x21 == a && (b ^ 0x12) ^ 0x12 == b && (c ^ 0xA4) ^ 0xA4 == c && (d ^ 0x42)
        ^ 0x42 == d) by (bit_vector);
}

/// A response without an XOR-MAPPED-ADDRESS of sufficient length tells no
/// address.
pub proof fn responses_may_lack_an_address(head: Seq<u8>, attrs: Seq<(u16, Seq<u8>, Seq<u8>)>)
    requires
        is_response_header(head),
        forall|i: int| 0 <= i < attrs.len() ==> well_padded(#[trigger] attrs[i]),
        forall|i: int|
            0 <= i < attrs.len() ==> (#[trigger] attrs[i]).0 != 0x0020 || attrs[i].1.len() < 8,
    ensures
        response_address(head + attributes(attrs)) == Err::<SocketAddr, StunError>(
            StunError::NoMappedAddress,
        ),
{
    let data = head + attributes(attrs);
    assert(forall|i: int| 0 <= i < 20 ==> data[i] == head[i]);
    assert(data.subrange(4, 8) =~= cookie_bytes());
    attributes_are_passed(head, attrs, Seq::empty());
    assert(data + Seq::<u8>::empty() =~= data);
}

/// Attributes that tell no address are passed over.
proof fn attributes_are_passed(
    front: Seq<u8>,
    attrs: Seq<(u16, Seq<u8>, Seq<u8>)>,
    tail: Seq<u8>,
)
    requires
        forall|i: int| 0 <= i < attrs.len() ==> well_padded(#[trigger] attrs[i]),
        forall|i: int|
            0 <= i < attrs.len() ==> (#[trigger] attrs[i]).0 != 0x0020 || attrs[i].1.len() < 8,
    ensures
        address_from(front + attributes(attrs) + tail, front.len() as int) == address_from(
            front + attributes(attrs) + tail,
            (front.len() + attributes(attrs).len()) as int,
        ),
    decreases attrs.len(),
{
    if attrs.len() > 0 {
        let data = front + attributes(attrs) + tail;
        let one = attribute(attrs[0].0, attrs[0].1, attrs[0].2);
        let more = attrs.skip(1);
        let pos = front.len() as int;
        assert(well_padded(attrs[0]));
        assert(data[pos] == one[0] && data[pos + 1] == one[1] && data[pos + 2] == one[2]
            && data[pos + 3] == one[3]);
        let len = attrs[0].1.len() as int;
        assert(pair_value(one[0], one[1]) == attrs[0].0);
        assert(pair_value(one[2], one[3]) == len);
        assert(padded(len) == len + attrs[0].2.len());
        assert forall|i: int| 0 <= i < more.len() implies well_padded(#[trigger] more[i]) by {
            assert(more[i] == attrs[i + 1]);
        }
        assert forall|i: int| 0 <= i < more.len() implies (#[trigger] more[i]).0 != 0x0020
            || more[i].1.len() < 8 by {
            assert(more[i] == attrs[i + 1]);
        }
        attributes_are_passed(front + one, more, tail);
        assert((front + one) + attributes(more) + tail =~= data);
    }
}

/// What is too short, of another type, or without the magic cookie is no
/// binding response.
pub proof fn other_messages_are_refused(data: Seq<u8>)
    ensures
        data.len() < 20 && data.len() <= usize::MAX ==> response_address(data) == Err::<
            SocketAddr,
            StunError,
        >(StunError::TooShort(data.len() as usize)),
        data.len() >= 20 && !(data[0] == 0x01 && data[1] == 0x01) ==> response_address(data)
            == Err::<SocketAddr, StunError>(
            StunError::NotAResponse((data[0] * 256 + data[1]) as u16),
        ),
        data.len() >= 20 && data[0] == 0x01 && data[1] == 0x01 && !(data[4] == 0x21 && data[5]
            == 0x12 && data[6] == 0xA4 && data[7] == 0x42) ==> response_address(data) == Err::<
            SocketAddr,
            StunError,
        >(StunError::BadCookie),
{
    if data.len() >= 20 {
        let cookie = data.subrange(4, 8);
        assert(cookie[0] == data[4] && cookie[1] == data[5] && cookie[2] == data[6] && cookie[3]
            == data[7]);
        if cookie == cookie_bytes() {
            assert(data[4] == 0x21 && data[5] == 0x12 && data[6] == 0xA4 && data[7] == 0x42);
        }
    }
}

/// A binding request is twenty bytes: its type, no attributes, the magic
/// cookie, and the transaction id as it stands.
pub proof fn requests_carry_the_transaction(transaction: Seq<u8>, i: int)
    requires
        transaction.len() == 12,
    ensures
        request_of(transaction).len() == 20,
        pair_value(request_of(transaction)[0], request_of(transaction)[1]) == BINDING_REQUEST,
        request_of(transaction).take(8) == seq![
            0x00u8,
            0x01,
            0x00,
            0x00,
            0x21,
            0x12,
            0xA4,
            0x42,
        ],
        0 <= i < 12 ==> request_of(transaction)[8 + i] == transaction[i],
{
    assert(request_of(transaction).take(8) =~= seq![
        0x00u8,
        0x01,
        0x00,
        0x00,
        0x21,
        0x12,
        0xA4,
        0x42,
    ]);
}

/// The candidates of this node are its IPv4 addresses outside `127.0.0.0/8`,
/// in their order, each on the port of the transport; where there is none, the
/// address from which it would send takes their place, if that is such a one.
pub proof fn hosts_are_the_usable_addresses(
    ips: Seq<IpAddr>,
    fallback: Option<IpAddr>,
    port: u16,
)
    ensures
        ips.filter(|ip: IpAddr| ip matches IpAddr::V4(bits) && bits / 0x100_0000 != 127).len() > 0
            ==> hosts_of(ips, fallback, port) == ips.filter(
            |ip: IpAddr| ip matches IpAddr::V4(bits) && bits / 0x100_0000 != 127,
        ).map_values(
            |ip: IpAddr|
                Candidate {
                    addr_type: CandidateType::Host,
                    address: SocketAddr { ip, port, flowinfo: 0, scope_id: 0 },
                },
        ),
        ips.filter(|ip: IpAddr| ip matches IpAddr::V4(bits) && bits / 0x100_0000 != 127).len() == 0
            ==> hosts_of(ips, fallback, port) == match fallback {
            Some(IpAddr::V4(bits)) => if bits / 0x100_0000 != 127 {
                seq![
                    Candidate {
                        addr_type: CandidateType::Host,
                        address: SocketAddr {
                            ip: IpAddr::V4(bits),
                            port,
                            flowinfo: 0,
                            scope_id: 0,
                        },
                    },
                ]
            } else {
                Seq::<Candidate>::empty()
            },
            _ => Seq::<Candidate>::empty(),
        },
{
    hosts_are_filtered(ips, port, ips.len() as int);
    assert(ips.take(ips.len() as int) =~= ips);
}

/// The candidates for the first addresses are the usable ones among them.
proof fn hosts_are_filtered(ips: Seq<IpAddr>, port: u16, n: int)
    requires
        0 <= n <= ips.len(),
    ensures
        hosts_among(ips, port, n) == ips.take(n).filter(
            |ip: IpAddr| ip matches IpAddr::V4(bits) && bits / 0x100_0000 != 127,
        ).map_values(
            |ip: IpAddr|
                Candidate {
                    addr_type: CandidateType::Host,
                    address: SocketAddr { ip, port, flowinfo: 0, scope_id: 0 },
                },
        ),
    decreases n,
{
    reveal(Seq::filter);
    let keep = |ip: IpAddr| ip matches IpAddr::V4(bits) && bits / 0x100_0000 != 127;
    let host = |ip: IpAddr|
        Candidate {
            addr_type: CandidateType::Host,
            address: SocketAddr { ip, port, flowinfo: 0, scope_id: 0 },
        };
    if n > 0 {
        hosts_are_filtered(ips, port, n - 1);
        let front = ips.take(n);
        assert(front.drop_last() =~= ips.take(n - 1));
        assert(front.last() == ips[n - 1]);
        let before = ips.take(n - 1).filter(keep);
        assert(before.push(ips[n - 1]).map_values(host) =~= before.map_values(host).push(
            host(ips[n - 1]),
        ));
    } else {
        assert(ips.take(0).filter(keep).map_values(host) =~= Seq::<Candidate>::empty());
    }
}

/// The address that the server observed comes last, on the port of the
/// transport; the candidates of this node stay as they are before it.
pub proof fn the_observed_address_comes_last(
    hosts: Seq<Candidate>,
    observed: SocketAddr,
    port: u16,
)
    ensures
        with_observed(hosts, None, port) == hosts,
        with_observed(hosts, Some(observed), port).len() == hosts.len() + 1,
        with_observed(hosts, Some(observed), port).drop_last() == hosts,
        with_observed(hosts, Some(observed), port).last().addr_type == CandidateType::Srflx,
        with_observed(hosts, Some(observed), port).last().address.ip == observed.ip,
        with_observed(hosts, Some(observed), port).last().address.port == port,
        with_observed(hosts, Some(observed), port).last().address.flowinfo == observed.flowinfo,
        with_observed(hosts, Some(observed), port).last().address.scope_id == observed.scope_id,
{
    assert(with_observed(hosts, Some(observed), port).drop_last() =~= hosts);
}

/// Candidates are kept where there are some and none lacks a port, and what is
/// found later is what was kept.
pub proof fn kept_candidates_are_found(
    cache: CandidateCache,
    since: u128,
    candidates: Seq<Candidate>,
    now: u128,
    i: int,
)
    ensures
        cacheable(candidates) ==> candidates.len() > 0,
        cacheable(candidates) && 0 <= i < candidates.len() ==> candidates[i].address.port > 0,
        candidates.len() > 0 && !cacheable(candidates) ==> exists|k: int|
            0 <= k < candidates.len() && (#[trigger] candidates[k]).address.port == 0,
        cache.kept() is None ==> cache.fresh(now) is None,
        cache.kept() == Some((since, candidates)) && now < since + 300_000_000_000
            ==> cache.fresh(now) == Some(candidates),
        cache.kept() == Some((since, candidates)) && now >= since + 300_000_000_000
            ==> cache.fresh(now) is None,
{
}

/// Candidates that all have a port replace what was kept, as of now; none at
/// all, or some without a port, replace nothing.
pub proof fn sound_candidates_are_kept(
    before: Option<(u128, Seq<Candidate>)>,
    candidates: Seq<Candidate>,
    now: u128,
    i: int,
)
    ensures
        candidates.len() > 0 && (forall|k: int|
            0 <= k < candidates.len() ==> (#[trigger] candidates[k]).address.port != 0)
            ==> kept_after(before, candidates, now) == Some((now, candidates)),
        candidates.len() == 0 ==> kept_after(before, candidates, now) == before,
        0 <= i < candidates.len() && candidates[i].address.port == 0 ==> kept_after(
            before,
            candidates,
            now,
        ) == before,
{
}

/// An attribute that is cut short ends the search: what it would tell is not
/// read.
pub proof fn cut_attributes_tell_nothing(
    head: Seq<u8>,
    attrs: Seq<(u16, Seq<u8>, Seq<u8>)>,
    cut: Seq<u8>,
)
    requires
        is_response_header(head),
        forall|i: int| 0 <= i < attrs.len() ==> well_padded(#[trigger] attrs[i]),
        forall|i: int|
            0 <= i < attrs.len() ==> (#[trigger] attrs[i]).0 != 0x0020 || attrs[i].1.len() < 8,
        cut.len() < 4 || cut.len() < 4 + cut[2] * 256 + cut[3],
    ensures
        response_address(head + attributes(attrs) + cut) == Err::<SocketAddr, StunError>(
            StunError::NoMappedAddress,
        ),
{
    let front = head + attributes(attrs);
    let data = front + cut;
    let pos = front.len() as int;
    assert(data.len() == front.len() + cut.len());
    assert(forall|i: int| 0 <= i < 20 ==> data[i] == head[i]);
    assert(data.subrange(4, 8) =~= cookie_bytes());
    attributes_are_passed(head, attrs, cut);
    if cut.len() >= 4 {
        assert(data[pos + 2] == cut[2] && data[pos + 3] == cut[3]);
    }
}

/// The server has five seconds to answer.
pub proof fn the_server_has_its_time()
    ensures
        STUN_TIMEOUT_SECS == 5,
{
}

} // verus!
