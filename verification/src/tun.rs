//! The packets of the virtual network: where they go, and how the device
//! frames them.

use vstd::arithmetic::power2::pow2;
use vstd::prelude::*;
use vstd::string::*;

use crate::holepunch::punch;
use crate::holepunch::punch::PunchEvent;
use crate::net;
use crate::net::{Cidr, IpAddr};
use crate::registry;
use crate::registry::{ConnTable, VipTable};
use crate::text;
use crate::types::{ConnState, Platform, TimestampMs};

verus! {

/// The largest packet of the device.
pub const TUN_MTU: i32 = 1500;

/// How much is read from the device at once: a packet, its header, and some
/// room.
pub const TUN_READ_BUFFER: usize = 1564;

/// How many packets may wait to be written to the device.
pub const INBOUND_CHANNEL_SIZE: usize = 1024;

/// How long a stream to a peer may take to open, in seconds.
pub const OPEN_TIMEOUT_SECS: u64 = 5;

/// The length of the header that Linux puts before each packet.
pub const PI_HEADER_LEN: usize = 4;

/// Why a packet has no destination.
#[derive(Debug, Clone, Copy, PartialEq, Eq, Structural)]
pub enum PacketError {
    Empty,
    /// An IPv4 packet without a complete header; the number is its length.
    ShortV4(usize),
    /// An IPv6 packet without a complete header; the number is its length.
    ShortV6(usize),
    /// Neither IPv4 nor IPv6; the number is the version.
    UnknownVersion(u8),
}

impl PacketError {
    /// The message for a reader.
    pub open spec fn text(self) -> Seq<char> {
        match self {
            PacketError::Empty => "空包"@,
            PacketError::ShortV4(n) => "IPv4 包长度不足 ("@ + text::decimal(n as nat) + ")"@,
            PacketError::ShortV6(n) => "IPv6 包长度不足 ("@ + text::decimal(n as nat) + ")"@,
            PacketError::UnknownVersion(v) => "不支持的 IP 版本: "@ + text::decimal(v as nat),
        }
    }

    /// The message for a reader.
    pub fn message(&self) -> (r: String)
        ensures
            r@ == self.text(),
    {
        match self {
            PacketError::Empty => "空包".to_owned(),
            PacketError::ShortV4(n) => text::concat3(
                "IPv4 包长度不足 (",
                text::decimal_text(*n as u64).as_str(),
                ")",
            ),
            PacketError::ShortV6(n) => text::concat3(
                "IPv6 包长度不足 (",
                text::decimal_text(*n as u64).as_str(),
                ")",
            ),
            PacketError::UnknownVersion(v) => text::concat(
                "不支持的 IP 版本: ",
                text::decimal_text(*v as u64).as_str(),
            ),
        }
    }
}

/// Where a packet goes: bytes 16 to 19 of an IPv4 packet, bytes 24 to 39 of an
/// IPv6 packet.
pub open spec fn destination(packet: Seq<u8>) -> Result<IpAddr, PacketError> {
    if packet.len() == 0 {
        Err(PacketError::Empty)
    } else if packet[0] / 16 == 4 {
        if packet.len() < 20 {
            Err(PacketError::ShortV4(packet.len() as usize))
        } else {
            Ok(IpAddr::V4(net::be_value(packet.subrange(16, 20)) as u32))
        }
    } else if packet[0] / 16 == 6 {
        if packet.len() < 40 {
            Err(PacketError::ShortV6(packet.len() as usize))
        } else {
            Ok(IpAddr::V6(net::be_value(packet.subrange(24, 40)) as u128))
        }
    } else {
        Err(PacketError::UnknownVersion((packet[0] / 16) as u8))
    }
}

/// Bytes spell a number below the power of two of their bits.
proof fn be_value_bound(bytes: Seq<u8>)
    ensures
        net::be_value(bytes) < pow2(8 * bytes.len()),
    decreases bytes.len(),
{
    vstd::arithmetic::power2::lemma2_to64();
    if bytes.len() > 0 {
        let n = (bytes.len() - 1) as nat;
        be_value_bound(bytes.drop_last());
        vstd::arithmetic::power2::lemma_pow2_adds(8 * n, 8);
        assert(8 * n + 8 == 8 * bytes.len());
    }
}

/// Sixteen bytes spell a number of 128 bits.
proof fn sixteen_bytes_fit(bytes: Seq<u8>)
    requires
        bytes.len() <= 16,
    ensures
        net::be_value(bytes) <= u128::MAX,
{
    be_value_bound(bytes);
    vstd::arithmetic::power2::lemma2_to64_rest();
    vstd::arithmetic::power2::lemma_pow2_adds(64, 64);
    if bytes.len() < 16 {
        vstd::arithmetic::power2::lemma_pow2_strictly_increases(8 * bytes.len(), 128);
    }
}

/// Four bytes spell a number of 32 bits.
proof fn four_bytes_fit(bytes: Seq<u8>)
    requires
        bytes.len() == 4,
    ensures
        net::be_value(bytes) <= u32::MAX,
{
    be_value_bound(bytes);
    vstd::arithmetic::power2::lemma2_to64_rest();
    vstd::arithmetic::power2::lemma2_to64();
}

/// The number in `len` bytes from `start` on, the most significant one first.
fn read_number(packet: &[u8], start: usize, len: usize) -> (r: u128)
    requires
        start + len <= packet.len(),
        len <= 16,
    ensures
        r == net::be_value(packet@.subrange(start as int, start + len)),
{
    let mut value: u128 = 0;
    let mut i: usize = 0;
    proof {
        assert(packet@.subrange(start as int, start as int) =~= Seq::<u8>::empty());
    }
    while i < len
        invariant
            i <= len <= 16,
            start + len <= packet.len(),
            value == net::be_value(packet@.subrange(start as int, start + i)),
        decreases len - i,
    {
        let byte = packet[start + i];
        proof {
            let longer = packet@.subrange(start as int, start + i + 1);
            assert(longer.drop_last() =~= packet@.subrange(start as int, start + i));
            assert(longer.last() == byte);
            sixteen_bytes_fit(longer);
        }
        value = value * 256 + byte as u128;
        i = i + 1;
    }
    value
}

/// Where a packet goes.
pub fn parse_dst_ip(packet: &[u8]) -> (r: Result<IpAddr, PacketError>)
    ensures
        r == destination(packet@),
{
    if packet.len() == 0 {
        return Err(PacketError::Empty);
    }
    let version = packet[0] / 16;
    if version == 4 {
        if packet.len() < 20 {
            return Err(PacketError::ShortV4(packet.len()));
        }
        let bits = read_number(packet, 16, 4);
        proof {
            four_bytes_fit(packet@.subrange(16, 20));
        }
        Ok(IpAddr::V4(bits as u32))
    } else if version == 6 {
        if packet.len() < 40 {
            return Err(PacketError::ShortV6(packet.len()));
        }
        Ok(IpAddr::V6(read_number(packet, 24, 16)))
    } else {
        Err(PacketError::UnknownVersion(version))
    }
}

/// The packet in what was read from the device. `framed`: the device puts a
/// header before each packet.
pub open spec fn packet_in(frame: Seq<u8>, framed: bool) -> Option<Seq<u8>> {
    if !framed {
        Some(frame)
    } else if frame.len() <= PI_HEADER_LEN {
        None
    } else {
        Some(frame.skip(PI_HEADER_LEN as int))
    }
}

/// The header for a packet: its protocol, IPv6 or else IPv4.
pub open spec fn header_for(packet: Seq<u8>) -> Seq<u8> {
    if packet.len() > 0 && packet[0] / 16 == 6 {
        seq![0x00, 0x00, 0x86, 0xDD]
    } else {
        seq![0x00, 0x00, 0x08, 0x00]
    }
}

/// What is written to the device for a packet.
pub open spec fn frame_of(packet: Seq<u8>, framed: bool) -> Seq<u8> {
    if framed {
        header_for(packet) + packet
    } else {
        packet
    }
}

/// What is written to the device for a packet from a peer, in one piece.
pub fn inbound_frame(packet: Vec<u8>, framed: bool) -> (r: Vec<u8>)
    ensures
        r@ == frame_of(packet@, framed),
{
    if !framed {
        return packet;
    }
    let is_v6 = packet.len() > 0 && packet[0] / 16 == 6;
    let mut r: Vec<u8> = if is_v6 {
        vec![0x00, 0x00, 0x86, 0xDD]
    } else {
        vec![0x00, 0x00, 0x08, 0x00]
    };
    proof {
        assert(r@ =~= header_for(packet@));
    }
    let mut i: usize = 0;
    while i < packet.len()
        invariant
            i <= packet.len(),
            r@ == header_for(packet@) + packet@.take(i as int),
        decreases packet.len() - i,
    {
        r.push(packet[i]);
        i = i + 1;
        proof {
            let head = header_for(packet@);
            assert(head + packet@.take(i as int) =~= (head + packet@.take(i - 1)).push(
                packet@[i - 1],
            ));
        }
    }
    proof {
        assert(packet@.take(i as int) =~= packet@);
    }
    r
}

/// What becomes of what was read from the device.
#[derive(Debug, Clone)]
pub enum Outbound {
    /// The device has been closed.
    Stop,
    /// Nothing: it is no packet, nobody has its destination, or the peer
    /// cannot be reached now.
    Drop,
    /// Nothing, and worth a warning: its peer's connection is over the tunnel.
    Relayed(String),
    /// Nothing, and worth a warning: it has no destination.
    Malformed(PacketError),
    /// Send the packet over the connection with this id.
    Send { conn: u64, packet: Vec<u8> },
}

/// `out` is what becomes of what was read from the device.
pub open spec fn is_outbound(
    out: Outbound,
    frame: Seq<u8>,
    framed: bool,
    vips: Map<IpAddr, Seq<char>>,
    conns: Map<Seq<char>, ConnState>,
) -> bool {
    if frame.len() == 0 {
        out is Stop
    } else {
        match packet_in(frame, framed) {
            None => out is Drop,
            Some(packet) => match destination(packet) {
                Err(e) => out == Outbound::Malformed(e),
                Ok(ip) => match vips.get(ip) {
                    None => out is Drop,
                    Some(peer) => match conns.get(peer) {
                        Some(ConnState::Direct(id)) => out matches Outbound::Send {
                            conn,
                            packet: sent,
                        } && conn == id && sent@ == packet,
                        Some(ConnState::Relay) => out matches Outbound::Relayed(p) && p@ == peer,
                        _ => out is Drop,
                    },
                },
            },
        }
    }
}

/// Decides what becomes of what was read from the device.
pub fn route_frame(frame: &[u8], framed: bool, vips: &VipTable, conns: &ConnTable) -> (r: Outbound)
    ensures
        is_outbound(r, frame@, framed, vips@, conns@),
{
    if frame.len() == 0 {
        return Outbound::Stop;
    }
    if framed && frame.len() <= PI_HEADER_LEN {
        return Outbound::Drop;
    }
    let start: usize = if framed {
        PI_HEADER_LEN
    } else {
        0
    };
    let packet = vstd::slice::slice_subrange(frame, start, frame.len());
    proof {
        assert(packet@ =~= packet_in(frame@, framed)->0);
    }
    match parse_dst_ip(packet) {
        Err(e) => Outbound::Malformed(e),
        Ok(ip) => match vips.get(ip) {
            None => Outbound::Drop,
            Some(peer) => match conns.get(peer.as_str()) {
                Some(ConnState::Direct(id)) => Outbound::Send {
                    conn: id,
                    packet: vstd::slice::slice_to_vec(packet),
                },
                Some(ConnState::Relay) => Outbound::Relayed(peer),
                _ => Outbound::Drop,
            },
        },
    }
}

/// The mask with a number of leading ones.
pub open spec fn netmask_of(prefix: int) -> int {
    0x1_0000_0000 - pow2((32 - prefix) as nat)
}

/// The mask of an IPv4 network with this prefix length.
pub fn prefix_len_to_netmask(prefix: u8) -> (r: u32)
    requires
        1 <= prefix <= 32,
    ensures
        r == netmask_of(prefix as int),
{
    let mut hosts: u64 = 1;
    let mut i: u8 = prefix;
    proof {
        vstd::arithmetic::power2::lemma2_to64();
        vstd::arithmetic::power2::lemma2_to64_rest();
    }
    while i < 32
        invariant
            1 <= prefix <= i <= 32,
            hosts == pow2((i - prefix) as nat),
        decreases 32 - i,
    {
        proof {
            let n = (i - prefix) as nat;
            vstd::arithmetic::power2::lemma_pow2_unfold(n + 1);
            vstd::arithmetic::power2::lemma_pow2_strictly_increases(n + 1, 32);
            vstd::arithmetic::power2::lemma2_to64();
        }
        hosts = hosts * 2;
        i = i + 1;
    }
    proof {
        let n = (32 - prefix) as nat;
        vstd::arithmetic::power2::lemma_pow2_strictly_increases(n, 32);
        vstd::arithmetic::power2::lemma_pow2_pos(n);
    }
    (0x1_0000_0000 - hosts) as u32
}

/// The address and the mask of the device.
#[derive(Debug, Clone, Copy, PartialEq, Eq, Structural)]
pub struct TunAddress {
    pub ip: u32,
    pub netmask: u32,
}

/// The message where the device cannot have an address of this family.
pub open spec fn no_ipv6_text(platform: Platform) -> Seq<char> {
    if platform == Platform::Windows {
        "Windows TUN 当前仅支持 IPv4 虚拟地址"@
    } else {
        "Linux TUN 当前仅支持 IPv4 虚拟地址"@
    }
}

/// `r` is the address and the mask of the device, or says why there is none.
pub open spec fn is_tun_address(
    r: Result<TunAddress, String>,
    cidr: Option<Cidr>,
    platform: Platform,
) -> bool {
    match cidr {
        None => r matches Err(e) && e@ == "解析 virtual_ip CIDR 失败"@,
        Some(c) => match c.ip {
            IpAddr::V4(bits) => r matches Ok(a) && a.ip == bits && a.netmask == netmask_of(
                c.prefix as int,
            ),
            IpAddr::V6(_) => r matches Err(e) && e@ == no_ipv6_text(platform),
        },
    }
}

/// The address and the mask of the device, from the network that the
/// configuration names.
pub fn tun_address(cidr: Option<Cidr>, platform: Platform) -> (r: Result<TunAddress, String>)
    requires
        cidr matches Some(c) ==> (c.ip is V4 ==> 1 <= c.prefix <= 32),
    ensures
        is_tun_address(r, cidr, platform),
{
    match cidr {
        None => Err("解析 virtual_ip CIDR 失败".to_owned()),
        Some(c) => match c.ip {
            IpAddr::V4(bits) => Ok(
                TunAddress { ip: bits, netmask: prefix_len_to_netmask(c.prefix) },
            ),
            IpAddr::V6(_) => {
                if platform == Platform::Windows {
                    Err("Windows TUN 当前仅支持 IPv4 虚拟地址".to_owned())
                } else {
                    Err("Linux TUN 当前仅支持 IPv4 虚拟地址".to_owned())
                }
            },
        },
    }
}

/// A packet that was framed for the device is read from it unchanged.
pub proof fn frame_round_trip(packet: Seq<u8>, framed: bool)
    requires
        packet.len() > 0,
    ensures
        packet_in(frame_of(packet, framed), framed) == Some(packet),
{
    let frame = frame_of(packet, framed);
    if framed {
        assert(frame.skip(4) =~= packet);
    }
}

/// The destination of an IPv4 packet is the number in its bytes 16 to 19.
pub proof fn v4_destination_is_read(packet: Seq<u8>)
    requires
        packet.len() >= 20,
        packet[0] / 16 == 4,
    ensures
        destination(packet) matches Ok(IpAddr::V4(bits)) && bits == packet[16] * 0x100_0000
            + packet[17] * 0x1_0000 + packet[18] * 0x100 + packet[19],
{
    let bytes = packet.subrange(16, 20);
    four_bytes_fit(bytes);
    reveal_with_fuel(net::be_value, 5);
    assert(bytes.drop_last().drop_last().drop_last().drop_last().len() == 0);
}

/// A packet is sent to a peer only where a direct connection stands, and then
/// over that one.
pub proof fn packets_go_over_direct_connections(
    out: Outbound,
    frame: Seq<u8>,
    framed: bool,
    vips: Map<IpAddr, Seq<char>>,
    conns: Map<Seq<char>, ConnState>,
)
    requires
        is_outbound(out, frame, framed, vips, conns),
        out is Send,
    ensures
        exists|peer: Seq<char>| #[trigger]
            conns.get(peer) == Some(ConnState::Direct(out->conn)),
{
    let packet = packet_in(frame, framed)->0;
    let ip = destination(packet)->Ok_0;
    let peer = vips.get(ip)->0;
    assert(conns.get(peer) == Some(ConnState::Direct(out->conn)));
}

/// A mask together with the addresses of its network makes up all addresses.
pub proof fn masks_complement_hosts(prefix: int)
    requires
        1 <= prefix <= 32,
    ensures
        netmask_of(prefix) + pow2((32 - prefix) as nat) == 0x1_0000_0000,
        0 < netmask_of(prefix) <= 0xFFFF_FFFF,
{
    vstd::arithmetic::power2::lemma2_to64();
    vstd::arithmetic::power2::lemma2_to64_rest();
    vstd::arithmetic::power2::lemma_pow2_strictly_increases((32 - prefix) as nat, 32);
    vstd::arithmetic::power2::lemma_pow2_pos((32 - prefix) as nat);
}

/// Once a punch has reached a peer, packets for the peer's address in the
/// virtual network go over the connection that it made, unchanged.
pub proof fn punched_peers_receive_packets(
    conns: Map<Seq<char>, ConnState>,
    vips: Map<IpAddr, Seq<char>>,
    peer: Seq<char>,
    vip: IpAddr,
    punch_at: TimestampMs,
    id: u64,
    frame: Seq<u8>,
    framed: bool,
    packet: Seq<u8>,
    out: Outbound,
)
    requires
        registry::may_go_direct(conns, peer),
        frame.len() > 0,
        packet_in(frame, framed) == Some(packet),
        destination(packet) == Ok::<IpAddr, PacketError>(vip),
        is_outbound(
            out,
            frame,
            framed,
            punch::vips_after(vips, conns, peer, Some(vip), PunchEvent::Connected(id)),
            punch::conns_after(conns, peer, punch_at, PunchEvent::Connected(id)),
        ),
    ensures
        out matches Outbound::Send { conn, packet: sent } && conn == id && sent@ == packet,
{
}

/// Once a punch has failed, nothing is sent to its peer.
pub proof fn failed_punches_stop_packets(
    conns: Map<Seq<char>, ConnState>,
    vips: Map<IpAddr, Seq<char>>,
    peer: Seq<char>,
    punch_at: TimestampMs,
    frame: Seq<u8>,
    framed: bool,
    packet: Seq<u8>,
    out: Outbound,
)
    requires
        packet_in(frame, framed) == Some(packet),
        destination(packet) matches Ok(ip) && vips.get(ip) == Some(peer),
        is_outbound(
            out,
            frame,
            framed,
            vips,
            punch::conns_after(conns, peer, punch_at, PunchEvent::Exhausted),
        ),
    ensures
        out !is Send,
{
}

/// The destination of an IPv6 packet is the number in its bytes 24 to 39.
pub proof fn v6_destination_is_read(packet: Seq<u8>)
    requires
        packet.len() >= 40,
        packet[0] / 16 == 6,
    ensures
        destination(packet) matches Ok(IpAddr::V6(bits)) && bits == net::be_value(
            packet.subrange(24, 40),
        ),
{
    sixteen_bytes_fit(packet.subrange(24, 40));
}

/// Each further byte makes a number 256 times as large, and is added to it.
pub proof fn numbers_are_read_byte_by_byte(bytes: Seq<u8>, next: u8)
    ensures
        net::be_value(Seq::empty()) == 0,
        net::be_value(bytes.push(next)) == net::be_value(bytes) * 256 + next,
{
    assert(bytes.push(next).drop_last() =~= bytes);
}

/// A packet has a destination exactly where it is of version 4 or 6 and its
/// header is complete; else it is told what it lacks.
pub proof fn broken_packets_have_no_destination(packet: Seq<u8>)
    requires
        packet.len() <= usize::MAX,
    ensures
        destination(packet) is Ok <==> {
            ||| packet.len() >= 20 && packet[0] / 16 == 4
            ||| packet.len() >= 40 && packet[0] / 16 == 6
        },
        packet.len() == 0 ==> destination(packet) == Err::<IpAddr, PacketError>(PacketError::Empty),
        0 < packet.len() < 20 && packet[0] / 16 == 4 ==> destination(packet) == Err::<
            IpAddr,
            PacketError,
        >(PacketError::ShortV4(packet.len() as usize)),
        0 < packet.len() < 40 && packet[0] / 16 == 6 ==> destination(packet) == Err::<
            IpAddr,
            PacketError,
        >(PacketError::ShortV6(packet.len() as usize)),
        packet.len() > 0 && packet[0] / 16 != 4 && packet[0] / 16 != 6 ==> destination(packet)
            == Err::<IpAddr, PacketError>(PacketError::UnknownVersion((packet[0] / 16) as u8)),
{
}

/// A framed device puts four bytes before each packet, in which the protocol
/// of the packet stands; an unframed one puts nothing.
pub proof fn frames_tell_the_protocol(packet: Seq<u8>, head: Seq<u8>)
    requires
        head.len() == 4,
    ensures
        frame_of(packet, false) == packet,
        packet_in(packet, false) == Some(packet),
        packet.len() > 0 ==> packet_in(head + packet, true) == Some(packet),
        packet_in(head, true) is None,
        packet.len() > 0 && packet[0] / 16 == 6 ==> frame_of(packet, true) == seq![
            0x00u8,
            0x00,
            0x86,
            0xDD,
        ] + packet,
        packet.len() > 0 && packet[0] / 16 == 4 ==> frame_of(packet, true) == seq![
            0x00u8,
            0x00,
            0x08,
            0x00,
        ] + packet,
{
    assert((head + packet).skip(4) =~= packet);
}

/// A packet goes, unchanged, over the direct connection with the peer that has
/// its destination. Over the tunnel, during a punch, and to an address that
/// nobody has, nothing is sent.
pub proof fn packets_find_their_peer(
    out: Outbound,
    frame: Seq<u8>,
    framed: bool,
    packet: Seq<u8>,
    vips: Map<IpAddr, Seq<char>>,
    conns: Map<Seq<char>, ConnState>,
    ip: IpAddr,
    peer: Seq<char>,
    id: u64,
)
    requires
        is_outbound(out, frame, framed, vips, conns),
        frame.len() > 0,
        framed ==> frame.len() == 4 + packet.len() && frame.skip(4) == packet,
        !framed ==> frame == packet,
        destination(packet) == Ok::<IpAddr, PacketError>(ip),
    ensures
        vips.get(ip) == Some(peer) && conns.get(peer) == Some(ConnState::Direct(id)) ==> (
        out matches Outbound::Send { conn, packet: sent } && conn == id && sent@ == packet),
        vips.get(ip) == Some(peer) && conns.get(peer) == Some(ConnState::Relay) ==> (
        out matches Outbound::Relayed(p) && p@ == peer),
        vips.get(ip) == Some(peer) && (conns.get(peer) is None || conns.get(peer) == Some(
            ConnState::Punching,
        ) || conns.get(peer) == Some(ConnState::Unavailable)) ==> out is Drop,
        vips.get(ip) is None ==> out is Drop,
{
}

/// What is read from the device without a packet is dropped, a broken packet
/// is told as such, and an empty reading means that the device is closed.
pub proof fn broken_readings_are_told(
    out: Outbound,
    frame: Seq<u8>,
    vips: Map<IpAddr, Seq<char>>,
    conns: Map<Seq<char>, ConnState>,
    e: PacketError,
)
    ensures
        frame.len() == 0 && is_outbound(out, frame, true, vips, conns) ==> out is Stop,
        frame.len() == 0 && is_outbound(out, frame, false, vips, conns) ==> out is Stop,
        0 < frame.len() <= 4 && is_outbound(out, frame, true, vips, conns) ==> out is Drop,
        frame.len() > 4 && is_outbound(out, frame, true, vips, conns) && destination(frame.skip(4))
            == Err::<IpAddr, PacketError>(e) ==> out == Outbound::Malformed(e),
        frame.len() > 0 && is_outbound(out, frame, false, vips, conns) && destination(frame)
            == Err::<IpAddr, PacketError>(e) ==> out == Outbound::Malformed(e),
{
}

/// The device has the address of the network that the configuration names, and
/// its mask: the leading bits that the prefix covers; IPv6 is refused.
pub proof fn the_device_has_the_configured_address(
    r: Result<TunAddress, String>,
    bits: u32,
    prefix: u8,
    long: u128,
    platform: Platform,
)
    ensures
        is_tun_address(r, Some(Cidr { ip: IpAddr::V4(bits), prefix }), platform) ==> r is Ok
            && r->Ok_0.ip == bits,
        is_tun_address(r, Some(Cidr { ip: IpAddr::V4(bits), prefix: 8 }), platform)
            ==> r->Ok_0.netmask == 0xFF00_0000,
        is_tun_address(r, Some(Cidr { ip: IpAddr::V4(bits), prefix: 16 }), platform)
            ==> r->Ok_0.netmask == 0xFFFF_0000,
        is_tun_address(r, Some(Cidr { ip: IpAddr::V4(bits), prefix: 24 }), platform)
            ==> r->Ok_0.netmask == 0xFFFF_FF00,
        is_tun_address(r, Some(Cidr { ip: IpAddr::V4(bits), prefix: 32 }), platform)
            ==> r->Ok_0.netmask == 0xFFFF_FFFF,
        is_tun_address(r, Some(Cidr { ip: IpAddr::V6(long), prefix }), platform) ==> r is Err,
        is_tun_address(r, None, platform) ==> r is Err,
{
    vstd::arithmetic::power2::lemma2_to64();
}

/// A prefix that is longer by one masks half of the addresses that were left.
pub proof fn masks_halve_the_hosts(prefix: int)
    requires
        1 <= prefix < 32,
    ensures
        0x1_0000_0000 - netmask_of(prefix) == 2 * (0x1_0000_0000 - netmask_of(prefix + 1)),
        netmask_of(32) == 0xFFFF_FFFF,
{
    vstd::arithmetic::power2::lemma2_to64();
    vstd::arithmetic::power2::lemma_pow2_unfold((32 - prefix) as nat);
}

/// One reading takes the largest packet and 64 bytes more, in which its header
/// has room; a thousand and some packets may wait to be written, and a stream
/// has five seconds to open.
pub proof fn readings_take_whole_packets()
    ensures
        TUN_MTU == 1500,
        TUN_READ_BUFFER == TUN_MTU + 64,
        PI_HEADER_LEN <= 64,
        INBOUND_CHANNEL_SIZE == 1024,
        OPEN_TIMEOUT_SECS == 5,
{
}

/// Why the device has no address is told: the network cannot be read, or it is
/// one of IPv6, which the platform's device does not take.
pub proof fn missing_addresses_are_explained(
    r: Result<TunAddress, String>,
    long: u128,
    prefix: u8,
    platform: Platform,
)
    ensures
        is_tun_address(r, None, platform) ==> (r matches Err(e) && e@
            == "解析 virtual_ip CIDR 失败"@),
        is_tun_address(r, Some(Cidr { ip: IpAddr::V6(long), prefix }), Platform::Windows) ==> (
        r matches Err(e) && e@ == "Windows TUN 当前仅支持 IPv4 虚拟地址"@),
        is_tun_address(r, Some(Cidr { ip: IpAddr::V6(long), prefix }), Platform::Other) ==> (
        r matches Err(e) && e@ == "Linux TUN 当前仅支持 IPv4 虚拟地址"@),
{
}

} // verus!
