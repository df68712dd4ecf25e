//! Who asks, and whether that is a local client.

use axum::http::{HeaderMap, HeaderValue};
use vstd::prelude::*;
use vstd::string::*;

use crate::http::headers;
use crate::net;
use crate::net::{Cidr, IpAddr};
use crate::text;

verus! {

/// The first address in a list of forwarding hops: what stands before the
/// first comma, without white space around it.
pub open spec fn first_hop(hops: Seq<char>) -> Seq<char> {
    text::trimmed(hops.take(text::position_of(hops, ',', 0)))
}

/// The first address in a list of forwarding hops.
pub fn first_forwarded<'a>(hops: &'a str) -> (r: &'a str)
    ensures
        r@ == first_hop(hops@),
{
    let n = text::position_in(&text::chars_of(hops), ',', 0);
    let first = hops.substring_char(0, n);
    proof {
        assert(hops@.subrange(0, n as int) =~= hops@.take(n as int));
    }
    text::trim(first)
}

/// The first of three addresses that is there.
pub open spec fn first_known(
    a: Option<IpAddr>,
    b: Option<IpAddr>,
    c: Option<IpAddr>,
) -> Option<IpAddr> {
    if a is Some {
        a
    } else if b is Some {
        b
    } else {
        c
    }
}

/// Picks the client's address from what the three headers spell, in the order
/// of their authority.
pub fn pick_client_ip(
    connecting: Option<IpAddr>,
    forwarded: Option<IpAddr>,
    behind_proxy: Option<IpAddr>,
) -> (r: Option<IpAddr>)
    ensures
        r == first_known(connecting, forwarded, behind_proxy),
{
    if connecting.is_some() {
        connecting
    } else if forwarded.is_some() {
        forwarded
    } else {
        behind_proxy
    }
}

/// The address that an optional text spells.
pub open spec fn ip_in(value: Option<Seq<char>>) -> Option<IpAddr> {
    match value {
        Some(s) => net::ip_of_text(s),
        None => None,
    }
}

/// The client's address, as the headers of its request tell it.
pub open spec fn client_ip(headers: HeaderMap<HeaderValue>) -> Option<IpAddr> {
    first_known(
        ip_in(headers::header_of(headers, "CF-Connecting-IP"@)),
        match headers::header_of(headers, "X-Forwarded-For"@) {
            Some(hops) => net::ip_of_text(first_hop(hops)),
            None => None,
        },
        ip_in(headers::header_of(headers, "X-Real-IP"@)),
    )
}

/// The client's address: `CF-Connecting-IP`, else the first hop of
/// `X-Forwarded-For`, else `X-Real-IP`. A header that spells no address is
/// passed over. Without any the request is a local one.
pub fn parse_client_ip(headers: &HeaderMap<HeaderValue>) -> (r: Option<IpAddr>)
    ensures
        r == client_ip(*headers),
{
    let connecting = match headers::header_text(headers, "CF-Connecting-IP") {
        Some(s) => net::parse_ip(s.as_str()),
        None => None,
    };
    let forwarded = match headers::header_text(headers, "X-Forwarded-For") {
        Some(s) => net::parse_ip(first_forwarded(s.as_str())),
        None => None,
    };
    let behind_proxy = match headers::header_text(headers, "X-Real-IP") {
        Some(s) => net::parse_ip(s.as_str()),
        None => None,
    };
    pick_client_ip(connecting, forwarded, behind_proxy)
}

/// Some of the networks holds the address; what is no network holds none.
pub open spec fn covered_by_any(ip: IpAddr, networks: Seq<Option<Cidr>>) -> bool {
    exists|i: int|
        0 <= i < networks.len() && match #[trigger] networks[i] {
            Some(cidr) => cidr.covers(ip),
            None => false,
        }
}

/// Whether some of the networks holds the address.
pub fn in_any_network(ip: IpAddr, networks: &Vec<Option<Cidr>>) -> (r: bool)
    requires
        forall|i: int|
            0 <= i < networks@.len() ==> (#[trigger] networks@[i] matches Some(c) ==> c.valid()),
    ensures
        r == covered_by_any(ip, networks@),
{
    let mut i: usize = 0;
    while i < networks.len()
        invariant
            i <= networks.len(),
            forall|j: int|
                0 <= j < networks@.len() ==> (#[trigger] networks@[j] matches Some(c)
                    ==> c.valid()),
            forall|j: int|
                0 <= j < i ==> match #[trigger] networks@[j] {
                    Some(cidr) => !cidr.covers(ip),
                    None => true,
                },
        decreases networks.len() - i,
    {
        match networks[i] {
            Some(cidr) => {
                if net::cidr_contains(cidr, ip) {
                    return true;
                }
            },
            None => {},
        }
        i = i + 1;
    }
    false
}

/// The networks that texts spell, `None` for a text that spells none.
pub open spec fn networks_of(cidrs: Seq<String>) -> Seq<Option<Cidr>> {
    cidrs.map_values(|s: String| net::cidr_of_text(s@))
}

/// An IPv4 address that shares its first 24 bits with one of the machine's own
/// addresses, loopback ones aside.
pub open spec fn same_subnet_24(ip: IpAddr, own: Seq<IpAddr>) -> bool {
    match ip {
        IpAddr::V4(bits) => exists|i: int|
            0 <= i < own.len() && match #[trigger] own[i] {
                IpAddr::V4(mine) => !own[i].loopback() && mine / 256 == bits / 256,
                IpAddr::V6(_) => false,
            },
        IpAddr::V6(_) => false,
    }
}

/// Whether an address lies in the same /24 as one of the machine's own.
pub fn is_same_subnet_24(ip: IpAddr, own: &Vec<IpAddr>) -> (r: bool)
    ensures
        r == same_subnet_24(ip, own@),
{
    match ip {
        IpAddr::V6(_) => false,
        IpAddr::V4(bits) => {
            let mut i: usize = 0;
            while i < own.len()
                invariant
                    i <= own.len(),
                    ip == IpAddr::V4(bits),
                    forall|j: int|
                        0 <= j < i ==> match #[trigger] own@[j] {
                            IpAddr::V4(mine) => own@[j].loopback() || mine / 256 != bits / 256,
                            IpAddr::V6(_) => true,
                        },
                decreases own.len() - i,
            {
                if !own[i].is_loopback() {
                    match own[i] {
                        IpAddr::V4(mine) => {
                            if mine / 256 == bits / 256 {
                                return true;
                            }
                        },
                        IpAddr::V6(_) => {},
                    }
                }
                i = i + 1;
            }
            false
        },
    }
}

/// An address is local where a listed network holds it; where none is listed,
/// where it lies in a /24 of the machine itself.
pub open spec fn local_ip(ip: IpAddr, cidrs: Seq<String>, own: Seq<IpAddr>) -> bool {
    if cidrs.len() == 0 {
        same_subnet_24(ip, own)
    } else {
        covered_by_any(ip, networks_of(cidrs))
    }
}

/// Whether an address is local; `own` are the machine's own addresses.
pub fn is_local_ip(ip: IpAddr, cidrs: &Vec<String>, own: &Vec<IpAddr>) -> (r: bool)
    ensures
        r == local_ip(ip, cidrs@, own@),
{
    if cidrs.len() == 0 {
        return is_same_subnet_24(ip, own);
    }
    let mut networks: Vec<Option<Cidr>> = Vec::new();
    let mut i: usize = 0;
    while i < cidrs.len()
        invariant
            i <= cidrs.len(),
            networks@ == networks_of(cidrs@).take(i as int),
            forall|j: int|
                0 <= j < i ==> (#[trigger] networks@[j] matches Some(c) ==> c.valid()),
        decreases cidrs.len() - i,
    {
        networks.push(net::parse_cidr(cidrs[i].as_str()));
        i = i + 1;
        proof {
            let all = networks_of(cidrs@);
            assert(all.take(i as int) =~= all.take(i - 1).push(all[i - 1]));
        }
    }
    proof {
        assert(networks_of(cidrs@).take(i as int) =~= networks_of(cidrs@));
    }
    in_any_network(ip, &networks)
}

/// One header with an address is enough, whatever the later ones say.
pub proof fn earlier_header_wins(a: IpAddr, b: Option<IpAddr>, c: Option<IpAddr>)
    ensures
        first_known(Some(a), b, c) == Some(a),
        first_known(None, Some(a), c) == Some(a),
        first_known(None, None, Some(a)) == Some(a),
        first_known(None, None, None) is None,
{
}

/// Once networks are listed, the machine's own addresses do not matter.
pub proof fn listed_networks_decide(
    ip: IpAddr,
    cidrs: Seq<String>,
    own1: Seq<IpAddr>,
    own2: Seq<IpAddr>,
)
    requires
        cidrs.len() > 0,
    ensures
        local_ip(ip, cidrs, own1) == local_ip(ip, cidrs, own2),
{
}

/// A further network makes no local address remote, once one is listed.
pub proof fn more_networks_stay_local(
    ip: IpAddr,
    cidrs: Seq<String>,
    more: Seq<String>,
    own: Seq<IpAddr>,
)
    requires
        cidrs.len() > 0,
        local_ip(ip, cidrs, own),
    ensures
        local_ip(ip, cidrs + more, own),
{
    let all = networks_of(cidrs + more);
    let i = choose|i: int|
        0 <= i < cidrs.len() && match #[trigger] networks_of(cidrs)[i] {
            Some(cidr) => cidr.covers(ip),
            None => false,
        };
    assert(all[i] == networks_of(cidrs)[i]);
}

/// The first hop is what stands before the first comma, without the white
/// space around it.
pub proof fn the_first_hop_is_read(
    lead: Seq<char>,
    hop: Seq<char>,
    tail: Seq<char>,
    rest: Seq<char>,
)
    requires
        forall|i: int| 0 <= i < lead.len() ==> lead[i] == ' ' || lead[i] == '\t',
        forall|i: int| 0 <= i < tail.len() ==> tail[i] == ' ' || tail[i] == '\t',
        forall|i: int| 0 <= i < hop.len() ==> 0x20 < (#[trigger] hop[i]) as int && (hop[i] as int)
            < 0x7f && hop[i] != ',',
    ensures
        first_hop((lead + hop + tail).push(',') + rest) == hop,
        first_hop(lead + hop + tail) == hop,
{
    let first = lead + hop + tail;
    assert forall|i: int| 0 <= i < first.len() implies first[i] != ',' by {
        if i < lead.len() {
            assert(first[i] == lead[i]);
        } else if i < lead.len() + hop.len() {
            assert(first[i] == hop[i - lead.len()]);
        } else {
            assert(first[i] == tail[i - lead.len() - hop.len()]);
        }
    }
    text::first_position_is_found(first, ',', rest);
    assert((first.push(',') + rest).take(first.len() as int) =~= first);
    assert(first.take(first.len() as int) =~= first);
    if hop.len() > 0 {
        assert(0x20 < hop[0] as int);
        assert(0x20 < hop.last() as int);
    }
    text::outer_white_space_is_dropped(lead, hop, tail);
}

/// The client's address is told by `CF-Connecting-IP`, where that spells one;
/// else by the first hop of `X-Forwarded-For`, else by `X-Real-IP`. Without
/// these headers it is unknown.
pub proof fn headers_tell_the_client(
    headers: HeaderMap<HeaderValue>,
    s: Seq<char>,
    hops: Seq<char>,
    ip: IpAddr,
)
    ensures
        headers::header_of(headers, "CF-Connecting-IP"@) == Some(s) && net::ip_of_text(s) == Some(
            ip,
        ) ==> client_ip(headers) == Some(ip),
        headers::header_of(headers, "CF-Connecting-IP"@) is None && headers::header_of(
            headers,
            "X-Forwarded-For"@,
        ) == Some(hops) && net::ip_of_text(first_hop(hops)) == Some(ip) ==> client_ip(headers)
            == Some(ip),
        headers::header_of(headers, "CF-Connecting-IP"@) is None && headers::header_of(
            headers,
            "X-Forwarded-For"@,
        ) is None && headers::header_of(headers, "X-Real-IP"@) == Some(s) ==> client_ip(headers)
            == net::ip_of_text(s),
        headers::header_of(headers, "CF-Connecting-IP"@) is None && headers::header_of(
            headers,
            "X-Forwarded-For"@,
        ) is None && headers::header_of(headers, "X-Real-IP"@) is None ==> client_ip(headers) is None,
        headers::header_of(headers, "CF-Connecting-IP"@) == Some(s) && net::ip_of_text(s) is None
            && headers::header_of(headers, "X-Forwarded-For"@) == Some(hops) && net::ip_of_text(
            first_hop(hops),
        ) == Some(ip) ==> client_ip(headers) == Some(ip),
{
}

/// Where no networks are listed, a client is local that shares its first three
/// octets with an address of the machine, loopback ones aside, and no other.
pub proof fn neighbours_are_local(own: Seq<IpAddr>, i: int, mine: u32, bits: u32, long: u128)
    ensures
        0 <= i < own.len() && own[i] == IpAddr::V4(mine) && mine / 0x100_0000 != 127 && mine / 256
            == bits / 256 ==> local_ip(IpAddr::V4(bits), Seq::empty(), own),
        local_ip(IpAddr::V4(bits), Seq::empty(), own) ==> exists|k: int|
            0 <= k < own.len() && (#[trigger] own[k] matches IpAddr::V4(other) && other
                / 0x100_0000 != 127 && other / 256 == bits / 256),
        !local_ip(IpAddr::V6(long), Seq::empty(), own),
        !local_ip(IpAddr::V4(bits), Seq::empty(), Seq::empty()),
{
    if local_ip(IpAddr::V4(bits), Seq::empty(), own) {
        let k = choose|k: int|
            0 <= k < own.len() && match #[trigger] own[k] {
                IpAddr::V4(m) => !own[k].loopback() && m / 256 == bits / 256,
                IpAddr::V6(_) => false,
            };
        assert(own[k] is V4);
    }
    if 0 <= i < own.len() && own[i] == IpAddr::V4(mine) {
        assert(own[i]->V4_0 == mine);
    }
}

/// Where networks are listed, a client is local that one of them holds, and no
/// other; what spells no network holds nobody.
pub proof fn listed_networks_hold_local_clients(
    ip: IpAddr,
    cidrs: Seq<String>,
    own: Seq<IpAddr>,
    i: int,
    cidr: Cidr,
)
    requires
        cidrs.len() > 0,
    ensures
        0 <= i < cidrs.len() && net::cidr_of_text(cidrs[i]@) == Some(cidr) && cidr.covers(ip)
            ==> local_ip(ip, cidrs, own),
        (forall|k: int|
            0 <= k < cidrs.len() ==> (net::cidr_of_text((#[trigger] cidrs[k])@) matches Some(c)
                ==> !c.covers(ip))) ==> !local_ip(ip, cidrs, own),
{
    let all = networks_of(cidrs);
    assert(forall|k: int| 0 <= k < cidrs.len() ==> all[k] == net::cidr_of_text(#[trigger] cidrs[k]@));
    if 0 <= i < cidrs.len() && net::cidr_of_text(cidrs[i]@) == Some(cidr) && cidr.covers(ip) {
        assert(all[i] == Some(cidr));
    }
    if local_ip(ip, cidrs, own) {
        let k = choose|k: int|
            0 <= k < all.len() && match #[trigger] all[k] {
                Some(c) => c.covers(ip),
                None => false,
            };
        assert(all[k] == net::cidr_of_text(cidrs[k]@));
    }
}

/// A header that spells no address is passed over.
pub proof fn unreadable_headers_are_passed_over(
    headers: HeaderMap<HeaderValue>,
    s: Seq<char>,
    hops: Seq<char>,
    behind: Seq<char>,
)
    requires
        headers::header_of(headers, "CF-Connecting-IP"@) == Some(s),
        headers::header_of(headers, "X-Forwarded-For"@) == Some(hops),
        headers::header_of(headers, "X-Real-IP"@) == Some(behind),
        net::ip_of_text(s) is None,
        net::ip_of_text(first_hop(hops)) is None,
    ensures
        client_ip(headers) == net::ip_of_text(behind),
{
}

} // verus!
