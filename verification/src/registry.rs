//! What is known of each peer: the state of its connection, its address in
//! the virtual network, its pending retries.

use dashmap::DashMap;
use vstd::prelude::*;

use crate::net::IpAddr;
use crate::types::ConnState;

verus! {

/// The concurrent map of the collections library.
#[verifier::external_type_specification]
#[verifier::external_body]
#[verifier::reject_recursive_types(K)]
#[verifier::reject_recursive_types(V)]
#[verifier::reject_recursive_types(S)]
pub struct ExDashMap<K, V, S>(dashmap::DashMap<K, V, S>);

/// The connection states that a map holds.
pub uninterp spec fn conn_entries(map: DashMap<String, ConnState>) -> Map<Seq<char>, ConnState>;

/// The peers that a map holds under the addresses of the virtual network.
pub uninterp spec fn vip_entries(map: DashMap<(u8, u128), String>) -> Map<(u8, u128), Seq<char>>;

/// The numbers that a map holds for peers.
pub uninterp spec fn number_entries(map: DashMap<String, u64>) -> Map<Seq<char>, u64>;

/// Calls `DashMap::new`. Trusted: the map is empty.
#[verifier::external_body]
fn conn_new() -> (r: DashMap<String, ConnState>)
    ensures
        conn_entries(r).is_empty(),
{
    DashMap::new()
}

/// Calls `DashMap::get` and copies the value. Trusted: it gives what the map
/// holds under the key.
#[verifier::external_body]
fn conn_get(map: &DashMap<String, ConnState>, key: &str) -> (r: Option<ConnState>)
    ensures
        r == conn_entries(*map).get(key@),
{
    map.get(key).map(|entry| *entry.value())
}

/// Calls `DashMap::insert`. Trusted: the value stands under the key, in place
/// of an earlier one, and no other entry changes.
#[verifier::external_body]
fn conn_insert(map: &mut DashMap<String, ConnState>, key: &str, value: ConnState)
    ensures
        conn_entries(*final(map)) == conn_entries(*old(map)).insert(key@, value),
{
    map.insert(key.to_string(), value);
}

/// Calls `DashMap::remove`. Trusted: nothing stands under the key, and no
/// other entry changes.
#[verifier::external_body]
fn conn_remove(map: &mut DashMap<String, ConnState>, key: &str)
    ensures
        conn_entries(*final(map)) == conn_entries(*old(map)).remove(key@),
{
    map.remove(key);
}

/// Calls `DashMap::len`. Trusted: it counts the keys.
#[verifier::external_body]
fn conn_len(map: &DashMap<String, ConnState>) -> (r: usize)
    ensures
        r == conn_entries(*map).dom().len(),
{
    map.len()
}

/// Calls `DashMap::iter` and copies the entries. Trusted: each entry comes
/// once, in no particular order.
#[verifier::external_body]
fn conn_list(map: &DashMap<String, ConnState>) -> (r: Vec<(String, ConnState)>)
    ensures
        forall|i: int|
            0 <= i < r@.len() ==> conn_entries(*map).contains_pair(
                (#[trigger] r@[i]).0@,
                r@[i].1,
            ),
        forall|i: int, j: int|
            0 <= i < j < r@.len() ==> (#[trigger] r@[i]).0@ != (#[trigger] r@[j]).0@,
        forall|key: Seq<char>| #[trigger]
            conn_entries(*map).contains_key(key) ==> exists|i: int|
                0 <= i < r@.len() && (#[trigger] r@[i]).0@ == key,
{
    map.iter().map(|entry| (entry.key().clone(), *entry.value())).collect()
}

/// Calls `DashMap::new`. Trusted: the map is empty.
#[verifier::external_body]
fn vip_new() -> (r: DashMap<(u8, u128), String>)
    ensures
        vip_entries(r).is_empty(),
{
    DashMap::new()
}

/// Calls `DashMap::get` and copies the value. Trusted: it gives what the map
/// holds under the key.
#[verifier::external_body]
fn vip_get(map: &DashMap<(u8, u128), String>, key: (u8, u128)) -> (r: Option<String>)
    ensures
        match r {
            Some(peer) => vip_entries(*map).contains_pair(key, peer@),
            None => !vip_entries(*map).contains_key(key),
        },
{
    map.get(&key).map(|entry| entry.value().clone())
}

/// Calls `DashMap::insert`. Trusted: the value stands under the key, in place
/// of an earlier one, and no other entry changes.
#[verifier::external_body]
fn vip_insert(map: &mut DashMap<(u8, u128), String>, key: (u8, u128), peer: &str)
    ensures
        vip_entries(*final(map)) == vip_entries(*old(map)).insert(key, peer@),
{
    map.insert(key, peer.to_string());
}

/// Calls `DashMap::new`. Trusted: the map is empty.
#[verifier::external_body]
fn number_new() -> (r: DashMap<String, u64>)
    ensures
        number_entries(r).is_empty(),
{
    DashMap::new()
}

/// Calls `DashMap::get` and copies the value. Trusted: it gives what the map
/// holds under the key.
#[verifier::external_body]
fn number_get(map: &DashMap<String, u64>, key: &str) -> (r: Option<u64>)
    ensures
        r == number_entries(*map).get(key@),
{
    map.get(key).map(|entry| *entry.value())
}

/// Calls `DashMap::insert`. Trusted: the value stands under the key, in place
/// of an earlier one, and no other entry changes.
#[verifier::external_body]
fn number_insert(map: &mut DashMap<String, u64>, key: &str, value: u64)
    ensures
        number_entries(*final(map)) == number_entries(*old(map)).insert(key@, value),
{
    map.insert(key.to_string(), value);
}

/// Calls `DashMap::remove`. Trusted: nothing stands under the key, and no
/// other entry changes.
#[verifier::external_body]
fn number_remove(map: &mut DashMap<String, u64>, key: &str)
    ensures
        number_entries(*final(map)) == number_entries(*old(map)).remove(key@),
{
    map.remove(key);
}

/// Calls `DashMap::retain`. Trusted: exactly the entries stay for whose keys
/// the closure holds, and the closure is [`ConnTable::is_relay`].
#[verifier::external_body]
fn number_retain_relays(map: &mut DashMap<String, u64>, conns: &ConnTable)
    ensures
        number_entries(*final(map)) == number_entries(*old(map)).filter_keys(
            |peer: Seq<char>| relayed(conns@, peer),
        ),
{
    map.retain(|peer, _| conns.is_relay(peer.as_str()));
}

/// The state of the connection with each peer.
#[derive(Debug)]
pub struct ConnTable {
    map: DashMap<String, ConnState>,
}

impl View for ConnTable {
    type V = Map<Seq<char>, ConnState>;

    closed spec fn view(&self) -> Map<Seq<char>, ConnState> {
        conn_entries(self.map)
    }
}

/// The connection with a peer has fallen back to the tunnel.
pub open spec fn relayed(conns: Map<Seq<char>, ConnState>, peer: Seq<char>) -> bool {
    conns.get(peer) == Some(ConnState::Relay)
}

/// A direct connection may take the place of what is known of a peer: nothing,
/// a punch under way, or a connection over the tunnel.
pub open spec fn may_go_direct(conns: Map<Seq<char>, ConnState>, peer: Seq<char>) -> bool {
    match conns.get(peer) {
        None => true,
        Some(ConnState::Punching) => true,
        Some(ConnState::Relay) => true,
        Some(_) => false,
    }
}

impl ConnTable {
    /// A table without peers.
    pub fn new() -> (r: ConnTable)
        ensures
            r@ == Map::<Seq<char>, ConnState>::empty(),
    {
        let r = ConnTable { map: conn_new() };
        proof {
            assert(r@ =~= Map::<Seq<char>, ConnState>::empty());
        }
        r
    }

    /// The state of the connection with a peer.
    pub fn get(&self, peer: &str) -> (r: Option<ConnState>)
        ensures
            r == self@.get(peer@),
    {
        conn_get(&self.map, peer)
    }

    /// Notes the state of the connection with a peer.
    pub fn insert(&mut self, peer: &str, state: ConnState)
        ensures
            final(self)@ == old(self)@.insert(peer@, state),
    {
        conn_insert(&mut self.map, peer, state)
    }

    /// Forgets a peer.
    pub fn remove(&mut self, peer: &str)
        ensures
            final(self)@ == old(self)@.remove(peer@),
    {
        conn_remove(&mut self.map, peer)
    }

    /// How many peers are known.
    pub fn len(&self) -> (r: usize)
        ensures
            r == self@.dom().len(),
    {
        conn_len(&self.map)
    }

    /// Whether the connection with a peer has fallen back to the tunnel.
    pub fn is_relay(&self, peer: &str) -> (r: bool)
        ensures
            r == relayed(self@, peer@),
    {
        match conn_get(&self.map, peer) {
            Some(ConnState::Relay) => true,
            _ => false,
        }
    }

    /// The peers whose connection has fallen back to the tunnel, each once, in
    /// no particular order.
    pub fn relay_peers(&self) -> (r: Vec<String>)
        ensures
            forall|i: int| 0 <= i < r@.len() ==> relayed(self@, (#[trigger] r@[i])@),
            forall|i: int, j: int|
                0 <= i < j < r@.len() ==> (#[trigger] r@[i])@ != (#[trigger] r@[j])@,
            forall|peer: Seq<char>| #[trigger]
                relayed(self@, peer) ==> exists|i: int|
                    0 <= i < r@.len() && (#[trigger] r@[i])@ == peer,
    {
        let list = conn_list(&self.map);
        let mut r: Vec<String> = Vec::new();
        let ghost mut at: Seq<int> = Seq::empty();
        let mut k: usize = 0;
        while k < list.len()
            invariant
                k <= list.len(),
                at.len() == r@.len(),
                forall|i: int| 0 <= i < list@.len() ==> self@.contains_pair(
                    (#[trigger] list@[i]).0@,
                    list@[i].1,
                ),
                forall|i: int, j: int|
                    0 <= i < j < list@.len() ==> (#[trigger] list@[i]).0@ != (#[trigger] list@[j]).0@,
                forall|i: int|
                    0 <= i < r@.len() ==> 0 <= #[trigger] at[i] < k && r@[i]@ == list@[at[i]].0@
                        && list@[at[i]].1 == ConnState::Relay,
                forall|i: int, j: int| 0 <= i < j < at.len() ==> #[trigger] at[i] < #[trigger] at[j],
                forall|m: int|
                    0 <= m < k && (#[trigger] list@[m]).1 == ConnState::Relay ==> exists|i: int|
                        0 <= i < r@.len() && (#[trigger] r@[i])@ == list@[m].0@,
            decreases list.len() - k,
        {
            let ghost before = r@;
            match list[k].1 {
                ConnState::Relay => {
                    r.push(list[k].0.clone());
                    proof {
                        at = at.push(k as int);
                        assert(r@[before.len() as int]@ == list@[k as int].0@);
                        assert forall|m: int|
                            0 <= m < k + 1 && (#[trigger] list@[m]).1
                                == ConnState::Relay implies exists|i: int|
                            0 <= i < r@.len() && (#[trigger] r@[i])@ == list@[m].0@ by {
                            if m < k {
                                let i = choose|i: int|
                                    0 <= i < before.len() && (#[trigger] before[i])@
                                        == list@[m].0@;
                                assert(r@[i] == before[i]);
                            }
                        }
                    }
                },
                _ => {},
            }
            k = k + 1;
        }
        proof {
            assert forall|i: int| 0 <= i < r@.len() implies relayed(
                self@,
                (#[trigger] r@[i])@,
            ) by {
                assert(0 <= at[i] < k);
                assert(self@.contains_pair(list@[at[i]].0@, list@[at[i]].1));
            }
            assert forall|i: int, j: int| 0 <= i < j < r@.len() implies (#[trigger] r@[i])@ != (
            #[trigger] r@[j])@ by {
                assert(at[i] < at[j]);
                assert(list@[at[i]].0@ != list@[at[j]].0@);
            }
            assert forall|peer: Seq<char>| #[trigger] relayed(self@, peer) implies exists|i: int|
                0 <= i < r@.len() && (#[trigger] r@[i])@ == peer by {
                assert(conn_entries(self.map).contains_key(peer));
                let m = choose|m: int| 0 <= m < list@.len() && (#[trigger] list@[m]).0@ == peer;
                assert(self@.contains_pair(list@[m].0@, list@[m].1));
            }
        }
        r
    }

    /// Notes a direct connection with a peer, unless the peer has one already
    /// or cannot be used; says whether it was noted.
    pub fn settle_direct(&mut self, peer: &str, id: u64) -> (r: bool)
        ensures
            r == may_go_direct(old(self)@, peer@),
            final(self)@ == if r {
                old(self)@.insert(peer@, ConnState::Direct(id))
            } else {
                old(self)@
            },
    {
        let open = match conn_get(&self.map, peer) {
            None => true,
            Some(ConnState::Punching) => true,
            Some(ConnState::Relay) => true,
            Some(_) => false,
        };
        if open {
            conn_insert(&mut self.map, peer, ConnState::Direct(id));
        }
        open
    }
}

/// The key of an address: its family and its bits.
pub open spec fn vip_key(ip: IpAddr) -> (u8, u128) {
    match ip {
        IpAddr::V4(bits) => (4, bits as u128),
        IpAddr::V6(bits) => (6, bits),
    }
}

/// The key of an address: its family and its bits.
fn key_of(ip: IpAddr) -> (r: (u8, u128))
    ensures
        r == vip_key(ip),
{
    match ip {
        IpAddr::V4(bits) => (4, bits as u128),
        IpAddr::V6(bits) => (6, bits),
    }
}

/// Two addresses have one key only where they are the same.
pub proof fn vip_keys_differ(a: IpAddr, b: IpAddr)
    ensures
        vip_key(a) == vip_key(b) <==> a == b,
{
}

/// Which peer has which address in the virtual network.
#[derive(Debug)]
pub struct VipTable {
    map: DashMap<(u8, u128), String>,
}

impl View for VipTable {
    type V = Map<IpAddr, Seq<char>>;

    closed spec fn view(&self) -> Map<IpAddr, Seq<char>> {
        Map::new(
            |ip: IpAddr| vip_entries(self.map).contains_key(vip_key(ip)),
            |ip: IpAddr| vip_entries(self.map)[vip_key(ip)],
        )
    }
}

impl VipTable {
    /// A table without addresses.
    pub fn new() -> (r: VipTable)
        ensures
            r@ == Map::<IpAddr, Seq<char>>::empty(),
    {
        let r = VipTable { map: vip_new() };
        proof {
            assert(r@ =~= Map::<IpAddr, Seq<char>>::empty());
        }
        r
    }

    /// The peer at an address.
    pub fn get(&self, ip: IpAddr) -> (r: Option<String>)
        ensures
            match r {
                Some(peer) => self@.contains_pair(ip, peer@),
                None => !self@.contains_key(ip),
            },
    {
        vip_get(&self.map, key_of(ip))
    }

    /// Notes which peer has an address.
    pub fn insert(&mut self, ip: IpAddr, peer: &str)
        ensures
            final(self)@ == old(self)@.insert(ip, peer@),
    {
        vip_insert(&mut self.map, key_of(ip), peer);
        proof {
            assert forall|other: IpAddr| other != ip implies vip_key(other) != vip_key(ip) by {
                vip_keys_differ(other, ip);
            }
            assert(self@ =~= old(self)@.insert(ip, peer@));
        }
    }
}

/// A number for each peer.
#[derive(Debug)]
pub struct PeerNumbers {
    map: DashMap<String, u64>,
}

impl View for PeerNumbers {
    type V = Map<Seq<char>, u64>;

    closed spec fn view(&self) -> Map<Seq<char>, u64> {
        number_entries(self.map)
    }
}

impl PeerNumbers {
    /// No numbers.
    pub fn new() -> (r: PeerNumbers)
        ensures
            r@ == Map::<Seq<char>, u64>::empty(),
    {
        let r = PeerNumbers { map: number_new() };
        proof {
            assert(r@ =~= Map::<Seq<char>, u64>::empty());
        }
        r
    }

    /// The number for a peer.
    pub fn get(&self, peer: &str) -> (r: Option<u64>)
        ensures
            r == self@.get(peer@),
    {
        number_get(&self.map, peer)
    }

    /// Sets the number for a peer.
    pub fn insert(&mut self, peer: &str, value: u64)
        ensures
            final(self)@ == old(self)@.insert(peer@, value),
    {
        number_insert(&mut self.map, peer, value)
    }

    /// Forgets the number for a peer.
    pub fn remove(&mut self, peer: &str)
        ensures
            final(self)@ == old(self)@.remove(peer@),
    {
        number_remove(&mut self.map, peer)
    }

    /// Forgets the numbers for all peers whose connection is not over the tunnel.
    pub fn retain_relays(&mut self, conns: &ConnTable)
        ensures
            final(self)@ == old(self)@.filter_keys(|peer: Seq<char>| relayed(conns@, peer)),
    {
        number_retain_relays(&mut self.map, conns)
    }
}

/// A connection counts as relayed in the state for it alone; a direct one may
/// take the place of any but a direct or an unusable one.
pub proof fn states_decide(conns: Map<Seq<char>, ConnState>, peer: Seq<char>, id: u64)
    ensures
        !conns.contains_key(peer) ==> !relayed(conns, peer) && may_go_direct(conns, peer),
        conns.contains_key(peer) && conns[peer] == ConnState::Relay ==> relayed(conns, peer)
            && may_go_direct(conns, peer),
        conns.contains_key(peer) && conns[peer] == ConnState::Punching ==> !relayed(conns, peer)
            && may_go_direct(conns, peer),
        conns.contains_key(peer) && conns[peer] == ConnState::Direct(id) ==> !relayed(conns, peer)
            && !may_go_direct(conns, peer),
        conns.contains_key(peer) && conns[peer] == ConnState::Unavailable ==> !relayed(conns, peer)
            && !may_go_direct(conns, peer),
{
}

} // verus!
