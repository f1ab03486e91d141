//! The server's session table: clients by identifier, the reverse index from
//! virtual address to client, the two address pools, and the idle cursor.

use crate::ipv4_pool::IPv4Pool;
use crate::ipv6_pool::IPv6Pool;
use crate::udp_id::UdpId;
use crate::vpn_client::{Endpoint, IpAddress, VpnClient};
use std::collections::HashMap;
use vstd::prelude::*;
use vstd::std_specs::hash::spec_hash_map_iter;
use vstd::std_specs::iter::IteratorSpec;

verus! {

broadcast use vstd::std_specs::hash::group_hash_axioms;

/// A client that has sent nothing for this many milliseconds is expired.
pub const IDLE_TIMEOUT_MS: u64 = 30_000;

/// Why a new client could not be admitted.
#[derive(Clone, Copy, Debug, PartialEq, Eq, Structural)]
pub enum AdmissionError {
    Ipv4Exhausted,
    Ipv6Exhausted,
}

/// Whether `cursor` names a client that was heard from no later than any
/// other, with the instant it was last heard from; no cursor, no clients.
pub open spec fn cursor_ok(clients: Map<u32, VpnClient>, cursor: Option<(u32, u64)>) -> bool {
    match cursor {
        None => forall|id: u32| !clients.contains_key(id),
        Some((id, t)) => {
            &&& clients.contains_key(id)
            &&& clients[id].last_read == t
            &&& forall|o: u32| clients.contains_key(o) ==> t <= (#[trigger] clients[o]).last_read
        },
    }
}

/// Whether a client last heard from at `last_read` is due for expiry at `now`.
pub open spec fn is_expired(last_read: u64, now: u64) -> bool {
    last_read + IDLE_TIMEOUT_MS <= now
}

fn oldest_client(clients: &HashMap<u32, VpnClient>) -> (r: Option<(u32, u64)>)
    ensures
        cursor_ok(clients@, r),
{
    let mut best: Option<(u32, u64)> = None;
    for entry in it: clients.iter()
        invariant
            it.seq() == spec_hash_map_iter(clients).remaining(),
            match best {
                None => it.index() == 0,
                Some((id, t)) => {
                    &&& clients@.contains_key(id)
                    &&& clients@[id].last_read == t
                    &&& forall|j: int| 0 <= j < it.index() ==> t <= (*(#[trigger] it.seq()[j]).1).last_read
                },
            },
    {
        let id: u32 = *entry.0;
        let last_read: u64 = entry.1.last_read;
        let take = match best {
            None => true,
            Some((_, t)) => last_read < t,
        };
        if take {
            best = Some((id, last_read));
        }
    }
    proof {
        let v = spec_hash_map_iter(clients).remaining();
        assert forall|o: u32| clients@.contains_key(o) implies (match best {
            Some((_, t)) => t <= (#[trigger] clients@[o]).last_read,
            None => false,
        }) by {
            assert(v.contains((&o, &clients@[o])));
            let j = choose|j: int| 0 <= j < v.len() && v[j] == (&o, &clients@[o]);
            assert(*v[j].1 == clients@[o]);
        }
    }
    best
}

/// The session table.
pub struct VpnState {
    clients: HashMap<u32, VpnClient>,
    ipv4_indexer: HashMap<u32, u32>,
    ipv6_indexer: HashMap<u128, u32>,
    next_timeout: Option<(u32, u64)>,
    ipv6_pool: IPv6Pool,
    ipv4_pool: IPv4Pool,
    reserved_ipv4: Ghost<Set<u32>>,
    reserved_ipv6: Ghost<Set<u128>>,
}

/// The answer to a datagram from the client `key`: `false` for a client in
/// the table, `true` for one that can be admitted, else the pool that has
/// no address left.
pub open spec fn admission_answer(pre: VpnState, key: u32) -> Result<bool, AdmissionError> {
    if pre.clients().contains_key(key) {
        Ok(false)
    } else if pre.ipv4_pool().exhausted() {
        Err(AdmissionError::Ipv4Exhausted)
    } else if pre.ipv6_pool().exhausted() {
        Err(AdmissionError::Ipv6Exhausted)
    } else {
        Ok(true)
    }
}

/// What noting a datagram from the client `key`, received from `sockaddr`
/// at `now`, makes of the table `pre`: the table `post` and the answer `r`.
pub open spec fn admission(
    pre: VpnState,
    post: VpnState,
    key: u32,
    sockaddr: Endpoint,
    now: u64,
    r: Result<bool, AdmissionError>,
) -> bool {
    &&& r == admission_answer(pre, key)
    &&& if pre.clients().contains_key(key) {
        post.clients() == pre.clients().insert(key, pre.clients()[key].touched(sockaddr, now))
    } else if r is Err {
        post.clients() == pre.clients()
    } else {
        &&& post.clients().contains_key(key)
        &&& pre.ipv4_pool().is_next_free(post.clients()[key].virtual_ipv4)
        &&& pre.ipv6_pool().is_next_free(post.clients()[key].virtual_ipv6)
        &&& post.clients()[key].sockaddr == sockaddr
        &&& post.clients()[key].created == now
        &&& post.clients()[key].last_read == now
        &&& post.clients() == pre.clients().insert(key, post.clients()[key])
    }
}

impl VpnState {
    /// The records, by session key.
    pub closed spec fn clients(&self) -> Map<u32, VpnClient> {
        self.clients@
    }

    /// The session key that each assigned IPv4 address belongs to.
    pub closed spec fn ipv4_index(&self) -> Map<u32, u32> {
        self.ipv4_indexer@
    }

    /// The session key that each assigned IPv6 address belongs to.
    pub closed spec fn ipv6_index(&self) -> Map<u128, u32> {
        self.ipv6_indexer@
    }

    /// The idle cursor: a session key and the instant it was last heard from.
    pub closed spec fn cursor(&self) -> Option<(u32, u64)> {
        self.next_timeout
    }

    /// The IPv4 pool.
    pub closed spec fn ipv4_pool(&self) -> IPv4Pool {
        self.ipv4_pool
    }

    /// The IPv6 pool.
    pub closed spec fn ipv6_pool(&self) -> IPv6Pool {
        self.ipv6_pool
    }

    /// The IPv4 addresses that were handed out before the table was made.
    pub closed spec fn reserved_ipv4(&self) -> Set<u32> {
        self.reserved_ipv4@
    }

    /// The IPv6 addresses that were handed out before the table was made.
    pub closed spec fn reserved_ipv6(&self) -> Set<u128> {
        self.reserved_ipv6@
    }

    /// The session key that a virtual address belongs to, if it is assigned.
    pub open spec fn ip_index(&self, ip: IpAddress) -> Option<u32> {
        match ip {
            IpAddress::V4(a) => if self.ipv4_index().contains_key(a) {
                Some(self.ipv4_index()[a])
            } else {
                None
            },
            IpAddress::V6(a) => if self.ipv6_index().contains_key(a) {
                Some(self.ipv6_index()[a])
            } else {
                None
            },
        }
    }

    /// The endpoint that traffic for a virtual address goes to.
    pub open spec fn route(&self, ip: IpAddress) -> Option<Endpoint> {
        match self.ip_index(ip) {
            Some(id) => if self.clients().contains_key(id) {
                Some(self.clients()[id].sockaddr)
            } else {
                None
            },
            None => None,
        }
    }

    /// The table's invariant: both addresses of every record are indexed to
    /// it, the index holds nothing else, the pools' allocated sets are the
    /// reserved addresses and the indexed ones, and the cursor is in order.
    pub open spec fn wf(&self) -> bool {
        &&& self.ipv4_pool().wf()
        &&& self.ipv6_pool().wf()
        &&& self.clients().dom().finite()
        &&& forall|id: u32| #[trigger]
            self.clients().contains_key(id) ==> {
                &&& self.ip_index(IpAddress::V4(self.clients()[id].virtual_ipv4)) == Some(id)
                &&& self.ip_index(IpAddress::V6(self.clients()[id].virtual_ipv6)) == Some(id)
            }
        &&& forall|a: u32| #[trigger]
            self.ipv4_index().contains_key(a) ==> {
                &&& self.clients().contains_key(self.ipv4_index()[a])
                &&& self.clients()[self.ipv4_index()[a]].virtual_ipv4 == a
            }
        &&& forall|a: u128| #[trigger]
            self.ipv6_index().contains_key(a) ==> {
                &&& self.clients().contains_key(self.ipv6_index()[a])
                &&& self.clients()[self.ipv6_index()[a]].virtual_ipv6 == a
            }
        &&& self.ipv4_pool().allocated() =~= self.reserved_ipv4() + self.ipv4_index().dom()
        &&& self.ipv6_pool().allocated() =~= self.reserved_ipv6() + self.ipv6_index().dom()
        &&& self.reserved_ipv4().disjoint(self.ipv4_index().dom())
        &&& self.reserved_ipv6().disjoint(self.ipv6_index().dom())
        &&& cursor_ok(self.clients(), self.cursor())
    }

    /// Whether nothing but the records and the cursor differs between two
    /// tables: the prefixes and the reserved addresses are the same.
    pub open spec fn same_pools(&self, other: &VpnState) -> bool {
        &&& self.ipv4_pool().base() == other.ipv4_pool().base()
        &&& self.ipv4_pool().mask() == other.ipv4_pool().mask()
        &&& self.ipv6_pool().base() == other.ipv6_pool().base()
        &&& self.ipv6_pool().prefix() == other.ipv6_pool().prefix()
        &&& self.reserved_ipv4() == other.reserved_ipv4()
        &&& self.reserved_ipv6() == other.reserved_ipv6()
    }

    /// An empty table over the two pools. What the pools have handed out
    /// already (the server's own pair) stays reserved.
    pub fn new(ipv4_pool: IPv4Pool, ipv6_pool: IPv6Pool) -> (s: Self)
        requires
            ipv4_pool.wf(),
            ipv6_pool.wf(),
        ensures
            s.wf(),
            s.clients() == Map::<u32, VpnClient>::empty(),
            s.ipv4_pool() == ipv4_pool,
            s.ipv6_pool() == ipv6_pool,
            s.reserved_ipv4() == ipv4_pool.allocated(),
            s.reserved_ipv6() == ipv6_pool.allocated(),
    {
        let ghost r4 = ipv4_pool.allocated();
        let ghost r6 = ipv6_pool.allocated();
        VpnState {
            clients: HashMap::new(),
            ipv4_indexer: HashMap::new(),
            ipv6_indexer: HashMap::new(),
            next_timeout: None,
            ipv6_pool,
            ipv4_pool,
            reserved_ipv4: Ghost(r4),
            reserved_ipv6: Ghost(r6),
        }
    }

    /// Notes a datagram from `client_id`, received from `sockaddr` at `now`.
    /// A known client has its endpoint and the instant updated and `false`
    /// comes back. An unknown one is admitted with the lowest free address of
    /// each pool and `true` comes back; where a pool has none left, the
    /// table stays as it was.
    pub fn add_client(&mut self, client_id: &UdpId, sockaddr: Endpoint, now: u64) -> (r: Result<
        bool,
        AdmissionError,
    >)
        requires
            old(self).wf(),
        ensures
            final(self).wf(),
            final(self).same_pools(old(self)),
            admission(*old(self), *final(self), client_id.key32(), sockaddr, now, r),
    {
        let key: u32 = client_id.as_u32();
        let existing: Option<VpnClient> = match self.clients.get(&key) {
            Some(client) => Some(*client),
            None => None,
        };
        let is_new_client = match existing {
            Some(client) => {
                let updated = VpnClient {
                    sockaddr,
                    created: client.created,
                    last_read: now,
                    virtual_ipv4: client.virtual_ipv4,
                    virtual_ipv6: client.virtual_ipv6,
                };
                self.clients.insert(key, updated);
                false
            },
            None => {
                let virtual_ipv4: u32 = match self.ipv4_pool.allocate() {
                    Some(a) => a,
                    None => {
                        return Err(AdmissionError::Ipv4Exhausted);
                    },
                };
                let virtual_ipv6: u128 = match self.ipv6_pool.allocate() {
                    Some(a) => a,
                    None => {
                        self.ipv4_pool.release(&virtual_ipv4);
                        assert(self.ipv4_pool.allocated() =~= old(self).ipv4_pool().allocated());
                        return Err(AdmissionError::Ipv6Exhausted);
                    },
                };
                self.clients.insert(key, VpnClient::new(sockaddr, virtual_ipv4, virtual_ipv6, now));
                self.ipv4_indexer.insert(virtual_ipv4, key);
                self.ipv6_indexer.insert(virtual_ipv6, key);
                true
            },
        };
        let stale = match self.next_timeout {
            None => true,
            Some((id, instant)) => id == key || instant > now,
        };
        if stale {
            self.recalculate_next_timeout();
        }
        Ok(is_new_client)
    }

    /// The virtual IPv4 address of a client.
    pub fn get_client_virtual_ipv4(&self, client_id: &UdpId) -> (r: Option<u32>)
        ensures
            r == (if self.clients().contains_key(client_id.key32()) {
                Some(self.clients()[client_id.key32()].virtual_ipv4)
            } else {
                None
            }),
    {
        let key: u32 = client_id.as_u32();
        match self.clients.get(&key) {
            Some(client) => Some(client.virtual_ipv4),
            None => None,
        }
    }

    /// The virtual IPv6 address of a client.
    pub fn get_client_virtual_ipv6(&self, client_id: &UdpId) -> (r: Option<u128>)
        ensures
            r == (if self.clients().contains_key(client_id.key32()) {
                Some(self.clients()[client_id.key32()].virtual_ipv6)
            } else {
                None
            }),
    {
        let key: u32 = client_id.as_u32();
        match self.clients.get(&key) {
            Some(client) => Some(client.virtual_ipv6),
            None => None,
        }
    }

    /// Drops a client: its record, both index entries, and both addresses,
    /// which go back to their pools. An unknown client changes nothing.
    pub fn remove_client(&mut self, client_id: &UdpId)
        requires
            old(self).wf(),
        ensures
            final(self).wf(),
            final(self).same_pools(old(self)),
            final(self).clients() == old(self).clients().remove(client_id.key32()),
            old(self).clients().contains_key(client_id.key32()) ==> {
                let c = old(self).clients()[client_id.key32()];
                &&& final(self).ip_index(IpAddress::V4(c.virtual_ipv4)) is None
                &&& final(self).ip_index(IpAddress::V6(c.virtual_ipv6)) is None
                &&& !final(self).ipv4_pool().allocated().contains(c.virtual_ipv4)
                &&& !final(self).ipv6_pool().allocated().contains(c.virtual_ipv6)
            },
    {
        let key: u32 = client_id.as_u32();
        if let Some(client) = self.clients.remove(&key) {
            let virtual_ipv4: u32 = client.virtual_ipv4;
            let virtual_ipv6: u128 = client.virtual_ipv6;
            self.ipv4_pool.release(&virtual_ipv4);
            self.ipv6_pool.release(&virtual_ipv6);
            self.ipv4_indexer.remove(&virtual_ipv4);
            self.ipv6_indexer.remove(&virtual_ipv6);
        }
        let stale = match self.next_timeout {
            None => true,
            Some((id, _)) => id == key,
        };
        if stale {
            self.recalculate_next_timeout();
        }
    }

    /// The endpoint of the client that holds a virtual address.
    pub fn get_sockaddr(&self, virtual_ip: &IpAddress) -> (r: Option<Endpoint>)
        ensures
            r == self.route(*virtual_ip),
    {
        let client_id: u32 = match virtual_ip {
            IpAddress::V4(a) => match self.ipv4_indexer.get(a) {
                Some(id) => *id,
                None => {
                    return None;
                },
            },
            IpAddress::V6(a) => match self.ipv6_indexer.get(a) {
                Some(id) => *id,
                None => {
                    return None;
                },
            },
        };
        match self.clients.get(&client_id) {
            Some(client) => Some(client.sockaddr),
            None => None,
        }
    }

    /// The client that the idle cursor points at, with the instant at which
    /// it falls due (the end of time where that instant cannot be held).
    pub fn next_timeout(&self) -> (r: Option<(UdpId, u64)>)
        requires
            self.wf(),
        ensures
            r is None <==> self.clients() == Map::<u32, VpnClient>::empty(),
            r matches Some((id, deadline)) ==> {
                &&& cursor_ok(
                    self.clients(),
                    Some((id.key32(), self.clients()[id.key32()].last_read)),
                )
                &&& id.is_valid()
                &&& deadline as int == if self.clients()[id.key32()].last_read + IDLE_TIMEOUT_MS
                    <= u64::MAX {
                    self.clients()[id.key32()].last_read + IDLE_TIMEOUT_MS
                } else {
                    u64::MAX as int
                }
            },
    {
        match self.next_timeout {
            Some((key, last_read)) => {
                let deadline: u64 = if last_read <= u64::MAX - IDLE_TIMEOUT_MS {
                    last_read + IDLE_TIMEOUT_MS
                } else {
                    u64::MAX
                };
                Some((UdpId::from_u32(key), deadline))
            },
            None => {
                assert(self.clients() =~= Map::<u32, VpnClient>::empty());
                None
            },
        }
    }

    /// A client that is due for expiry at `now`, the one longest unheard
    /// of; none where no client is due.
    pub fn get_timeout(&self, now: u64) -> (r: Option<UdpId>)
        requires
            self.wf(),
        ensures
            r is Some <==> exists|id: u32| #[trigger]
                self.clients().contains_key(id) && is_expired(self.clients()[id].last_read, now),
            r matches Some(id) ==> {
                &&& cursor_ok(
                    self.clients(),
                    Some((id.key32(), self.clients()[id.key32()].last_read)),
                )
                &&& is_expired(self.clients()[id.key32()].last_read, now)
                &&& id.is_valid()
            },
    {
        match self.next_timeout {
            Some((key, last_read)) => {
                if now >= last_read && now - last_read >= IDLE_TIMEOUT_MS {
                    Some(UdpId::from_u32(key))
                } else {
                    None
                }
            },
            None => None,
        }
    }

    /// Return path: traffic for either virtual address of a client goes to
    /// that client's current endpoint.
    pub proof fn lemma_route_of_client(&self, id: u32)
        requires
            self.wf(),
            self.clients().contains_key(id),
        ensures
            self.route(IpAddress::V4(self.clients()[id].virtual_ipv4)) == Some(
                self.clients()[id].sockaddr,
            ),
            self.route(IpAddress::V6(self.clients()[id].virtual_ipv6)) == Some(
                self.clients()[id].sockaddr,
            ),
    {
    }

    /// Return path: an address that no client holds has no route, and one
    /// that has a route is held by the client it is indexed to.
    pub proof fn lemma_route_only_of_client(&self, ip: IpAddress)
        requires
            self.wf(),
        ensures
            self.route(ip) is Some <==> exists|id: u32| #[trigger]
                self.clients().contains_key(id) && (ip == IpAddress::V4(
                    self.clients()[id].virtual_ipv4,
                ) || ip == IpAddress::V6(self.clients()[id].virtual_ipv6)),
    {
        if self.route(ip) is Some {
            let id = self.ip_index(ip)->0;
            assert(self.clients().contains_key(id));
        }
    }

    /// No address is held by two clients.
    pub proof fn lemma_addresses_distinct(&self, a: u32, b: u32)
        requires
            self.wf(),
            self.clients().contains_key(a),
            self.clients().contains_key(b),
            a != b,
        ensures
            self.clients()[a].virtual_ipv4 != self.clients()[b].virtual_ipv4,
            self.clients()[a].virtual_ipv6 != self.clients()[b].virtual_ipv6,
    {
    }

    /// Every address held by a client is allocated in its pool and is none
    /// of the reserved ones.
    pub proof fn lemma_addresses_allocated(&self, id: u32)
        requires
            self.wf(),
            self.clients().contains_key(id),
        ensures
            self.ipv4_pool().allocated().contains(self.clients()[id].virtual_ipv4),
            self.ipv6_pool().allocated().contains(self.clients()[id].virtual_ipv6),
            !self.reserved_ipv4().contains(self.clients()[id].virtual_ipv4),
            !self.reserved_ipv6().contains(self.clients()[id].virtual_ipv6),
    {
        assert(self.ip_index(IpAddress::V4(self.clients()[id].virtual_ipv4)) == Some(id));
        assert(self.ip_index(IpAddress::V6(self.clients()[id].virtual_ipv6)) == Some(id));
    }

    /// What the pools have handed out is what was reserved and what the
    /// clients hold, no more and no less.
    pub proof fn lemma_allocated_is_reserved_or_held(&self, a: u32, b: u128)
        requires
            self.wf(),
        ensures
            self.ipv4_pool().allocated().contains(a) <==> self.reserved_ipv4().contains(a) || (
            exists|id: u32| #[trigger]
                self.clients().contains_key(id) && self.clients()[id].virtual_ipv4 == a),
            self.ipv6_pool().allocated().contains(b) <==> self.reserved_ipv6().contains(b) || (
            exists|id: u32| #[trigger]
                self.clients().contains_key(id) && self.clients()[id].virtual_ipv6 == b),
    {
        if self.ipv4_index().contains_key(a) {
            assert(self.clients().contains_key(self.ipv4_index()[a]));
        }
        if self.ipv6_index().contains_key(b) {
            assert(self.clients().contains_key(self.ipv6_index()[b]));
        }
        if exists|id: u32| #[trigger]
            self.clients().contains_key(id) && self.clients()[id].virtual_ipv4 == a {
            let id = choose|id: u32| #[trigger]
                self.clients().contains_key(id) && self.clients()[id].virtual_ipv4 == a;
            assert(self.ip_index(IpAddress::V4(a)) == Some(id));
        }
        if exists|id: u32| #[trigger]
            self.clients().contains_key(id) && self.clients()[id].virtual_ipv6 == b {
            let id = choose|id: u32| #[trigger]
                self.clients().contains_key(id) && self.clients()[id].virtual_ipv6 == b;
            assert(self.ip_index(IpAddress::V6(b)) == Some(id));
        }
    }

    /// Admission is idempotent: a client that is admitted and then heard
    /// from again, from whatever endpoint, is answered `true` and then
    /// `false`, keeps its addresses, and has the later endpoint on record;
    /// no other record is made or changed.
    pub proof fn lemma_admission_idempotent(
        before: VpnState,
        between: VpnState,
        after: VpnState,
        key: u32,
        first: Endpoint,
        second: Endpoint,
        first_at: u64,
        second_at: u64,
        first_answer: Result<bool, AdmissionError>,
        second_answer: Result<bool, AdmissionError>,
    )
        requires
            !before.clients().contains_key(key),
            !before.ipv4_pool().exhausted(),
            !before.ipv6_pool().exhausted(),
            admission(before, between, key, first, first_at, first_answer),
            admission(between, after, key, second, second_at, second_answer),
        ensures
            first_answer == Ok::<bool, AdmissionError>(true),
            second_answer == Ok::<bool, AdmissionError>(false),
            after.clients().dom() =~= before.clients().dom().insert(key),
            after.clients()[key] == between.clients()[key].touched(second, second_at),
            after.clients()[key].sockaddr == second,
            after.clients()[key].virtual_ipv4 == between.clients()[key].virtual_ipv4,
            after.clients()[key].virtual_ipv6 == between.clients()[key].virtual_ipv6,
            forall|o: u32| o != key && before.clients().contains_key(o) ==> after.clients()[o]
                == #[trigger] before.clients()[o],
    {
    }

    /// Mobility: once a known client is heard from at another endpoint,
    /// traffic for its virtual addresses goes to that endpoint.
    pub proof fn lemma_mobility(
        pre: VpnState,
        post: VpnState,
        key: u32,
        sockaddr: Endpoint,
        now: u64,
        r: Result<bool, AdmissionError>,
    )
        requires
            post.wf(),
            pre.clients().contains_key(key),
            admission(pre, post, key, sockaddr, now, r),
        ensures
            post.route(IpAddress::V4(pre.clients()[key].virtual_ipv4)) == Some(sockaddr),
            post.route(IpAddress::V6(pre.clients()[key].virtual_ipv6)) == Some(sockaddr),
    {
        assert(post.clients().contains_key(key));
    }

    fn recalculate_next_timeout(&mut self)
        ensures
            final(self).clients() == old(self).clients(),
            final(self).ipv4_index() == old(self).ipv4_index(),
            final(self).ipv6_index() == old(self).ipv6_index(),
            final(self).ipv4_pool() == old(self).ipv4_pool(),
            final(self).ipv6_pool() == old(self).ipv6_pool(),
            final(self).reserved_ipv4() == old(self).reserved_ipv4(),
            final(self).reserved_ipv6() == old(self).reserved_ipv6(),
            cursor_ok(final(self).clients(), final(self).cursor()),
    {
        self.next_timeout = oldest_client(&self.clients);
    }
}

} // verus!
