//! What the server does on each event: a datagram from a client, a packet
//! from the TUN device, a tick of the idle timer. Each function takes the
//! event and the session table and says what is to be sent where; sending
//! is the caller's part.

use crate::ipv4_pool::IPv4Pool;
use crate::ipv6_pool::IPv6Pool;
use crate::packet::{
    be16, be_u128, be_u32, destination, destination_of, encode_forward, encode_virtual_addresses,
    forward_frame, ip_version, ipv4_header_checksum, lemma_ipv4_rewritten, lemma_ipv6_rewritten,
    overwrite, rewritable, rewrite_source, source_rewritten, tail_of, u32_be_bytes,
    virtual_addresses_frame,
};
use crate::udp_id::{checksum_bytes, id_value, UdpId, UDP_ID_TOTAL_LEN};
use crate::vpn_client::{Endpoint, IpAddress, VpnClient};
use crate::vpn_state::{
    admission, admission_answer, cursor_ok, is_expired, AdmissionError, VpnState,
};
use crate::FatalError;
use vstd::prelude::*;

verus! {

/// Length of the client identifier that opens every datagram from a client.
pub const CLIENT_PREFIX_LEN: usize = 4;

/// Shortest datagram from a client that can hold an inner packet.
pub const MIN_FORWARD_LEN: usize = 24;

/// What the server owes after a datagram from a client: a reply to the
/// endpoint it came from, a packet for the TUN device, both or neither. The
/// reply goes out before the packet. Where the client could not be admitted,
/// `refused` says why, for the log.
#[derive(Debug, PartialEq, Eq)]
pub struct UdpOutcome {
    pub reply: Option<Vec<u8>>,
    pub tun_packet: Option<Vec<u8>>,
    pub refused: Option<AdmissionError>,
}

impl UdpOutcome {
    /// The reply, as bytes.
    pub open spec fn reply_bytes(&self) -> Option<Seq<u8>> {
        match self.reply {
            Some(v) => Some(v@),
            None => None,
        }
    }

    /// The packet for the TUN device, as bytes.
    pub open spec fn tun_bytes(&self) -> Option<Seq<u8>> {
        match self.tun_packet {
            Some(v) => Some(v@),
            None => None,
        }
    }
}

/// What the server starts with: an empty session table, and the pair of
/// addresses that its own TUN device takes.
pub struct ServerStart {
    pub vpn_state: VpnState,
    pub tun_virtual_ipv4: u32,
    pub tun_virtual_ipv6: u128,
}

/// Takes the lowest free address of each pool for the server's own TUN
/// device and makes an empty session table over the pools. Where a pool
/// has no address left, there is no server to start.
pub fn start(ipv4_pool: IPv4Pool, ipv6_pool: IPv6Pool) -> (r: Result<ServerStart, AdmissionError>)
    requires
        ipv4_pool.wf(),
        ipv6_pool.wf(),
    ensures
        r matches Err(e) ==> (e == AdmissionError::Ipv4Exhausted <==> ipv4_pool.exhausted()),
        r is Err <==> ipv4_pool.exhausted() || ipv6_pool.exhausted(),
        r matches Ok(s) ==> {
            &&& s.vpn_state.wf()
            &&& s.vpn_state.clients() == Map::<u32, VpnClient>::empty()
            &&& ipv4_pool.is_next_free(s.tun_virtual_ipv4)
            &&& ipv6_pool.is_next_free(s.tun_virtual_ipv6)
            &&& s.vpn_state.reserved_ipv4() == ipv4_pool.allocated().insert(s.tun_virtual_ipv4)
            &&& s.vpn_state.reserved_ipv6() == ipv6_pool.allocated().insert(s.tun_virtual_ipv6)
            &&& s.vpn_state.ipv4_pool().base() == ipv4_pool.base()
            &&& s.vpn_state.ipv4_pool().mask() == ipv4_pool.mask()
            &&& s.vpn_state.ipv6_pool().base() == ipv6_pool.base()
            &&& s.vpn_state.ipv6_pool().prefix() == ipv6_pool.prefix()
        },
{
    let mut ipv4_pool = ipv4_pool;
    let mut ipv6_pool = ipv6_pool;
    let tun_virtual_ipv4: u32 = match ipv4_pool.allocate() {
        Some(a) => a,
        None => {
            return Err(AdmissionError::Ipv4Exhausted);
        },
    };
    let tun_virtual_ipv6: u128 = match ipv6_pool.allocate() {
        Some(a) => a,
        None => {
            return Err(AdmissionError::Ipv6Exhausted);
        },
    };
    let vpn_state = VpnState::new(ipv4_pool, ipv6_pool);
    Ok(ServerStart { vpn_state, tun_virtual_ipv4, tun_virtual_ipv6 })
}

/// Whether `datagram` is a registration with a checksum that is not the one
/// its identifier calls for. Such a datagram is dropped.
pub open spec fn bad_registration(datagram: Seq<u8>) -> bool {
    datagram.len() == UDP_ID_TOTAL_LEN && datagram.subrange(4, 6) != checksum_bytes(
        datagram.subrange(0, 4),
    )
}

/// Whether `datagram` is taken up: it holds an identifier, and no checksum
/// that belies it.
pub open spec fn accepted(datagram: Seq<u8>) -> bool {
    datagram.len() >= CLIENT_PREFIX_LEN && !bad_registration(datagram)
}

/// The pool that had nothing left, where a client was not admitted.
pub open spec fn refusal_of(r: Result<bool, AdmissionError>) -> Option<AdmissionError> {
    match r {
        Ok(_) => None,
        Err(e) => Some(e),
    }
}

/// The reply that a datagram from the client `key` calls for: the frame
/// with its addresses where the client was admitted by it, else none.
pub open spec fn reply_for(post: VpnState, key: u32, r: Result<bool, AdmissionError>) -> Option<
    Seq<u8>,
> {
    if r == Ok::<bool, AdmissionError>(true) {
        Some(
            virtual_addresses_frame(
                post.clients()[key].virtual_ipv4,
                post.clients()[key].virtual_ipv6,
            ),
        )
    } else {
        None
    }
}

/// The packet that a datagram from the client `key` puts on the TUN device:
/// its inner packet with the client's virtual address as source, where the
/// client is in the table and the datagram holds a well-formed packet.
pub open spec fn tun_packet_for(
    post: VpnState,
    key: u32,
    r: Result<bool, AdmissionError>,
    datagram: Seq<u8>,
) -> Option<Seq<u8>> {
    let inner = datagram.subrange(CLIENT_PREFIX_LEN as int, datagram.len() as int);
    if r is Ok && datagram.len() >= MIN_FORWARD_LEN && rewritable(inner) {
        Some(
            source_rewritten(
                inner,
                post.clients()[key].virtual_ipv4,
                post.clients()[key].virtual_ipv6,
            ),
        )
    } else {
        None
    }
}

/// Source rewrite: the packet that a datagram puts on the TUN device is as
/// long as the one that came, and has the client's virtual address of its
/// family as source, whatever source it came with; an IPv4 packet has the
/// header checksum computed for it as rewritten, and its destination as it
/// came.
pub proof fn lemma_tun_packet_source(
    post: VpnState,
    key: u32,
    answer: Result<bool, AdmissionError>,
    datagram: Seq<u8>,
)
    ensures
        tun_packet_for(post, key, answer, datagram) matches Some(p) ==> {
            let inner = datagram.subrange(CLIENT_PREFIX_LEN as int, datagram.len() as int);
            let client = post.clients()[key];
            &&& p.len() == inner.len()
            &&& ip_version(inner) == 4 ==> {
                &&& be_u32(p.subrange(12, 16)) == client.virtual_ipv4
                &&& be16(p[10], p[11]) == ipv4_header_checksum(
                    overwrite(inner, 12, u32_be_bytes(client.virtual_ipv4)),
                )
                &&& p.subrange(16, 20) == inner.subrange(16, 20)
            }
            &&& ip_version(inner) == 6 ==> be_u128(p.subrange(8, 24)) == client.virtual_ipv6
        },
{
    let inner = datagram.subrange(CLIENT_PREFIX_LEN as int, datagram.len() as int);
    let client = post.clients()[key];
    if tun_packet_for(post, key, answer, datagram) is Some {
        if ip_version(inner) == 4 {
            lemma_ipv4_rewritten(inner, client.virtual_ipv4);
        } else {
            lemma_ipv6_rewritten(inner, client.virtual_ipv6);
        }
    }
}

/// Handles a datagram received from `sockaddr` at `now`. An empty one ends
/// the service; one too short for an identifier is dropped, and so is an
/// identifier sent with a checksum that is not its own. Otherwise the
/// client is noted in the table, a client new to it is owed its addresses,
/// and an inner packet, if the datagram holds one, goes to the TUN device
/// with its source rewritten.
pub fn handle_udp_read(
    vpn_state: &mut VpnState,
    datagram: &[u8],
    sockaddr: Endpoint,
    now: u64,
) -> (r: Result<UdpOutcome, FatalError>)
    requires
        old(vpn_state).wf(),
    ensures
        final(vpn_state).wf(),
        final(vpn_state).same_pools(old(vpn_state)),
        r is Err <==> datagram@.len() == 0,
        !accepted(datagram@) ==> final(vpn_state).clients() == old(vpn_state).clients(),
        accepted(datagram@) ==> admission(
            *old(vpn_state),
            *final(vpn_state),
            id_value(datagram@.subrange(0, 4)),
            sockaddr,
            now,
            admission_answer(*old(vpn_state), id_value(datagram@.subrange(0, 4))),
        ),
        r matches Ok(out) ==> if !accepted(datagram@) {
            out.reply is None && out.tun_packet is None && out.refused is None
        } else {
            let key = id_value(datagram@.subrange(0, 4));
            let a = admission_answer(*old(vpn_state), key);
            &&& out.reply_bytes() == reply_for(*final(vpn_state), key, a)
            &&& out.tun_bytes() == tun_packet_for(*final(vpn_state), key, a, datagram@)
            &&& out.refused == refusal_of(a)
        },
{
    let n: usize = datagram.len();
    if n == 0 {
        return Err(FatalError::Eof);
    }
    if n < CLIENT_PREFIX_LEN {
        return Ok(UdpOutcome { reply: None, tun_packet: None, refused: None });
    }
    if n == UDP_ID_TOTAL_LEN {
        if let Some(sent) = UdpId::try_from(datagram) {
            if !sent.validate() {
                return Ok(UdpOutcome { reply: None, tun_packet: None, refused: None });
            }
        }
    }
    let client_id = UdpId::from([datagram[0], datagram[1], datagram[2], datagram[3]]);
    assert(client_id.id() =~= datagram@.subrange(0, 4));
    let admitted = vpn_state.add_client(&client_id, sockaddr, now);
    let is_new_client: bool = match admitted {
        Ok(is_new) => is_new,
        Err(e) => {
            return Ok(UdpOutcome { reply: None, tun_packet: None, refused: Some(e) });
        },
    };
    let virtual_ipv4: u32 = match vpn_state.get_client_virtual_ipv4(&client_id) {
        Some(a) => a,
        None => {
            return Ok(UdpOutcome { reply: None, tun_packet: None, refused: None });
        },
    };
    let virtual_ipv6: u128 = match vpn_state.get_client_virtual_ipv6(&client_id) {
        Some(a) => a,
        None => {
            return Ok(UdpOutcome { reply: None, tun_packet: None, refused: None });
        },
    };
    let reply: Option<Vec<u8>> = if is_new_client {
        Some(encode_virtual_addresses(virtual_ipv4, virtual_ipv6))
    } else {
        None
    };
    if n < MIN_FORWARD_LEN {
        return Ok(UdpOutcome { reply, tun_packet: None, refused: None });
    }
    let mut inner: Vec<u8> = tail_of(datagram, CLIENT_PREFIX_LEN);
    let rewritten: bool = rewrite_source(&mut inner, virtual_ipv4, virtual_ipv6);
    let tun_packet: Option<Vec<u8>> = if rewritten {
        Some(inner)
    } else {
        None
    };
    Ok(UdpOutcome { reply, tun_packet, refused: None })
}

/// Where a packet from the TUN device goes, and as what: to the endpoint
/// of the client that holds its destination address, framed; nowhere, where
/// no client holds that address or the packet is not well-formed.
pub open spec fn return_path(vpn_state: VpnState, packet: Seq<u8>) -> Option<(Endpoint, Seq<u8>)> {
    match destination_of(packet) {
        Some(ip) => match vpn_state.route(ip) {
            Some(endpoint) => Some((endpoint, forward_frame(packet))),
            None => None,
        },
        None => None,
    }
}

/// Return path: a packet for a virtual address of the client `id` goes to
/// the endpoint that the client was last heard from, unchanged behind the
/// frame type; a packet for an address that no client holds goes nowhere.
pub proof fn lemma_return_path(vpn_state: VpnState, id: u32, packet: Seq<u8>)
    requires
        vpn_state.wf(),
    ensures
        vpn_state.clients().contains_key(id) && (destination_of(packet) == Some(
            IpAddress::V4(vpn_state.clients()[id].virtual_ipv4),
        ) || destination_of(packet) == Some(IpAddress::V6(vpn_state.clients()[id].virtual_ipv6)))
            ==> return_path(vpn_state, packet) == Some(
            (vpn_state.clients()[id].sockaddr, forward_frame(packet)),
        ),
        (forall|o: u32| #[trigger]
            vpn_state.clients().contains_key(o) ==> destination_of(packet) != Some(
                IpAddress::V4(vpn_state.clients()[o].virtual_ipv4),
            ) && destination_of(packet) != Some(IpAddress::V6(vpn_state.clients()[o].virtual_ipv6)))
            ==> return_path(vpn_state, packet) is None,
{
    if vpn_state.clients().contains_key(id) {
        vpn_state.lemma_route_of_client(id);
    }
    if let Some(ip) = destination_of(packet) {
        vpn_state.lemma_route_only_of_client(ip);
    }
}

/// Handles a packet read from the TUN device. An empty read ends the
/// service. A packet for the virtual address of a client goes to that
/// client's endpoint, framed; any other is dropped.
pub fn handle_tun_read(vpn_state: &VpnState, packet: &[u8]) -> (r: Result<
    Option<(Endpoint, Vec<u8>)>,
    FatalError,
>)
    ensures
        r is Err <==> packet@.len() == 0,
        r matches Ok(sent) ==> match sent {
            Some((endpoint, frame)) => return_path(*vpn_state, packet@) == Some((endpoint, frame@)),
            None => return_path(*vpn_state, packet@) is None,
        },
{
    if packet.len() == 0 {
        return Err(FatalError::Eof);
    }
    let virtual_ip: IpAddress = match destination(packet) {
        Some(ip) => ip,
        None => {
            return Ok(None);
        },
    };
    let sockaddr: Endpoint = match vpn_state.get_sockaddr(&virtual_ip) {
        Some(endpoint) => endpoint,
        None => {
            return Ok(None);
        },
    };
    Ok(Some((sockaddr, encode_forward(packet))))
}

/// Handles a tick of the idle timer at `now`: the client longest unheard
/// of is removed if it is due, and named. Its addresses are free again and
/// lead to no endpoint.
pub fn handle_udp_timeout(vpn_state: &mut VpnState, now: u64) -> (r: Option<UdpId>)
    requires
        old(vpn_state).wf(),
    ensures
        final(vpn_state).wf(),
        final(vpn_state).same_pools(old(vpn_state)),
        r is Some <==> exists|id: u32| #[trigger]
            old(vpn_state).clients().contains_key(id) && is_expired(
                old(vpn_state).clients()[id].last_read,
                now,
            ),
        r is None ==> final(vpn_state).clients() == old(vpn_state).clients(),
        r matches Some(id) ==> {
            let c = old(vpn_state).clients()[id.key32()];
            &&& cursor_ok(old(vpn_state).clients(), Some((id.key32(), c.last_read)))
            &&& is_expired(c.last_read, now)
            &&& final(vpn_state).clients() == old(vpn_state).clients().remove(id.key32())
            &&& final(vpn_state).route(IpAddress::V4(c.virtual_ipv4)) is None
            &&& final(vpn_state).route(IpAddress::V6(c.virtual_ipv6)) is None
            &&& !final(vpn_state).ipv4_pool().allocated().contains(c.virtual_ipv4)
            &&& !final(vpn_state).ipv6_pool().allocated().contains(c.virtual_ipv6)
        },
{
    match vpn_state.get_timeout(now) {
        Some(client_id) => {
            vpn_state.remove_client(&client_id);
            Some(client_id)
        },
        None => None,
    }
}

} // verus!
