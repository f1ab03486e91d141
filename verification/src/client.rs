//! What a client does on each event: a datagram from the server, a packet
//! from its own TUN device. Each function takes the event and says what is
//! to be done; doing it is the caller's part.

use crate::packet::{
    be_u128, be_u32, lemma_be_u128_of_bytes, lemma_be_u32_of_bytes, tail_of, u128_be_bytes,
    u32_be_bytes, virtual_addresses_frame, VIRTUAL_ADDRESSES_LEN,
};
use crate::udp_id::UdpId;
use crate::FatalError;
use crate::{PACKET_TYPE_FORWARD, PACKET_TYPE_VIRTUAL_ADDRESSES};
use vstd::prelude::*;

verus! {

/// What a datagram from the server asks of the client.
#[derive(Debug, PartialEq, Eq)]
pub enum ClientAction {
    /// Write the inner packet to the TUN device.
    WriteTun(Vec<u8>),
    /// Close the TUN device, if one is open, and open one with these
    /// addresses; `gateway` is the peer address of the IPv4 side.
    Configure { virtual_ipv4: u32, virtual_ipv6: u128, gateway: u32 },
    /// Do nothing.
    Ignore,
}

/// The peer address that goes with a virtual IPv4 address: the same with 1
/// as its last byte.
pub open spec fn gateway_of(v4: u32) -> u32 {
    (v4 & 0xffff_ff00) | 1
}

/// Whether `datagram` is a whole frame of virtual addresses.
pub open spec fn is_assignment(datagram: Seq<u8>) -> bool {
    datagram.len() >= VIRTUAL_ADDRESSES_LEN && datagram[0] == PACKET_TYPE_VIRTUAL_ADDRESSES
}

/// Whether `datagram` is a frame with an inner packet.
pub open spec fn is_forward(datagram: Seq<u8>) -> bool {
    datagram.len() >= 1 && datagram[0] == PACKET_TYPE_FORWARD
}

/// The datagram that a client sends for a packet from its TUN device: its
/// four identifier bytes, then the packet.
pub open spec fn outbound_frame(client_id: UdpId, packet: Seq<u8>) -> Seq<u8> {
    client_id.id() + packet
}

fn read_be_u32(data: &[u8], at: usize) -> (a: u32)
    requires
        at + 4 <= data@.len(),
    ensures
        a == be_u32(data@.subrange(at as int, at + 4)),
{
    ((data[at] as u32) << 24) | ((data[at + 1] as u32) << 16) | ((data[at + 2] as u32) << 8) | (
    data[at + 3] as u32)
}

fn read_be_u128(data: &[u8], at: usize) -> (a: u128)
    requires
        at + 16 <= data@.len(),
    ensures
        a == be_u128(data@.subrange(at as int, at + 16)),
{
    let ghost s = data@.subrange(at as int, at + 16);
    let n: usize = data.len();
    assert(at + 16 <= n);
    let w0: u32 = read_be_u32(data, at);
    let w1: u32 = read_be_u32(data, at + 4);
    let w2: u32 = read_be_u32(data, at + 8);
    let w3: u32 = read_be_u32(data, at + 12);
    assert(s.subrange(0, 4) =~= data@.subrange(at as int, at + 4));
    assert(s.subrange(4, 8) =~= data@.subrange(at + 4, at + 8));
    assert(s.subrange(8, 12) =~= data@.subrange(at + 8, at + 12));
    assert(s.subrange(12, 16) =~= data@.subrange(at + 12, at + 16));
    ((w0 as u128) << 96) | ((w1 as u128) << 64) | ((w2 as u128) << 32) | (w3 as u128)
}

/// Handles a datagram from the server. An empty one ends the client. A
/// frame with an inner packet has it written to the TUN device while one is
/// open; a whole frame of virtual addresses has the device opened anew;
/// anything else is passed over.
pub fn handle_udp_read(datagram: &[u8], tun_active: bool) -> (r: Result<ClientAction, FatalError>)
    ensures
        r is Err <==> datagram@.len() == 0,
        r matches Ok(action) ==> {
            &&& action matches ClientAction::WriteTun(p) ==> p@ == datagram@.subrange(
                1,
                datagram@.len() as int,
            )
            &&& action is WriteTun <==> is_forward(datagram@) && tun_active
            &&& action is Configure <==> is_assignment(datagram@)
            &&& action matches ClientAction::Configure { virtual_ipv4, virtual_ipv6, gateway } ==> {
                &&& virtual_ipv4 == be_u32(datagram@.subrange(1, 5))
                &&& virtual_ipv6 == be_u128(datagram@.subrange(5, 21))
                &&& gateway == gateway_of(virtual_ipv4)
            }
        },
{
    let n: usize = datagram.len();
    if n == 0 {
        return Err(FatalError::Eof);
    }
    let packet_type: u8 = datagram[0];
    if packet_type == PACKET_TYPE_FORWARD {
        if tun_active {
            Ok(ClientAction::WriteTun(tail_of(datagram, 1)))
        } else {
            Ok(ClientAction::Ignore)
        }
    } else if packet_type == PACKET_TYPE_VIRTUAL_ADDRESSES && n >= VIRTUAL_ADDRESSES_LEN {
        let virtual_ipv4: u32 = read_be_u32(datagram, 1);
        let virtual_ipv6: u128 = read_be_u128(datagram, 5);
        let gateway: u32 = (virtual_ipv4 & 0xffff_ff00) | 1;
        Ok(ClientAction::Configure { virtual_ipv4, virtual_ipv6, gateway })
    } else {
        Ok(ClientAction::Ignore)
    }
}

/// Handles a packet read from the client's TUN device: it goes to the
/// server behind the client's identifier. An empty read ends the client.
pub fn handle_tun_read(client_id: &UdpId, packet: &[u8]) -> (r: Result<Vec<u8>, FatalError>)
    ensures
        r is Err <==> packet@.len() == 0,
        r matches Ok(frame) ==> frame@ == outbound_frame(*client_id, packet@),
{
    if packet.len() == 0 {
        return Err(FatalError::Eof);
    }
    let bytes = client_id.as_bytes();
    proof {
        client_id.lemma_lengths();
    }
    let mut frame: Vec<u8> = Vec::new();
    frame.push(bytes[0]);
    frame.push(bytes[1]);
    frame.push(bytes[2]);
    frame.push(bytes[3]);
    assert(frame@ =~= client_id.id());
    let mut i: usize = 0;
    while i < packet.len()
        invariant
            i <= packet@.len(),
            frame@ == client_id.id() + packet@.subrange(0, i as int),
        decreases packet@.len() - i,
    {
        frame.push(packet[i]);
        i = i + 1;
        assert(frame@ =~= client_id.id() + packet@.subrange(0, i as int));
    }
    assert(packet@.subrange(0, packet@.len() as int) =~= packet@);
    Ok(frame)
}

/// The frame of virtual addresses reads back as the addresses it was made
/// of.
pub proof fn lemma_virtual_addresses_round_trip(v4: u32, v6: u128)
    ensures
        is_assignment(virtual_addresses_frame(v4, v6)),
        virtual_addresses_frame(v4, v6).len() == VIRTUAL_ADDRESSES_LEN,
        be_u32(virtual_addresses_frame(v4, v6).subrange(1, 5)) == v4,
        be_u128(virtual_addresses_frame(v4, v6).subrange(5, 21)) == v6,
{
    lemma_be_u32_of_bytes(v4);
    lemma_be_u128_of_bytes(v6);
    let f = virtual_addresses_frame(v4, v6);
    assert(f.subrange(1, 5) =~= u32_be_bytes(v4));
    assert(f.subrange(5, 21) =~= u128_be_bytes(v6));
}

/// What a client sends for a packet reads, at the server, as the client's
/// session key followed by the packet.
pub proof fn lemma_outbound_frame(client_id: UdpId, packet: Seq<u8>)
    ensures
        outbound_frame(client_id, packet).len() == 4 + packet.len(),
        crate::udp_id::id_value(outbound_frame(client_id, packet).subrange(0, 4))
            == client_id.key32(),
        outbound_frame(client_id, packet).subrange(
            4,
            outbound_frame(client_id, packet).len() as int,
        ) =~= packet,
{
    client_id.lemma_lengths();
    assert(outbound_frame(client_id, packet).subrange(0, 4) =~= client_id.id());
}

} // verus!
