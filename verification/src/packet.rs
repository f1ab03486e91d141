//! Frames and inner IP packets: the version nibble, the header checks, the
//! source rewrite with its checksum, the destination, and the two frames
//! that the server sends.

use crate::vpn_client::IpAddress;
use vstd::prelude::*;

verus! {

/// Length of the frame that carries a client's virtual addresses.
pub const VIRTUAL_ADDRESSES_LEN: usize = 21;

/// The IP version that a packet claims: the high nibble of its first byte.
pub open spec fn ip_version(p: Seq<u8>) -> u8
    recommends
        p.len() > 0,
{
    p[0] >> 4
}

/// A 16-bit field in network order.
pub open spec fn be16(hi: u8, lo: u8) -> int {
    hi as int * 256 + lo as int
}

/// The header length that an IPv4 packet claims, in bytes.
pub open spec fn ipv4_header_len(p: Seq<u8>) -> int {
    ((p[0] & 0x0f) as int) * 4
}

/// The total length that an IPv4 packet claims, in bytes.
pub open spec fn ipv4_total_len(p: Seq<u8>) -> int {
    be16(p[2], p[3])
}

/// Whether `p` holds an IPv4 packet whose lengths agree: a header of at
/// least 20 bytes, within the total length, within the buffer.
pub open spec fn ipv4_well_formed(p: Seq<u8>) -> bool {
    &&& p.len() >= 20
    &&& 20 <= ipv4_header_len(p) <= ipv4_total_len(p) <= p.len()
}

/// Whether `p` holds an IPv6 packet whose lengths agree: the fixed header
/// and the payload that it claims are within the buffer.
pub open spec fn ipv6_well_formed(p: Seq<u8>) -> bool {
    &&& p.len() >= 40
    &&& 40 + be16(p[4], p[5]) <= p.len()
}

/// The four bytes of a 32-bit address, in network order.
pub open spec fn u32_be_bytes(a: u32) -> Seq<u8> {
    Seq::new(4, |i: int| ((a >> (((3 - i) * 8) as u32)) & 0xff) as u8)
}

/// The sixteen bytes of a 128-bit address, in network order.
pub open spec fn u128_be_bytes(a: u128) -> Seq<u8> {
    Seq::new(16, |i: int| ((a >> (((15 - i) * 8) as u128)) & 0xff) as u8)
}

/// The 32-bit integer that the first four bytes of `s` spell in network
/// order.
pub open spec fn be_u32(s: Seq<u8>) -> u32 {
    ((s[0] as u32) << 24) | ((s[1] as u32) << 16) | ((s[2] as u32) << 8) | (s[3] as u32)
}

/// The 128-bit integer that the first sixteen bytes of `s` spell in network
/// order.
pub open spec fn be_u128(s: Seq<u8>) -> u128 {
    ((be_u32(s.subrange(0, 4)) as u128) << 96) | ((be_u32(s.subrange(4, 8)) as u128) << 64) | ((
    be_u32(s.subrange(8, 12)) as u128) << 32) | (be_u32(s.subrange(12, 16)) as u128)
}

/// `p` with the bytes from `at` on replaced by `bytes`.
pub open spec fn overwrite(p: Seq<u8>, at: int, bytes: Seq<u8>) -> Seq<u8> {
    p.subrange(0, at) + bytes + p.subrange(at + bytes.len(), p.len() as int)
}

/// The header checksum that smoltcp computes for the IPv4 packet `p`, over
/// its header with the checksum field taken as zero.
pub uninterp spec fn ipv4_header_checksum(p: Seq<u8>) -> u16;

/// The IPv4 packet `p` with its header checksum filled in.
pub open spec fn ipv4_with_checksum(p: Seq<u8>) -> Seq<u8> {
    let c = ipv4_header_checksum(p);
    overwrite(p, 10, seq![(c >> 8) as u8, (c & 0xff) as u8])
}

/// The IPv4 packet `p` as it leaves the server towards the TUN device: the
/// source address is `src`, and the header checksum is filled in afresh.
pub open spec fn ipv4_rewritten(p: Seq<u8>, src: u32) -> Seq<u8> {
    ipv4_with_checksum(overwrite(p, 12, u32_be_bytes(src)))
}

/// The IPv6 packet `p` with `src` as its source address.
pub open spec fn ipv6_rewritten(p: Seq<u8>, src: u128) -> Seq<u8> {
    overwrite(p, 8, u128_be_bytes(src))
}

/// Whether the source of `p` can be rewritten: it is a well-formed packet
/// of version 4 or 6.
pub open spec fn rewritable(p: Seq<u8>) -> bool {
    p.len() > 0 && ((ip_version(p) == 4 && ipv4_well_formed(p)) || (ip_version(p) == 6
        && ipv6_well_formed(p)))
}

/// `p` with the source address of its family replaced.
pub open spec fn source_rewritten(p: Seq<u8>, v4: u32, v6: u128) -> Seq<u8> {
    if ip_version(p) == 4 {
        ipv4_rewritten(p, v4)
    } else {
        ipv6_rewritten(p, v6)
    }
}

/// The destination address of a well-formed packet of version 4 or 6.
pub open spec fn destination_of(p: Seq<u8>) -> Option<IpAddress> {
    if p.len() > 0 && ip_version(p) == 4 && ipv4_well_formed(p) {
        Some(IpAddress::V4(be_u32(p.subrange(16, 20))))
    } else if p.len() > 0 && ip_version(p) == 6 && ipv6_well_formed(p) {
        Some(IpAddress::V6(be_u128(p.subrange(24, 40))))
    } else {
        None
    }
}

/// The frame that tells a client its virtual addresses.
pub open spec fn virtual_addresses_frame(v4: u32, v6: u128) -> Seq<u8> {
    seq![crate::PACKET_TYPE_VIRTUAL_ADDRESSES] + u32_be_bytes(v4) + u128_be_bytes(v6)
}

/// The frame that carries an inner packet to a client.
pub open spec fn forward_frame(p: Seq<u8>) -> Seq<u8> {
    seq![crate::PACKET_TYPE_FORWARD] + p
}

/// smoltcp's `Ipv4Packet::new_checked`, as a test: it accepts a buffer of
/// at least 20 bytes whose claimed header length is at least 20 and at most
/// the claimed total length, which in turn is at most the buffer's length.
#[verifier::external_body]
fn ipv4_new_checked(packet: &[u8]) -> (ok: bool)
    ensures
        ok == ipv4_well_formed(packet@),
{
    smoltcp::wire::Ipv4Packet::new_checked(packet).is_ok()
}

/// smoltcp's `Ipv6Packet::new_checked`, as a test: it accepts a buffer that
/// holds the 40-byte header and the payload length claimed in bytes 4 and 5.
#[verifier::external_body]
fn ipv6_new_checked(packet: &[u8]) -> (ok: bool)
    ensures
        ok == ipv6_well_formed(packet@),
{
    smoltcp::wire::Ipv6Packet::new_checked(packet).is_ok()
}

/// smoltcp's `Ipv4Packet::dst_addr`: bytes 16 to 19, read in network order.
#[verifier::external_body]
fn ipv4_dst_addr(packet: &[u8]) -> (a: u32)
    requires
        ipv4_well_formed(packet@),
    ensures
        a == be_u32(packet@.subrange(16, 20)),
{
    u32::from(smoltcp::wire::Ipv4Packet::new_unchecked(packet).dst_addr())
}

/// smoltcp's `Ipv6Packet::dst_addr`: bytes 24 to 39, read in network order.
#[verifier::external_body]
fn ipv6_dst_addr(packet: &[u8]) -> (a: u128)
    requires
        ipv6_well_formed(packet@),
    ensures
        a == be_u128(packet@.subrange(24, 40)),
{
    u128::from(smoltcp::wire::Ipv6Packet::new_unchecked(packet).dst_addr())
}

/// smoltcp's `Ipv4Packet::set_src_addr`: bytes 12 to 15 become the address
/// in network order, and nothing else changes.
#[verifier::external_body]
fn ipv4_set_src_addr(packet: &mut Vec<u8>, addr: u32)
    requires
        ipv4_well_formed(old(packet)@),
    ensures
        final(packet)@ == overwrite(old(packet)@, 12, u32_be_bytes(addr)),
{
    smoltcp::wire::Ipv4Packet::new_unchecked(packet.as_mut_slice()).set_src_addr(
        smoltcp::wire::Ipv4Address::from(addr),
    )
}

/// smoltcp's `Ipv6Packet::set_src_addr`: bytes 8 to 23 become the address
/// in network order, and nothing else changes.
#[verifier::external_body]
fn ipv6_set_src_addr(packet: &mut Vec<u8>, addr: u128)
    requires
        ipv6_well_formed(old(packet)@),
    ensures
        final(packet)@ == overwrite(old(packet)@, 8, u128_be_bytes(addr)),
{
    smoltcp::wire::Ipv6Packet::new_unchecked(packet.as_mut_slice()).set_src_addr(
        smoltcp::wire::Ipv6Address::from(addr),
    )
}

/// smoltcp's `Ipv4Packet::fill_checksum`: bytes 10 and 11 become the header
/// checksum, high byte first, and nothing else changes. Which value that is
/// is smoltcp's to say; here it only has a name.
#[verifier::external_body]
fn ipv4_fill_checksum(packet: &mut Vec<u8>)
    requires
        ipv4_well_formed(old(packet)@),
    ensures
        final(packet)@ == overwrite(
            old(packet)@,
            10,
            seq![
                (ipv4_header_checksum(old(packet)@) >> 8) as u8,
                (ipv4_header_checksum(old(packet)@) & 0xff) as u8,
            ],
        ),
{
    smoltcp::wire::Ipv4Packet::new_unchecked(packet.as_mut_slice()).fill_checksum()
}

/// Overwriting keeps the length, puts the new bytes in place, and leaves
/// every other byte as it was.
pub proof fn lemma_overwrite(p: Seq<u8>, at: int, bytes: Seq<u8>)
    requires
        0 <= at,
        at + bytes.len() <= p.len(),
    ensures
        overwrite(p, at, bytes).len() == p.len(),
        overwrite(p, at, bytes).subrange(at, at + bytes.len()) =~= bytes,
        forall|i: int|
            0 <= i < p.len() && !(at <= i < at + bytes.len()) ==> overwrite(p, at, bytes)[i]
                == p[i],
{
}

/// Four bytes in network order spell the address they were made of.
pub proof fn lemma_be_u32_of_bytes(a: u32)
    ensures
        u32_be_bytes(a).len() == 4,
        be_u32(u32_be_bytes(a)) == a,
{
    assert(((((a >> 24) & 0xff) as u8) as u32) << 24 | ((((a >> 16) & 0xff) as u8) as u32) << 16
        | ((((a >> 8) & 0xff) as u8) as u32) << 8 | ((((a >> 0) & 0xff) as u8) as u32) == a)
        by (bit_vector);
}

/// Sixteen bytes in network order spell the address they were made of.
pub proof fn lemma_be_u128_of_bytes(a: u128)
    ensures
        u128_be_bytes(a).len() == 16,
        be_u128(u128_be_bytes(a)) == a,
{
    let s = u128_be_bytes(a);
    let w0 = be_u32(s.subrange(0, 4));
    let w1 = be_u32(s.subrange(4, 8));
    let w2 = be_u32(s.subrange(8, 12));
    let w3 = be_u32(s.subrange(12, 16));
    assert(w0 == ((((a >> 120) & 0xff) as u8) as u32) << 24 | ((((a >> 112) & 0xff) as u8) as u32)
        << 16 | ((((a >> 104) & 0xff) as u8) as u32) << 8 | ((((a >> 96) & 0xff) as u8) as u32));
    assert(w1 == ((((a >> 88) & 0xff) as u8) as u32) << 24 | ((((a >> 80) & 0xff) as u8) as u32)
        << 16 | ((((a >> 72) & 0xff) as u8) as u32) << 8 | ((((a >> 64) & 0xff) as u8) as u32));
    assert(w2 == ((((a >> 56) & 0xff) as u8) as u32) << 24 | ((((a >> 48) & 0xff) as u8) as u32)
        << 16 | ((((a >> 40) & 0xff) as u8) as u32) << 8 | ((((a >> 32) & 0xff) as u8) as u32));
    assert(w3 == ((((a >> 24) & 0xff) as u8) as u32) << 24 | ((((a >> 16) & 0xff) as u8) as u32)
        << 16 | ((((a >> 8) & 0xff) as u8) as u32) << 8 | ((((a >> 0) & 0xff) as u8) as u32));
    assert(((w0 as u128) << 96) | ((w1 as u128) << 64) | ((w2 as u128) << 32) | (w3 as u128) == a)
        by (bit_vector)
        requires
            w0 == ((((a >> 120) & 0xff) as u8) as u32) << 24 | ((((a >> 112) & 0xff) as u8) as u32)
                << 16 | ((((a >> 104) & 0xff) as u8) as u32) << 8 | ((((a >> 96) & 0xff) as u8) as u32),
            w1 == ((((a >> 88) & 0xff) as u8) as u32) << 24 | ((((a >> 80) & 0xff) as u8) as u32)
                << 16 | ((((a >> 72) & 0xff) as u8) as u32) << 8 | ((((a >> 64) & 0xff) as u8) as u32),
            w2 == ((((a >> 56) & 0xff) as u8) as u32) << 24 | ((((a >> 48) & 0xff) as u8) as u32)
                << 16 | ((((a >> 40) & 0xff) as u8) as u32) << 8 | ((((a >> 32) & 0xff) as u8) as u32),
            w3 == ((((a >> 24) & 0xff) as u8) as u32) << 24 | ((((a >> 16) & 0xff) as u8) as u32)
                << 16 | ((((a >> 8) & 0xff) as u8) as u32) << 8 | ((((a >> 0) & 0xff) as u8) as u32),
    ;
}

/// Source rewrite: whatever source an IPv4 packet came with, it leaves
/// with the given one; its header checksum is the one computed for the
/// packet as rewritten; every byte outside those two fields, the
/// destination among them, is as it came.
pub proof fn lemma_ipv4_rewritten(p: Seq<u8>, src: u32)
    requires
        ipv4_well_formed(p),
    ensures
        ipv4_rewritten(p, src).len() == p.len(),
        be_u32(ipv4_rewritten(p, src).subrange(12, 16)) == src,
        be16(ipv4_rewritten(p, src)[10], ipv4_rewritten(p, src)[11]) == ipv4_header_checksum(
            overwrite(p, 12, u32_be_bytes(src)),
        ),
        forall|i: int|
            0 <= i < p.len() && !(10 <= i < 16) ==> ipv4_rewritten(p, src)[i] == p[i],
        ipv4_well_formed(ipv4_rewritten(p, src)),
        ip_version(ipv4_rewritten(p, src)) == ip_version(p),
        ipv4_rewritten(p, src).subrange(16, 20) =~= p.subrange(16, 20),
        forall|x: Seq<u8>| x.len() == 4 ==> #[trigger] ipv4_rewritten(overwrite(p, 12, x), src)
            == ipv4_rewritten(p, src),
{
    lemma_be_u32_of_bytes(src);
    let q = overwrite(p, 12, u32_be_bytes(src));
    let c = ipv4_header_checksum(q);
    let r = ipv4_rewritten(p, src);
    assert(r.subrange(12, 16) =~= u32_be_bytes(src));
    assert(((c >> 8) as u8) as int * 256 + ((c & 0xff) as u8) as int == c) by (bit_vector);
    assert forall|x: Seq<u8>| x.len() == 4 implies #[trigger] ipv4_rewritten(
        overwrite(p, 12, x),
        src,
    ) == ipv4_rewritten(p, src) by {
        assert(overwrite(overwrite(p, 12, x), 12, u32_be_bytes(src)) =~= q);
    }
}

/// Source rewrite: an IPv6 packet leaves with the given source, and every
/// byte outside that field is as it came.
pub proof fn lemma_ipv6_rewritten(p: Seq<u8>, src: u128)
    requires
        ipv6_well_formed(p),
    ensures
        ipv6_rewritten(p, src).len() == p.len(),
        be_u128(ipv6_rewritten(p, src).subrange(8, 24)) == src,
        forall|i: int| 0 <= i < p.len() && !(8 <= i < 24) ==> ipv6_rewritten(p, src)[i] == p[i],
        ipv6_well_formed(ipv6_rewritten(p, src)),
{
    lemma_be_u128_of_bytes(src);
    assert(ipv6_rewritten(p, src).subrange(8, 24) =~= u128_be_bytes(src));
}

/// The bytes of `data` from `start` on, as a buffer of their own.
pub fn tail_of(data: &[u8], start: usize) -> (v: Vec<u8>)
    requires
        start <= data@.len(),
    ensures
        v@ == data@.subrange(start as int, data@.len() as int),
{
    let mut v: Vec<u8> = Vec::new();
    let mut i: usize = start;
    while i < data.len()
        invariant
            start <= i <= data@.len(),
            v@ == data@.subrange(start as int, i as int),
        decreases data@.len() - i,
    {
        v.push(data[i]);
        i = i + 1;
        assert(v@ =~= data@.subrange(start as int, i as int));
    }
    assert(v@ =~= data@.subrange(start as int, data@.len() as int));
    v
}

/// Builds the frame that tells a client its virtual addresses.
pub fn encode_virtual_addresses(v4: u32, v6: u128) -> (frame: Vec<u8>)
    ensures
        frame@ == virtual_addresses_frame(v4, v6),
{
    let mut frame: Vec<u8> = Vec::new();
    frame.push(crate::PACKET_TYPE_VIRTUAL_ADDRESSES);
    let mut i: u32 = 0;
    while i < 4
        invariant
            i <= 4,
            frame@ == seq![crate::PACKET_TYPE_VIRTUAL_ADDRESSES] + u32_be_bytes(v4).subrange(
                0,
                i as int,
            ),
        decreases 4 - i,
    {
        frame.push(((v4 >> ((3 - i) * 8)) & 0xff) as u8);
        i = i + 1;
        assert(frame@ =~= seq![crate::PACKET_TYPE_VIRTUAL_ADDRESSES] + u32_be_bytes(v4).subrange(
            0,
            i as int,
        ));
    }
    assert(u32_be_bytes(v4).subrange(0, 4) =~= u32_be_bytes(v4));
    let mut j: u128 = 0;
    while j < 16
        invariant
            j <= 16,
            frame@ == seq![crate::PACKET_TYPE_VIRTUAL_ADDRESSES] + u32_be_bytes(v4)
                + u128_be_bytes(v6).subrange(0, j as int),
        decreases 16 - j,
    {
        frame.push(((v6 >> ((15 - j) * 8)) & 0xff) as u8);
        j = j + 1;
        assert(frame@ =~= seq![crate::PACKET_TYPE_VIRTUAL_ADDRESSES] + u32_be_bytes(v4)
            + u128_be_bytes(v6).subrange(0, j as int));
    }
    assert(u128_be_bytes(v6).subrange(0, 16) =~= u128_be_bytes(v6));
    frame
}

/// Builds the frame that carries an inner packet to a client.
pub fn encode_forward(packet: &[u8]) -> (frame: Vec<u8>)
    ensures
        frame@ == forward_frame(packet@),
{
    let mut frame: Vec<u8> = Vec::new();
    frame.push(crate::PACKET_TYPE_FORWARD);
    let mut i: usize = 0;
    while i < packet.len()
        invariant
            i <= packet@.len(),
            frame@ == seq![crate::PACKET_TYPE_FORWARD] + packet@.subrange(0, i as int),
        decreases packet@.len() - i,
    {
        frame.push(packet[i]);
        i = i + 1;
        assert(frame@ =~= seq![crate::PACKET_TYPE_FORWARD] + packet@.subrange(0, i as int));
    }
    assert(packet@.subrange(0, packet@.len() as int) =~= packet@);
    frame
}

/// Replaces the source address of the inner packet by the virtual address
/// of its family, and refreshes the IPv4 header checksum. A packet that is
/// not a well-formed one of version 4 or 6 is left as it is.
pub fn rewrite_source(packet: &mut Vec<u8>, v4: u32, v6: u128) -> (ok: bool)
    ensures
        ok == rewritable(old(packet)@),
        ok ==> final(packet)@ == source_rewritten(old(packet)@, v4, v6),
        !ok ==> final(packet)@ == old(packet)@,
{
    if packet.len() == 0 {
        return false;
    }
    let version: u8 = packet[0] >> 4;
    if version == 4 {
        if !ipv4_new_checked(packet.as_slice()) {
            return false;
        }
        ipv4_set_src_addr(packet, v4);
        proof {
            lemma_overwrite(old(packet)@, 12, u32_be_bytes(v4));
        }
        ipv4_fill_checksum(packet);
        true
    } else if version == 6 {
        if !ipv6_new_checked(packet.as_slice()) {
            return false;
        }
        ipv6_set_src_addr(packet, v6);
        true
    } else {
        false
    }
}

/// The destination address of an inner packet, where it is a well-formed
/// packet of version 4 or 6.
pub fn destination(packet: &[u8]) -> (r: Option<IpAddress>)
    ensures
        r == destination_of(packet@),
{
    if packet.len() == 0 {
        return None;
    }
    let version: u8 = packet[0] >> 4;
    if version == 4 {
        if ipv4_new_checked(packet) {
            Some(IpAddress::V4(ipv4_dst_addr(packet)))
        } else {
            None
        }
    } else if version == 6 {
        if ipv6_new_checked(packet) {
            Some(IpAddress::V6(ipv6_dst_addr(packet)))
        } else {
            None
        }
    } else {
        None
    }
}

} // verus!
