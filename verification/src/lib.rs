//! Core of a small layer-3 VPN that tunnels IP packets in UDP datagrams:
//! client identifiers, virtual address pools, the server's session table,
//! the frame codec, and the decisions each peer takes on an inbound event.

use vstd::prelude::*;

pub mod client;
pub mod config;
pub mod decimal;
pub mod ipv4_pool;
pub mod ipv6_pool;
pub mod packet;
pub mod route_setup;
pub mod udp_id;
pub mod vpn_client;
pub mod vpn_service;
pub mod vpn_state;

verus! {

/// Largest inner IP packet carried by the tunnel, in bytes.
pub const MTU: u16 = 1400;

/// Frame type of a datagram that carries an inner IP packet to a client.
pub const PACKET_TYPE_FORWARD: u8 = 1;

/// Frame type of the datagram that tells a client its virtual addresses.
pub const PACKET_TYPE_VIRTUAL_ADDRESSES: u8 = 2;

/// A failure that ends a forwarding loop.
#[derive(Clone, Copy, Debug, PartialEq, Eq, Structural)]
pub enum FatalError {
    /// A read returned no bytes.
    Eof,
}

} // verus!
