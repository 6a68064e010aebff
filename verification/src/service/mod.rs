//! Packet processing services for different network layers.
//!
//! The `service` module deals with packet transmission and reception logic at
//! different layers of the network stack. Its functions decide; the frames
//! they decide to send are appended to an outgoing queue that the caller
//! hands to the device, and the packets for sockets go to a `SocketSet`
//! of the `socket` module.
use vstd::prelude::*;

use crate::arp_cache::{
    ArpCache,
    CacheState,
};
use crate::bytes::be16_bytes;
use crate::repr::ethernet::{
    spec_address,
    spec_broadcast_bytes,
};
use crate::repr::{
    EthernetAddress,
    Ipv4Address,
    Ipv4AddressCidr,
};
use crate::time::Env;
use crate::Result;

pub mod arp;
pub mod ethernet;
pub mod icmpv4;
pub mod ipv4;
pub mod socket;
pub mod tcp;
pub mod udp;

verus! {

/// An interface for sending and receiving network packets.
pub struct Interface<T: Env> {
    /// Cache for IPv4/Ethernet address translations.
    pub arp_cache: ArpCache<T>,
    /// Ethernet address for the interface.
    pub ethernet_addr: EthernetAddress,
    /// IPv4 address for the interface.
    pub ipv4_addr: Ipv4AddressCidr,
    /// Default gateway for IPv4 packets not on the interface subnet. This
    /// should be on the same subnet as ipv4_addr!
    pub default_gateway: Ipv4Address,
}

/// What an interface holds: its ARP cache and its addresses.
pub struct InterfaceState {
    pub cache: CacheState,
    pub ethernet_addr: EthernetAddress,
    pub ipv4_addr: (Ipv4Address, u32),
    pub default_gateway: Ipv4Address,
}

impl<T: Env> View for Interface<T> {
    type V = InterfaceState;

    open spec fn view(&self) -> InterfaceState {
        InterfaceState {
            cache: self.arp_cache@,
            ethernet_addr: self.ethernet_addr,
            ipv4_addr: self.ipv4_addr@,
            default_gateway: self.default_gateway,
        }
    }
}

impl<T: Env> Interface<T> {
    /// The interface can process packets: its ARP cache is well formed and
    /// its subnet prefix is shorter than 32 bits.
    pub open spec fn wf(&self) -> bool {
        &&& self.arp_cache.wf()
        &&& self.ipv4_addr@.1 < 32
    }
}

/// What a service function leaves: the state of the interface, its result and
/// the frames it sent, in order.
pub struct Outcome<R> {
    pub state: InterfaceState,
    pub result: Result<R>,
    pub sent: Seq<Seq<u8>>,
}

/// The interface state with another ARP cache.
pub open spec fn with_cache(s: InterfaceState, cache: CacheState) -> InterfaceState {
    InterfaceState { cache, ..s }
}

/// The Ethernet frame with the given header fields and payload.
pub open spec fn spec_frame(
    dst: EthernetAddress,
    src: EthernetAddress,
    payload_type: u16,
    payload: Seq<u8>,
) -> Seq<u8> {
    dst@ + src@ + be16_bytes(payload_type) + payload
}

/// `n` zero bytes.
pub open spec fn spec_zeros(n: nat) -> Seq<u8> {
    Seq::new(n, |i: int| 0u8)
}

/// An outcome keeps the interface's addresses, and every frame it sends has
/// the interface's Ethernet address as its source.
pub open spec fn spec_from_interface<R>(s: InterfaceState, o: Outcome<R>) -> bool {
    &&& o.state.ethernet_addr == s.ethernet_addr
    &&& o.state.ipv4_addr == s.ipv4_addr
    &&& o.state.default_gateway == s.default_gateway
    &&& forall|i: int|
        0 <= i < o.sent.len() ==> #[trigger] o.sent[i].len() >= 14 && o.sent[i].subrange(6, 12)
            == s.ethernet_addr@
}

/// A frame has its source address at bytes 6 to 12.
pub proof fn lemma_frame_source(
    dst: EthernetAddress,
    src: EthernetAddress,
    payload_type: u16,
    payload: Seq<u8>,
)
    ensures
        spec_frame(dst, src, payload_type, payload).len() >= 14,
        spec_frame(dst, src, payload_type, payload).subrange(6, 12) == src@,
{
    crate::repr::ethernet::lemma_address_view(dst);
    crate::repr::ethernet::lemma_address_view(src);
    assert(spec_frame(dst, src, payload_type, payload).subrange(6, 12) =~= src@);
}

/// A frame is laid out as IEEE 802.3 lays it out: the destination address
/// in bytes 0 to 6, the source address in bytes 6 to 12, the EtherType in
/// bytes 12 and 13 (most significant byte first), then the payload.
pub proof fn lemma_frame_layout(
    dst: EthernetAddress,
    src: EthernetAddress,
    payload_type: u16,
    payload: Seq<u8>,
)
    ensures
        ({
            let f = spec_frame(dst, src, payload_type, payload);
            &&& f.len() == 14 + payload.len()
            &&& f.take(6) == dst@
            &&& f.subrange(6, 12) == src@
            &&& f[12] as int * 256 + f[13] as int == payload_type
            &&& f.skip(14) == payload
        }),
{
    let f = spec_frame(dst, src, payload_type, payload);
    crate::repr::ethernet::lemma_address_view(dst);
    crate::repr::ethernet::lemma_address_view(src);
    assert(f.take(6) =~= dst@);
    assert(f.subrange(6, 12) =~= src@);
    assert(f.skip(14) =~= payload);
    assert(f[12] as int * 256 + f[13] as int == payload_type) by (nonlinear_arith)
        requires
            f[12] == (payload_type / 256) as u8,
            f[13] == (payload_type % 256) as u8,
    ;
}

/// The broadcast Ethernet address.
pub open spec fn spec_broadcast_address() -> EthernetAddress {
    spec_address(spec_broadcast_bytes())
}

/// A length that fits 16 bits, as a 16 bit number.
pub(crate) fn to_u16(n: usize) -> (r: u16)
    requires
        n <= u16::MAX,
    ensures
        r == n,
{
    n as u16
}

/// Appends a frame to the outgoing queue.
fn send(tx: &mut Vec<Vec<u8>>, frame: Vec<u8>)
    ensures
        final(tx).deep_view() == old(tx).deep_view().push(frame@),
{
    let ghost f = frame@;
    tx.push(frame);
    assert(tx.deep_view() =~= old(tx).deep_view().push(f)) by {
        assert(tx@[tx@.len() - 1].deep_view() =~= f);
    }
}

} // verus!
