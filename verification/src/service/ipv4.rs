//! Routing, sending and receiving IPv4 packets.
use vstd::prelude::*;

use crate::arp_cache::{
    lemma_set_then_lookup,
    spec_set,
};
use crate::bytes::set_bytes;
use crate::repr::ethernet::spec_broadcast_bytes;
use crate::repr::ipv4::{
    spec_check_encoding,
    spec_deserialize,
    spec_header,
    spec_header_template,
    spec_is_member,
    spec_payload,
};
use crate::repr::{
    eth_types,
    ipv4_protocols,
    EthernetFrame,
    Ipv4Address,
    Ipv4Packet,
    Ipv4Repr,
};
use crate::service::{
    icmpv4,
    spec_frame,
    spec_from_interface,
    tcp,
    udp,
    with_cache,
};
use crate::socket::{
    spec_deliver_raw,
    RawType,
    SocketSet,
    SocketsView,
};
use crate::service::arp::{
    eth_addr_for_ip,
    spec_eth_addr_for_ip,
};
use crate::service::arp::lemma_eth_addr_for_ip_from_interface;
use crate::service::ethernet::{
    lemma_send_frame_from_interface,
    send_frame,
    spec_send_frame,
};
use crate::service::{
    Interface,
    InterfaceState,
    Outcome,
};
use crate::time::{
    Env,
    Instant,
};
use crate::{
    Error,
    Result,
};

verus! {

/// The next hop of a packet for `address`: the address itself on the
/// interface's subnet, the default gateway elsewhere.
pub open spec fn spec_route(s: InterfaceState, address: Ipv4Address) -> Ipv4Address {
    if spec_is_member(s.ipv4_addr, address) {
        address
    } else {
        s.default_gateway
    }
}

/// Sending an IPv4 packet at `now`: the Ethernet address of the next hop is
/// looked up (and requested when unknown), then the packet goes out in a
/// frame to it.
pub open spec fn spec_send_packet_raw(
    s: InterfaceState,
    dst_addr: Ipv4Address,
    ipv4_packet: Seq<u8>,
    now: Instant,
) -> Outcome<()> {
    let o = spec_eth_addr_for_ip(s, spec_route(s, dst_addr), now);
    match o.result {
        Ok(eth_dst_addr) => {
            let f = spec_send_frame(o.state, eth_dst_addr, eth_types::IPV4, ipv4_packet);
            Outcome { state: o.state, result: f.result, sent: o.sent + f.sent }
        },
        Err(e) => Outcome { state: o.state, result: Err(e), sent: o.sent },
    }
}

/// Sending an IPv4 packet with the header of `ipv4_repr` and `payload` at
/// `now`.
pub open spec fn spec_send_packet_with_repr(
    s: InterfaceState,
    ipv4_repr: Ipv4Repr,
    payload: Seq<u8>,
    now: Instant,
) -> Outcome<()> {
    spec_send_packet_raw(s, ipv4_repr.dst_addr, spec_header(ipv4_repr) + payload, now)
}

/// Whether the Ethernet address with bytes `a` is a unicast address.
pub open spec fn spec_is_unicast(a: Seq<u8>) -> bool {
    !(a[0] % 2 == 1 || a == spec_broadcast_bytes())
}

/// Receiving the IPv4 packet in the Ethernet frame `eth_frame`: a valid
/// packet for the interface teaches the ARP cache (at `t1`) the sender's
/// mapping when it came from a unicast address, and goes up to the protocol
/// it carries, where an answer may be sent (at `t2`) and where `accepted`
/// tells whether a UDP socket took it.
pub open spec fn spec_recv_packet(
    s: InterfaceState,
    eth_frame: Seq<u8>,
    t1: Instant,
    t2: Instant,
    accepted: bool,
) -> Outcome<()> {
    let p = eth_frame.skip(14);
    if p.len() < 20 {
        Outcome { state: s, result: Err(Error::Exhausted), sent: seq![] }
    } else {
        match spec_check_encoding(p) {
            Err(e) => Outcome { state: s, result: Err(e), sent: seq![] },
            Ok(_) => if p.subrange(16, 20) != s.ipv4_addr.0@ {
                Outcome { state: s, result: Err(Error::Ignored), sent: seq![] }
            } else {
                let src = eth_frame.subrange(6, 12);
                let s1 = if spec_is_unicast(src) {
                    with_cache(
                        s,
                        spec_set(
                            s.cache,
                            crate::repr::ipv4::spec_address(p.subrange(12, 16)),
                            crate::repr::ethernet::spec_address(src),
                            t1,
                        ),
                    )
                } else {
                    s
                };
                match spec_deserialize(p) {
                    Err(e) => Outcome { state: s1, result: Err(e), sent: seq![] },
                    Ok(r) => if p[9] == ipv4_protocols::TCP {
                        tcp::spec_recv_packet(s1, r, p)
                    } else if p[9] == ipv4_protocols::UDP {
                        udp::spec_recv_packet(s1, r, p, accepted, t2)
                    } else if p[9] == ipv4_protocols::ICMP {
                        icmpv4::spec_recv_packet(s1, r, spec_payload(p), t2)
                    } else {
                        Outcome { state: s1, result: Err(Error::Ignored), sent: seq![] }
                    },
                }
            },
        }
    }
}

/// The sockets after receiving the IPv4 packet in the Ethernet frame
/// `eth_frame`: a valid packet for the interface goes to the raw IPv4
/// sockets, then, when its header reads, to the TCP or UDP sockets its
/// protocol names; any other packet goes to no socket.
pub open spec fn spec_recv_sockets(
    sockets: SocketsView,
    s: InterfaceState,
    eth_frame: Seq<u8>,
) -> SocketsView {
    let p = eth_frame.skip(14);
    if p.len() >= 20 && spec_check_encoding(p) is Ok && p.subrange(16, 20) == s.ipv4_addr.0@ {
        let raw = SocketsView { raw: spec_deliver_raw(sockets.raw, RawType::Ipv4, p), ..sockets };
        match spec_deserialize(p) {
            Err(_) => raw,
            Ok(r) => if p[9] == ipv4_protocols::TCP {
                tcp::spec_recv_sockets(raw, r, p)
            } else if p[9] == ipv4_protocols::UDP {
                udp::spec_recv_sockets(raw, r, p)
            } else {
                raw
            },
        }
    } else {
        sockets
    }
}

/// Whether a UDP socket of `sockets` is bound to where the UDP packet in the
/// IPv4 packet in `eth_frame` goes.
pub open spec fn spec_accepted(sockets: SocketsView, eth_frame: Seq<u8>) -> bool {
    let p = eth_frame.skip(14);
    udp::spec_accepted(sockets, spec_deserialize(p)->Ok_0, p)
}

/// Send a raw IPv4 packet via the interface.
///
/// The appropriate Ethernet destination address will be inferred by the
/// network stack, but the callers is responsible for writing an entire well
/// formatted IPv4 packets to the provided buffer, NOT just the payload!
pub fn send_packet_raw<T: Env>(
    interface: &mut Interface<T>,
    dst_addr: Ipv4Address,
    ipv4_packet: &[u8],
    tx: &mut Vec<Vec<u8>>,
) -> (r: Result<()>)
    requires
        old(interface).wf(),
    ensures
        final(interface).wf(),
        final(interface).arp_cache.env() == old(interface).arp_cache.env(),
        exists|now: Instant|
            {
                let o = #[trigger] spec_send_packet_raw(old(interface)@, dst_addr, ipv4_packet@, now);
                &&& final(interface)@ == o.state
                &&& r == o.result
                &&& final(tx).deep_view() == old(tx).deep_view() + o.sent
            },
{
    let next_hop = ipv4_addr_route(interface, dst_addr);
    let ghost tx0 = tx.deep_view();
    let eth_dst_addr = match eth_addr_for_ip(interface, next_hop, tx) {
        Ok(eth_dst_addr) => eth_dst_addr,
        Err(e) => {
            let ghost now = choose|now: Instant|
                {
                    let o = #[trigger] spec_eth_addr_for_ip(old(interface)@, next_hop, now);
                    &&& interface@ == o.state
                    &&& Err::<crate::repr::EthernetAddress, Error>(e) == o.result
                    &&& tx.deep_view() == tx0 + o.sent
                };
            assert(spec_send_packet_raw(old(interface)@, dst_addr, ipv4_packet@, now).state
                == interface@);
            return Err(e);
        },
    };
    let ghost now = choose|now: Instant|
        {
            let o = #[trigger] spec_eth_addr_for_ip(old(interface)@, next_hop, now);
            &&& interface@ == o.state
            &&& Ok::<crate::repr::EthernetAddress, Error>(eth_dst_addr) == o.result
            &&& tx.deep_view() == tx0 + o.sent
        };
    let ghost tx1 = tx.deep_view();
    let r = send_frame(interface, eth_dst_addr, eth_types::IPV4, ipv4_packet, tx);
    proof {
        let o = spec_eth_addr_for_ip(old(interface)@, next_hop, now);
        let f = spec_send_frame(o.state, eth_dst_addr, eth_types::IPV4, ipv4_packet@);
        assert(tx.deep_view() =~= tx0 + (o.sent + f.sent));
        assert(spec_send_packet_raw(old(interface)@, dst_addr, ipv4_packet@, now).state
            == interface@);
    }
    r
}

/// Sends an IPv4 packet via ther interface.
///
/// This is a "safe" version of send_packet_raw(...) which takes care of
/// serializing a header, calculating a checksum, etc. so the caller provides
/// **only** the payload.
pub fn send_packet_with_repr<T: Env>(
    interface: &mut Interface<T>,
    ipv4_repr: &Ipv4Repr,
    payload: &[u8],
    tx: &mut Vec<Vec<u8>>,
) -> (r: Result<()>)
    requires
        old(interface).wf(),
        ipv4_repr.payload_len <= 65515,
        payload@.len() == ipv4_repr.payload_len,
    ensures
        final(interface).wf(),
        final(interface).arp_cache.env() == old(interface).arp_cache.env(),
        exists|now: Instant|
            {
                let o = #[trigger] spec_send_packet_with_repr(
                    old(interface)@,
                    *ipv4_repr,
                    payload@,
                    now,
                );
                &&& final(interface)@ == o.state
                &&& r == o.result
                &&& final(tx).deep_view() == old(tx).deep_view() + o.sent
            },
{
    let (dst_addr, ipv4_packet_len) = (ipv4_repr.dst_addr, ipv4_repr.buffer_len());
    let ipv4_buffer: Vec<u8> = vec![0; ipv4_packet_len];
    let mut ipv4_packet = match Ipv4Packet::try_new(ipv4_buffer) {
        Ok(ipv4_packet) => ipv4_packet,
        Err(e) => return Err(e),
    };
    ipv4_repr.serialize(&mut ipv4_packet);
    let mut ipv4_buffer = ipv4_packet.into_inner();
    set_bytes(ipv4_buffer.as_mut_slice(), 20, payload);
    proof {
        crate::repr::ipv4::lemma_address_view(ipv4_repr.src_addr);
        crate::repr::ipv4::lemma_address_view(ipv4_repr.dst_addr);
        assert(spec_header_template(*ipv4_repr).len() == 20);
        assert(ipv4_buffer@ =~= spec_header(*ipv4_repr) + payload@);
    }
    let r = send_packet_raw(interface, dst_addr, ipv4_buffer.as_slice(), tx);
    let ghost now = choose|now: Instant|
        {
            let o = #[trigger] spec_send_packet_raw(old(interface)@, dst_addr, ipv4_buffer@, now);
            &&& interface@ == o.state
            &&& r == o.result
            &&& tx.deep_view() == old(tx).deep_view() + o.sent
        };
    assert(spec_send_packet_with_repr(old(interface)@, *ipv4_repr, payload@, now)
        == spec_send_packet_raw(old(interface)@, dst_addr, ipv4_buffer@, now));
    r
}

/// Receives an IPv4 packet from an interface.
///
/// The IPv4 packet is parsed, forwarded to any sockets, and propagated up the
/// network stack.
pub fn recv_packet<T: Env>(
    interface: &mut Interface<T>,
    eth_frame: &EthernetFrame,
    socket_set: &mut SocketSet,
    tx: &mut Vec<Vec<u8>>,
) -> (r: Result<()>)
    requires
        old(interface).wf(),
        eth_frame@.len() >= 14,
    ensures
        final(interface).wf(),
        final(interface).arp_cache.env() == old(interface).arp_cache.env(),
        final(socket_set)@ == spec_recv_sockets(old(socket_set)@, old(interface)@, eth_frame@),
        exists|t1: Instant, t2: Instant|
            {
                let o = #[trigger] spec_recv_packet(
                    old(interface)@,
                    eth_frame@,
                    t1,
                    t2,
                    spec_accepted(old(socket_set)@, eth_frame@),
                );
                &&& final(interface)@ == o.state
                &&& r == o.result
                &&& final(tx).deep_view() == old(tx).deep_view() + o.sent
            },
{
    assert(old(tx).deep_view() + seq![] =~= old(tx).deep_view());
    let payload = eth_frame.payload();
    assert(payload@ =~= eth_frame@.skip(14));
    let ipv4_packet = match Ipv4Packet::try_new(vstd::slice::slice_to_vec(payload)) {
        Ok(ipv4_packet) => ipv4_packet,
        Err(e) => {
            assert(spec_recv_packet(old(interface)@, eth_frame@, 0, 0, spec_accepted(old(socket_set)@, eth_frame@)).result == Err::<
                (),
                Error,
            >(e));
            return Err(e);
        },
    };
    match ipv4_packet.check_encoding() {
        Ok(_) => {},
        Err(e) => {
            assert(spec_recv_packet(old(interface)@, eth_frame@, 0, 0, spec_accepted(old(socket_set)@, eth_frame@)).result == Err::<
                (),
                Error,
            >(e));
            return Err(e);
        },
    }
    if ipv4_packet.dst_addr() != *interface.ipv4_addr.deref() {
        assert(spec_recv_packet(old(interface)@, eth_frame@, 0, 0, spec_accepted(old(socket_set)@, eth_frame@)).result == Err::<
            (),
            Error,
        >(Error::Ignored));
        return Err(Error::Ignored);
    }
    // Update ARP cache! This is important for generating IMMEDIATE (not socket
    // buffered) ICMP echo replies, errors, etc.
    let eth_src_addr = eth_frame.src_addr();
    let ghost mut t1: Instant = 0;
    if eth_src_addr.is_unicast() {
        interface.arp_cache.set_eth_addr_for_ip(ipv4_packet.src_addr(), eth_src_addr);
        proof {
            t1 = choose|now: Instant| #[trigger]
                spec_set(
                    old(interface)@.cache,
                    crate::repr::ipv4::spec_address(ipv4_packet@.subrange(12, 16)),
                    crate::repr::ethernet::spec_address(eth_frame@.subrange(6, 12)),
                    now,
                ) == interface.arp_cache@;
        }
    }
    let ghost s1 = interface@;

    socket_set.deliver_raw(RawType::Ipv4, ipv4_packet.as_ref());
    let ghost sk1 = socket_set@;

    let ipv4_repr = match Ipv4Repr::deserialize(&ipv4_packet) {
        Ok(ipv4_repr) => ipv4_repr,
        Err(e) => {
            assert(spec_recv_packet(old(interface)@, eth_frame@, t1, 0, spec_accepted(old(socket_set)@, eth_frame@)).state == s1);
            return Err(e);
        },
    };

    let protocol = ipv4_packet.protocol();
    if protocol == ipv4_protocols::TCP {
        let r = tcp::recv_packet(interface, &ipv4_repr, &ipv4_packet, socket_set);
        assert(spec_recv_packet(old(interface)@, eth_frame@, t1, 0, spec_accepted(old(socket_set)@, eth_frame@)).state == s1);
        r
    } else if protocol == ipv4_protocols::UDP {
        let r = udp::recv_packet(interface, &ipv4_repr, &ipv4_packet, socket_set, tx);
        let ghost accepted = udp::spec_accepted(sk1, ipv4_repr, ipv4_packet@);
        let ghost t2 = choose|now: Instant|
            {
                let o = #[trigger] udp::spec_recv_packet(
                    s1,
                    ipv4_repr,
                    ipv4_packet@,
                    accepted,
                    now,
                );
                &&& interface@ == o.state
                &&& r == o.result
                &&& tx.deep_view() == old(tx).deep_view() + o.sent
            };
        assert(spec_recv_packet(old(interface)@, eth_frame@, t1, t2, spec_accepted(old(socket_set)@, eth_frame@))
            == udp::spec_recv_packet(s1, ipv4_repr, ipv4_packet@, accepted, t2));
        r
    } else if protocol == ipv4_protocols::ICMP {
        let icmp_buffer = ipv4_packet.payload();
        let r = icmpv4::recv_packet(interface, &ipv4_repr, icmp_buffer, tx);
        let ghost t2 = choose|now: Instant|
            {
                let o = #[trigger] icmpv4::spec_recv_packet(s1, ipv4_repr, icmp_buffer@, now);
                &&& interface@ == o.state
                &&& r == o.result
                &&& tx.deep_view() == old(tx).deep_view() + o.sent
            };
        assert(spec_recv_packet(old(interface)@, eth_frame@, t1, t2, spec_accepted(old(socket_set)@, eth_frame@))
            == icmpv4::spec_recv_packet(s1, ipv4_repr, icmp_buffer@, t2));
        r
    } else {
        assert(spec_recv_packet(old(interface)@, eth_frame@, t1, 0, spec_accepted(old(socket_set)@, eth_frame@)).state == s1);
        Err(Error::Ignored)
    }
}

/// Returns the next hop for a packet destined to a specified address.
pub fn ipv4_addr_route<T: Env>(interface: &Interface<T>, address: Ipv4Address) -> (hop: Ipv4Address)
    requires
        interface.wf(),
    ensures
        hop == spec_route(interface@, address),
{
    if interface.ipv4_addr.is_member(address) {
        address
    } else {
        interface.default_gateway
    }
}

/// With a default gateway on the interface's subnet, as it should be, every
/// next hop is on the subnet: an address on it is reached directly, any
/// other through the gateway.
pub proof fn lemma_route_on_subnet(s: InterfaceState, address: Ipv4Address)
    requires
        spec_is_member(s.ipv4_addr, s.default_gateway),
    ensures
        spec_is_member(s.ipv4_addr, spec_route(s, address)),
        spec_is_member(s.ipv4_addr, address) ==> spec_route(s, address) == address,
        !spec_is_member(s.ipv4_addr, address) ==> spec_route(s, address) == s.default_gateway,
{
}

/// An IPv4 packet goes to its next hop: the destination itself when it is
/// on the interface's subnet, the default gateway otherwise. When the cache
/// knows the next hop's Ethernet address at `now`, exactly one frame goes
/// out, to that address from the interface's, of EtherType 0x0800, carrying
/// the header of `ipv4_repr` followed by the payload; otherwise the send
/// fails with `MacResolution` for the next hop and the frame that goes out
/// is the ARP request for it.
pub proof fn lemma_packet_goes_to_next_hop(
    s: InterfaceState,
    ipv4_repr: Ipv4Repr,
    payload: Seq<u8>,
    now: Instant,
)
    requires
        20 + payload.len() <= crate::service::ethernet::MAX_PAYLOAD_LEN,
    ensures
        ({
            let hop = if spec_is_member(s.ipv4_addr, ipv4_repr.dst_addr) {
                ipv4_repr.dst_addr
            } else {
                s.default_gateway
            };
            let known = crate::arp_cache::spec_lookup(
                crate::arp_cache::spec_expire(s.cache, now),
                hop,
            );
            let o = spec_send_packet_with_repr(s, ipv4_repr, payload, now);
            &&& known matches Some(e) ==> o.result == Ok::<(), Error>(()) && o.sent == seq![
                e@ + s.ethernet_addr@ + seq![8u8, 0u8] + spec_header(ipv4_repr) + payload,
            ]
            &&& known is None ==> o.result == Err::<(), Error>(Error::MacResolution(hop))
                && o.sent == spec_eth_addr_for_ip(s, hop, now).sent
        }),
{
    let hop = spec_route(s, ipv4_repr.dst_addr);
    let o = spec_eth_addr_for_ip(s, hop, now);
    crate::service::arp::lemma_unknown_address_requested(s, hop, now);
    if o.result is Ok {
        let e = o.result->Ok_0;
        let p = spec_header(ipv4_repr) + payload;
        assert(spec_header_template(ipv4_repr).len() == 20) by {
            crate::repr::ipv4::lemma_address_view(ipv4_repr.src_addr);
            crate::repr::ipv4::lemma_address_view(ipv4_repr.dst_addr);
        }
        assert(crate::bytes::be16_bytes(eth_types::IPV4) =~= seq![8u8, 0u8]);
        assert(spec_frame(e, s.ethernet_addr, eth_types::IPV4, p) =~= e@ + s.ethernet_addr@ + seq![
            8u8,
            0u8,
        ] + spec_header(ipv4_repr) + payload);
        assert(seq![spec_frame(e, s.ethernet_addr, eth_types::IPV4, p)] =~= Seq::<Seq<u8>>::empty()
            + seq![spec_frame(e, s.ethernet_addr, eth_types::IPV4, p)]);
    } else {
        assert(o.sent + Seq::<Seq<u8>>::empty() =~= o.sent);
    }
}

/// A ping is answered. When the interface receives a valid echo request for
/// it from a unicast sender on its subnet, it learns the sender's Ethernet
/// address (at `t1`) and answers (at `t2`): provided the clock does not run
/// backwards and the answer goes out within the expiration of the mapping it
/// learned, it sends exactly one frame, to the sender's Ethernet address,
/// with an IPv4 packet back to the sender that carries the echo reply with
/// the request's identifier, sequence number and payload.
pub proof fn lemma_ping_answered(
    s: InterfaceState,
    eth_frame: Seq<u8>,
    t1: Instant,
    t2: Instant,
    accepted: bool,
)
    requires
        s.cache.oldest <= t1,
        forall|k: Ipv4Address| #[trigger]
            s.cache.entries.dom().contains(k) ==> s.cache.entries[k].1 <= t1,
        t1 <= t2 <= t1 + s.cache.expiration,
        eth_frame.len() >= 14,
        spec_is_unicast(eth_frame.subrange(6, 12)),
        ({
            let p = eth_frame.skip(14);
            &&& p.len() >= 20
            &&& spec_check_encoding(p) is Ok
            &&& p.subrange(16, 20) == s.ipv4_addr.0@
            &&& p[9] == ipv4_protocols::ICMP
            &&& spec_is_member(s.ipv4_addr, crate::repr::ipv4::spec_address(p.subrange(12, 16)))
        }),
        ({
            let bytes = spec_payload(eth_frame.skip(14));
            &&& 8 <= bytes.len()
            &&& 20 + bytes.len() <= crate::service::ethernet::MAX_PAYLOAD_LEN
            &&& crate::repr::icmpv4::spec_check_encoding(bytes) is Ok
            &&& bytes[0] == 8
            &&& bytes[1] == 0
        }),
    ensures
        ({
            let p = eth_frame.skip(14);
            let bytes = spec_payload(p);
            let request = crate::repr::icmpv4::spec_deserialize(bytes)->Ok_0;
            let o = spec_recv_packet(s, eth_frame, t1, t2, accepted);
            &&& request.message is EchoRequest
            &&& o.result == Ok::<(), Error>(())
            &&& o.sent == seq![
                spec_frame(
                    crate::repr::ethernet::spec_address(eth_frame.subrange(6, 12)),
                    s.ethernet_addr,
                    eth_types::IPV4,
                    spec_header(icmpv4::spec_swap_addrs(spec_deserialize(p)->Ok_0))
                        + icmpv4::spec_icmp_bytes(icmpv4::spec_echo_reply(request), bytes.skip(8)),
                ),
            ]
        }),
{
    let p = eth_frame.skip(14);
    let bytes = spec_payload(p);
    let src_ip = crate::repr::ipv4::spec_address(p.subrange(12, 16));
    let src_eth = crate::repr::ethernet::spec_address(eth_frame.subrange(6, 12));
    let c1 = spec_set(s.cache, src_ip, src_eth, t1);
    let s1 = with_cache(s, c1);
    lemma_set_then_lookup(s.cache, src_ip, src_eth, t1, t2);
    let r = spec_deserialize(p)->Ok_0;
    assert(spec_deserialize(p) is Ok);
    assert(r.src_addr == src_ip);
    let request = crate::repr::icmpv4::spec_deserialize(bytes)->Ok_0;
    assert(crate::repr::icmpv4::spec_deserialize(bytes) is Ok);
    assert(request.message is EchoRequest);
    let reply = icmpv4::spec_echo_reply(request);
    assert(request.payload_len == bytes.len() - 8);
    icmpv4::lemma_icmp_bytes(reply, bytes.skip(8));
    crate::repr::ipv4::lemma_address_view(r.src_addr);
    crate::repr::ipv4::lemma_address_view(r.dst_addr);
    assert(spec_header_template(icmpv4::spec_swap_addrs(r)).len() == 20);
    assert(icmpv4::spec_recv_packet(s1, r, bytes, t2) == icmpv4::spec_send_packet(
        s1,
        icmpv4::spec_swap_addrs(r),
        reply,
        bytes.skip(8),
        t2,
    ));
    assert(spec_route(s1, src_ip) == src_ip);
}

/// An IPv4 packet that is too short, fails the encoding checks or is for
/// another address is refused: its error is returned, the interface and its
/// ARP cache stay as they were, nothing is sent and no socket is handed it.
pub proof fn lemma_refused_packet_reaches_nothing(
    s: InterfaceState,
    sockets: SocketsView,
    eth_frame: Seq<u8>,
    t1: Instant,
    t2: Instant,
    accepted: bool,
)
    requires
        ({
            let p = eth_frame.skip(14);
            p.len() < 20 || spec_check_encoding(p) is Err || p.subrange(16, 20) != s.ipv4_addr.0@
        }),
    ensures
        ({
            let p = eth_frame.skip(14);
            let o = spec_recv_packet(s, eth_frame, t1, t2, accepted);
            &&& o.state == s
            &&& o.sent == Seq::<Seq<u8>>::empty()
            &&& o.result == if p.len() < 20 {
                Err(Error::Exhausted)
            } else if spec_check_encoding(p) is Err {
                Err(spec_check_encoding(p)->Err_0)
            } else {
                Err::<(), Error>(Error::Ignored)
            }
            &&& spec_recv_sockets(sockets, s, eth_frame) == sockets
        }),
{
}

/// Sending an IPv4 packet keeps the interface's addresses and every frame
/// goes out from its Ethernet address.
pub proof fn lemma_send_packet_raw_from_interface(
    s: InterfaceState,
    dst_addr: Ipv4Address,
    ipv4_packet: Seq<u8>,
    now: Instant,
)
    ensures
        spec_from_interface(s, spec_send_packet_raw(s, dst_addr, ipv4_packet, now)),
{
    let o = spec_eth_addr_for_ip(s, spec_route(s, dst_addr), now);
    lemma_eth_addr_for_ip_from_interface(s, spec_route(s, dst_addr), now);
    if o.result is Ok {
        let f = spec_send_frame(o.state, o.result->Ok_0, eth_types::IPV4, ipv4_packet);
        lemma_send_frame_from_interface(o.state, o.result->Ok_0, eth_types::IPV4, ipv4_packet);
        let all = o.sent + f.sent;
        assert forall|i: int| 0 <= i < all.len() implies #[trigger] all[i].len() >= 14
            && all[i].subrange(6, 12) == s.ethernet_addr@ by {
            if i < o.sent.len() {
                assert(all[i] == o.sent[i]);
            } else {
                assert(all[i] == f.sent[i - o.sent.len()]);
            }
        }
    }
}

/// Receiving an IPv4 packet keeps the interface's addresses and every frame
/// sent in response goes out from its Ethernet address.
pub proof fn lemma_recv_packet_from_interface(
    s: InterfaceState,
    eth_frame: Seq<u8>,
    t1: Instant,
    t2: Instant,
    accepted: bool,
)
    ensures
        spec_from_interface(s, spec_recv_packet(s, eth_frame, t1, t2, accepted)),
{
    let p = eth_frame.skip(14);
    if p.len() >= 20 && spec_check_encoding(p) is Ok && p.subrange(16, 20) == s.ipv4_addr.0@ {
        let src = eth_frame.subrange(6, 12);
        let s1 = if spec_is_unicast(src) {
            with_cache(
                s,
                spec_set(
                    s.cache,
                    crate::repr::ipv4::spec_address(p.subrange(12, 16)),
                    crate::repr::ethernet::spec_address(src),
                    t1,
                ),
            )
        } else {
            s
        };
        if spec_deserialize(p) is Ok {
            let r = spec_deserialize(p)->Ok_0;
            if p[9] == ipv4_protocols::UDP {
                udp::lemma_recv_packet_from_interface(s1, r, p, accepted, t2);
            } else if p[9] == ipv4_protocols::ICMP {
                icmpv4::lemma_recv_packet_from_interface(s1, r, spec_payload(p), t2);
            }
        }
    }
}

} // verus!
