//! Address resolution with ARP.
use vstd::prelude::*;

use crate::arp_cache::{
    lemma_set_then_lookup,
    spec_expire,
    spec_lookup,
    spec_set,
};
use crate::bytes::splice;
use crate::repr::arp::{
    spec_arp_bytes,
    spec_deserialize,
};
use crate::repr::{
    eth_types,
    Arp,
    ArpOp,
    EthernetAddress,
    EthernetFrame,
    Ipv4Address,
};
use crate::service::ethernet::{
    lemma_send_frame_from_interface,
    send_frame,
};
use crate::service::{
    lemma_frame_source,
    spec_broadcast_address,
    spec_frame,
    spec_from_interface,
    with_cache,
    Interface,
    InterfaceState,
    Outcome,
};
use crate::time::{
    Env,
    Instant,
};
use crate::{
    Error,
    Result,
};

verus! {

/// The frame that carries an ARP packet to `dst_addr`.
pub open spec fn spec_arp_frame(s: InterfaceState, arp: Arp, dst_addr: EthernetAddress) -> Seq<
    u8,
> {
    spec_frame(dst_addr, s.ethernet_addr, eth_types::ARP, spec_arp_bytes(arp))
}

/// The ARP request of the interface for the Ethernet address of `ipv4_addr`.
pub open spec fn spec_request(s: InterfaceState, ipv4_addr: Ipv4Address) -> Arp {
    Arp {
        op: ArpOp::Request,
        source_hw_addr: s.ethernet_addr,
        source_proto_addr: s.ipv4_addr.0,
        target_hw_addr: spec_broadcast_address(),
        target_proto_addr: ipv4_addr,
    }
}

/// The ARP reply of the interface to a request.
pub open spec fn spec_reply(s: InterfaceState, request: Arp) -> Arp {
    Arp {
        op: ArpOp::Reply,
        source_hw_addr: s.ethernet_addr,
        source_proto_addr: s.ipv4_addr.0,
        target_hw_addr: request.source_hw_addr,
        target_proto_addr: request.source_proto_addr,
    }
}

/// Receiving an ARP packet in a frame at `now`: a packet for the interface
/// updates the ARP cache with the sender's mapping, and a request is
/// answered.
pub open spec fn spec_recv_packet(s: InterfaceState, eth_frame: Seq<u8>, now: Instant) -> Outcome<
    (),
> {
    match spec_deserialize(eth_frame.subrange(14, eth_frame.len() as int)) {
        Err(e) => Outcome { state: s, result: Err(e), sent: seq![] },
        Ok(a) => if a.target_proto_addr@ != s.ipv4_addr.0@ {
            Outcome { state: s, result: Err(Error::Ignored), sent: seq![] }
        } else {
            let s1 = with_cache(s, spec_set(s.cache, a.source_proto_addr, a.source_hw_addr, now));
            match a.op {
                ArpOp::Request => Outcome {
                    state: s1,
                    result: Ok(()),
                    sent: seq![spec_arp_frame(s1, spec_reply(s1, a), a.source_hw_addr)],
                },
                ArpOp::Reply => Outcome { state: s1, result: Ok(()), sent: seq![] },
            }
        },
    }
}

/// Looking up the Ethernet address of `ipv4_addr` at `now`: an unknown
/// address is requested with a broadcast.
pub open spec fn spec_eth_addr_for_ip(
    s: InterfaceState,
    ipv4_addr: Ipv4Address,
    now: Instant,
) -> Outcome<EthernetAddress> {
    let s1 = with_cache(s, spec_expire(s.cache, now));
    match spec_lookup(s1.cache, ipv4_addr) {
        Some(eth_addr) => Outcome { state: s1, result: Ok(eth_addr), sent: seq![] },
        None => Outcome {
            state: s1,
            result: Err(Error::MacResolution(ipv4_addr)),
            sent: seq![
                spec_arp_frame(s1, spec_request(s1, ipv4_addr), spec_broadcast_address()),
            ],
        },
    }
}

/// An ARP packet takes 28 bytes.
proof fn lemma_arp_bytes_len(a: Arp)
    ensures
        spec_arp_bytes(a).len() == 28,
{
    crate::repr::ethernet::lemma_address_view(a.source_hw_addr);
    crate::repr::ethernet::lemma_address_view(a.target_hw_addr);
    crate::repr::ipv4::lemma_address_view(a.source_proto_addr);
    crate::repr::ipv4::lemma_address_view(a.target_proto_addr);
}

/// Sends an ARP packet via an interface.
pub fn send_packet<T: Env>(
    interface: &Interface<T>,
    arp_repr: &Arp,
    dst_addr: EthernetAddress,
    tx: &mut Vec<Vec<u8>>,
) -> (r: Result<()>)
    ensures
        r == Ok::<(), Error>(()),
        final(tx).deep_view() == old(tx).deep_view().push(
            spec_arp_frame(interface@, *arp_repr, dst_addr),
        ),
{
    proof {
        lemma_arp_bytes_len(*arp_repr);
    }
    let mut arp_buffer: Vec<u8> = vec![0; 28];
    let r = arp_repr.serialize(arp_buffer.as_mut_slice());
    assert(r is Ok);
    assert(arp_buffer@ =~= spec_arp_bytes(*arp_repr));
    send_frame(interface, dst_addr, eth_types::ARP, arp_buffer.as_slice(), tx)
}

/// Receives an ARP packet from an interface.
///
/// This may result in a response to ARP requests, updating the ARP cache, etc.
pub fn recv_packet<T: Env>(
    interface: &mut Interface<T>,
    eth_frame: &EthernetFrame,
    tx: &mut Vec<Vec<u8>>,
) -> (r: Result<()>)
    requires
        old(interface).wf(),
        eth_frame@.len() >= 14,
    ensures
        final(interface).wf(),
        final(interface).arp_cache.env() == old(interface).arp_cache.env(),
        exists|now: Instant|
            {
                let o = #[trigger] spec_recv_packet(old(interface)@, eth_frame@, now);
                &&& final(interface)@ == o.state
                &&& r == o.result
                &&& final(tx).deep_view() == old(tx).deep_view() + o.sent
            },
{
    let arp_repr = match Arp::deserialize(eth_frame.payload()) {
        Ok(arp_repr) => arp_repr,
        Err(e) => {
            assert(old(tx).deep_view() + seq![] =~= old(tx).deep_view());
            assert(spec_recv_packet(old(interface)@, eth_frame@, 0).result == Err::<(), Error>(e));
            return Err(e);
        },
    };
    if arp_repr.target_proto_addr != *interface.ipv4_addr.deref() {
        assert(old(tx).deep_view() + seq![] =~= old(tx).deep_view());
        assert(spec_recv_packet(old(interface)@, eth_frame@, 0).result == Err::<(), Error>(
            Error::Ignored,
        ));
        return Err(Error::Ignored);
    }

    interface.arp_cache.set_eth_addr_for_ip(arp_repr.source_proto_addr, arp_repr.source_hw_addr);
    let ghost now = choose|now: Instant| #[trigger]
        spec_set(
            old(interface)@.cache,
            arp_repr.source_proto_addr,
            arp_repr.source_hw_addr,
            now,
        ) == interface.arp_cache@;

    match arp_repr.op {
        ArpOp::Request => {
            let arp_reply = Arp {
                op: ArpOp::Reply,
                source_hw_addr: interface.ethernet_addr,
                source_proto_addr: *interface.ipv4_addr.deref(),
                target_hw_addr: arp_repr.source_hw_addr,
                target_proto_addr: arp_repr.source_proto_addr,
            };
            let r = send_packet(interface, &arp_reply, arp_reply.target_hw_addr, tx);
            let ghost f = spec_arp_frame(interface@, arp_reply, arp_reply.target_hw_addr);
            assert(old(tx).deep_view().push(f) =~= old(tx).deep_view() + seq![f]);
            assert(spec_recv_packet(old(interface)@, eth_frame@, now).state == interface@);
            r
        },
        _ => {
            assert(old(tx).deep_view() + seq![] =~= old(tx).deep_view());
            assert(spec_recv_packet(old(interface)@, eth_frame@, now).state == interface@);
            Ok(())
        },
    }
}

/// Tries to retrieve the Ethernet address for an IPv4 address.
///
/// The IP address may not have an Ethernet mapping yet, in which case an ARP
/// request is dispatched and an error returned. The ARP response (if the IP
/// address exists on the network) will be processed by `recv_packet(...)` and
/// update the ARP cache.
pub fn eth_addr_for_ip<T: Env>(
    interface: &mut Interface<T>,
    ipv4_addr: Ipv4Address,
    tx: &mut Vec<Vec<u8>>,
) -> (r: Result<EthernetAddress>)
    requires
        old(interface).wf(),
    ensures
        final(interface).wf(),
        final(interface).arp_cache.env() == old(interface).arp_cache.env(),
        exists|now: Instant|
            {
                let o = #[trigger] spec_eth_addr_for_ip(old(interface)@, ipv4_addr, now);
                &&& final(interface)@ == o.state
                &&& r == o.result
                &&& final(tx).deep_view() == old(tx).deep_view() + o.sent
            },
{
    match interface.arp_cache.eth_addr_for_ip(ipv4_addr) {
        Some(eth_addr) => {
            let ghost now = choose|now: Instant| #[trigger]
                spec_expire(old(interface)@.cache, now) == interface.arp_cache@ && Some(eth_addr)
                    == spec_lookup(interface.arp_cache@, ipv4_addr);
            assert(old(tx).deep_view() + seq![] =~= old(tx).deep_view());
            assert(spec_eth_addr_for_ip(old(interface)@, ipv4_addr, now).state == interface@);
            Ok(eth_addr)
        },
        None => {
            let ghost now = choose|now: Instant| #[trigger]
                spec_expire(old(interface)@.cache, now) == interface.arp_cache@ && None::<EthernetAddress>
                    == spec_lookup(interface.arp_cache@, ipv4_addr);
            let broadcast = EthernetAddress::broadcast();
            proof {
                crate::repr::ethernet::lemma_address_view(broadcast);
            }
            let arp_repr = Arp {
                op: ArpOp::Request,
                source_hw_addr: interface.ethernet_addr,
                source_proto_addr: *interface.ipv4_addr.deref(),
                target_hw_addr: broadcast,
                target_proto_addr: ipv4_addr,
            };
            let _ = send_packet(interface, &arp_repr, broadcast, tx);
            let ghost f = spec_arp_frame(interface@, arp_repr, broadcast);
            assert(old(tx).deep_view().push(f) =~= old(tx).deep_view() + seq![f]);
            assert(spec_eth_addr_for_ip(old(interface)@, ipv4_addr, now).state == interface@);
            Err(Error::MacResolution(ipv4_addr))
        },
    }
}

/// An ARP request for the interface's address is answered, and the sender's
/// mapping is learned. The interface sends exactly one frame: an ARP reply to
/// the sender that reads back as the reply with the interface's addresses;
/// and, when the clock does not run backwards, a lookup of the sender's
/// address at the time of the request finds the sender's Ethernet address.
pub proof fn lemma_request_answered(s: InterfaceState, eth_frame: Seq<u8>, now: Instant)
    requires
        eth_frame.len() >= 14,
        s.cache.oldest <= now,
        forall|k: Ipv4Address| #[trigger]
            s.cache.entries.dom().contains(k) ==> s.cache.entries[k].1 <= now,
        ({
            let a = spec_deserialize(eth_frame.subrange(14, eth_frame.len() as int));
            &&& a is Ok
            &&& a->Ok_0.op == ArpOp::Request
            &&& a->Ok_0.target_proto_addr@ == s.ipv4_addr.0@
        }),
    ensures
        ({
            let a = spec_deserialize(eth_frame.subrange(14, eth_frame.len() as int))->Ok_0;
            let o = spec_recv_packet(s, eth_frame, now);
            let reply = spec_reply(o.state, a);
            &&& o.result == Ok::<(), Error>(())
            &&& o.sent == seq![spec_arp_frame(o.state, reply, a.source_hw_addr)]
            &&& reply.target_hw_addr == a.source_hw_addr
            &&& reply.target_proto_addr == a.source_proto_addr
            &&& reply.source_hw_addr == s.ethernet_addr
            &&& reply.source_proto_addr == s.ipv4_addr.0
            &&& spec_deserialize(spec_arp_bytes(reply)) == Ok::<Arp, Error>(reply)
            &&& spec_lookup(spec_expire(o.state.cache, now), a.source_proto_addr) == Some(
                a.source_hw_addr,
            )
        }),
{
    let a = spec_deserialize(eth_frame.subrange(14, eth_frame.len() as int))->Ok_0;
    lemma_set_then_lookup(s.cache, a.source_proto_addr, a.source_hw_addr, now, now);
    let o = spec_recv_packet(s, eth_frame, now);
    let reply = spec_reply(o.state, a);
    let b = spec_arp_bytes(reply);
    lemma_arp_bytes_len(reply);
    crate::repr::arp::lemma_serialize_deserialize(reply, b);
    assert(splice(b, 0, b) =~= b);
}

/// Every ARP packet for the interface teaches the cache the sender's
/// mapping: when a frame carries a well formed ARP packet for IPv4 over
/// Ethernet (a request or a reply) whose target IPv4 address (bytes 24 to 28
/// of the packet) is the interface's, receiving it at `now` succeeds, and a
/// lookup at `now` of the sender's IPv4 address (bytes 14 to 18) finds the
/// sender's Ethernet address (bytes 8 to 14). A request is answered with one
/// frame to the sender: an ARP reply (operation 2) from the interface's
/// Ethernet and IPv4 addresses to the sender's; a reply gets no answer.
pub proof fn lemma_sender_learned(s: InterfaceState, eth_frame: Seq<u8>, now: Instant)
    requires
        eth_frame.len() >= 14 + 28,
        ({
            let a = eth_frame.subrange(14, eth_frame.len() as int);
            &&& a[0] == 0 && a[1] == 1 && a[2] == 8 && a[3] == 0
            &&& a[6] == 0 && (a[7] == 1 || a[7] == 2)
            &&& a.subrange(24, 28) == s.ipv4_addr.0@
        }),
    ensures
        ({
            let a = eth_frame.subrange(14, eth_frame.len() as int);
            let sender_hw = a.subrange(8, 14);
            let sender_ip = a.subrange(14, 18);
            let o = spec_recv_packet(s, eth_frame, now);
            &&& o.result == Ok::<(), Error>(())
            &&& spec_lookup(
                spec_expire(o.state.cache, now),
                crate::repr::ipv4::spec_address(sender_ip),
            ) == Some(crate::repr::ethernet::spec_address(sender_hw))
            &&& a[7] == 2 ==> o.sent == Seq::<Seq<u8>>::empty()
            &&& a[7] == 1 ==> o.sent == seq![
                sender_hw + s.ethernet_addr@ + seq![8u8, 6u8] + seq![
                    0u8,
                    1u8,
                    8u8,
                    0u8,
                    6u8,
                    4u8,
                    0u8,
                    2u8,
                ] + s.ethernet_addr@ + s.ipv4_addr.0@ + sender_hw + sender_ip,
            ]
        }),
{
    let a = eth_frame.subrange(14, eth_frame.len() as int);
    crate::repr::arp::lemma_deserialize_reads_rfc826(a);
    let r = spec_deserialize(a)->Ok_0;
    crate::repr::ipv4::lemma_address_view(s.ipv4_addr.0);
    let ip = r.source_proto_addr;
    let eth = r.source_hw_addr;
    let c1 = spec_set(s.cache, ip, eth, now);
    assert(c1.entries.dom().contains(ip) && c1.entries[ip] == (eth, now));
    crate::repr::ethernet::lemma_address_view(eth);
    crate::repr::ipv4::lemma_address_view(ip);
    assert(crate::repr::ipv4::spec_address(a.subrange(14, 18)) == ip);
    assert(crate::repr::ethernet::spec_address(a.subrange(8, 14)) == eth);
    assert(r.target_proto_addr@ == s.ipv4_addr.0@);
    assert(spec_expire(c1, now).entries.dom().contains(ip));
    assert(spec_expire(c1, now).entries[ip] == (eth, now));
    assert(spec_lookup(spec_expire(c1, now), ip) == Some(eth));
    let o = spec_recv_packet(s, eth_frame, now);
    assert(o.state.cache == c1);
    if a[7] == 2 {
        assert(r.op == ArpOp::Reply);
        assert(o.sent =~= Seq::<Seq<u8>>::empty());
    }
    if a[7] == 1 {
        let s1 = with_cache(s, c1);
        let reply = spec_reply(s1, r);
        crate::repr::arp::lemma_serialize_writes_rfc826(reply);
        let b = spec_arp_bytes(reply);
        crate::repr::ethernet::lemma_address_view(s.ethernet_addr);
        assert(b =~= seq![0u8, 1u8, 8u8, 0u8, 6u8, 4u8, 0u8, 2u8] + s.ethernet_addr@
            + s.ipv4_addr.0@ + a.subrange(8, 14) + a.subrange(14, 18)) by {
            assert(b =~= b.take(8) + b.subrange(8, 14) + b.subrange(14, 18) + b.subrange(18, 24)
                + b.subrange(24, 28));
        }
        assert(crate::bytes::be16_bytes(eth_types::ARP) =~= seq![8u8, 6u8]);
        assert(spec_arp_frame(s1, reply, eth) =~= a.subrange(8, 14) + s.ethernet_addr@ + seq![
            8u8,
            6u8,
        ] + (seq![0u8, 1u8, 8u8, 0u8, 6u8, 4u8, 0u8, 2u8] + s.ethernet_addr@ + s.ipv4_addr.0@
            + a.subrange(8, 14) + a.subrange(14, 18)));
        assert(r.op == ArpOp::Request);
        assert(o.sent == seq![spec_arp_frame(s1, reply, eth)]);
        assert(spec_arp_frame(s1, reply, eth) =~= a.subrange(8, 14) + s.ethernet_addr@ + seq![
            8u8,
            6u8,
        ] + seq![0u8, 1u8, 8u8, 0u8, 6u8, 4u8, 0u8, 2u8] + s.ethernet_addr@ + s.ipv4_addr.0@
            + a.subrange(8, 14) + a.subrange(14, 18));
    }
}

/// Looking up an address keeps what the cache knows and asks the network
/// for what it does not: at `now`, an address that the cache maps (after the
/// expired mappings go) gives its Ethernet address and sends nothing; any
/// other gives `MacResolution` with the address and broadcasts one frame, an
/// ARP request (operation 1) from the interface's Ethernet and IPv4
/// addresses, with the broadcast address as target hardware address, for the
/// address.
pub proof fn lemma_unknown_address_requested(s: InterfaceState, ipv4_addr: Ipv4Address, now: Instant)
    ensures
        ({
            let o = spec_eth_addr_for_ip(s, ipv4_addr, now);
            let known = spec_lookup(spec_expire(s.cache, now), ipv4_addr);
            let ff = seq![0xffu8, 0xffu8, 0xffu8, 0xffu8, 0xffu8, 0xffu8];
            &&& o.state.cache == spec_expire(s.cache, now)
            &&& known matches Some(e) ==> o.result == Ok::<EthernetAddress, Error>(e) && o.sent
                == Seq::<Seq<u8>>::empty()
            &&& known is None ==> o.result == Err::<EthernetAddress, Error>(
                Error::MacResolution(ipv4_addr),
            ) && o.sent == seq![
                ff + s.ethernet_addr@ + seq![8u8, 6u8] + seq![
                    0u8,
                    1u8,
                    8u8,
                    0u8,
                    6u8,
                    4u8,
                    0u8,
                    1u8,
                ] + s.ethernet_addr@ + s.ipv4_addr.0@ + ff + ipv4_addr@,
            ]
        }),
{
    let o = spec_eth_addr_for_ip(s, ipv4_addr, now);
    let s1 = with_cache(s, spec_expire(s.cache, now));
    if spec_lookup(s1.cache, ipv4_addr) is None {
        let ff = seq![0xffu8, 0xffu8, 0xffu8, 0xffu8, 0xffu8, 0xffu8];
        let req = spec_request(s1, ipv4_addr);
        crate::repr::arp::lemma_serialize_writes_rfc826(req);
        crate::repr::ethernet::lemma_spec_address(crate::repr::ethernet::spec_broadcast_bytes());
        assert(crate::repr::ethernet::spec_broadcast_bytes().subrange(0, 6) =~= ff);
        assert(spec_broadcast_address()@ == ff);
        let b = spec_arp_bytes(req);
        assert(b =~= b.take(8) + b.subrange(8, 14) + b.subrange(14, 18) + b.subrange(18, 24)
            + b.subrange(24, 28));
        assert(crate::bytes::be16_bytes(eth_types::ARP) =~= seq![8u8, 6u8]);
        assert(spec_arp_frame(s1, req, spec_broadcast_address()) =~= ff + s.ethernet_addr@ + seq![
            8u8,
            6u8,
        ] + seq![0u8, 1u8, 8u8, 0u8, 6u8, 4u8, 0u8, 1u8] + s.ethernet_addr@ + s.ipv4_addr.0@
            + ff + ipv4_addr@);
    }
}

/// An ARP packet for another IPv4 address (bytes 24 to 28 of the packet) is
/// ignored: the cache learns nothing and nothing is sent.
pub proof fn lemma_other_target_ignored(s: InterfaceState, eth_frame: Seq<u8>, now: Instant)
    requires
        eth_frame.len() >= 14 + 28,
        ({
            let a = eth_frame.subrange(14, eth_frame.len() as int);
            &&& a[0] == 0 && a[1] == 1 && a[2] == 8 && a[3] == 0
            &&& a[6] == 0 && (a[7] == 1 || a[7] == 2)
            &&& a.subrange(24, 28) != s.ipv4_addr.0@
        }),
    ensures
        spec_recv_packet(s, eth_frame, now) == (Outcome::<()> {
            state: s,
            result: Err(Error::Ignored),
            sent: seq![],
        }),
{
    let a = eth_frame.subrange(14, eth_frame.len() as int);
    crate::repr::arp::lemma_deserialize_reads_rfc826(a);
}

/// Receiving an ARP packet keeps the interface's addresses and any reply
/// goes out from its Ethernet address.
pub proof fn lemma_recv_packet_from_interface(s: InterfaceState, eth_frame: Seq<u8>, now: Instant)
    ensures
        spec_from_interface(s, spec_recv_packet(s, eth_frame, now)),
{
    let o = spec_recv_packet(s, eth_frame, now);
    if o.sent.len() > 0 {
        let a = spec_deserialize(eth_frame.subrange(14, eth_frame.len() as int))->Ok_0;
        lemma_frame_source(
            a.source_hw_addr,
            o.state.ethernet_addr,
            eth_types::ARP,
            spec_arp_bytes(spec_reply(o.state, a)),
        );
    }
}

/// Looking up an Ethernet address keeps the interface's addresses and any
/// request goes out from its Ethernet address.
pub proof fn lemma_eth_addr_for_ip_from_interface(
    s: InterfaceState,
    ipv4_addr: Ipv4Address,
    now: Instant,
)
    ensures
        spec_from_interface(s, spec_eth_addr_for_ip(s, ipv4_addr, now)),
{
    let o = spec_eth_addr_for_ip(s, ipv4_addr, now);
    lemma_frame_source(
        spec_broadcast_address(),
        o.state.ethernet_addr,
        eth_types::ARP,
        spec_arp_bytes(spec_request(o.state, ipv4_addr)),
    );
}

} // verus!
