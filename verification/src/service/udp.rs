//! Sending and receiving UDP packets.
use vstd::prelude::*;

use crate::bytes::set_bytes;
use crate::layers::udp::{
    spec_check_encoding,
    spec_repr,
    spec_serialize,
};
use crate::repr::ipv4::{
    spec_header_bytes,
    spec_packet_len,
    spec_payload,
};
use crate::repr::{
    Icmpv4DestinationUnreachable,
    Icmpv4Message,
    Icmpv4Repr,
    Ipv4Packet,
    Ipv4Protocol,
    Ipv4Repr,
    UdpPacket,
    UdpRepr,
};
use crate::service::icmpv4;
use crate::service::ipv4::{
    send_packet_with_repr,
    spec_send_packet_with_repr,
};
use crate::service::{
    spec_from_interface,
    spec_zeros,
    to_u16,
    Interface,
    InterfaceState,
    Outcome,
};
use crate::socket::{
    spec_deliver_udp,
    spec_udp_accepts,
    spec_binds,
    SocketAddr,
    SocketSet,
    SocketsView,
};
use crate::time::{
    Env,
    Instant,
};
use crate::{
    Error,
    Result,
};

verus! {

/// The UDP packet of `udp_repr` with `payload`, its checksum computed with
/// the pseudo header of `ipv4_repr`.
pub open spec fn spec_udp_bytes(udp_repr: UdpRepr, payload: Seq<u8>, ipv4_repr: Ipv4Repr) -> Seq<
    u8,
> {
    spec_serialize(udp_repr, spec_zeros(8) + payload, ipv4_repr)
}

/// Sending a UDP packet at `now`.
pub open spec fn spec_send_packet(
    s: InterfaceState,
    ipv4_repr: Ipv4Repr,
    udp_repr: UdpRepr,
    payload: Seq<u8>,
    now: Instant,
) -> Outcome<()> {
    spec_send_packet_with_repr(s, ipv4_repr, spec_udp_bytes(udp_repr, payload, ipv4_repr), now)
}

/// The ICMP message that reports a packet to a port without a socket; it
/// carries the IPv4 header and the UDP header of the packet.
pub open spec fn spec_port_unreachable() -> Icmpv4Repr {
    Icmpv4Repr {
        message: Icmpv4Message::DestinationUnreachable(
            Icmpv4DestinationUnreachable::PortUnreachable,
        ),
        payload_len: 28,
    }
}

/// The IPv4 header of the report of a packet with header `ipv4_repr`.
pub open spec fn spec_report_header(s: InterfaceState, ipv4_repr: Ipv4Repr) -> Ipv4Repr {
    Ipv4Repr {
        src_addr: s.ipv4_addr.0,
        dst_addr: ipv4_repr.src_addr,
        protocol: Ipv4Protocol::ICMP,
        payload_len: 36,
    }
}

/// The UDP packet in the IPv4 packet `ipv4_packet` is long enough and its
/// checksum and length are right for `ipv4_repr`.
pub open spec fn spec_udp_valid(ipv4_repr: Ipv4Repr, ipv4_packet: Seq<u8>) -> bool {
    let udp = spec_payload(ipv4_packet);
    8 <= udp.len() <= 65535 && spec_check_encoding(udp, ipv4_repr) is Ok
}

/// Where the UDP packet in `ipv4_packet` goes: the destination address of
/// `ipv4_repr` and the destination port of the UDP header.
pub open spec fn spec_udp_destination(ipv4_repr: Ipv4Repr, ipv4_packet: Seq<u8>) -> SocketAddr {
    SocketAddr {
        addr: ipv4_repr.dst_addr,
        port: spec_repr(spec_payload(ipv4_packet)).dst_port,
    }
}

/// What a socket is handed of the UDP packet in `ipv4_packet`: the IPv4
/// header, the UDP header and the bytes after the UDP header.
pub open spec fn spec_udp_datagram(ipv4_repr: Ipv4Repr, ipv4_packet: Seq<u8>) -> (
    Ipv4Repr,
    UdpRepr,
    Seq<u8>,
) {
    let udp = spec_payload(ipv4_packet);
    (ipv4_repr, spec_repr(udp), udp.skip(8))
}

/// The sockets after receiving the UDP packet in `ipv4_packet`: a valid
/// packet goes to the UDP sockets bound to its destination, any other to
/// none.
pub open spec fn spec_recv_sockets(
    sockets: SocketsView,
    ipv4_repr: Ipv4Repr,
    ipv4_packet: Seq<u8>,
) -> SocketsView {
    if spec_udp_valid(ipv4_repr, ipv4_packet) {
        SocketsView {
            udp: spec_deliver_udp(
                sockets.udp,
                spec_udp_destination(ipv4_repr, ipv4_packet),
                spec_udp_datagram(ipv4_repr, ipv4_packet),
            ),
            ..sockets
        }
    } else {
        sockets
    }
}

/// Whether a UDP socket of `sockets` is bound to where the UDP packet in
/// `ipv4_packet` goes.
pub open spec fn spec_accepted(
    sockets: SocketsView,
    ipv4_repr: Ipv4Repr,
    ipv4_packet: Seq<u8>,
) -> bool {
    spec_udp_accepts(sockets.udp, spec_udp_destination(ipv4_repr, ipv4_packet))
}

/// Receiving the UDP packet in the IPv4 packet `ipv4_packet` with header
/// `ipv4_repr` at `now`, where `accepted` tells whether a socket took it: a
/// valid packet that no socket took is reported as unreachable to its
/// sender.
pub open spec fn spec_recv_packet(
    s: InterfaceState,
    ipv4_repr: Ipv4Repr,
    ipv4_packet: Seq<u8>,
    accepted: bool,
    now: Instant,
) -> Outcome<()> {
    let udp = spec_payload(ipv4_packet);
    if udp.len() < 8 || udp.len() > 65535 {
        Outcome { state: s, result: Err(Error::Exhausted), sent: seq![] }
    } else {
        match spec_check_encoding(udp, ipv4_repr) {
            Err(e) => Outcome { state: s, result: Err(e), sent: seq![] },
            Ok(_) => if accepted {
                Outcome { state: s, result: Ok(()), sent: seq![] }
            } else {
                icmpv4::spec_send_packet(
                    s,
                    spec_report_header(s, ipv4_repr),
                    spec_port_unreachable(),
                    ipv4_packet.take(28),
                    now,
                )
            },
        }
    }
}

/// Sends a UDP packet via ther interface.
///
/// This function takes care of serializing a header, calculating a checksum,
/// etc. so the caller provides **only** the payload.
pub fn send_packet<T: Env>(
    interface: &mut Interface<T>,
    ipv4_repr: &Ipv4Repr,
    udp_repr: &UdpRepr,
    payload: &[u8],
    tx: &mut Vec<Vec<u8>>,
) -> (r: Result<()>)
    requires
        old(interface).wf(),
        8 <= ipv4_repr.payload_len <= 65515,
        payload@.len() + 8 == ipv4_repr.payload_len,
    ensures
        final(interface).wf(),
        final(interface).arp_cache.env() == old(interface).arp_cache.env(),
        exists|now: Instant|
            {
                let o = #[trigger] spec_send_packet(
                    old(interface)@,
                    *ipv4_repr,
                    *udp_repr,
                    payload@,
                    now,
                );
                &&& final(interface)@ == o.state
                &&& r == o.result
                &&& final(tx).deep_view() == old(tx).deep_view() + o.sent
            },
{
    let packet_len = ipv4_repr.buffer_len() - 20;
    let mut udp_buffer: Vec<u8> = vec![0; packet_len];
    set_bytes(udp_buffer.as_mut_slice(), 8, payload);
    assert(udp_buffer@ =~= spec_zeros(8) + payload@);
    let mut udp_packet = match UdpPacket::try_new(udp_buffer) {
        Ok(udp_packet) => udp_packet,
        Err(e) => return Err(e),
    };
    // NOTE: It's important that the UDP serialization happens after the payload
    // is written to ensure a correct checksum.
    udp_repr.serialize(&mut udp_packet, ipv4_repr);
    let udp_buffer = udp_packet.into_inner();
    let r = send_packet_with_repr(interface, ipv4_repr, udp_buffer.as_slice(), tx);
    let ghost now = choose|now: Instant|
        {
            let o = #[trigger] spec_send_packet_with_repr(
                old(interface)@,
                *ipv4_repr,
                udp_buffer@,
                now,
            );
            &&& interface@ == o.state
            &&& r == o.result
            &&& tx.deep_view() == old(tx).deep_view() + o.sent
        };
    assert(spec_send_packet(old(interface)@, *ipv4_repr, *udp_repr, payload@, now)
        == spec_send_packet_with_repr(old(interface)@, *ipv4_repr, udp_buffer@, now));
    r
}

/// Receives a UDP packet from an interface.
///
/// The UDP packet is parsed, forwarded to any socket, and any necessary ICMP
/// messages sent.
pub fn recv_packet<T: Env>(
    interface: &mut Interface<T>,
    ipv4_repr: &Ipv4Repr,
    ipv4_packet: &Ipv4Packet,
    socket_set: &mut SocketSet,
    tx: &mut Vec<Vec<u8>>,
) -> (r: Result<()>)
    requires
        old(interface).wf(),
        ipv4_packet@.len() >= 20,
        20 <= spec_header_bytes(ipv4_packet@) <= spec_packet_len(ipv4_packet@) <= ipv4_packet@.len(),
    ensures
        final(interface).wf(),
        final(interface).arp_cache.env() == old(interface).arp_cache.env(),
        final(socket_set)@ == spec_recv_sockets(old(socket_set)@, *ipv4_repr, ipv4_packet@),
        exists|now: Instant|
            {
                let o = #[trigger] spec_recv_packet(
                    old(interface)@,
                    *ipv4_repr,
                    ipv4_packet@,
                    spec_accepted(old(socket_set)@, *ipv4_repr, ipv4_packet@),
                    now,
                );
                &&& final(interface)@ == o.state
                &&& r == o.result
                &&& final(tx).deep_view() == old(tx).deep_view() + o.sent
            },
{
    assert(old(tx).deep_view() + seq![] =~= old(tx).deep_view());
    let udp_packet = match UdpPacket::try_new(vstd::slice::slice_to_vec(ipv4_packet.payload())) {
        Ok(udp_packet) => udp_packet,
        Err(e) => {
            assert(spec_recv_packet(old(interface)@, *ipv4_repr, ipv4_packet@, spec_accepted(old(socket_set)@, *ipv4_repr, ipv4_packet@), 0).result
                == Err::<(), Error>(e));
            return Err(e);
        },
    };
    match udp_packet.check_encoding(ipv4_repr) {
        Ok(_) => {},
        Err(e) => {
            assert(spec_recv_packet(old(interface)@, *ipv4_repr, ipv4_packet@, spec_accepted(old(socket_set)@, *ipv4_repr, ipv4_packet@), 0).result
                == Err::<(), Error>(e));
            return Err(e);
        },
    }
    let udp_repr = match UdpRepr::deserialize(&udp_packet) {
        Ok(udp_repr) => udp_repr,
        Err(e) => return Err(e),
    };

    let payload = udp_packet.payload();
    assert(payload@ =~= spec_udp_datagram(*ipv4_repr, ipv4_packet@).2);
    let accepted = socket_set.deliver_udp(ipv4_repr, &udp_repr, payload);

    // Send an ICMP message indicating packet has been ignored because no
    // UDP sockets are bound to the specified port.
    if !accepted {
        let report = Icmpv4Repr {
            message: Icmpv4Message::DestinationUnreachable(
                Icmpv4DestinationUnreachable::PortUnreachable,
            ),
            payload_len: 28,  // IP header (20 bytes) + UDP header (8 bytes)
        };
        let report_header = Ipv4Repr {
            src_addr: *interface.ipv4_addr.deref(),
            dst_addr: ipv4_repr.src_addr,
            protocol: Ipv4Protocol::ICMP,
            payload_len: to_u16(report.buffer_len()),
        };
        let bytes = ipv4_packet.as_ref();
        let quoted = &bytes[0..28];
        let r = icmpv4::send_packet(interface, &report_header, &report, quoted, tx);
        let ghost now = choose|now: Instant|
            {
                let o = #[trigger] icmpv4::spec_send_packet(
                    old(interface)@,
                    report_header,
                    report,
                    quoted@,
                    now,
                );
                &&& interface@ == o.state
                &&& r == o.result
                &&& tx.deep_view() == old(tx).deep_view() + o.sent
            };
        assert(quoted@ =~= ipv4_packet@.take(28));
        assert(spec_recv_packet(old(interface)@, *ipv4_repr, ipv4_packet@, false, now)
            == icmpv4::spec_send_packet(old(interface)@, report_header, report, quoted@, now));
        r
    } else {
        assert(spec_recv_packet(old(interface)@, *ipv4_repr, ipv4_packet@, spec_accepted(old(socket_set)@, *ipv4_repr, ipv4_packet@), 0).state
            == interface@);
        Ok(())
    }
}

/// A valid UDP packet that a socket takes gets no answer; one that no socket
/// takes is answered with an ICMP port unreachable message to its sender,
/// which reads back as such and quotes the first 28 bytes of the packet: its
/// IPv4 header and its UDP header.
pub proof fn lemma_unreachable_port_reported(
    s: InterfaceState,
    ipv4_repr: Ipv4Repr,
    ipv4_packet: Seq<u8>,
    now: Instant,
)
    requires
        ipv4_packet.len() >= 28,
        ({
            let udp = spec_payload(ipv4_packet);
            8 <= udp.len() <= 65535 && spec_check_encoding(udp, ipv4_repr) is Ok
        }),
    ensures
        spec_recv_packet(s, ipv4_repr, ipv4_packet, true, now) == (Outcome::<()> {
            state: s,
            result: Ok(()),
            sent: seq![],
        }),
        spec_recv_packet(s, ipv4_repr, ipv4_packet, false, now) == icmpv4::spec_send_packet(
            s,
            spec_report_header(s, ipv4_repr),
            spec_port_unreachable(),
            ipv4_packet.take(28),
            now,
        ),
        spec_report_header(s, ipv4_repr) == (Ipv4Repr {
            src_addr: s.ipv4_addr.0,
            dst_addr: ipv4_repr.src_addr,
            protocol: Ipv4Protocol::ICMP,
            payload_len: 36,
        }),
        ({
            let report = icmpv4::spec_icmp_bytes(spec_port_unreachable(), ipv4_packet.take(28));
            &&& report.len() == 36
            &&& report[0] == 3 && report[1] == 3
            &&& report[4] == 0 && report[5] == 0 && report[6] == 0 && report[7] == 0
            &&& crate::check::spec_internet_checksum(report) == 0
            &&& crate::repr::icmpv4::spec_check_encoding(report) == Ok::<(), Error>(())
            &&& crate::repr::icmpv4::spec_deserialize(report) == Ok::<Icmpv4Repr, Error>(
                spec_port_unreachable(),
            )
            &&& report.skip(8) == ipv4_packet.take(28)
        }),
{
    let quoted = ipv4_packet.take(28);
    icmpv4::lemma_icmp_bytes(spec_port_unreachable(), quoted);
    let z = crate::service::spec_zeros(8) + quoted;
    let t = crate::repr::icmpv4::spec_serialize(spec_port_unreachable(), z);
    crate::repr::icmpv4::lemma_serialize_writes_rfc792(spec_port_unreachable(), z);
    let z2 = crate::bytes::splice(t, 2, crate::bytes::be16_bytes(0));
    crate::bytes::lemma_splice_index(t, 2, crate::bytes::be16_bytes(0));
    crate::bytes::lemma_splice_index(
        z2,
        2,
        crate::bytes::be16_bytes(crate::check::spec_internet_checksum(z2)),
    );
}

/// A valid UDP packet reaches every UDP socket bound to its destination, as
/// its headers and payload, and no other; when there is such a socket
/// nothing is sent, and when there is none the UDP sockets stay as they were
/// and the sender gets an ICMP port unreachable report.
pub proof fn lemma_udp_delivery(
    sockets: SocketsView,
    s: InterfaceState,
    ipv4_repr: Ipv4Repr,
    ipv4_packet: Seq<u8>,
    now: Instant,
)
    requires
        spec_udp_valid(ipv4_repr, ipv4_packet),
    ensures
        ({
            let after = spec_recv_sockets(sockets, ipv4_repr, ipv4_packet);
            let dst = spec_udp_destination(ipv4_repr, ipv4_packet);
            let accepted = spec_accepted(sockets, ipv4_repr, ipv4_packet);
            let o = spec_recv_packet(s, ipv4_repr, ipv4_packet, accepted, now);
            &&& after.raw == sockets.raw
            &&& after.tcp == sockets.tcp
            &&& after.udp.len() == sockets.udp.len()
            &&& forall|i: int|
                0 <= i < sockets.udp.len() ==> #[trigger] after.udp[i] == if spec_binds(
                    sockets.udp[i].0,
                    dst,
                ) {
                    (sockets.udp[i].0, sockets.udp[i].1.push(spec_udp_datagram(ipv4_repr, ipv4_packet)))
                } else {
                    sockets.udp[i]
                }
            &&& accepted ==> o == Outcome::<()> { state: s, result: Ok(()), sent: seq![] }
            &&& !accepted ==> after.udp == sockets.udp && o == icmpv4::spec_send_packet(
                s,
                spec_report_header(s, ipv4_repr),
                spec_port_unreachable(),
                ipv4_packet.take(28),
                now,
            )
        }),
{
    let after = spec_recv_sockets(sockets, ipv4_repr, ipv4_packet);
    let dst = spec_udp_destination(ipv4_repr, ipv4_packet);
    if !spec_accepted(sockets, ipv4_repr, ipv4_packet) {
        assert(after.udp =~= sockets.udp);
    }
}

/// Receiving a UDP packet keeps the interface's addresses and any report
/// goes out from its Ethernet address.
pub proof fn lemma_recv_packet_from_interface(
    s: InterfaceState,
    ipv4_repr: Ipv4Repr,
    ipv4_packet: Seq<u8>,
    accepted: bool,
    now: Instant,
)
    ensures
        spec_from_interface(s, spec_recv_packet(s, ipv4_repr, ipv4_packet, accepted, now)),
{
    icmpv4::lemma_send_packet_from_interface(
        s,
        spec_report_header(s, ipv4_repr),
        spec_port_unreachable(),
        ipv4_packet.take(28),
        now,
    );
}

} // verus!
