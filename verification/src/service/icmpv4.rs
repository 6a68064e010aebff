//! Sending ICMP messages and answering pings.
use vstd::prelude::*;

use crate::bytes::set_bytes;
use crate::repr::icmpv4::{
    lemma_serialize_deserialize,
    spec_check_encoding,
    spec_deserialize,
    spec_fill_checksum,
    spec_message_ok,
    spec_serialize,
};
use crate::repr::{
    Icmpv4Message,
    Icmpv4Packet,
    Icmpv4Repr,
    Ipv4Repr,
};
use crate::service::ipv4::{
    lemma_send_packet_raw_from_interface,
    send_packet_with_repr,
    spec_send_packet_with_repr,
};
use crate::service::{
    spec_from_interface,
    spec_zeros,
    Interface,
    InterfaceState,
    Outcome,
};
use crate::time::{
    Env,
    Instant,
};
use crate::{
    Error,
    Result,
};

verus! {

/// The ICMP packet of `icmp_repr` with `payload`, its checksum filled in.
pub open spec fn spec_icmp_bytes(icmp_repr: Icmpv4Repr, payload: Seq<u8>) -> Seq<u8> {
    spec_fill_checksum(spec_serialize(icmp_repr, spec_zeros(8) + payload))
}

/// The echo reply to an echo request: the same identifier, sequence number
/// and payload length.
pub open spec fn spec_echo_reply(request: Icmpv4Repr) -> Icmpv4Repr {
    match request.message {
        Icmpv4Message::EchoRequest { id, seq } => Icmpv4Repr {
            message: Icmpv4Message::EchoReply { id, seq },
            payload_len: request.payload_len,
        },
        _ => request,
    }
}

/// Sending an ICMP packet at `now`.
pub open spec fn spec_send_packet(
    s: InterfaceState,
    ipv4_repr: Ipv4Repr,
    icmp_repr: Icmpv4Repr,
    payload: Seq<u8>,
    now: Instant,
) -> Outcome<()> {
    spec_send_packet_with_repr(s, ipv4_repr, spec_icmp_bytes(icmp_repr, payload), now)
}

/// The IPv4 header of an answer: the header of the question with the
/// addresses swapped.
pub open spec fn spec_swap_addrs(ipv4_repr: Ipv4Repr) -> Ipv4Repr {
    Ipv4Repr { src_addr: ipv4_repr.dst_addr, dst_addr: ipv4_repr.src_addr, ..ipv4_repr }
}

/// Whether `bytes` hold a valid echo request.
pub open spec fn spec_is_echo_request(bytes: Seq<u8>) -> bool {
    &&& 8 <= bytes.len() <= 65535
    &&& spec_check_encoding(bytes) is Ok
    &&& spec_deserialize(bytes) is Ok
    &&& spec_deserialize(bytes)->Ok_0.message is EchoRequest
}

/// Receiving the ICMP packet `icmp` of an IPv4 packet with header
/// `ipv4_repr` at `now`: an echo request is answered with an echo reply that
/// carries the same identifier, sequence number and payload.
pub open spec fn spec_recv_packet(
    s: InterfaceState,
    ipv4_repr: Ipv4Repr,
    bytes: Seq<u8>,
    now: Instant,
) -> Outcome<()> {
    if bytes.len() < 8 || bytes.len() > 65535 {
        Outcome { state: s, result: Err(Error::Exhausted), sent: seq![] }
    } else {
        match spec_check_encoding(bytes) {
            Err(e) => Outcome { state: s, result: Err(e), sent: seq![] },
            Ok(_) => match spec_deserialize(bytes) {
                Err(e) => Outcome { state: s, result: Err(e), sent: seq![] },
                Ok(r) => match r.message {
                    Icmpv4Message::EchoRequest { id, seq } => spec_send_packet(
                        s,
                        spec_swap_addrs(ipv4_repr),
                        Icmpv4Repr {
                            message: Icmpv4Message::EchoReply { id, seq },
                            payload_len: r.payload_len,
                        },
                        bytes.skip(8),
                        now,
                    ),
                    _ => Outcome { state: s, result: Err(Error::NoOp), sent: seq![] },
                },
            },
        }
    }
}

/// Send an ICMP packet via the interface.
///
/// The ICMP header is serialized after the payload is written and the
/// checksum is computed over both.
pub fn send_packet<T: Env>(
    interface: &mut Interface<T>,
    ipv4_repr: &Ipv4Repr,
    icmp_repr: &Icmpv4Repr,
    payload: &[u8],
    tx: &mut Vec<Vec<u8>>,
) -> (r: Result<()>)
    requires
        old(interface).wf(),
        8 <= ipv4_repr.payload_len <= 65515,
        payload@.len() + 8 == ipv4_repr.payload_len,
        spec_message_ok(icmp_repr.message),
    ensures
        final(interface).wf(),
        final(interface).arp_cache.env() == old(interface).arp_cache.env(),
        exists|now: Instant|
            {
                let o = #[trigger] spec_send_packet(
                    old(interface)@,
                    *ipv4_repr,
                    *icmp_repr,
                    payload@,
                    now,
                );
                &&& final(interface)@ == o.state
                &&& r == o.result
                &&& final(tx).deep_view() == old(tx).deep_view() + o.sent
            },
{
    let packet_len = ipv4_repr.buffer_len() - 20;
    let icmp_buffer: Vec<u8> = vec![0; packet_len];
    let mut icmp_packet = match Icmpv4Packet::try_new(icmp_buffer) {
        Ok(icmp_packet) => icmp_packet,
        Err(e) => return Err(e),
    };
    set_bytes(icmp_packet.payload_mut(), 0, payload);
    let ghost written = icmp_packet@;
    assert(written =~= spec_zeros(8) + payload@);
    let _ = icmp_repr.serialize(&mut icmp_packet);
    icmp_packet.fill_checksum();
    let icmp_buffer = icmp_packet.into_inner();
    let r = send_packet_with_repr(interface, ipv4_repr, icmp_buffer.as_slice(), tx);
    let ghost now = choose|now: Instant|
        {
            let o = #[trigger] spec_send_packet_with_repr(
                old(interface)@,
                *ipv4_repr,
                icmp_buffer@,
                now,
            );
            &&& interface@ == o.state
            &&& r == o.result
            &&& tx.deep_view() == old(tx).deep_view() + o.sent
        };
    assert(spec_send_packet(old(interface)@, *ipv4_repr, *icmp_repr, payload@, now)
        == spec_send_packet_with_repr(old(interface)@, *ipv4_repr, icmp_buffer@, now));
    r
}

/// Receives an ICMP packet from an interface.
///
/// This may result in a response to ICMP echo requests, etc.
pub fn recv_packet<T: Env>(
    interface: &mut Interface<T>,
    ipv4_repr: &Ipv4Repr,
    icmp_buffer: &[u8],
    tx: &mut Vec<Vec<u8>>,
) -> (r: Result<()>)
    requires
        old(interface).wf(),
        spec_is_echo_request(icmp_buffer@) ==> icmp_buffer@.len() == ipv4_repr.payload_len
            <= 65515,
    ensures
        final(interface).wf(),
        final(interface).arp_cache.env() == old(interface).arp_cache.env(),
        exists|now: Instant|
            {
                let o = #[trigger] spec_recv_packet(old(interface)@, *ipv4_repr, icmp_buffer@, now);
                &&& final(interface)@ == o.state
                &&& r == o.result
                &&& final(tx).deep_view() == old(tx).deep_view() + o.sent
            },
{
    assert(old(tx).deep_view() + seq![] =~= old(tx).deep_view());
    let icmp_recv_packet = match Icmpv4Packet::try_new(vstd::slice::slice_to_vec(icmp_buffer)) {
        Ok(icmp_recv_packet) => icmp_recv_packet,
        Err(e) => {
            assert(spec_recv_packet(old(interface)@, *ipv4_repr, icmp_buffer@, 0).result == Err::<
                (),
                Error,
            >(e));
            return Err(e);
        },
    };
    match icmp_recv_packet.check_encoding() {
        Ok(_) => {},
        Err(e) => {
            assert(spec_recv_packet(old(interface)@, *ipv4_repr, icmp_buffer@, 0).result == Err::<
                (),
                Error,
            >(e));
            return Err(e);
        },
    }
    let icmp_recv_repr = match Icmpv4Repr::deserialize(&icmp_recv_packet) {
        Ok(icmp_recv_repr) => icmp_recv_repr,
        Err(e) => {
            assert(spec_recv_packet(old(interface)@, *ipv4_repr, icmp_buffer@, 0).result == Err::<
                (),
                Error,
            >(e));
            return Err(e);
        },
    };

    let (ipv4_repr_reply, icmp_repr) = match icmp_recv_repr.message {
        Icmpv4Message::EchoRequest { id, seq } => {
            let ipv4_repr_reply = Ipv4Repr {
                src_addr: ipv4_repr.dst_addr,
                dst_addr: ipv4_repr.src_addr,
                protocol: ipv4_repr.protocol,
                payload_len: ipv4_repr.payload_len,
            };
            (
                ipv4_repr_reply,
                Icmpv4Repr {
                    message: Icmpv4Message::EchoReply { id, seq },
                    payload_len: icmp_recv_repr.payload_len,
                },
            )
        },
        _ => {
            assert(spec_recv_packet(old(interface)@, *ipv4_repr, icmp_buffer@, 0).result == Err::<
                (),
                Error,
            >(Error::NoOp));
            return Err(Error::NoOp);
        },
    };
    let icmp_payload = icmp_recv_packet.payload();
    let r = send_packet(interface, &ipv4_repr_reply, &icmp_repr, icmp_payload, tx);
    let ghost now = choose|now: Instant|
        {
            let o = #[trigger] spec_send_packet(
                old(interface)@,
                ipv4_repr_reply,
                icmp_repr,
                icmp_payload@,
                now,
            );
            &&& interface@ == o.state
            &&& r == o.result
            &&& tx.deep_view() == old(tx).deep_view() + o.sent
        };
    assert(spec_recv_packet(old(interface)@, *ipv4_repr, icmp_buffer@, now) == spec_send_packet(
        old(interface)@,
        ipv4_repr_reply,
        icmp_repr,
        icmp_payload@,
        now,
    ));
    r
}

/// An ICMP packet that the interface sends passes the ICMP checks, reads
/// back as the message it was built from, and carries the payload unchanged.
pub proof fn lemma_icmp_bytes(icmp_repr: Icmpv4Repr, payload: Seq<u8>)
    requires
        spec_message_ok(icmp_repr.message),
        icmp_repr.payload_len == payload.len(),
        payload.len() + 8 <= 65535,
    ensures
        spec_icmp_bytes(icmp_repr, payload).len() == payload.len() + 8,
        spec_check_encoding(spec_icmp_bytes(icmp_repr, payload)) == Ok::<(), Error>(()),
        spec_deserialize(spec_icmp_bytes(icmp_repr, payload)) == Ok::<Icmpv4Repr, Error>(icmp_repr),
        spec_icmp_bytes(icmp_repr, payload).skip(8) == payload,
{
    let s = spec_zeros(8) + payload;
    lemma_serialize_deserialize(icmp_repr, s);
    let b = spec_icmp_bytes(icmp_repr, payload);
    assert(b.skip(8) =~= payload);
}

/// A ping is answered as RFC 792 asks: receiving a valid ICMP echo request
/// (type 8, code 0, a checksum that sums to zero) in an IPv4 packet with
/// header `ipv4_repr` sends back, to the request's source from its
/// destination, an IPv4 packet of the same protocol and length that holds an
/// echo reply: type 0, code 0, the request's identifier and sequence number
/// (bytes 4 to 8) and its payload, with a checksum that sums to zero.
pub proof fn lemma_echo_request_answered(
    s: InterfaceState,
    ipv4_repr: Ipv4Repr,
    bytes: Seq<u8>,
    now: Instant,
)
    requires
        8 <= bytes.len() <= 65535,
        bytes[0] == 8 && bytes[1] == 0,
        crate::check::spec_internet_checksum(bytes) == 0,
    ensures
        ({
            let request = spec_deserialize(bytes)->Ok_0;
            let reply = spec_icmp_bytes(spec_echo_reply(request), bytes.skip(8));
            &&& spec_recv_packet(s, ipv4_repr, bytes, now) == spec_send_packet_with_repr(
                s,
                Ipv4Repr {
                    src_addr: ipv4_repr.dst_addr,
                    dst_addr: ipv4_repr.src_addr,
                    protocol: ipv4_repr.protocol,
                    payload_len: ipv4_repr.payload_len,
                },
                reply,
                now,
            )
            &&& reply.len() == bytes.len()
            &&& reply[0] == 0 && reply[1] == 0
            &&& reply.subrange(4, 8) == bytes.subrange(4, 8)
            &&& reply.skip(8) == bytes.skip(8)
            &&& crate::check::spec_internet_checksum(reply) == 0
        }),
{
    crate::repr::icmpv4::lemma_deserialize_reads_rfc792(bytes);
    let request = spec_deserialize(bytes)->Ok_0;
    let r = spec_echo_reply(request);
    let payload = bytes.skip(8);
    assert(r.message is EchoReply);
    lemma_icmp_bytes(r, payload);
    let z = spec_zeros(8) + payload;
    let t = spec_serialize(r, z);
    crate::repr::icmpv4::lemma_serialize_writes_rfc792(r, z);
    let b = spec_icmp_bytes(r, payload);
    let z2 = crate::bytes::splice(t, 2, crate::bytes::be16_bytes(0));
    crate::bytes::lemma_splice_index(t, 2, crate::bytes::be16_bytes(0));
    crate::bytes::lemma_splice_index(
        z2,
        2,
        crate::bytes::be16_bytes(crate::check::spec_internet_checksum(z2)),
    );
    assert(b[0] == t[0] && b[1] == t[1] && b[4] == t[4] && b[5] == t[5] && b[6] == t[6] && b[7]
        == t[7]);
    if let Icmpv4Message::EchoReply { id, seq } = r.message {
        assert(b[4] * 256 + b[5] == bytes[4] * 256 + bytes[5]);
        assert(b[6] * 256 + b[7] == bytes[6] * 256 + bytes[7]);
        assert(b[4] == bytes[4] && b[5] == bytes[5] && b[6] == bytes[6] && b[7] == bytes[7])
            by (nonlinear_arith)
            requires
                b[4] * 256 + b[5] == bytes[4] * 256 + bytes[5],
                b[6] * 256 + b[7] == bytes[6] * 256 + bytes[7],
        ;
    }
    assert(b.subrange(4, 8) =~= bytes.subrange(4, 8));
    assert(spec_check_encoding(bytes) is Ok);
}

/// Sending an ICMP packet keeps the interface's addresses and every frame
/// goes out from its Ethernet address.
pub proof fn lemma_send_packet_from_interface(
    s: InterfaceState,
    ipv4_repr: Ipv4Repr,
    icmp_repr: Icmpv4Repr,
    payload: Seq<u8>,
    now: Instant,
)
    ensures
        spec_from_interface(s, spec_send_packet(s, ipv4_repr, icmp_repr, payload, now)),
{
    lemma_send_packet_raw_from_interface(
        s,
        ipv4_repr.dst_addr,
        crate::repr::ipv4::spec_header(ipv4_repr) + spec_icmp_bytes(icmp_repr, payload),
        now,
    );
}

/// Receiving an ICMP packet keeps the interface's addresses and any answer
/// goes out from its Ethernet address.
pub proof fn lemma_recv_packet_from_interface(
    s: InterfaceState,
    ipv4_repr: Ipv4Repr,
    bytes: Seq<u8>,
    now: Instant,
)
    ensures
        spec_from_interface(s, spec_recv_packet(s, ipv4_repr, bytes, now)),
{
    if 8 <= bytes.len() <= 65535 && spec_check_encoding(bytes) is Ok && spec_deserialize(bytes) is Ok {
        let r = spec_deserialize(bytes)->Ok_0;
        if r.message is EchoRequest {
            lemma_send_packet_from_interface(
                s,
                spec_swap_addrs(ipv4_repr),
                Icmpv4Repr {
                    message: Icmpv4Message::EchoReply {
                        id: r.message->EchoRequest_id,
                        seq: r.message->EchoRequest_seq,
                    },
                    payload_len: r.payload_len,
                },
                bytes.skip(8),
                now,
            );
        }
    }
}

} // verus!
