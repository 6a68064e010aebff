//! Sending and receiving TCP packets.
use vstd::prelude::*;

use crate::bytes::set_bytes;
use crate::repr::ipv4::{
    spec_header_bytes,
    spec_packet_len,
    spec_payload,
};
use crate::repr::tcp::{
    spec_check_encoding,
    spec_deserializes_to,
    spec_fill_checksum,
    spec_header_len,
    spec_options,
    spec_options_scannable,
    spec_serialized,
};
use crate::repr::{
    Ipv4Packet,
    Ipv4Repr,
    TcpPacket,
    TcpRepr,
};
use crate::service::ipv4::{
    send_packet_with_repr,
    spec_send_packet_with_repr,
};
use crate::service::{
    spec_zeros,
    Interface,
    InterfaceState,
    Outcome,
};
use crate::socket::{
    spec_deliver_tcp,
    SocketAddr,
    SocketSet,
    SocketsView,
};
use crate::bytes::spec_be16;
use crate::time::{
    Env,
    Instant,
};
use crate::{
    Error,
    Result,
};

verus! {

/// `segment` is the TCP packet of `tcp_repr` with `payload`: the header
/// serialized over zeros, the payload after it, and the checksum computed
/// with the pseudo header of `ipv4_repr`.
pub open spec fn spec_tcp_segment(
    ipv4_repr: Ipv4Repr,
    tcp_repr: TcpRepr,
    payload: Seq<u8>,
    segment: Seq<u8>,
) -> bool {
    exists|header: Seq<u8>|
        {
            &&& #[trigger] spec_serialized(
                spec_zeros((spec_header_len(tcp_repr) + payload.len()) as nat),
                header,
                tcp_repr,
            )
            &&& segment == spec_fill_checksum(
                header.take(spec_header_len(tcp_repr)) + payload,
                ipv4_repr,
            )
        }
}

/// Receiving the TCP packet in the IPv4 packet `ipv4_packet` with header
/// `ipv4_repr`: a valid packet goes to the sockets, nothing is sent.
pub open spec fn spec_recv_packet(s: InterfaceState, ipv4_repr: Ipv4Repr, ipv4_packet: Seq<u8>) -> Outcome<
    (),
> {
    let segment = spec_payload(ipv4_packet);
    if segment.len() < 20 {
        Outcome { state: s, result: Err(Error::Exhausted), sent: seq![] }
    } else {
        Outcome { state: s, result: spec_check_encoding(segment, ipv4_repr), sent: seq![] }
    }
}

/// The sockets after receiving the TCP packet in `ipv4_packet` with header
/// `ipv4_repr`: a valid packet goes whole, with its IPv4 header, to the TCP
/// sockets bound to its destination address and port; any other to none.
pub open spec fn spec_recv_sockets(
    sockets: SocketsView,
    ipv4_repr: Ipv4Repr,
    ipv4_packet: Seq<u8>,
) -> SocketsView {
    let segment = spec_payload(ipv4_packet);
    if segment.len() >= 20 && spec_check_encoding(segment, ipv4_repr) is Ok {
        SocketsView {
            tcp: spec_deliver_tcp(
                sockets.tcp,
                SocketAddr { addr: ipv4_repr.dst_addr, port: spec_be16(segment, 2) as u16 },
                (ipv4_repr, segment),
            ),
            ..sockets
        }
    } else {
        sockets
    }
}

/// Sends a TCP packet via the interface.
///
/// This function takes care of serializing a header, calculating a checksum,
/// etc. so the caller provides **only** the payload.
pub fn send_packet<T: Env>(
    interface: &mut Interface<T>,
    ipv4_repr: &Ipv4Repr,
    tcp_repr: &TcpRepr,
    payload: &[u8],
    tx: &mut Vec<Vec<u8>>,
) -> (r: Result<()>)
    requires
        old(interface).wf(),
        ipv4_repr.payload_len <= 65515,
        spec_header_len(*tcp_repr) + payload@.len() == ipv4_repr.payload_len,
    ensures
        final(interface).wf(),
        final(interface).arp_cache.env() == old(interface).arp_cache.env(),
        exists|segment: Seq<u8>, now: Instant|
            {
                let o = #[trigger] spec_send_packet_with_repr(
                    old(interface)@,
                    *ipv4_repr,
                    segment,
                    now,
                );
                &&& spec_tcp_segment(*ipv4_repr, *tcp_repr, payload@, segment)
                &&& final(interface)@ == o.state
                &&& r == o.result
                &&& final(tx).deep_view() == old(tx).deep_view() + o.sent
            },
{
    let packet_len = ipv4_repr.buffer_len() - 20;
    let tcp_buffer: Vec<u8> = vec![0; packet_len];
    let ghost zeros = tcp_buffer@;
    assert(zeros =~= spec_zeros((spec_header_len(*tcp_repr) + payload@.len()) as nat));
    let mut tcp_packet = match TcpPacket::try_new(tcp_buffer) {
        Ok(tcp_packet) => tcp_packet,
        Err(e) => return Err(e),
    };
    let _ = tcp_repr.serialize(&mut tcp_packet);
    let ghost header = tcp_packet@;
    set_bytes(tcp_packet.payload_mut(), 0, payload);
    let ghost written = tcp_packet@;
    assert(written =~= header.take(spec_header_len(*tcp_repr)) + payload@);
    tcp_packet.fill_checksum(ipv4_repr);
    let tcp_buffer = tcp_packet.into_inner();
    assert(spec_tcp_segment(*ipv4_repr, *tcp_repr, payload@, tcp_buffer@)) by {
        assert(spec_serialized(zeros, header, *tcp_repr));
    }
    let r = send_packet_with_repr(interface, ipv4_repr, tcp_buffer.as_slice(), tx);
    r
}

/// Receives a TCP packet from an interface.
///
/// The TCP packet is checked and forwarded to the sockets.
pub fn recv_packet<T: Env>(
    _interface: &Interface<T>,
    ipv4_repr: &Ipv4Repr,
    ipv4_packet: &Ipv4Packet,
    socket_set: &mut SocketSet,
) -> (r: Result<()>)
    requires
        ipv4_packet@.len() >= 20,
        spec_header_bytes(ipv4_packet@) <= spec_packet_len(ipv4_packet@) <= ipv4_packet@.len(),
    ensures
        r == spec_recv_packet(_interface@, *ipv4_repr, ipv4_packet@).result,
        final(socket_set)@ == spec_recv_sockets(old(socket_set)@, *ipv4_repr, ipv4_packet@),
{
    let tcp_packet = match TcpPacket::try_new(vstd::slice::slice_to_vec(ipv4_packet.payload())) {
        Ok(tcp_packet) => tcp_packet,
        Err(e) => return Err(e),
    };
    match tcp_packet.check_encoding(ipv4_repr) {
        Ok(_) => {},
        Err(e) => return Err(e),
    }
    let dst_port = tcp_packet.dst_port();
    let segment = tcp_packet.into_inner();
    socket_set.deliver_tcp(ipv4_repr, dst_port, segment.as_slice());
    Ok(())
}

/// A TCP packet that the interface sends passes the TCP checks, its options
/// can be read, it reads back as the header it was built from, and it
/// carries the payload after the header.
pub proof fn lemma_segment_reads_back(
    ipv4_repr: Ipv4Repr,
    tcp_repr: TcpRepr,
    payload: Seq<u8>,
    segment: Seq<u8>,
)
    requires
        spec_tcp_segment(ipv4_repr, tcp_repr, payload, segment),
    ensures
        spec_check_encoding(segment, ipv4_repr) == Ok::<(), Error>(()),
        spec_options_scannable(spec_options(segment), 0),
        spec_deserializes_to(segment, tcp_repr),
        segment.skip(spec_header_len(tcp_repr)) == payload,
{
    let hl = spec_header_len(tcp_repr);
    let zeros = spec_zeros((hl + payload.len()) as nat);
    let header = choose|header: Seq<u8>|
        {
            &&& #[trigger] spec_serialized(zeros, header, tcp_repr)
            &&& segment == spec_fill_checksum(header.take(hl) + payload, ipv4_repr)
        };
    let s1 = header.take(hl) + payload;
    let s0 = spec_zeros(hl as nat) + payload;
    assert forall|k: int| 0 <= k < hl implies #[trigger] s1[k] == header[k] by {}
    assert(s1.subrange(hl, s1.len() as int) =~= payload);
    assert(s0.subrange(hl, s0.len() as int) =~= payload);
    assert(zeros[12] == 0 && s0[12] == 0);
    assert(spec_serialized(s0, s1, tcp_repr));
    crate::repr::tcp::lemma_serialize_deserialize(tcp_repr, s0, s1, ipv4_repr);
    assert(segment.skip(hl) =~= payload);
}

} // verus!
