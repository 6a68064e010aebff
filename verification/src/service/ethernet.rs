//! Sending and receiving Ethernet frames.
use vstd::prelude::*;

use crate::bytes::set_bytes;
use crate::repr::ethernet::{
    spec_broadcast_bytes,
    spec_payload_type,
};
use crate::repr::{
    eth_types,
    EthernetAddress,
    EthernetFrame,
};
use crate::service::{
    arp,
    ipv4,
    lemma_frame_source,
    send,
    spec_frame,
    spec_from_interface,
    Interface,
    InterfaceState,
    Outcome,
};
use crate::socket::{
    spec_deliver_raw,
    RawType,
    SocketSet,
    SocketsView,
};
use crate::time::{
    Env,
    Instant,
};
use crate::{
    Error,
    Result,
};

verus! {

/// The largest payload of an Ethernet frame.
pub const MAX_PAYLOAD_LEN: usize = 1504;

/// Sending a frame: it is queued when its payload fits a frame.
pub open spec fn spec_send_frame(
    s: InterfaceState,
    dst_addr: EthernetAddress,
    payload_type: u16,
    payload: Seq<u8>,
) -> Outcome<()> {
    if payload.len() <= MAX_PAYLOAD_LEN {
        Outcome {
            state: s,
            result: Ok(()),
            sent: seq![spec_frame(dst_addr, s.ethernet_addr, payload_type, payload)],
        }
    } else {
        Outcome { state: s, result: Err(Error::Exhausted), sent: seq![] }
    }
}

/// Receiving the Ethernet frame `eth_frame`: a frame for the interface (or
/// for everyone) goes up to the protocol it carries; `t1`, `t2` and
/// `accepted` are as for IPv4.
pub open spec fn spec_recv_frame(
    s: InterfaceState,
    eth_frame: Seq<u8>,
    t1: Instant,
    t2: Instant,
    accepted: bool,
) -> Outcome<()> {
    if eth_frame.len() < 14 || eth_frame.len() > 1518 {
        Outcome { state: s, result: Err(Error::Exhausted), sent: seq![] }
    } else if eth_frame.take(6) != s.ethernet_addr@ && eth_frame.take(6) != spec_broadcast_bytes() {
        Outcome { state: s, result: Err(Error::NoOp), sent: seq![] }
    } else if spec_payload_type(eth_frame) == eth_types::ARP {
        arp::spec_recv_packet(s, eth_frame, t1)
    } else if spec_payload_type(eth_frame) == eth_types::IPV4 {
        ipv4::spec_recv_packet(s, eth_frame, t1, t2, accepted)
    } else {
        Outcome { state: s, result: Err(Error::NoOp), sent: seq![] }
    }
}

/// The sockets after receiving the Ethernet frame `eth_frame`: a frame for
/// the interface goes to the raw Ethernet sockets and, when it carries IPv4,
/// on to the sockets that the IPv4 packet reaches; any other frame goes to
/// no socket.
pub open spec fn spec_recv_sockets(
    sockets: SocketsView,
    s: InterfaceState,
    eth_frame: Seq<u8>,
) -> SocketsView {
    if eth_frame.len() < 14 || eth_frame.len() > 1518 {
        sockets
    } else if eth_frame.take(6) != s.ethernet_addr@ && eth_frame.take(6) != spec_broadcast_bytes() {
        sockets
    } else {
        let raw = SocketsView {
            raw: spec_deliver_raw(sockets.raw, RawType::Ethernet, eth_frame),
            ..sockets
        };
        if spec_payload_type(eth_frame) == eth_types::IPV4 {
            ipv4::spec_recv_sockets(raw, s, eth_frame)
        } else {
            raw
        }
    }
}

/// Send an Ethernet frame via an interface: the frame goes to `dst_addr`,
/// carries `payload` of type `payload_type` and has the Ethernet address of
/// the interface as its source.
pub fn send_frame<T: Env>(
    interface: &Interface<T>,
    dst_addr: EthernetAddress,
    payload_type: u16,
    payload: &[u8],
    tx: &mut Vec<Vec<u8>>,
) -> (r: Result<()>)
    ensures
        ({
            let o = spec_send_frame(interface@, dst_addr, payload_type, payload@);
            r == o.result && final(tx).deep_view() == old(tx).deep_view() + o.sent
        }),
{
    if payload.len() > MAX_PAYLOAD_LEN {
        assert(old(tx).deep_view() + seq![] =~= old(tx).deep_view());
        return Err(Error::Exhausted);
    }
    let eth_frame_len = EthernetFrame::buffer_len(payload.len());
    let eth_buffer: Vec<u8> = vec![0; eth_frame_len];
    let mut eth_frame = match EthernetFrame::try_new(eth_buffer) {
        Ok(eth_frame) => eth_frame,
        Err(e) => return Err(e),
    };
    eth_frame.set_dst_addr(dst_addr);
    eth_frame.set_payload_type(payload_type);
    set_bytes(eth_frame.payload_mut(), 0, payload);
    eth_frame.set_src_addr(interface.ethernet_addr);
    let ghost f = eth_frame@;
    proof {
        crate::repr::ethernet::lemma_address_view(dst_addr);
        crate::repr::ethernet::lemma_address_view(interface.ethernet_addr);
        assert(f =~= spec_frame(dst_addr, interface.ethernet_addr, payload_type, payload@));
    }
    send(tx, eth_frame.into_inner());
    assert(tx.deep_view() =~= old(tx).deep_view() + seq![f]);
    Ok(())
}

/// Receives an Ethernet frame from an interface.
///
/// The Ethernet frame is parsed, forwarded to any sockets, and propagated up
/// the network stack.
pub fn recv_frame<T: Env>(
    interface: &mut Interface<T>,
    eth_buffer: &[u8],
    socket_set: &mut SocketSet,
    tx: &mut Vec<Vec<u8>>,
) -> (r: Result<()>)
    requires
        old(interface).wf(),
    ensures
        final(interface).wf(),
        final(interface).arp_cache.env() == old(interface).arp_cache.env(),
        final(socket_set)@ == spec_recv_sockets(old(socket_set)@, old(interface)@, eth_buffer@),
        exists|t1: Instant, t2: Instant|
            {
                let o = #[trigger] spec_recv_frame(
                    old(interface)@,
                    eth_buffer@,
                    t1,
                    t2,
                    ipv4::spec_accepted(old(socket_set)@, eth_buffer@),
                );
                &&& final(interface)@ == o.state
                &&& r == o.result
                &&& final(tx).deep_view() == old(tx).deep_view() + o.sent
            },
{
    assert(old(tx).deep_view() + seq![] =~= old(tx).deep_view());
    let eth_frame = match EthernetFrame::try_new(vstd::slice::slice_to_vec(eth_buffer)) {
        Ok(eth_frame) => eth_frame,
        Err(e) => {
            assert(spec_recv_frame(old(interface)@, eth_buffer@, 0, 0, ipv4::spec_accepted(old(socket_set)@, eth_buffer@)).result == Err::<
                (),
                Error,
            >(e));
            return Err(e);
        },
    };
    let dst_addr = eth_frame.dst_addr();
    if dst_addr != interface.ethernet_addr && !dst_addr.is_broadcast() {
        assert(spec_recv_frame(old(interface)@, eth_buffer@, 0, 0, ipv4::spec_accepted(old(socket_set)@, eth_buffer@)).result == Err::<
            (),
            Error,
        >(Error::NoOp));
        return Err(Error::NoOp);
    }

    socket_set.deliver_raw(RawType::Ethernet, eth_frame.as_ref());
    let ghost sk1 = socket_set@;

    let payload_type = eth_frame.payload_type();
    if payload_type == eth_types::ARP {
        let r = arp::recv_packet(interface, &eth_frame, tx);
        let ghost t1 = choose|now: Instant|
            {
                let o = #[trigger] arp::spec_recv_packet(old(interface)@, eth_buffer@, now);
                &&& interface@ == o.state
                &&& r == o.result
                &&& tx.deep_view() == old(tx).deep_view() + o.sent
            };
        assert(spec_recv_frame(old(interface)@, eth_buffer@, t1, 0, ipv4::spec_accepted(old(socket_set)@, eth_buffer@))
            == arp::spec_recv_packet(old(interface)@, eth_buffer@, t1));
        r
    } else if payload_type == eth_types::IPV4 {
        let r = ipv4::recv_packet(interface, &eth_frame, socket_set, tx);
        let ghost accepted = ipv4::spec_accepted(sk1, eth_buffer@);
        let ghost (t1, t2) = choose|t1: Instant, t2: Instant|
            {
                let o = #[trigger] ipv4::spec_recv_packet(
                    old(interface)@,
                    eth_buffer@,
                    t1,
                    t2,
                    accepted,
                );
                &&& interface@ == o.state
                &&& r == o.result
                &&& tx.deep_view() == old(tx).deep_view() + o.sent
            };
        assert(spec_recv_frame(old(interface)@, eth_buffer@, t1, t2, ipv4::spec_accepted(old(socket_set)@, eth_buffer@))
            == ipv4::spec_recv_packet(old(interface)@, eth_buffer@, t1, t2, accepted));
        r
    } else {
        assert(spec_recv_frame(old(interface)@, eth_buffer@, 0, 0, ipv4::spec_accepted(old(socket_set)@, eth_buffer@)).result == Err::<
            (),
            Error,
        >(Error::NoOp));
        Err(Error::NoOp)
    }
}

/// Sending a frame keeps the interface and sends from its address.
pub proof fn lemma_send_frame_from_interface(
    s: InterfaceState,
    dst_addr: EthernetAddress,
    payload_type: u16,
    payload: Seq<u8>,
)
    ensures
        spec_from_interface(s, spec_send_frame(s, dst_addr, payload_type, payload)),
{
    lemma_frame_source(dst_addr, s.ethernet_addr, payload_type, payload);
}

/// Whatever frame the interface receives, it keeps its addresses and every
/// frame it sends in response has its own Ethernet address as the source.
pub proof fn lemma_recv_frame_from_interface(
    s: InterfaceState,
    eth_frame: Seq<u8>,
    t1: Instant,
    t2: Instant,
    accepted: bool,
)
    ensures
        spec_from_interface(s, spec_recv_frame(s, eth_frame, t1, t2, accepted)),
{
    if 14 <= eth_frame.len() <= 1518 {
        arp::lemma_recv_packet_from_interface(s, eth_frame, t1);
        ipv4::lemma_recv_packet_from_interface(s, eth_frame, t1, t2, accepted);
    }
}

/// A frame for another host is ignored: nothing changes, nothing is sent
/// and no socket is handed anything.
pub proof fn lemma_foreign_frame_ignored(
    s: InterfaceState,
    sockets: SocketsView,
    eth_frame: Seq<u8>,
    t1: Instant,
    t2: Instant,
    accepted: bool,
)
    requires
        14 <= eth_frame.len() <= 1518,
        eth_frame.take(6) != s.ethernet_addr@,
        eth_frame.take(6) != spec_broadcast_bytes(),
    ensures
        spec_recv_frame(s, eth_frame, t1, t2, accepted) == (Outcome::<()> {
            state: s,
            result: Err(Error::NoOp),
            sent: seq![],
        }),
        spec_recv_sockets(sockets, s, eth_frame) == sockets,
{
}

} // verus!
