//! Sending the packets that raw sockets queued.
use vstd::prelude::*;

use crate::bytes::{
    set_bytes,
    splice,
};
use crate::repr::ipv4::spec_address;
use crate::repr::tcp::spec_header_len;
use crate::repr::{
    Ipv4Address,
    Ipv4Packet,
    Ipv4Protocol,
    Ipv4Repr,
    TcpRepr,
    UdpRepr,
};
use crate::service::ipv4::{
    send_packet_raw,
    spec_send_packet_raw,
    spec_send_packet_with_repr,
};
use crate::service::{
    tcp,
    udp,
};
use crate::socket::{
    spec_dequeued,
    spec_has,
    SocketAddr,
    SocketRef,
    SocketSet,
    SocketsView,
};
use crate::service::{
    send,
    Interface,
    InterfaceState,
    Outcome,
};
pub use crate::socket::RawType;
use crate::time::{
    Env,
    Instant,
};
use crate::{
    Error,
    Result,
};

verus! {

/// Sending a buffer that a raw socket queued, at `now`: an Ethernet frame
/// goes out as it is but for its source address, which becomes the
/// interface's; an IPv4 packet goes to the destination in its header, and a
/// buffer too short to be one is dropped.
pub open spec fn spec_send_raw_socket(
    s: InterfaceState,
    raw_type: RawType,
    buffer: Seq<u8>,
    now: Instant,
) -> Outcome<()> {
    match raw_type {
        RawType::Ethernet => if 14 <= buffer.len() <= 1518 {
            Outcome {
                state: s,
                result: Ok(()),
                sent: seq![splice(buffer, 6, s.ethernet_addr@)],
            }
        } else {
            Outcome { state: s, result: Err(Error::Exhausted), sent: seq![] }
        },
        RawType::Ipv4 => if buffer.len() >= 20 {
            spec_send_packet_raw(s, spec_address(buffer.subrange(16, 20)), buffer, now)
        } else {
            Outcome { state: s, result: Ok(()), sent: seq![] }
        },
    }
}

/// Sends a buffer that a raw socket queued via the interface.
///
/// NOTE: We overwrite the MAC source address so the socket user should
/// ensure this is set correctly in the frame they are writing.
pub fn send_raw_socket<T: Env>(
    interface: &mut Interface<T>,
    raw_type: RawType,
    buffer: &[u8],
    tx: &mut Vec<Vec<u8>>,
) -> (r: Result<()>)
    requires
        old(interface).wf(),
    ensures
        final(interface).wf(),
        final(interface).arp_cache.env() == old(interface).arp_cache.env(),
        exists|now: Instant|
            {
                let o = #[trigger] spec_send_raw_socket(old(interface)@, raw_type, buffer@, now);
                &&& final(interface)@ == o.state
                &&& r == o.result
                &&& final(tx).deep_view() == old(tx).deep_view() + o.sent
            },
{
    assert(old(tx).deep_view() + seq![] =~= old(tx).deep_view());
    match raw_type {
        RawType::Ethernet => {
            if buffer.len() < 14 || buffer.len() > 1518 {
                assert(spec_send_raw_socket(old(interface)@, raw_type, buffer@, 0).result
                    == Err::<(), Error>(Error::Exhausted));
                return Err(Error::Exhausted);
            }
            let mut eth_buffer = vstd::slice::slice_to_vec(buffer);
            proof {
                crate::repr::ethernet::lemma_address_view(interface.ethernet_addr);
            }
            set_bytes(eth_buffer.as_mut_slice(), 6, interface.ethernet_addr.as_bytes());
            let ghost f = eth_buffer@;
            send(tx, eth_buffer);
            assert(tx.deep_view() =~= old(tx).deep_view() + seq![f]);
            assert(spec_send_raw_socket(old(interface)@, raw_type, buffer@, 0).sent == seq![f]);
            Ok(())
        },
        RawType::Ipv4 => {
            let ipv4_packet = match Ipv4Packet::try_new(vstd::slice::slice_to_vec(buffer)) {
                Ok(ipv4_packet) => ipv4_packet,
                Err(_) => {
                    assert(spec_send_raw_socket(old(interface)@, raw_type, buffer@, 0).state
                        == interface@);
                    return Ok(());
                },
            };
            let dst_addr = ipv4_packet.dst_addr();
            let r = send_packet_raw(interface, dst_addr, buffer, tx);
            let ghost now = choose|now: Instant|
                {
                    let o = #[trigger] spec_send_packet_raw(
                        old(interface)@,
                        dst_addr,
                        buffer@,
                        now,
                    );
                    &&& interface@ == o.state
                    &&& r == o.result
                    &&& tx.deep_view() == old(tx).deep_view() + o.sent
                };
            assert(spec_send_raw_socket(old(interface)@, raw_type, buffer@, now)
                == spec_send_packet_raw(old(interface)@, dst_addr, buffer@, now));
            r
        },
    }
}

/// The IPv4 header of a UDP payload of `len` bytes that a socket bound to
/// `src` sends to `dst`.
pub open spec fn spec_udp_ipv4_repr(src: SocketAddr, dst: SocketAddr, len: nat) -> Ipv4Repr {
    Ipv4Repr {
        src_addr: src.addr,
        dst_addr: dst.addr,
        protocol: Ipv4Protocol::UDP,
        payload_len: (len + 8) as u16,
    }
}

/// The UDP header of a UDP payload of `len` bytes that a socket bound to
/// `src` sends to `dst`.
pub open spec fn spec_udp_repr(src: SocketAddr, dst: SocketAddr, len: nat) -> UdpRepr {
    UdpRepr { src_port: src.port, dst_port: dst.port, length: (len + 8) as u16 }
}

/// The IPv4 header of a TCP payload of `len` bytes with header `tcp_repr`
/// that a socket bound to `src` sends to `dst_addr`.
pub open spec fn spec_tcp_ipv4_repr(
    src: SocketAddr,
    dst_addr: Ipv4Address,
    tcp_repr: TcpRepr,
    len: nat,
) -> Ipv4Repr {
    Ipv4Repr {
        src_addr: src.addr,
        dst_addr,
        protocol: Ipv4Protocol::TCP,
        payload_len: (spec_header_len(tcp_repr) + len) as u16,
    }
}

/// Whether the oldest TCP payload that `socket` queued fits an IPv4 packet.
pub open spec fn spec_tcp_fits(sockets: SocketsView, socket: SocketRef) -> bool {
    match socket {
        SocketRef::Tcp(i) => sockets.tcp_tx[i as int].len() > 0 && {
            let (_, tcp_repr, payload) = sockets.tcp_tx[i as int][0];
            spec_header_len(tcp_repr) + payload.len() <= 65515
        },
        _ => false,
    }
}

/// The IPv4 header of the oldest TCP payload that `socket` queued.
pub open spec fn spec_tcp_header(sockets: SocketsView, socket: SocketRef) -> Ipv4Repr {
    let i = socket->Tcp_0 as int;
    let (dst_addr, tcp_repr, payload) = sockets.tcp_tx[i][0];
    spec_tcp_ipv4_repr(sockets.tcp[i].0, dst_addr, tcp_repr, payload.len())
}

/// Sending the oldest packet that `socket` queued, at `now`: a socket with
/// nothing queued gives `Exhausted`; a raw socket sends its buffer as a raw
/// socket does; a UDP socket sends its payload from its own address and
/// port, and a TCP socket its payload with its header from its own address,
/// as `segment`; a payload too long for an IPv4 packet gives `Exhausted`.
/// The packet leaves the queue whatever the result.
pub open spec fn spec_send_socket(
    s: InterfaceState,
    sockets: SocketsView,
    socket: SocketRef,
    now: Instant,
    segment: Seq<u8>,
) -> Outcome<()> {
    let exhausted = Outcome { state: s, result: Err(Error::Exhausted), sent: seq![] };
    match socket {
        SocketRef::Raw(i) => if sockets.raw_tx[i as int].len() == 0 {
            exhausted
        } else {
            spec_send_raw_socket(s, sockets.raw[i as int].0, sockets.raw_tx[i as int][0], now)
        },
        SocketRef::Udp(i) => if sockets.udp_tx[i as int].len() == 0 {
            exhausted
        } else {
            let (dst, payload) = sockets.udp_tx[i as int][0];
            let src = sockets.udp[i as int].0;
            if payload.len() > 65507 {
                exhausted
            } else {
                udp::spec_send_packet(
                    s,
                    spec_udp_ipv4_repr(src, dst, payload.len()),
                    spec_udp_repr(src, dst, payload.len()),
                    payload,
                    now,
                )
            }
        },
        SocketRef::Tcp(i) => if !spec_tcp_fits(sockets, socket) {
            exhausted
        } else {
            spec_send_packet_with_repr(s, spec_tcp_header(sockets, socket), segment, now)
        },
    }
}

/// Sends the oldest packet that a socket queued via the interface.
pub fn send_socket<T: Env>(
    interface: &mut Interface<T>,
    socket_set: &mut SocketSet,
    socket: SocketRef,
    tx: &mut Vec<Vec<u8>>,
) -> (r: Result<()>)
    requires
        old(interface).wf(),
        spec_has(old(socket_set)@, socket),
    ensures
        final(interface).wf(),
        final(interface).arp_cache.env() == old(interface).arp_cache.env(),
        final(socket_set)@ == spec_dequeued(old(socket_set)@, socket),
        exists|now: Instant, segment: Seq<u8>|
            {
                let o = #[trigger] spec_send_socket(
                    old(interface)@,
                    old(socket_set)@,
                    socket,
                    now,
                    segment,
                );
                &&& spec_tcp_fits(old(socket_set)@, socket) ==> {
                    let (_, tcp_repr, payload) = old(socket_set)@.tcp_tx[socket->Tcp_0 as int][0];
                    tcp::spec_tcp_segment(
                        spec_tcp_header(old(socket_set)@, socket),
                        tcp_repr,
                        payload,
                        segment,
                    )
                }
                &&& final(interface)@ == o.state
                &&& r == o.result
                &&& final(tx).deep_view() == old(tx).deep_view() + o.sent
            },
{
    assert(old(tx).deep_view() + seq![] =~= old(tx).deep_view());
    let ghost sk = socket_set@;
    match socket {
        SocketRef::Raw(i) => {
            let raw_type = socket_set.raw_type(i);
            let buffer = match socket_set.raw_dequeue(i) {
                Some(buffer) => buffer,
                None => {
                    assert(spec_send_socket(old(interface)@, sk, socket, 0, seq![]).state == interface@);
                    return Err(Error::Exhausted);
                },
            };
            let r = send_raw_socket(interface, raw_type, buffer.as_slice(), tx);
            let ghost now = choose|now: Instant|
                {
                    let o = #[trigger] spec_send_raw_socket(old(interface)@, raw_type, buffer@, now);
                    &&& interface@ == o.state
                    &&& r == o.result
                    &&& tx.deep_view() == old(tx).deep_view() + o.sent
                };
            assert(spec_send_socket(old(interface)@, sk, socket, now, seq![])
                == spec_send_raw_socket(old(interface)@, raw_type, buffer@, now));
            r
        },
        SocketRef::Udp(i) => {
            let src = socket_set.udp_addr(i);
            let out = match socket_set.udp_dequeue(i) {
                Some(out) => out,
                None => {
                    assert(spec_send_socket(old(interface)@, sk, socket, 0, seq![]).state == interface@);
                    return Err(Error::Exhausted);
                },
            };
            if out.payload.len() > 65507 {
                assert(spec_send_socket(old(interface)@, sk, socket, 0, seq![]).state == interface@);
                return Err(Error::Exhausted);
            }
            let len: u16 = out.payload.len() as u16 + 8;
            let ipv4_repr = Ipv4Repr {
                src_addr: src.addr,
                dst_addr: out.dst.addr,
                protocol: Ipv4Protocol::UDP,
                payload_len: len,
            };
            let udp_repr = UdpRepr { src_port: src.port, dst_port: out.dst.port, length: len };
            let r = udp::send_packet(interface, &ipv4_repr, &udp_repr, out.payload.as_slice(), tx);
            let ghost now = choose|now: Instant|
                {
                    let o = #[trigger] udp::spec_send_packet(
                        old(interface)@,
                        ipv4_repr,
                        udp_repr,
                        out.payload@,
                        now,
                    );
                    &&& interface@ == o.state
                    &&& r == o.result
                    &&& tx.deep_view() == old(tx).deep_view() + o.sent
                };
            assert(spec_send_socket(old(interface)@, sk, socket, now, seq![])
                == udp::spec_send_packet(old(interface)@, ipv4_repr, udp_repr, out.payload@, now));
            r
        },
        SocketRef::Tcp(i) => {
            let src = socket_set.tcp_addr(i);
            let out = match socket_set.tcp_dequeue(i) {
                Some(out) => out,
                None => {
                    assert(spec_send_socket(old(interface)@, sk, socket, 0, seq![]).state == interface@);
                    return Err(Error::Exhausted);
                },
            };
            let header_len = out.tcp_repr.header_len();
            if out.payload.len() > 65515 - header_len {
                assert(spec_send_socket(old(interface)@, sk, socket, 0, seq![]).state == interface@);
                return Err(Error::Exhausted);
            }
            let ipv4_repr = Ipv4Repr {
                src_addr: src.addr,
                dst_addr: out.dst_addr,
                protocol: Ipv4Protocol::TCP,
                payload_len: (header_len + out.payload.len()) as u16,
            };
            assert(ipv4_repr == spec_tcp_header(sk, socket));
            let r = tcp::send_packet(interface, &ipv4_repr, &out.tcp_repr, out.payload.as_slice(), tx);
            let ghost (segment, now) = choose|segment: Seq<u8>, now: Instant|
                {
                    let o = #[trigger] spec_send_packet_with_repr(
                        old(interface)@,
                        ipv4_repr,
                        segment,
                        now,
                    );
                    &&& tcp::spec_tcp_segment(ipv4_repr, out.tcp_repr, out.payload@, segment)
                    &&& interface@ == o.state
                    &&& r == o.result
                    &&& tx.deep_view() == old(tx).deep_view() + o.sent
                };
            assert(spec_send_socket(old(interface)@, sk, socket, now, segment)
                == spec_send_packet_with_repr(old(interface)@, ipv4_repr, segment, now));
            r
        },
    }
}

/// Where a round of sending from the sockets of a set stands: the number of
/// sockets, the position of the socket whose turn it is in the current pass,
/// and how many sockets failed to send in the pass so far.
#[derive(Clone, Copy, Debug, PartialEq, Eq, Structural)]
pub struct SendRound {
    pub count: usize,
    pub position: usize,
    pub errors: usize,
}

/// What came of a socket's turn: it sent a packet, it failed to (it had
/// nothing queued, or its packet could not go out), or the device refused a
/// frame.
#[derive(Clone, Copy, Debug, PartialEq, Eq, Structural)]
pub enum SendOutcome {
    Sent,
    Failed,
    DeviceFailed,
}

/// What to do next: let the socket at a position send one packet, or stop.
#[derive(Clone, Copy, Debug, PartialEq, Eq, Structural)]
pub enum SendAction {
    Send(usize),
    Stop,
}

/// A round over `count` sockets starts with the first socket of a pass; with
/// no socket it stops at once.
pub open spec fn spec_start_round(count: usize) -> (SendRound, SendAction) {
    let round = SendRound { count, position: 0, errors: 0 };
    if count == 0 {
        (round, SendAction::Stop)
    } else {
        (round, SendAction::Send(0))
    }
}

/// The step of a round after a socket's turn: a device failure stops the
/// round; otherwise a failure is counted and the turn passes to the next
/// socket of the pass. At the end of a pass the round stops when every
/// socket of the pass failed, and starts a new pass otherwise.
pub open spec fn spec_send_step(round: SendRound, outcome: SendOutcome) -> (SendRound, SendAction) {
    if outcome == SendOutcome::DeviceFailed {
        (round, SendAction::Stop)
    } else {
        let errors: int = if outcome == SendOutcome::Failed {
            round.errors + 1
        } else {
            round.errors as int
        };
        let position: int = round.position + 1;
        if position < round.count {
            (
                SendRound { count: round.count, position: position as usize, errors: errors as usize },
                SendAction::Send(position as usize),
            )
        } else if errors >= round.count {
            (
                SendRound { count: round.count, position: round.position, errors: errors as usize },
                SendAction::Stop,
            )
        } else {
            (SendRound { count: round.count, position: 0, errors: 0 }, SendAction::Send(0))
        }
    }
}

/// Where a round is between two turns: a socket of the pass has the turn and
/// no more sockets than those before it failed.
pub open spec fn spec_round_wf(round: SendRound) -> bool {
    round.errors <= round.position < round.count
}

/// Starts a round of sending over `count` sockets.
pub fn start_round(count: usize) -> (next: (SendRound, SendAction))
    ensures
        next == spec_start_round(count),
        next.1 is Send ==> spec_round_wf(next.0),
{
    let round = SendRound { count, position: 0, errors: 0 };
    if count == 0 {
        (round, SendAction::Stop)
    } else {
        (round, SendAction::Send(0))
    }
}

/// Decides what follows a socket's turn in a round of sending: the sockets
/// send in turn, pass after pass, so that none starves; the round stops on a
/// device failure or after a pass in which every socket failed.
pub fn send_step(round: SendRound, outcome: SendOutcome) -> (next: (SendRound, SendAction))
    requires
        spec_round_wf(round),
    ensures
        next == spec_send_step(round, outcome),
        next.1 matches SendAction::Send(k) ==> spec_round_wf(next.0) && k == next.0.position,
{
    if outcome == SendOutcome::DeviceFailed {
        return (round, SendAction::Stop);
    }
    let errors = if outcome == SendOutcome::Failed {
        round.errors + 1
    } else {
        round.errors
    };
    let position = round.position + 1;
    if position < round.count {
        (SendRound { count: round.count, position, errors }, SendAction::Send(position))
    } else if errors >= round.count {
        (SendRound { count: round.count, position: round.position, errors }, SendAction::Stop)
    } else {
        (SendRound { count: round.count, position: 0, errors: 0 }, SendAction::Send(0))
    }
}

/// A pass in which every socket fails ends the round, and a pass in which a
/// socket sends is followed by another pass from the first socket.
pub proof fn lemma_pass_end(round: SendRound, outcome: SendOutcome)
    requires
        spec_round_wf(round),
        round.position == round.count - 1,
        outcome != SendOutcome::DeviceFailed,
    ensures
        spec_send_step(round, outcome).1 == if round.errors + (if outcome == SendOutcome::Failed {
            1int
        } else {
            0
        }) >= round.count {
            SendAction::Stop
        } else {
            SendAction::Send(0)
        },
{
}

} // verus!
