//! Sockets: where the packets that an interface receives wait for their
//! users, and where the packets that users send wait for the interface.
use vstd::prelude::*;

use crate::repr::{
    Ipv4Address,
    Ipv4Repr,
    TcpRepr,
    UdpRepr,
};

verus! {

/// A local address and port that a socket is bound to.
#[derive(Clone, Copy, Debug)]
pub struct SocketAddr {
    pub addr: Ipv4Address,
    pub port: u16,
}

/// Whether a socket bound to `bound` takes packets for `dst`.
pub open spec fn spec_binds(bound: SocketAddr, dst: SocketAddr) -> bool {
    bound.addr@ == dst.addr@ && bound.port == dst.port
}

/// What a raw socket takes: whole Ethernet frames or whole IPv4 packets.
#[derive(Clone, Copy, Debug, PartialEq, Eq, Structural)]
pub enum RawType {
    Ethernet,
    Ipv4,
}

/// A socket of a set: a raw, a UDP or a TCP socket, by its index among the
/// sockets of its kind.
#[derive(Clone, Copy, Debug, PartialEq, Eq, Structural)]
pub enum SocketRef {
    Raw(usize),
    Udp(usize),
    Tcp(usize),
}

/// A received UDP packet: its IPv4 header, its UDP header and its payload.
pub struct UdpDatagram {
    pub ipv4_repr: Ipv4Repr,
    pub udp_repr: UdpRepr,
    pub payload: Vec<u8>,
}

/// A received TCP packet: its IPv4 header and the TCP packet.
pub struct TcpSegment {
    pub ipv4_repr: Ipv4Repr,
    pub segment: Vec<u8>,
}

/// A UDP payload waiting to be sent to `dst`.
pub struct UdpOut {
    pub dst: SocketAddr,
    pub payload: Vec<u8>,
}

/// A TCP payload waiting to be sent to `dst_addr` with the header `tcp_repr`.
pub struct TcpOut {
    pub dst_addr: Ipv4Address,
    pub tcp_repr: TcpRepr,
    pub payload: Vec<u8>,
}

struct RawSocket {
    raw_type: RawType,
    rx: Vec<Vec<u8>>,
    tx: Vec<Vec<u8>>,
}

struct UdpSocket {
    addr: SocketAddr,
    rx: Vec<UdpDatagram>,
    tx: Vec<UdpOut>,
}

struct TcpSocket {
    addr: SocketAddr,
    rx: Vec<TcpSegment>,
    tx: Vec<TcpOut>,
}

/// The bytes of each buffer of a queue.
pub open spec fn spec_buffers(q: Seq<Vec<u8>>) -> Seq<Seq<u8>> {
    Seq::new(q.len(), |k: int| q[k]@)
}

/// The headers and the payload of each datagram of a queue.
pub open spec fn spec_datagrams(q: Seq<UdpDatagram>) -> Seq<(Ipv4Repr, UdpRepr, Seq<u8>)> {
    Seq::new(q.len(), |k: int| (q[k].ipv4_repr, q[k].udp_repr, q[k].payload@))
}

/// The IPv4 header and the bytes of each segment of a queue.
pub open spec fn spec_segments(q: Seq<TcpSegment>) -> Seq<(Ipv4Repr, Seq<u8>)> {
    Seq::new(q.len(), |k: int| (q[k].ipv4_repr, q[k].segment@))
}

/// The destination and the payload of each UDP payload of a queue.
pub open spec fn spec_udp_outs(q: Seq<UdpOut>) -> Seq<(SocketAddr, Seq<u8>)> {
    Seq::new(q.len(), |k: int| (q[k].dst, q[k].payload@))
}

/// The destination, the header and the payload of each TCP payload of a
/// queue.
pub open spec fn spec_tcp_outs(q: Seq<TcpOut>) -> Seq<(Ipv4Address, TcpRepr, Seq<u8>)> {
    Seq::new(q.len(), |k: int| (q[k].dst_addr, q[k].tcp_repr, q[k].payload@))
}

/// The sockets of a set: each raw socket with its type and the packets
/// waiting on it, each UDP and TCP socket with its address and the packets
/// waiting on it; and, socket by socket, what waits to be sent.
pub struct SocketsView {
    pub raw: Seq<(RawType, Seq<Seq<u8>>)>,
    pub udp: Seq<(SocketAddr, Seq<(Ipv4Repr, UdpRepr, Seq<u8>)>)>,
    pub tcp: Seq<(SocketAddr, Seq<(Ipv4Repr, Seq<u8>)>)>,
    pub raw_tx: Seq<Seq<Seq<u8>>>,
    pub udp_tx: Seq<Seq<(SocketAddr, Seq<u8>)>>,
    pub tcp_tx: Seq<Seq<(Ipv4Address, TcpRepr, Seq<u8>)>>,
}

/// The raw sockets of type `raw_type` take `packet`.
pub open spec fn spec_deliver_raw(
    raw: Seq<(RawType, Seq<Seq<u8>>)>,
    raw_type: RawType,
    packet: Seq<u8>,
) -> Seq<(RawType, Seq<Seq<u8>>)> {
    Seq::new(
        raw.len(),
        |i: int|
            if raw[i].0 == raw_type {
                (raw[i].0, raw[i].1.push(packet))
            } else {
                raw[i]
            },
    )
}

/// Whether a UDP socket is bound to `dst`.
pub open spec fn spec_udp_accepts(
    udp: Seq<(SocketAddr, Seq<(Ipv4Repr, UdpRepr, Seq<u8>)>)>,
    dst: SocketAddr,
) -> bool {
    exists|i: int| 0 <= i < udp.len() && spec_binds(#[trigger] udp[i].0, dst)
}

/// The UDP sockets bound to `dst` take `datagram`.
pub open spec fn spec_deliver_udp(
    udp: Seq<(SocketAddr, Seq<(Ipv4Repr, UdpRepr, Seq<u8>)>)>,
    dst: SocketAddr,
    datagram: (Ipv4Repr, UdpRepr, Seq<u8>),
) -> Seq<(SocketAddr, Seq<(Ipv4Repr, UdpRepr, Seq<u8>)>)> {
    Seq::new(
        udp.len(),
        |i: int|
            if spec_binds(udp[i].0, dst) {
                (udp[i].0, udp[i].1.push(datagram))
            } else {
                udp[i]
            },
    )
}

/// The TCP sockets bound to `dst` take `segment`.
pub open spec fn spec_deliver_tcp(
    tcp: Seq<(SocketAddr, Seq<(Ipv4Repr, Seq<u8>)>)>,
    dst: SocketAddr,
    segment: (Ipv4Repr, Seq<u8>),
) -> Seq<(SocketAddr, Seq<(Ipv4Repr, Seq<u8>)>)> {
    Seq::new(
        tcp.len(),
        |i: int|
            if spec_binds(tcp[i].0, dst) {
                (tcp[i].0, tcp[i].1.push(segment))
            } else {
                tcp[i]
            },
    )
}

/// The socket at position `k` of a set: the raw sockets come first, then the
/// UDP sockets, then the TCP sockets.
pub open spec fn spec_socket_at(sockets: SocketsView, k: int) -> SocketRef {
    if k < sockets.raw.len() {
        SocketRef::Raw(k as usize)
    } else if k - sockets.raw.len() < sockets.udp.len() {
        SocketRef::Udp((k - sockets.raw.len()) as usize)
    } else {
        SocketRef::Tcp((k - sockets.raw.len() - sockets.udp.len()) as usize)
    }
}

/// Whether `socket` is a socket of the set.
pub open spec fn spec_has(sockets: SocketsView, socket: SocketRef) -> bool {
    match socket {
        SocketRef::Raw(i) => i < sockets.raw.len(),
        SocketRef::Udp(i) => i < sockets.udp.len(),
        SocketRef::Tcp(i) => i < sockets.tcp.len(),
    }
}

/// The set after `socket` takes the oldest packet it queued to send, if it
/// has one.
pub open spec fn spec_dequeued(sockets: SocketsView, socket: SocketRef) -> SocketsView {
    match socket {
        SocketRef::Raw(i) => if sockets.raw_tx[i as int].len() == 0 {
            sockets
        } else {
            SocketsView {
                raw_tx: sockets.raw_tx.update(i as int, sockets.raw_tx[i as int].skip(1)),
                ..sockets
            }
        },
        SocketRef::Udp(i) => if sockets.udp_tx[i as int].len() == 0 {
            sockets
        } else {
            SocketsView {
                udp_tx: sockets.udp_tx.update(i as int, sockets.udp_tx[i as int].skip(1)),
                ..sockets
            }
        },
        SocketRef::Tcp(i) => if sockets.tcp_tx[i as int].len() == 0 {
            sockets
        } else {
            SocketsView {
                tcp_tx: sockets.tcp_tx.update(i as int, sockets.tcp_tx[i as int].skip(1)),
                ..sockets
            }
        },
    }
}

/// A set of sockets: raw sockets, which take whole frames or whole IPv4
/// packets, and UDP and TCP sockets, each bound to a local address and port
/// and taking the packets addressed to exactly those.
pub struct SocketSet {
    raw: Vec<RawSocket>,
    udp: Vec<UdpSocket>,
    tcp: Vec<TcpSocket>,
}

impl View for SocketSet {
    type V = SocketsView;

    closed spec fn view(&self) -> SocketsView {
        SocketsView {
            raw: Seq::new(
                self.raw@.len(),
                |i: int| (self.raw@[i].raw_type, spec_buffers(self.raw@[i].rx@)),
            ),
            udp: Seq::new(
                self.udp@.len(),
                |i: int| (self.udp@[i].addr, spec_datagrams(self.udp@[i].rx@)),
            ),
            tcp: Seq::new(
                self.tcp@.len(),
                |i: int| (self.tcp@[i].addr, spec_segments(self.tcp@[i].rx@)),
            ),
            raw_tx: Seq::new(self.raw@.len(), |i: int| spec_buffers(self.raw@[i].tx@)),
            udp_tx: Seq::new(self.udp@.len(), |i: int| spec_udp_outs(self.udp@[i].tx@)),
            tcp_tx: Seq::new(self.tcp@.len(), |i: int| spec_tcp_outs(self.tcp@[i].tx@)),
        }
    }
}

/// Whether two addresses are the same.
fn same_addr(a: SocketAddr, b: SocketAddr) -> (r: bool)
    ensures
        r == spec_binds(a, b),
{
    a.addr == b.addr && a.port == b.port
}

impl SocketSet {
    /// Creates an empty set of sockets.
    pub fn new() -> (s: SocketSet)
        ensures
            s@.raw.len() == 0,
            s@.udp.len() == 0,
            s@.tcp.len() == 0,
            s@.raw_tx.len() == 0,
            s@.udp_tx.len() == 0,
            s@.tcp_tx.len() == 0,
    {
        SocketSet { raw: Vec::new(), udp: Vec::new(), tcp: Vec::new() }
    }

    /// Adds a raw socket and returns its index among the raw sockets.
    pub fn add_raw(&mut self, raw_type: RawType) -> (i: usize)
        ensures
            i == old(self)@.raw.len(),
            final(self)@ == (SocketsView {
                raw: old(self)@.raw.push((raw_type, Seq::empty())),
                raw_tx: old(self)@.raw_tx.push(Seq::empty()),
                ..old(self)@
            }),
    {
        let i = self.raw.len();
        self.raw.push(RawSocket { raw_type, rx: Vec::new(), tx: Vec::new() });
        assert(spec_buffers(Seq::<Vec<u8>>::empty()) =~= Seq::empty());
        assert(self@.raw =~~= old(self)@.raw.push((raw_type, Seq::empty())));
        assert(self@.raw_tx =~~= old(self)@.raw_tx.push(Seq::empty()));
        assert(self@.udp_tx =~~= old(self)@.udp_tx);
        assert(self@.tcp_tx =~~= old(self)@.tcp_tx);
        assert(self@.udp =~= old(self)@.udp);
        assert(self@.tcp =~= old(self)@.tcp);
        i
    }

    /// Adds a UDP socket bound to `addr` and returns its index among the UDP
    /// sockets.
    pub fn add_udp(&mut self, addr: SocketAddr) -> (i: usize)
        ensures
            i == old(self)@.udp.len(),
            final(self)@ == (SocketsView {
                udp: old(self)@.udp.push((addr, Seq::empty())),
                udp_tx: old(self)@.udp_tx.push(Seq::empty()),
                ..old(self)@
            }),
    {
        let i = self.udp.len();
        self.udp.push(UdpSocket { addr, rx: Vec::new(), tx: Vec::new() });
        assert(spec_datagrams(Seq::<UdpDatagram>::empty()) =~= Seq::empty());
        assert(spec_udp_outs(Seq::<UdpOut>::empty()) =~= Seq::empty());
        assert(self@.udp =~~= old(self)@.udp.push((addr, Seq::empty())));
        assert(self@.udp_tx =~~= old(self)@.udp_tx.push(Seq::empty()));
        assert(self@.raw_tx =~~= old(self)@.raw_tx);
        assert(self@.tcp_tx =~~= old(self)@.tcp_tx);
        assert(self@.raw =~= old(self)@.raw);
        assert(self@.tcp =~= old(self)@.tcp);
        i
    }

    /// Adds a TCP socket bound to `addr` and returns its index among the TCP
    /// sockets.
    pub fn add_tcp(&mut self, addr: SocketAddr) -> (i: usize)
        ensures
            i == old(self)@.tcp.len(),
            final(self)@ == (SocketsView {
                tcp: old(self)@.tcp.push((addr, Seq::empty())),
                tcp_tx: old(self)@.tcp_tx.push(Seq::empty()),
                ..old(self)@
            }),
    {
        let i = self.tcp.len();
        self.tcp.push(TcpSocket { addr, rx: Vec::new(), tx: Vec::new() });
        assert(spec_segments(Seq::<TcpSegment>::empty()) =~= Seq::empty());
        assert(spec_tcp_outs(Seq::<TcpOut>::empty()) =~= Seq::empty());
        assert(self@.tcp =~~= old(self)@.tcp.push((addr, Seq::empty())));
        assert(self@.tcp_tx =~~= old(self)@.tcp_tx.push(Seq::empty()));
        assert(self@.raw_tx =~~= old(self)@.raw_tx);
        assert(self@.udp_tx =~~= old(self)@.udp_tx);
        assert(self@.raw =~= old(self)@.raw);
        assert(self@.udp =~= old(self)@.udp);
        i
    }

    /// Takes the oldest packet waiting on raw socket `i`.
    pub fn raw_recv(&mut self, i: usize) -> (r: Option<Vec<u8>>)
        requires
            i < old(self)@.raw.len(),
        ensures
            old(self)@.raw[i as int].1.len() == 0 ==> r is None && final(self)@ == old(self)@,
            old(self)@.raw[i as int].1.len() > 0 ==> (r matches Some(p) && p@ == old(
                self,
            )@.raw[i as int].1[0] && final(self)@ == (SocketsView {
                raw: old(self)@.raw.update(
                    i as int,
                    (old(self)@.raw[i as int].0, old(self)@.raw[i as int].1.skip(1)),
                ),
                ..old(self)@
            })),
    {
        if self.raw[i].rx.len() == 0 {
            return None;
        }
        let p = self.raw[i].rx.remove(0);
        proof {
            assert(spec_buffers(self.raw@[i as int].rx@) =~= spec_buffers(
                old(self).raw@[i as int].rx@,
            ).skip(1));
            assert(self.raw@[i as int].tx == old(self).raw@[i as int].tx);
            assert(self@.raw_tx =~~= old(self)@.raw_tx);
            assert(self@.udp_tx =~~= old(self)@.udp_tx);
            assert(self@.tcp_tx =~~= old(self)@.tcp_tx);
            assert(self@.raw =~~= old(self)@.raw.update(
                i as int,
                (old(self)@.raw[i as int].0, old(self)@.raw[i as int].1.skip(1)),
            ));
            assert(self@.udp =~= old(self)@.udp);
            assert(self@.tcp =~= old(self)@.tcp);
        }
        Some(p)
    }

    /// Takes the oldest datagram waiting on UDP socket `i`.
    pub fn udp_recv(&mut self, i: usize) -> (r: Option<UdpDatagram>)
        requires
            i < old(self)@.udp.len(),
        ensures
            old(self)@.udp[i as int].1.len() == 0 ==> r is None && final(self)@ == old(self)@,
            old(self)@.udp[i as int].1.len() > 0 ==> (r matches Some(d) && (
            d.ipv4_repr,
            d.udp_repr,
            d.payload@,
            ) == old(self)@.udp[i as int].1[0] && final(self)@ == (SocketsView {
                udp: old(self)@.udp.update(
                    i as int,
                    (old(self)@.udp[i as int].0, old(self)@.udp[i as int].1.skip(1)),
                ),
                ..old(self)@
            })),
    {
        if self.udp[i].rx.len() == 0 {
            return None;
        }
        let d = self.udp[i].rx.remove(0);
        proof {
            assert(spec_datagrams(self.udp@[i as int].rx@) =~= spec_datagrams(
                old(self).udp@[i as int].rx@,
            ).skip(1));
            assert(self.udp@[i as int].tx == old(self).udp@[i as int].tx);
            assert(self@.raw_tx =~~= old(self)@.raw_tx);
            assert(self@.udp_tx =~~= old(self)@.udp_tx);
            assert(self@.tcp_tx =~~= old(self)@.tcp_tx);
            assert(self@.udp =~~= old(self)@.udp.update(
                i as int,
                (old(self)@.udp[i as int].0, old(self)@.udp[i as int].1.skip(1)),
            ));
            assert(self@.raw =~= old(self)@.raw);
            assert(self@.tcp =~= old(self)@.tcp);
        }
        Some(d)
    }

    /// Takes the oldest segment waiting on TCP socket `i`.
    pub fn tcp_recv(&mut self, i: usize) -> (r: Option<TcpSegment>)
        requires
            i < old(self)@.tcp.len(),
        ensures
            old(self)@.tcp[i as int].1.len() == 0 ==> r is None && final(self)@ == old(self)@,
            old(self)@.tcp[i as int].1.len() > 0 ==> (r matches Some(s) && (
            s.ipv4_repr,
            s.segment@,
            ) == old(self)@.tcp[i as int].1[0] && final(self)@ == (SocketsView {
                tcp: old(self)@.tcp.update(
                    i as int,
                    (old(self)@.tcp[i as int].0, old(self)@.tcp[i as int].1.skip(1)),
                ),
                ..old(self)@
            })),
    {
        if self.tcp[i].rx.len() == 0 {
            return None;
        }
        let s = self.tcp[i].rx.remove(0);
        proof {
            assert(spec_segments(self.tcp@[i as int].rx@) =~= spec_segments(
                old(self).tcp@[i as int].rx@,
            ).skip(1));
            assert(self.tcp@[i as int].tx == old(self).tcp@[i as int].tx);
            assert(self@.raw_tx =~~= old(self)@.raw_tx);
            assert(self@.udp_tx =~~= old(self)@.udp_tx);
            assert(self@.tcp_tx =~~= old(self)@.tcp_tx);
            assert(self@.tcp =~~= old(self)@.tcp.update(
                i as int,
                (old(self)@.tcp[i as int].0, old(self)@.tcp[i as int].1.skip(1)),
            ));
            assert(self@.raw =~= old(self)@.raw);
            assert(self@.udp =~= old(self)@.udp);
        }
        Some(s)
    }

    /// The number of sockets in the set, or the largest `usize` when that
    /// does not fit.
    pub fn count(&self) -> (n: usize)
        ensures
            n == if self@.raw.len() + self@.udp.len() + self@.tcp.len() <= usize::MAX {
                self@.raw.len() + self@.udp.len() + self@.tcp.len()
            } else {
                usize::MAX as nat
            },
    {
        match self.raw.len().checked_add(self.udp.len()) {
            Some(n) => match n.checked_add(self.tcp.len()) {
                Some(n) => n,
                None => usize::MAX,
            },
            None => usize::MAX,
        }
    }

    /// The socket at position `k` of the set: the raw sockets come first,
    /// then the UDP sockets, then the TCP sockets, each in the order they
    /// were added.
    pub fn socket_at(&self, k: usize) -> (r: SocketRef)
        requires
            k < self@.raw.len() + self@.udp.len() + self@.tcp.len(),
        ensures
            r == spec_socket_at(self@, k as int),
    {
        if k < self.raw.len() {
            SocketRef::Raw(k)
        } else if k - self.raw.len() < self.udp.len() {
            SocketRef::Udp(k - self.raw.len())
        } else {
            SocketRef::Tcp(k - self.raw.len() - self.udp.len())
        }
    }

    /// The type of raw socket `i`.
    pub fn raw_type(&self, i: usize) -> (t: RawType)
        requires
            i < self@.raw.len(),
        ensures
            t == self@.raw[i as int].0,
    {
        self.raw[i].raw_type
    }

    /// The address UDP socket `i` is bound to.
    pub fn udp_addr(&self, i: usize) -> (a: SocketAddr)
        requires
            i < self@.udp.len(),
        ensures
            a == self@.udp[i as int].0,
    {
        self.udp[i].addr
    }

    /// The address TCP socket `i` is bound to.
    pub fn tcp_addr(&self, i: usize) -> (a: SocketAddr)
        requires
            i < self@.tcp.len(),
        ensures
            a == self@.tcp[i as int].0,
    {
        self.tcp[i].addr
    }

    /// Queues a buffer for raw socket `i` to send.
    pub fn raw_send(&mut self, i: usize, buffer: Vec<u8>)
        requires
            i < old(self)@.raw.len(),
        ensures
            final(self)@ == (SocketsView {
                raw_tx: old(self)@.raw_tx.update(i as int, old(self)@.raw_tx[i as int].push(buffer@)),
                ..old(self)@
            }),
    {
        let ghost b = buffer@;
        let ghost before = self.raw@;
        self.raw[i].tx.push(buffer);
        proof {
            assert(spec_buffers(self.raw@[i as int].tx@) =~= spec_buffers(before[i as int].tx@).push(b));
            assert(self.raw@[i as int].rx == before[i as int].rx);
            assert(self@.raw =~~= old(self)@.raw);
            assert(self@.raw_tx =~~= old(self)@.raw_tx.update(
                i as int,
                old(self)@.raw_tx[i as int].push(b),
            ));
            assert(self@.udp_tx =~~= old(self)@.udp_tx);
            assert(self@.tcp_tx =~~= old(self)@.tcp_tx);
        }
    }

    /// Queues a UDP payload for UDP socket `i` to send to `dst`.
    pub fn udp_send(&mut self, i: usize, dst: SocketAddr, payload: Vec<u8>)
        requires
            i < old(self)@.udp.len(),
        ensures
            final(self)@ == (SocketsView {
                udp_tx: old(self)@.udp_tx.update(
                    i as int,
                    old(self)@.udp_tx[i as int].push((dst, payload@)),
                ),
                ..old(self)@
            }),
    {
        let ghost d = (dst, payload@);
        let ghost before = self.udp@;
        self.udp[i].tx.push(UdpOut { dst, payload });
        proof {
            assert(spec_udp_outs(self.udp@[i as int].tx@) =~= spec_udp_outs(before[i as int].tx@).push(d));
            assert(self.udp@[i as int].rx == before[i as int].rx);
            assert(self@.udp =~~= old(self)@.udp);
            assert(self@.udp_tx =~~= old(self)@.udp_tx.update(
                i as int,
                old(self)@.udp_tx[i as int].push(d),
            ));
            assert(self@.raw_tx =~~= old(self)@.raw_tx);
            assert(self@.tcp_tx =~~= old(self)@.tcp_tx);
        }
    }

    /// Queues a TCP payload, with its header, for TCP socket `i` to send to
    /// `dst_addr`.
    pub fn tcp_send(&mut self, i: usize, dst_addr: Ipv4Address, tcp_repr: TcpRepr, payload: Vec<u8>)
        requires
            i < old(self)@.tcp.len(),
        ensures
            final(self)@ == (SocketsView {
                tcp_tx: old(self)@.tcp_tx.update(
                    i as int,
                    old(self)@.tcp_tx[i as int].push((dst_addr, tcp_repr, payload@)),
                ),
                ..old(self)@
            }),
    {
        let ghost d = (dst_addr, tcp_repr, payload@);
        let ghost before = self.tcp@;
        self.tcp[i].tx.push(TcpOut { dst_addr, tcp_repr, payload });
        proof {
            assert(spec_tcp_outs(self.tcp@[i as int].tx@) =~= spec_tcp_outs(before[i as int].tx@).push(d));
            assert(self.tcp@[i as int].rx == before[i as int].rx);
            assert(self@.tcp =~~= old(self)@.tcp);
            assert(self@.tcp_tx =~~= old(self)@.tcp_tx.update(
                i as int,
                old(self)@.tcp_tx[i as int].push(d),
            ));
            assert(self@.raw_tx =~~= old(self)@.raw_tx);
            assert(self@.udp_tx =~~= old(self)@.udp_tx);
        }
    }

    /// Takes the oldest buffer that raw socket `i` queued to send.
    pub fn raw_dequeue(&mut self, i: usize) -> (r: Option<Vec<u8>>)
        requires
            i < old(self)@.raw.len(),
        ensures
            old(self)@.raw_tx[i as int].len() == 0 ==> r is None && final(self)@ == old(self)@,
            old(self)@.raw_tx[i as int].len() > 0 ==> (r matches Some(b) && b@ == old(
                self,
            )@.raw_tx[i as int][0] && final(self)@ == (SocketsView {
                raw_tx: old(self)@.raw_tx.update(i as int, old(self)@.raw_tx[i as int].skip(1)),
                ..old(self)@
            })),
    {
        if self.raw[i].tx.len() == 0 {
            return None;
        }
        let b = self.raw[i].tx.remove(0);
        proof {
            assert(spec_buffers(self.raw@[i as int].tx@) =~= spec_buffers(
                old(self).raw@[i as int].tx@,
            ).skip(1));
            assert(self.raw@[i as int].rx == old(self).raw@[i as int].rx);
            assert(self@.raw =~~= old(self)@.raw);
            assert(self@.raw_tx =~~= old(self)@.raw_tx.update(
                i as int,
                old(self)@.raw_tx[i as int].skip(1),
            ));
            assert(self@.udp_tx =~~= old(self)@.udp_tx);
            assert(self@.tcp_tx =~~= old(self)@.tcp_tx);
        }
        Some(b)
    }

    /// Takes the oldest payload that UDP socket `i` queued to send.
    pub fn udp_dequeue(&mut self, i: usize) -> (r: Option<UdpOut>)
        requires
            i < old(self)@.udp.len(),
        ensures
            old(self)@.udp_tx[i as int].len() == 0 ==> r is None && final(self)@ == old(self)@,
            old(self)@.udp_tx[i as int].len() > 0 ==> (r matches Some(d) && (d.dst, d.payload@)
                == old(self)@.udp_tx[i as int][0] && final(self)@ == (SocketsView {
                udp_tx: old(self)@.udp_tx.update(i as int, old(self)@.udp_tx[i as int].skip(1)),
                ..old(self)@
            })),
    {
        if self.udp[i].tx.len() == 0 {
            return None;
        }
        let d = self.udp[i].tx.remove(0);
        proof {
            assert(spec_udp_outs(self.udp@[i as int].tx@) =~= spec_udp_outs(
                old(self).udp@[i as int].tx@,
            ).skip(1));
            assert(self.udp@[i as int].rx == old(self).udp@[i as int].rx);
            assert(self@.udp =~~= old(self)@.udp);
            assert(self@.udp_tx =~~= old(self)@.udp_tx.update(
                i as int,
                old(self)@.udp_tx[i as int].skip(1),
            ));
            assert(self@.raw_tx =~~= old(self)@.raw_tx);
            assert(self@.tcp_tx =~~= old(self)@.tcp_tx);
        }
        Some(d)
    }

    /// Takes the oldest payload that TCP socket `i` queued to send.
    pub fn tcp_dequeue(&mut self, i: usize) -> (r: Option<TcpOut>)
        requires
            i < old(self)@.tcp.len(),
        ensures
            old(self)@.tcp_tx[i as int].len() == 0 ==> r is None && final(self)@ == old(self)@,
            old(self)@.tcp_tx[i as int].len() > 0 ==> (r matches Some(d) && (
            d.dst_addr,
            d.tcp_repr,
            d.payload@,
            ) == old(self)@.tcp_tx[i as int][0] && final(self)@ == (SocketsView {
                tcp_tx: old(self)@.tcp_tx.update(i as int, old(self)@.tcp_tx[i as int].skip(1)),
                ..old(self)@
            })),
    {
        if self.tcp[i].tx.len() == 0 {
            return None;
        }
        let d = self.tcp[i].tx.remove(0);
        proof {
            assert(spec_tcp_outs(self.tcp@[i as int].tx@) =~= spec_tcp_outs(
                old(self).tcp@[i as int].tx@,
            ).skip(1));
            assert(self.tcp@[i as int].rx == old(self).tcp@[i as int].rx);
            assert(self@.tcp =~~= old(self)@.tcp);
            assert(self@.tcp_tx =~~= old(self)@.tcp_tx.update(
                i as int,
                old(self)@.tcp_tx[i as int].skip(1),
            ));
            assert(self@.raw_tx =~~= old(self)@.raw_tx);
            assert(self@.udp_tx =~~= old(self)@.udp_tx);
        }
        Some(d)
    }

    /// Hands a packet to the raw sockets of type `raw_type`.
    pub fn deliver_raw(&mut self, raw_type: RawType, packet: &[u8])
        ensures
            final(self)@ == (SocketsView {
                raw: spec_deliver_raw(old(self)@.raw, raw_type, packet@),
                ..old(self)@
            }),
    {
        let mut i: usize = 0;
        while i < self.raw.len()
            invariant
                i <= self.raw@.len(),
                self.raw@.len() == old(self).raw@.len(),
                self@.udp == old(self)@.udp,
                self@.tcp == old(self)@.tcp,
                self@.raw_tx == old(self)@.raw_tx,
                self@.udp_tx == old(self)@.udp_tx,
                self@.tcp_tx == old(self)@.tcp_tx,
                forall|j: int|
                    0 <= j < i ==> #[trigger] self@.raw[j] == spec_deliver_raw(
                        old(self)@.raw,
                        raw_type,
                        packet@,
                    )[j],
                forall|j: int| i <= j < self.raw@.len() ==> #[trigger] self.raw@[j] == old(self).raw@[j],
            decreases self.raw@.len() - i,
        {
            if self.raw[i].raw_type == raw_type {
                let copy = vstd::slice::slice_to_vec(packet);
                let ghost before = self.raw@;
                let ghost before_view = self@;
                self.raw[i].rx.push(copy);
                proof {
                    assert(spec_buffers(self.raw@[i as int].rx@) =~= spec_buffers(
                        before[i as int].rx@,
                    ).push(packet@));
                    assert forall|j: int| 0 <= j < self.raw@.len() && j != i implies self.raw@[j]
                        == before[j] by {}
                    assert forall|j: int| 0 <= j < i implies #[trigger] self@.raw[j]
                        == before_view.raw[j] by {
                        assert(self.raw@[j] == before[j]);
                    }
                    assert(self.raw@[i as int].tx == before[i as int].tx);
                    assert(self@.raw_tx =~~= before_view.raw_tx);
                    assert(self@.udp_tx =~~= before_view.udp_tx);
                    assert(self@.tcp_tx =~~= before_view.tcp_tx);
                }
            }
            i += 1;
        }
        assert(self@.raw =~= spec_deliver_raw(old(self)@.raw, raw_type, packet@));
    }

    /// Hands a UDP packet to the UDP sockets bound to its destination, and
    /// tells whether there was one.
    pub fn deliver_udp(&mut self, ipv4_repr: &Ipv4Repr, udp_repr: &UdpRepr, payload: &[u8]) -> (accepted: bool)
        ensures
            ({
                let dst = SocketAddr { addr: ipv4_repr.dst_addr, port: udp_repr.dst_port };
                &&& accepted == spec_udp_accepts(old(self)@.udp, dst)
                &&& final(self)@ == (SocketsView {
                    udp: spec_deliver_udp(old(self)@.udp, dst, (*ipv4_repr, *udp_repr, payload@)),
                    ..old(self)@
                })
            }),
    {
        let dst = SocketAddr { addr: ipv4_repr.dst_addr, port: udp_repr.dst_port };
        let ghost d = (*ipv4_repr, *udp_repr, payload@);
        let mut accepted = false;
        let mut i: usize = 0;
        while i < self.udp.len()
            invariant
                i <= self.udp@.len(),
                self.udp@.len() == old(self).udp@.len(),
                self@.raw == old(self)@.raw,
                self@.tcp == old(self)@.tcp,
                self@.raw_tx == old(self)@.raw_tx,
                self@.udp_tx == old(self)@.udp_tx,
                self@.tcp_tx == old(self)@.tcp_tx,
                dst == (SocketAddr { addr: ipv4_repr.dst_addr, port: udp_repr.dst_port }),
                d == (*ipv4_repr, *udp_repr, payload@),
                accepted == exists|j: int| 0 <= j < i && spec_binds(#[trigger] old(self)@.udp[j].0, dst),
                forall|j: int|
                    0 <= j < i ==> #[trigger] self@.udp[j] == spec_deliver_udp(old(self)@.udp, dst, d)[j],
                forall|j: int| i <= j < self.udp@.len() ==> #[trigger] self.udp@[j] == old(self).udp@[j],
            decreases self.udp@.len() - i,
        {
            assert(old(self)@.udp[i as int].0 == self.udp@[i as int].addr);
            if same_addr(self.udp[i].addr, dst) {
                let datagram = UdpDatagram {
                    ipv4_repr: *ipv4_repr,
                    udp_repr: *udp_repr,
                    payload: vstd::slice::slice_to_vec(payload),
                };
                let ghost before = self.udp@;
                let ghost before_view = self@;
                self.udp[i].rx.push(datagram);
                accepted = true;
                proof {
                    assert(spec_datagrams(self.udp@[i as int].rx@) =~= spec_datagrams(
                        before[i as int].rx@,
                    ).push(d));
                    assert forall|j: int| 0 <= j < self.udp@.len() && j != i implies self.udp@[j]
                        == before[j] by {}
                    assert forall|j: int| 0 <= j < i implies #[trigger] self@.udp[j]
                        == before_view.udp[j] by {
                        assert(self.udp@[j] == before[j]);
                    }
                    assert(self.udp@[i as int].tx == before[i as int].tx);
                    assert(self@.raw_tx =~~= before_view.raw_tx);
                    assert(self@.udp_tx =~~= before_view.udp_tx);
                    assert(self@.tcp_tx =~~= before_view.tcp_tx);
                }
            }
            i += 1;
        }
        assert(self@.udp =~= spec_deliver_udp(old(self)@.udp, dst, d));
        accepted
    }

    /// Hands a TCP packet to the TCP sockets bound to its destination.
    pub fn deliver_tcp(&mut self, ipv4_repr: &Ipv4Repr, dst_port: u16, segment: &[u8])
        ensures
            final(self)@ == (SocketsView {
                tcp: spec_deliver_tcp(
                    old(self)@.tcp,
                    SocketAddr { addr: ipv4_repr.dst_addr, port: dst_port },
                    (*ipv4_repr, segment@),
                ),
                ..old(self)@
            }),
    {
        let dst = SocketAddr { addr: ipv4_repr.dst_addr, port: dst_port };
        let ghost d = (*ipv4_repr, segment@);
        let mut i: usize = 0;
        while i < self.tcp.len()
            invariant
                i <= self.tcp@.len(),
                self.tcp@.len() == old(self).tcp@.len(),
                self@.raw == old(self)@.raw,
                self@.udp == old(self)@.udp,
                self@.raw_tx == old(self)@.raw_tx,
                self@.udp_tx == old(self)@.udp_tx,
                self@.tcp_tx == old(self)@.tcp_tx,
                dst == (SocketAddr { addr: ipv4_repr.dst_addr, port: dst_port }),
                d == (*ipv4_repr, segment@),
                forall|j: int|
                    0 <= j < i ==> #[trigger] self@.tcp[j] == spec_deliver_tcp(old(self)@.tcp, dst, d)[j],
                forall|j: int| i <= j < self.tcp@.len() ==> #[trigger] self.tcp@[j] == old(self).tcp@[j],
            decreases self.tcp@.len() - i,
        {
            if same_addr(self.tcp[i].addr, dst) {
                let s = TcpSegment { ipv4_repr: *ipv4_repr, segment: vstd::slice::slice_to_vec(segment) };
                let ghost before = self.tcp@;
                let ghost before_view = self@;
                self.tcp[i].rx.push(s);
                proof {
                    assert(spec_segments(self.tcp@[i as int].rx@) =~= spec_segments(
                        before[i as int].rx@,
                    ).push(d));
                    assert forall|j: int| 0 <= j < self.tcp@.len() && j != i implies self.tcp@[j]
                        == before[j] by {}
                    assert forall|j: int| 0 <= j < i implies #[trigger] self@.tcp[j]
                        == before_view.tcp[j] by {
                        assert(self.tcp@[j] == before[j]);
                    }
                    assert(self.tcp@[i as int].tx == before[i as int].tx);
                    assert(self@.raw_tx =~~= before_view.raw_tx);
                    assert(self@.udp_tx =~~= before_view.udp_tx);
                    assert(self@.tcp_tx =~~= before_view.tcp_tx);
                }
            }
            i += 1;
        }
        assert(self@.tcp =~= spec_deliver_tcp(old(self)@.tcp, dst, d));
    }
}

} // verus!
