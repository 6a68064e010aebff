use usrnet::arp_cache::ArpCache;
use usrnet::repr::{
    TcpPacket,
    EthernetAddress,
    EthernetFrame,
    Icmpv4Message,
    Icmpv4Packet,
    Icmpv4Repr,
    Ipv4Address,
    Ipv4AddressCidr,
    Ipv4Packet,
    Ipv4Protocol,
    Ipv4Repr,
    TcpRepr,
    UdpRepr,
};
use usrnet::service::ethernet::{
    recv_frame,
    send_frame,
};
use usrnet::service::ipv4::ipv4_addr_route;
use usrnet::service::socket::{
    send_raw_socket,
    send_socket,
    send_step,
    start_round,
    RawType,
    SendAction,
    SendOutcome,
    SendRound,
};
use usrnet::service::{
    arp,
    icmpv4,
    tcp,
    udp,
    Interface,
};
use usrnet::socket::{
    SocketAddr,
    SocketRef,
    SocketSet,
};
use usrnet::time::{
    Env,
    Instant,
};
use usrnet::Error;

struct Clock {
    now: Instant,
}

impl Env for Clock {
    fn now_instant(&self) -> Instant {
        self.now
    }
}

const OUR_MAC: [u8; 6] = [0x02, 0, 0, 0, 0, 0x01];
const PEER_MAC: [u8; 6] = [0x02, 0, 0, 0, 0, 0x02];

fn interface() -> Interface<Clock> {
    Interface {
        arp_cache: ArpCache::new(60, Clock { now: 0 }),
        ethernet_addr: EthernetAddress::new(OUR_MAC),
        ipv4_addr: Ipv4AddressCidr::new(Ipv4Address::new([10, 0, 0, 102]), 24),
        default_gateway: Ipv4Address::new([10, 0, 0, 1]),
    }
}

fn arp_request_frame(dst_mac: [u8; 6], target_ip: [u8; 4]) -> Vec<u8> {
    let mut frame = Vec::new();
    frame.extend_from_slice(&dst_mac);
    frame.extend_from_slice(&PEER_MAC);
    frame.extend_from_slice(&[0x08, 0x06]);
    frame.extend_from_slice(&[0x00, 0x01, 0x08, 0x00, 6, 4, 0x00, 0x01]);
    frame.extend_from_slice(&PEER_MAC);
    frame.extend_from_slice(&[10, 0, 0, 5]);
    frame.extend_from_slice(&[0; 6]);
    frame.extend_from_slice(&target_ip);
    frame
}

fn ipv4_frame(protocol: Ipv4Protocol, payload: &[u8]) -> Vec<u8> {
    let ipv4_repr = Ipv4Repr {
        src_addr: Ipv4Address::new([10, 0, 0, 5]),
        dst_addr: Ipv4Address::new([10, 0, 0, 102]),
        protocol,
        payload_len: payload.len() as u16,
    };
    let mut packet = Ipv4Packet::try_new(vec![0; 20 + payload.len()]).unwrap();
    ipv4_repr.serialize(&mut packet);
    let mut bytes = packet.into_inner();
    bytes[20..].copy_from_slice(payload);
    let mut frame = Vec::new();
    frame.extend_from_slice(&OUR_MAC);
    frame.extend_from_slice(&PEER_MAC);
    frame.extend_from_slice(&[0x08, 0x00]);
    frame.extend_from_slice(&bytes);
    frame
}

#[test]
fn arp_request_for_us_is_answered_and_learned() {
    let mut interface = interface();
    let mut sockets = SocketSet::new();
    let raw = sockets.add_raw(RawType::Ethernet);
    let mut tx = Vec::new();
    let request = arp_request_frame([0xFF; 6], [10, 0, 0, 102]);
    assert!(matches!(recv_frame(&mut interface, &request, &mut sockets, &mut tx), Ok(())));
    assert_eq!(sockets.raw_recv(raw), Some(request.clone()));
    assert_eq!(sockets.raw_recv(raw), None);
    assert_eq!(tx.len(), 1);
    let reply = &tx[0];
    assert_eq!(reply.len(), 42);
    assert_eq!(&reply[0..6], &PEER_MAC[..]);
    assert_eq!(&reply[6..12], &OUR_MAC[..]);
    assert_eq!(&reply[12..14], &[0x08, 0x06][..]);
    assert_eq!(&reply[14..22], &[0x00, 0x01, 0x08, 0x00, 6, 4, 0x00, 0x02][..]);
    assert_eq!(&reply[22..28], &OUR_MAC[..]);
    assert_eq!(&reply[28..32], &[10, 0, 0, 102][..]);
    assert_eq!(&reply[32..38], &PEER_MAC[..]);
    assert_eq!(&reply[38..42], &[10, 0, 0, 5][..]);
    assert_eq!(
        interface.arp_cache.eth_addr_for_ip(Ipv4Address::new([10, 0, 0, 5])),
        Some(EthernetAddress::new(PEER_MAC))
    );
}

#[test]
fn arp_request_for_someone_else_is_ignored() {
    let mut interface = interface();
    let mut sockets = SocketSet::new();
    let mut tx = Vec::new();
    let request = arp_request_frame([0xFF; 6], [10, 0, 0, 7]);
    assert!(matches!(recv_frame(&mut interface, &request, &mut sockets, &mut tx), Err(Error::Ignored)));
    assert!(tx.is_empty());
    assert_eq!(interface.arp_cache.eth_addr_for_ip(Ipv4Address::new([10, 0, 0, 5])), None);
}

#[test]
fn frame_for_another_host_is_ignored() {
    let mut interface = interface();
    let mut sockets = SocketSet::new();
    let raw = sockets.add_raw(RawType::Ethernet);
    let mut tx = Vec::new();
    let request = arp_request_frame([0x02, 0, 0, 0, 0, 0x09], [10, 0, 0, 102]);
    assert!(matches!(recv_frame(&mut interface, &request, &mut sockets, &mut tx), Err(Error::NoOp)));
    assert_eq!(sockets.raw_recv(raw), None);
    assert!(tx.is_empty());
    assert!(matches!(recv_frame(&mut interface, &[0; 10], &mut sockets, &mut tx), Err(Error::Exhausted)));
}

#[test]
fn unknown_address_is_requested() {
    let mut interface = interface();
    let mut tx = Vec::new();
    let target = Ipv4Address::new([10, 0, 0, 9]);
    assert!(matches!(
        arp::eth_addr_for_ip(&mut interface, target, &mut tx),
        Err(Error::MacResolution(addr)) if addr == target
    ));
    assert_eq!(tx.len(), 1);
    let request = &tx[0];
    assert_eq!(&request[0..6], &[0xFF; 6][..]);
    assert_eq!(&request[6..12], &OUR_MAC[..]);
    assert_eq!(&request[14..22], &[0x00, 0x01, 0x08, 0x00, 6, 4, 0x00, 0x01][..]);
    assert_eq!(&request[38..42], &[10, 0, 0, 9][..]);
}

#[test]
fn routes_through_gateway_off_subnet() {
    let interface = interface();
    assert_eq!(ipv4_addr_route(&interface, Ipv4Address::new([10, 0, 0, 77])), Ipv4Address::new([10, 0, 0, 77]));
    assert_eq!(ipv4_addr_route(&interface, Ipv4Address::new([8, 8, 8, 8])), Ipv4Address::new([10, 0, 0, 1]));
}

#[test]
fn ping_is_answered_after_the_sender_is_learned() {
    let mut interface = interface();
    let mut sockets = SocketSet::new();
    let raw_ethernet = sockets.add_raw(RawType::Ethernet);
    let raw_ipv4 = sockets.add_raw(RawType::Ipv4);
    let mut tx = Vec::new();

    let mut echo = Icmpv4Packet::try_new(vec![0; 12]).unwrap();
    let request = Icmpv4Repr { message: Icmpv4Message::EchoRequest { id: 7, seq: 3 }, payload_len: 4 };
    echo.payload_mut().copy_from_slice(&[1, 2, 3, 4]);
    request.serialize(&mut echo).unwrap();
    echo.fill_checksum();
    let frame = ipv4_frame(Ipv4Protocol::ICMP, echo.as_ref());

    assert!(matches!(recv_frame(&mut interface, &frame, &mut sockets, &mut tx), Ok(())));
    assert_eq!(sockets.raw_recv(raw_ethernet), Some(frame.clone()));
    assert_eq!(sockets.raw_recv(raw_ipv4), Some(frame[14..].to_vec()));
    assert_eq!(tx.len(), 1);

    let reply = EthernetFrame::try_new(tx[0].clone()).unwrap();
    assert_eq!(reply.dst_addr(), EthernetAddress::new(PEER_MAC));
    assert_eq!(reply.src_addr(), EthernetAddress::new(OUR_MAC));
    assert_eq!(reply.payload_type(), 0x0800);
    let packet = Ipv4Packet::try_new(reply.payload().to_vec()).unwrap();
    assert!(matches!(packet.check_encoding(), Ok(())));
    let header = Ipv4Repr::deserialize(&packet).unwrap();
    assert_eq!(header.src_addr, Ipv4Address::new([10, 0, 0, 102]));
    assert_eq!(header.dst_addr, Ipv4Address::new([10, 0, 0, 5]));
    let icmp = Icmpv4Packet::try_new(packet.payload().to_vec()).unwrap();
    assert!(matches!(icmp.check_encoding(), Ok(())));
    assert_eq!(
        Icmpv4Repr::deserialize(&icmp).unwrap(),
        Icmpv4Repr { message: Icmpv4Message::EchoReply { id: 7, seq: 3 }, payload_len: 4 }
    );
    assert_eq!(icmp.payload(), &[1, 2, 3, 4][..]);
}

#[test]
fn udp_to_unbound_port_is_reported_unreachable() {
    let mut interface = interface();
    let mut sockets = SocketSet::new();
    let other = sockets.add_udp(SocketAddr { addr: Ipv4Address::new([10, 0, 0, 102]), port: 53 });
    let mut tx = Vec::new();

    let udp_repr = UdpRepr { src_port: 4000, dst_port: 33434, length: 10 };
    let ipv4_repr = Ipv4Repr {
        src_addr: Ipv4Address::new([10, 0, 0, 5]),
        dst_addr: Ipv4Address::new([10, 0, 0, 102]),
        protocol: Ipv4Protocol::UDP,
        payload_len: 10,
    };
    let mut bytes = vec![0; 10];
    bytes[8] = 0xAA;
    bytes[9] = 0xBB;
    let mut udp_packet = usrnet::repr::UdpPacket::try_new(bytes).unwrap();
    udp_repr.serialize(&mut udp_packet, &ipv4_repr);
    let frame = ipv4_frame(Ipv4Protocol::UDP, udp_packet.as_ref());

    assert!(matches!(recv_frame(&mut interface, &frame, &mut sockets, &mut tx), Ok(())));
    assert!(sockets.udp_recv(other).is_none());
    assert_eq!(tx.len(), 1);
    let report = EthernetFrame::try_new(tx[0].clone()).unwrap();
    let packet = Ipv4Packet::try_new(report.payload().to_vec()).unwrap();
    assert_eq!(packet.packet_len(), 56);
    let icmp = Icmpv4Packet::try_new(packet.payload().to_vec()).unwrap();
    assert!(matches!(icmp.check_encoding(), Ok(())));
    assert!(matches!(
        Icmpv4Repr::deserialize(&icmp).unwrap().message,
        Icmpv4Message::DestinationUnreachable(_)
    ));
    assert_eq!(icmp.payload(), &frame[14..42]);

    // A bound port takes the packet and nothing is sent.
    let bound = sockets.add_udp(SocketAddr { addr: Ipv4Address::new([10, 0, 0, 102]), port: 33434 });
    let mut tx = Vec::new();
    assert!(matches!(recv_frame(&mut interface, &frame, &mut sockets, &mut tx), Ok(())));
    assert!(tx.is_empty());
    assert!(sockets.udp_recv(other).is_none());
    let datagram = sockets.udp_recv(bound).unwrap();
    assert_eq!(datagram.udp_repr, udp_repr);
    assert_eq!(datagram.ipv4_repr, ipv4_repr);
    assert_eq!(datagram.payload, vec![0xAA, 0xBB]);
    assert!(sockets.udp_recv(bound).is_none());
}

#[test]
fn tcp_segment_goes_to_the_bound_socket() {
    let mut interface = interface();
    let mut sockets = SocketSet::new();
    let web = sockets.add_tcp(SocketAddr { addr: Ipv4Address::new([10, 0, 0, 102]), port: 80 });
    let ssh = sockets.add_tcp(SocketAddr { addr: Ipv4Address::new([10, 0, 0, 102]), port: 22 });
    let mut tx = Vec::new();
    let tcp_repr = TcpRepr {
        src_port: 4321,
        dst_port: 80,
        seq_num: 7,
        ack_num: 0,
        flags: [false; 9],
        window_size: 100,
        urgent_pointer: 0,
        max_segment_size: None,
    };
    let ipv4_repr = Ipv4Repr {
        src_addr: Ipv4Address::new([10, 0, 0, 5]),
        dst_addr: Ipv4Address::new([10, 0, 0, 102]),
        protocol: Ipv4Protocol::TCP,
        payload_len: 22,
    };
    let mut segment = TcpPacket::try_new(vec![0; 22]).unwrap();
    let _ = tcp_repr.serialize(&mut segment);
    segment.payload_mut().copy_from_slice(b"hi");
    segment.fill_checksum(&ipv4_repr);
    let frame = ipv4_frame(Ipv4Protocol::TCP, segment.as_ref());
    // An IPv4 header that names TCP does not deserialize, so the frame stops
    // at the IPv4 layer; its raw copies are all that a socket gets.
    assert!(matches!(recv_frame(&mut interface, &frame, &mut sockets, &mut tx), Err(Error::Malformed)));
    assert!(sockets.tcp_recv(web).is_none());

    let ipv4_packet = Ipv4Packet::try_new(frame[14..].to_vec()).unwrap();
    assert!(matches!(tcp::recv_packet(&interface, &ipv4_repr, &ipv4_packet, &mut sockets), Ok(())));
    assert!(tx.is_empty());
    assert!(sockets.tcp_recv(ssh).is_none());
    let got = sockets.tcp_recv(web).unwrap();
    assert_eq!(got.ipv4_repr, ipv4_repr);
    assert_eq!(got.segment, frame[34..].to_vec());
    let got = TcpPacket::try_new(got.segment).unwrap();
    assert_eq!(TcpRepr::deserialize(&got), tcp_repr);
    assert_eq!(got.payload(), b"hi");

    // A segment with a wrong checksum goes to no socket.
    let mut bad = frame[14..].to_vec();
    bad[20 + 16] ^= 0xFF;
    let bad = Ipv4Packet::try_new(bad).unwrap();
    assert!(matches!(tcp::recv_packet(&interface, &ipv4_repr, &bad, &mut sockets), Err(Error::Checksum)));
    assert!(sockets.tcp_recv(web).is_none());
}

#[test]
fn sent_frames_come_from_the_interface() {
    let interface = interface();
    let mut tx = Vec::new();
    assert!(matches!(
        send_frame(&interface, EthernetAddress::new(PEER_MAC), 0x1234, &[9, 9], &mut tx),
        Ok(())
    ));
    assert_eq!(tx[0], vec![2, 0, 0, 0, 0, 2, 2, 0, 0, 0, 0, 1, 0x12, 0x34, 9, 9]);
    let big = vec![0u8; 1505];
    assert!(matches!(
        send_frame(&interface, EthernetAddress::new(PEER_MAC), 0x1234, &big, &mut tx),
        Err(Error::Exhausted)
    ));
    assert_eq!(tx.len(), 1);
}

#[test]
fn udp_send_resolves_then_sends() {
    let mut interface = interface();
    let mut tx = Vec::new();
    let ipv4_repr = Ipv4Repr {
        src_addr: Ipv4Address::new([10, 0, 0, 102]),
        dst_addr: Ipv4Address::new([10, 0, 0, 5]),
        protocol: Ipv4Protocol::UDP,
        payload_len: 11,
    };
    let udp_repr = UdpRepr { src_port: 1, dst_port: 2, length: 11 };
    // The peer is unknown: an ARP request goes out instead.
    assert!(matches!(
        udp::send_packet(&mut interface, &ipv4_repr, &udp_repr, b"abc", &mut tx),
        Err(Error::MacResolution(_))
    ));
    assert_eq!(tx.len(), 1);
    assert_eq!(&tx[0][12..14], &[0x08, 0x06][..]);

    interface.arp_cache.set_eth_addr_for_ip(Ipv4Address::new([10, 0, 0, 5]), EthernetAddress::new(PEER_MAC));
    assert!(matches!(udp::send_packet(&mut interface, &ipv4_repr, &udp_repr, b"abc", &mut tx), Ok(())));
    assert_eq!(tx.len(), 2);
    let frame = EthernetFrame::try_new(tx[1].clone()).unwrap();
    assert_eq!(frame.dst_addr(), EthernetAddress::new(PEER_MAC));
    let packet = Ipv4Packet::try_new(frame.payload().to_vec()).unwrap();
    assert!(matches!(packet.check_encoding(), Ok(())));
    let udp_packet = usrnet::repr::UdpPacket::try_new(packet.payload().to_vec()).unwrap();
    assert!(matches!(udp_packet.check_encoding(&ipv4_repr), Ok(())));
    assert_eq!(udp_packet.payload(), b"abc");
}

#[test]
fn icmp_echo_reply_is_not_answered() {
    let mut interface = interface();
    let mut tx = Vec::new();
    let ipv4_repr = Ipv4Repr {
        src_addr: Ipv4Address::new([10, 0, 0, 5]),
        dst_addr: Ipv4Address::new([10, 0, 0, 102]),
        protocol: Ipv4Protocol::ICMP,
        payload_len: 8,
    };
    let mut echo = Icmpv4Packet::try_new(vec![0; 8]).unwrap();
    Icmpv4Repr { message: Icmpv4Message::EchoReply { id: 1, seq: 1 }, payload_len: 0 }
        .serialize(&mut echo)
        .unwrap();
    echo.fill_checksum();
    assert!(matches!(icmpv4::recv_packet(&mut interface, &ipv4_repr, echo.as_ref(), &mut tx), Err(Error::NoOp)));
    let bad = [8, 0, 0, 0, 0, 0, 0, 0];
    assert!(matches!(icmpv4::recv_packet(&mut interface, &ipv4_repr, &bad, &mut tx), Err(Error::Checksum)));
    assert!(tx.is_empty());
}

#[test]
fn raw_frames_go_out_from_the_interface() {
    let mut interface = interface();
    let mut tx = Vec::new();
    let mut frame = vec![0xEE; 20];
    frame[12] = 0x88;
    assert!(matches!(send_raw_socket(&mut interface, RawType::Ethernet, &frame, &mut tx), Ok(())));
    assert_eq!(&tx[0][0..6], &[0xEE; 6][..]);
    assert_eq!(&tx[0][6..12], &OUR_MAC[..]);
    assert_eq!(&tx[0][12..], &frame[12..]);
    assert!(matches!(send_raw_socket(&mut interface, RawType::Ethernet, &frame[..10], &mut tx), Err(Error::Exhausted)));
    // Too short for an IPv4 packet: dropped.
    assert!(matches!(send_raw_socket(&mut interface, RawType::Ipv4, &frame[..10], &mut tx), Ok(())));
    assert_eq!(tx.len(), 1);
    // An IPv4 packet to an unknown peer: its address is requested first.
    let mut packet = vec![0u8; 20];
    packet[16..20].copy_from_slice(&[10, 0, 0, 42]);
    assert!(matches!(send_raw_socket(&mut interface, RawType::Ipv4, &packet, &mut tx), Err(Error::MacResolution(_))));
    assert_eq!(tx.len(), 2);
    assert_eq!(&tx[1][38..42], &[10, 0, 0, 42][..]);
}

#[test]
fn tcp_segment_reads_back() {
    let mut interface = interface();
    let mut tx = Vec::new();
    interface.arp_cache.set_eth_addr_for_ip(Ipv4Address::new([10, 0, 0, 5]), EthernetAddress::new(PEER_MAC));
    let mut flags = [false; 9];
    flags[TcpRepr::FLAG_SYN] = true;
    let tcp_repr = TcpRepr {
        src_port: 4321,
        dst_port: 80,
        seq_num: 1000,
        ack_num: 0,
        flags,
        window_size: 512,
        urgent_pointer: 0,
        max_segment_size: Some(1460),
    };
    let ipv4_repr = Ipv4Repr {
        src_addr: Ipv4Address::new([10, 0, 0, 102]),
        dst_addr: Ipv4Address::new([10, 0, 0, 5]),
        protocol: Ipv4Protocol::TCP,
        payload_len: 27,
    };
    assert!(matches!(tcp::send_packet(&mut interface, &ipv4_repr, &tcp_repr, b"hey", &mut tx), Ok(())));
    let frame = EthernetFrame::try_new(tx[0].clone()).unwrap();
    let packet = Ipv4Packet::try_new(frame.payload().to_vec()).unwrap();
    assert!(matches!(packet.check_encoding(), Ok(())));
    let segment = TcpPacket::try_new(packet.as_ref()[20..].to_vec()).unwrap();
    assert!(matches!(segment.check_encoding(&ipv4_repr), Ok(())));
    assert_eq!(TcpRepr::deserialize(&segment), tcp_repr);
    assert_eq!(segment.payload(), b"hey");
}

#[test]
fn ipv4_packet_for_another_address_reaches_no_ipv4_socket() {
    let mut interface = interface();
    let mut sockets = SocketSet::new();
    let raw_ethernet = sockets.add_raw(RawType::Ethernet);
    let raw_ipv4 = sockets.add_raw(RawType::Ipv4);
    let bound = sockets.add_udp(SocketAddr { addr: Ipv4Address::new([10, 0, 0, 103]), port: 7 });
    let mut tx = Vec::new();
    let ipv4_repr = Ipv4Repr {
        src_addr: Ipv4Address::new([10, 0, 0, 5]),
        dst_addr: Ipv4Address::new([10, 0, 0, 103]),
        protocol: Ipv4Protocol::UDP,
        payload_len: 8,
    };
    let mut packet = Ipv4Packet::try_new(vec![0; 28]).unwrap();
    ipv4_repr.serialize(&mut packet);
    let mut frame = Vec::new();
    frame.extend_from_slice(&OUR_MAC);
    frame.extend_from_slice(&PEER_MAC);
    frame.extend_from_slice(&[0x08, 0x00]);
    frame.extend_from_slice(packet.as_ref());
    assert!(matches!(recv_frame(&mut interface, &frame, &mut sockets, &mut tx), Err(Error::Ignored)));
    assert!(tx.is_empty());
    assert_eq!(sockets.raw_recv(raw_ethernet), Some(frame.clone()));
    assert_eq!(sockets.raw_recv(raw_ipv4), None);
    assert!(sockets.udp_recv(bound).is_none());
    assert_eq!(interface.arp_cache.eth_addr_for_ip_at(Ipv4Address::new([10, 0, 0, 5]), 0), None);
}

#[test]
fn sockets_send_what_they_queued() {
    let mut interface = interface();
    interface.arp_cache.set_eth_addr_for_ip(Ipv4Address::new([10, 0, 0, 5]), EthernetAddress::new(PEER_MAC));
    let mut sockets = SocketSet::new();
    let raw = sockets.add_raw(RawType::Ethernet);
    let dns = sockets.add_udp(SocketAddr { addr: Ipv4Address::new([10, 0, 0, 102]), port: 4000 });
    let web = sockets.add_tcp(SocketAddr { addr: Ipv4Address::new([10, 0, 0, 102]), port: 80 });
    let mut tx = Vec::new();

    let mut frame = vec![0xEE; 20];
    frame[12] = 0x88;
    sockets.raw_send(raw, frame.clone());
    sockets.udp_send(dns, SocketAddr { addr: Ipv4Address::new([10, 0, 0, 5]), port: 53 }, b"abc".to_vec());
    let tcp_repr = TcpRepr {
        src_port: 80,
        dst_port: 5555,
        seq_num: 1,
        ack_num: 2,
        flags: [false; 9],
        window_size: 64,
        urgent_pointer: 0,
        max_segment_size: None,
    };
    sockets.tcp_send(web, Ipv4Address::new([10, 0, 0, 5]), tcp_repr, b"hey".to_vec());
    assert_eq!(sockets.count(), 3);
    assert_eq!(sockets.socket_at(0), SocketRef::Raw(0));
    assert_eq!(sockets.socket_at(1), SocketRef::Udp(0));
    assert_eq!(sockets.socket_at(2), SocketRef::Tcp(0));

    assert!(matches!(send_socket(&mut interface, &mut sockets, SocketRef::Raw(raw), &mut tx), Ok(())));
    assert_eq!(&tx[0][0..6], &[0xEE; 6][..]);
    assert_eq!(&tx[0][6..12], &OUR_MAC[..]);
    assert_eq!(&tx[0][12..], &frame[12..]);
    assert!(matches!(send_socket(&mut interface, &mut sockets, SocketRef::Raw(raw), &mut tx), Err(Error::Exhausted)));

    assert!(matches!(send_socket(&mut interface, &mut sockets, SocketRef::Udp(dns), &mut tx), Ok(())));
    assert_eq!(tx.len(), 2);
    let sent = EthernetFrame::try_new(tx[1].clone()).unwrap();
    assert_eq!(sent.dst_addr(), EthernetAddress::new(PEER_MAC));
    let packet = Ipv4Packet::try_new(sent.payload().to_vec()).unwrap();
    let header = Ipv4Repr::deserialize(&packet).unwrap();
    assert_eq!(header.src_addr, Ipv4Address::new([10, 0, 0, 102]));
    assert_eq!(header.dst_addr, Ipv4Address::new([10, 0, 0, 5]));
    let udp_packet = usrnet::repr::UdpPacket::try_new(packet.payload().to_vec()).unwrap();
    assert!(matches!(udp_packet.check_encoding(&header), Ok(())));
    assert_eq!(UdpRepr::deserialize(&udp_packet).unwrap(), UdpRepr { src_port: 4000, dst_port: 53, length: 11 });
    assert_eq!(udp_packet.payload(), b"abc");
    assert!(matches!(send_socket(&mut interface, &mut sockets, SocketRef::Udp(dns), &mut tx), Err(Error::Exhausted)));

    assert!(matches!(send_socket(&mut interface, &mut sockets, SocketRef::Tcp(web), &mut tx), Ok(())));
    assert_eq!(tx.len(), 3);
    let sent = EthernetFrame::try_new(tx[2].clone()).unwrap();
    let packet = Ipv4Packet::try_new(sent.payload().to_vec()).unwrap();
    assert_eq!(packet.packet_len(), 43);
    let ipv4_repr = Ipv4Repr {
        src_addr: Ipv4Address::new([10, 0, 0, 102]),
        dst_addr: Ipv4Address::new([10, 0, 0, 5]),
        protocol: Ipv4Protocol::TCP,
        payload_len: 23,
    };
    let segment = TcpPacket::try_new(packet.as_ref()[20..].to_vec()).unwrap();
    assert!(matches!(segment.check_encoding(&ipv4_repr), Ok(())));
    assert_eq!(TcpRepr::deserialize(&segment), tcp_repr);
    assert_eq!(segment.payload(), b"hey");
    assert!(matches!(send_socket(&mut interface, &mut sockets, SocketRef::Tcp(web), &mut tx), Err(Error::Exhausted)));
}

#[test]
fn send_round_takes_turns_and_stops() {
    assert_eq!(start_round(0).1, SendAction::Stop);
    let (round, action) = start_round(2);
    assert_eq!(action, SendAction::Send(0));
    let (round, action) = send_step(round, SendOutcome::Sent);
    assert_eq!(action, SendAction::Send(1));
    // One socket sent in this pass: another pass follows.
    let (round, action) = send_step(round, SendOutcome::Failed);
    assert_eq!(action, SendAction::Send(0));
    assert_eq!(round, SendRound { count: 2, position: 0, errors: 0 });
    let (round, action) = send_step(round, SendOutcome::Failed);
    assert_eq!(action, SendAction::Send(1));
    // Every socket failed in this pass: the round stops.
    let (_, action) = send_step(round, SendOutcome::Failed);
    assert_eq!(action, SendAction::Stop);
    // A device failure stops the round at once.
    let (round, _) = start_round(3);
    assert_eq!(send_step(round, SendOutcome::DeviceFailed).1, SendAction::Stop);
}
