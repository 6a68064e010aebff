use usrnet::layers::ipv4::{
    Address as LayersAddress,
    Packet as LayersPacket,
};
use usrnet::repr::{
    Ipv4Address as Address,
    Ipv4AddressCidr as AddressCidr,
    Ipv4Packet as Packet,
    Ipv4Protocol,
    Ipv4Repr,
};
use usrnet::Error;

#[test]
fn ipv4_test_is_unicast() {
    let addr = Address::new([0x00, 0x00, 0x00, 0x00]);
    assert!(addr.is_unicast());
    let addr = Address::new([0x80, 0x00, 0x00, 0x00]);
    assert!(addr.is_unicast());
    let addr = Address::new([0xC0, 0x00, 0x00, 0x00]);
    assert!(addr.is_unicast());
}

#[test]
fn ipv4_test_is_multicast() {
    let addr = Address::new([0xE0, 0x00, 0x00, 0x00]);
    assert!(addr.is_multicast());
}

#[test]
fn test_is_reserved() {
    let addr = Address::new([0xF0, 0x00, 0x00, 0x00]);
    assert!(addr.is_reserved());
}

#[test]
fn test_addr_cidr_is_member() {
    let addr = AddressCidr::new(Address::new([0x12, 0x30, 0x00, 0x00]), 4);

    assert!(!addr.is_member(Address::new([0x00, 0x00, 0x00, 0x00])));
    assert!(addr.is_member(Address::new([0x10, 0x00, 0x00, 0x00])));
    assert!(addr.is_member(Address::new([0x12, 0x30, 0x00, 0x00])));
    assert!(addr.is_member(Address::new([0x12, 0x34, 0x00, 0x00])));
    assert!(addr.is_member(Address::new([0x1F, 0xFF, 0xFF, 0xFF])));
}

#[test]
fn test_addr_broadcast() {
    let addr = AddressCidr::new(Address::new([0x12, 0x30, 0x00, 0x00]), 4);
    assert_eq!(addr.broadcast(), Address::new([0x1F, 0xFF, 0xFF, 0xFF]));
}

#[test]
fn test_addr_is_broadcast() {
    let addr = AddressCidr::new(Address::new([0x12, 0x30, 0x00, 0x00]), 4);

    assert!(!addr.is_broadcast(Address::new([0x0F, 0xFF, 0xFF, 0xFF])));
    assert!(addr.is_broadcast(Address::new([0x1F, 0xFF, 0xFF, 0xFF])));
}

#[test]
fn ipv4_test_packet_with_buffer_less_than_min_header() {
    let buffer: [u8; 19] = [0; 19];
    let packet = LayersPacket::try_from(buffer.to_vec());
    assert!(matches!(packet, Err(Error::Buffer)));

    let buffer: [u8; 19] = [0; 19];
    let packet = Packet::try_new(buffer.to_vec());
    assert!(matches!(packet, Err(Error::Exhausted)));
}

#[test]
fn test_packet_with_header_len_greater_than_buffer_len() {
    let buffer: [u8; 20] = [
        0x4F, 0x00, 0x00, 0x01, 0x00, 0x00, 0x00, 0x00, 0x00, 0x00, 0x00, 0x00, 0x00, 0x00, 0x00,
        0x00, 0x00, 0x00, 0x00, 0x00,
    ];
    let packet = LayersPacket::try_from(buffer.to_vec()).unwrap();
    assert!(matches!(packet.is_encoding_ok(), Err(Error::Encoding)));
}

#[test]
fn test_packet_with_packet_len_greater_than_buffer_len() {
    let buffer: [u8; 20] = [
        0x45, 0x00, 0x00, 0xFF, 0x00, 0x00, 0x00, 0x00, 0x00, 0x00, 0x00, 0x00, 0x00, 0x00, 0x00,
        0x00, 0x00, 0x00, 0x00, 0x00,
    ];
    let packet = LayersPacket::try_from(buffer.to_vec()).unwrap();
    assert!(matches!(packet.is_encoding_ok(), Err(Error::Encoding)));
}

#[test]
fn ipv4_test_packet_with_invalid_checksum() {
    let buffer: [u8; 20] = [
        0x45, 0x00, 0x00, 0x14, 0x00, 0x00, 0x00, 0x00, 0x00, 0x00, 0x0F, 0x00, 0x00, 0x00, 0x00,
        0x00, 0x00, 0x00, 0x00, 0x00,
    ];
    let packet = LayersPacket::try_from(buffer.to_vec()).unwrap();
    assert!(matches!(packet.is_encoding_ok(), Err(Error::Checksum)));

    let buffer: [u8; 42] = [
        0x46, 0x11, 0x00, 0x28, 0xFF, 0xFF, 0xE1, 0x01, 0x02, 0x03, 0x00, 0x00, 0x01, 0x02, 0x03,
        0x04, 0x05, 0x06, 0x07, 0x08, 0x00, 0x00, 0x00, 0x00, 0x09, 0x00, 0x00, 0x00, 0x00, 0x00,
        0x00, 0x00, 0x00, 0x00, 0x00, 0x00, 0x00, 0x00, 0x00, 0x00, 0x00, 0x00,
    ];
    let packet = Packet::try_new(buffer.to_vec()).unwrap();
    assert!(matches!(packet.check_encoding(), Err(Error::Checksum)));
}

#[test]
fn test_packet_with_invalid_packet_len() {
    let buffer: [u8; 42] = [
        0x41, 0x11, 0x00, 0x13, 0xFF, 0xFF, 0xE1, 0x01, 0x02, 0x03, 0x00, 0x00, 0x01, 0x02, 0x03,
        0x04, 0x05, 0x06, 0x07, 0x08, 0x00, 0x00, 0x00, 0x00, 0x09, 0x00, 0x00, 0x00, 0x00, 0x00,
        0x00, 0x00, 0x00, 0x00, 0x00, 0x00, 0x00, 0x00, 0x00, 0x00, 0x00, 0x00,
    ];
    let packet = Packet::try_new(buffer.to_vec()).unwrap();
    assert!(matches!(packet.check_encoding(), Err(Error::Malformed)));

    let buffer: [u8; 42] = [
        0x41, 0x11, 0x00, 0xFF, 0xFF, 0xFF, 0xE1, 0x01, 0x02, 0x03, 0x00, 0x00, 0x01, 0x02, 0x03,
        0x04, 0x05, 0x06, 0x07, 0x08, 0x00, 0x00, 0x00, 0x00, 0x09, 0x00, 0x00, 0x00, 0x00, 0x00,
        0x00, 0x00, 0x00, 0x00, 0x00, 0x00, 0x00, 0x00, 0x00, 0x00, 0x00, 0x00,
    ];
    let packet = Packet::try_new(buffer.to_vec()).unwrap();
    assert!(matches!(packet.check_encoding(), Err(Error::Malformed)));
}

#[test]
fn test_packet_with_invalid_header_len() {
    let buffer: [u8; 42] = [
        0x41, 0x11, 0x00, 0x28, 0xFF, 0xFF, 0xE1, 0x01, 0x02, 0x03, 0x00, 0x00, 0x01, 0x02, 0x03,
        0x04, 0x05, 0x06, 0x07, 0x08, 0x00, 0x00, 0x00, 0x00, 0x09, 0x00, 0x00, 0x00, 0x00, 0x00,
        0x00, 0x00, 0x00, 0x00, 0x00, 0x00, 0x00, 0x00, 0x00, 0x00, 0x00, 0x00,
    ];
    let packet = Packet::try_new(buffer.to_vec()).unwrap();
    assert!(matches!(packet.check_encoding(), Err(Error::Malformed)));

    let buffer: [u8; 42] = [
        0x4F, 0x11, 0x00, 0x28, 0xFF, 0xFF, 0xE1, 0x01, 0x02, 0x03, 0x00, 0x00, 0x01, 0x02, 0x03,
        0x04, 0x05, 0x06, 0x07, 0x08, 0x00, 0x00, 0x00, 0x00, 0x09, 0x00, 0x00, 0x00, 0x00, 0x00,
        0x00, 0x00, 0x00, 0x00, 0x00, 0x00, 0x00, 0x00, 0x00, 0x00, 0x00, 0x00,
    ];
    let packet = Packet::try_new(buffer.to_vec()).unwrap();
    assert!(matches!(packet.check_encoding(), Err(Error::Malformed)));
}

#[test]
fn test_packet_with_invalid_ip_version() {
    let buffer: [u8; 42] = [
        0x41, 0x11, 0x00, 0x28, 0xFF, 0xFF, 0xE1, 0x01, 0x02, 0x03, 0x00, 0x00, 0x01, 0x02, 0x03,
        0x04, 0x05, 0x06, 0x07, 0x08, 0x00, 0x00, 0x00, 0x00, 0x09, 0x00, 0x00, 0x00, 0x00, 0x00,
        0x00, 0x00, 0x00, 0x00, 0x00, 0x00, 0x00, 0x00, 0x00, 0x00, 0x00, 0x00,
    ];
    let packet = Packet::try_new(buffer.to_vec()).unwrap();
    assert!(matches!(packet.check_encoding(), Err(Error::Malformed)));
}

#[test]
fn ipv4_test_packet_getters() {
    let buffer: [u8; 40] = [
        0x46, 0x11, 0x00, 0x28, 0xFF, 0xFF, 0xE1, 0x01, 0x02, 0x03, 0xC6, 0xAD, 0x01, 0x02, 0x03,
        0x04, 0x05, 0x06, 0x07, 0x08, 0x00, 0x00, 0x00, 0x00, 0x09, 0x00, 0x00, 0x00, 0x00, 0x00,
        0x00, 0x00, 0x00, 0x00, 0x00, 0x00, 0x00, 0x00, 0x00, 0x00,
    ];

    let packet = LayersPacket::try_from(buffer.to_vec()).unwrap();
    assert!(matches!(packet.is_encoding_ok(), Ok(_)));
    assert_eq!(4, packet.ip_version());
    assert_eq!(6, packet.header_len());
    assert_eq!(4, packet.dscp());
    assert_eq!(1, packet.ecn());
    assert_eq!(40, packet.packet_len());
    assert_eq!(65535, packet.identification());
    assert_eq!(7, packet.flags());
    assert_eq!(257, packet.fragment_offset());
    assert_eq!(2, packet.ttl());
    assert_eq!(3, packet.protocol());
    assert_eq!(50861, packet.header_checksum());
    assert_eq!(LayersAddress::new([1, 2, 3, 4]), packet.src_addr());
    assert_eq!(LayersAddress::new([5, 6, 7, 8]), packet.dst_addr());
    assert_eq!(16, packet.payload().len());
    assert_eq!(9, packet.payload()[0]);

    let buffer: [u8; 42] = [
        0x46, 0x11, 0x00, 0x28, 0xFF, 0xFF, 0xE1, 0x01, 0x02, 0x03, 0xC6, 0xAD, 0x01, 0x02, 0x03,
        0x04, 0x05, 0x06, 0x07, 0x08, 0x00, 0x00, 0x00, 0x00, 0x09, 0x00, 0x00, 0x00, 0x00, 0x00,
        0x00, 0x00, 0x00, 0x00, 0x00, 0x00, 0x00, 0x00, 0x00, 0x00, 0x00, 0x00,
    ];

    let packet = Packet::try_new(buffer.to_vec()).unwrap();
    assert!(matches!(packet.check_encoding(), Ok(_)));
    assert_eq!(4, packet.ip_version());
    assert_eq!(6, packet.header_len());
    assert_eq!(4, packet.dscp());
    assert_eq!(1, packet.ecn());
    assert_eq!(40, packet.packet_len());
    assert_eq!(65535, packet.identification());
    assert_eq!(7, packet.flags());
    assert_eq!(257, packet.fragment_offset());
    assert_eq!(2, packet.ttl());
    assert_eq!(3, packet.protocol());
    assert_eq!(50861, packet.header_checksum());
    assert_eq!(Address::new([1, 2, 3, 4]), packet.src_addr());
    assert_eq!(Address::new([5, 6, 7, 8]), packet.dst_addr());
    assert_eq!(16, packet.payload().len());
    assert_eq!(9, packet.payload()[0]);
}

#[test]
fn ipv4_test_packet_setters() {
    let buffer: [u8; 40] = [0; 40];
    let mut packet = LayersPacket::try_from(buffer.to_vec()).unwrap();
    packet.set_ip_version(4);
    packet.set_header_len(6);
    packet.set_dscp(4);
    packet.set_ecn(1);
    packet.set_packet_len(40);
    packet.set_identification(65535);
    packet.set_flags(7);
    packet.set_fragment_offset(257);
    packet.set_ttl(2);
    packet.set_protocol(3);
    packet.set_header_checksum(4);
    packet.set_src_addr(LayersAddress::new([1, 2, 3, 4]));
    packet.set_dst_addr(LayersAddress::new([5, 6, 7, 8]));
    packet.payload_mut()[0] = 0x09;
    assert_eq!(
        packet.as_ref(),
        &[
            0x46, 0x11, 0x00, 0x28, 0xFF, 0xFF, 0xE1, 0x01, 0x02, 0x03, 0x00, 0x04, 0x01, 0x02,
            0x03, 0x04, 0x05, 0x06, 0x07, 0x08, 0x00, 0x00, 0x00, 0x00, 0x09, 0x00, 0x00, 0x00,
            0x00, 0x00, 0x00, 0x00, 0x00, 0x00, 0x00, 0x00, 0x00, 0x00, 0x00, 0x00,
        ][..]
    );

    let buffer: [u8; 42] = [0; 42];
    let mut packet = Packet::try_new(buffer.to_vec()).unwrap();
    packet.set_ip_version(4);
    packet.set_header_len(6);
    packet.set_dscp(4);
    packet.set_ecn(1);
    packet.set_packet_len(40);
    packet.set_identification(65535);
    packet.set_flags(7);
    packet.set_fragment_offset(257);
    packet.set_ttl(2);
    packet.set_protocol(3);
    packet.set_header_checksum(4);
    packet.set_src_addr(Address::new([1, 2, 3, 4]));
    packet.set_dst_addr(Address::new([5, 6, 7, 8]));
    packet.payload_mut()[0] = 0x09;
    assert_eq!(
        packet.as_ref(),
        &[
            0x46, 0x11, 0x00, 0x28, 0xFF, 0xFF, 0xE1, 0x01, 0x02, 0x03, 0x00, 0x04, 0x01, 0x02,
            0x03, 0x04, 0x05, 0x06, 0x07, 0x08, 0x00, 0x00, 0x00, 0x00, 0x09, 0x00, 0x00, 0x00,
            0x00, 0x00, 0x00, 0x00, 0x00, 0x00, 0x00, 0x00, 0x00, 0x00, 0x00, 0x00, 0x00, 0x00,
        ][..]
    );
}

#[test]
fn repr_serialize_then_deserialize() {
    let repr = Ipv4Repr {
        src_addr: Address::new([10, 0, 0, 1]),
        dst_addr: Address::new([10, 0, 0, 2]),
        protocol: Ipv4Protocol::UDP,
        payload_len: 8,
    };
    assert_eq!(repr.buffer_len(), 28);
    let mut packet = Packet::try_new(vec![0; 28]).unwrap();
    repr.serialize(&mut packet);
    assert!(matches!(packet.check_encoding(), Ok(())));
    assert_eq!(packet.ip_version(), 4);
    assert_eq!(packet.header_len(), 5);
    assert_eq!(packet.ttl(), 64);
    assert_eq!(packet.packet_len(), 28);
    let back = Ipv4Repr::deserialize(&packet).unwrap();
    assert_eq!(back, repr);
}

#[test]
fn repr_rejects_unknown_protocol() {
    let repr = Ipv4Repr {
        src_addr: Address::new([10, 0, 0, 1]),
        dst_addr: Address::new([10, 0, 0, 2]),
        protocol: Ipv4Protocol::TCP,
        payload_len: 0,
    };
    let mut packet = Packet::try_new(vec![0; 20]).unwrap();
    repr.serialize(&mut packet);
    assert!(matches!(Ipv4Repr::deserialize(&packet), Err(Error::Malformed)));
}

#[test]
fn address_int_round_trip() {
    let addr = Address::new([192, 168, 1, 20]);
    assert_eq!(addr.as_int(), 0xC0A80114);
    assert_eq!(Address::from(0xC0A80114), addr);
    assert!(matches!(Address::try_new(&[1, 2, 3]), Err(Error::Exhausted)));
    assert_eq!(Address::try_new(&[1, 2, 3, 4]).unwrap().as_bytes(), &[1, 2, 3, 4][..]);
}

#[test]
fn layers_address_from_slice() {
    assert!(matches!(LayersAddress::try_from(&[1, 2, 3, 4, 5]), Err(Error::Buffer)));
    assert_eq!(LayersAddress::try_from(&[9, 8, 7, 6]).unwrap(), LayersAddress::new([9, 8, 7, 6]));
}

#[test]
fn cidr_with_full_octet_prefix() {
    let cidr = AddressCidr::new(Address::new([10, 0, 0, 102]), 24);
    assert!(cidr.is_member(Address::new([10, 0, 0, 1])));
    assert!(!cidr.is_member(Address::new([10, 0, 1, 1])));
    assert_eq!(cidr.broadcast(), Address::new([10, 0, 0, 255]));
    assert_eq!(*cidr.deref(), Address::new([10, 0, 0, 102]));
    assert!(cidr.is_member(cidr.broadcast()));
    assert!(cidr.is_broadcast(cidr.broadcast()));
    assert_eq!(cidr.subnet_len(), 24);
}

#[test]
fn protocol_codes_follow_the_enum_order() {
    assert_eq!(Ipv4Protocol::ICMP.code(), 1);
    assert_eq!(Ipv4Protocol::UDP.code(), 17);
    assert_eq!(Ipv4Protocol::TCP.code(), 6);
    assert_eq!(Ipv4Protocol::__Nonexhaustive.code(), 7);
}
