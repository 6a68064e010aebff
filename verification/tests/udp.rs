use usrnet::layers::udp::{
    Packet,
    Repr,
};
use usrnet::repr::{
    Ipv4Address,
    Ipv4Protocol,
    Ipv4Repr,
};
use usrnet::Error;

fn ip_repr(payload_len: u16) -> Ipv4Repr {
    Ipv4Repr {
        src_addr: Ipv4Address::new([0, 1, 2, 3]),
        dst_addr: Ipv4Address::new([4, 5, 6, 7]),
        protocol: Ipv4Protocol::UDP,
        payload_len,
    }
}

#[test]
fn udp_test_packet_with_buffer_less_than_min_header() {
    let buffer: [u8; 4] = [0; 4];
    let packet = Packet::try_new(buffer.to_vec());
    assert!(matches!(packet, Err(Error::Exhausted)));
}

#[test]
fn udp_test_packet_with_invalid_checksum() {
    let buffer: [u8; 16] = [
        0x45, 0x00, 0x00, 0x14, 0x00, 0x00, 0x12, 0x34, 0x00, 0x00, 0x00, 0x00, 0x00, 0x00, 0x00,
        0x00,
    ];
    let packet = Packet::try_new(buffer.to_vec()).unwrap();
    assert!(matches!(packet.check_encoding(&ip_repr(16)), Err(Error::Checksum)));
}

#[test]
fn test_packet_with_inconsistent_length() {
    let buffer: [u8; 16] = [
        0x45, 0x00, 0x00, 0x14, 0x11, 0x11, 0x00, 0x00, 0x00, 0x00, 0x00, 0x00, 0x00, 0x00, 0x00,
        0x00,
    ];
    let packet = Packet::try_new(buffer.to_vec()).unwrap();
    assert!(matches!(packet.check_encoding(&ip_repr(16)), Err(Error::Malformed)));
}

#[test]
fn udp_test_packet_getters() {
    let buffer: [u8; 16] = [
        0x04, 0x00, 0x08, 0x00, 0x00, 0x10, 0xDE, 0xBE, 0x09, 0x00, 0x00, 0x00, 0x00, 0x00, 0x00,
        0x00,
    ];

    let packet = Packet::try_new(buffer.to_vec()).unwrap();
    assert!(matches!(packet.check_encoding(&ip_repr(16)), Ok(_)));
    assert_eq!(1024, packet.src_port());
    assert_eq!(2048, packet.dst_port());
    assert_eq!(16, packet.length());
    assert_eq!(57022, packet.checksum());
    assert_eq!(8, packet.payload().len());
    assert_eq!(9, packet.payload()[0]);
}

#[test]
fn udp_test_packet_setters() {
    let buffer: [u8; 16] = [0; 16];
    let mut packet = Packet::try_new(buffer.to_vec()).unwrap();
    packet.set_src_port(1024);
    packet.set_dst_port(2048);
    packet.set_length(16);
    packet.set_checksum(57022);
    packet.payload_mut()[0] = 9;

    assert_eq!(
        packet.as_ref(),
        &[
            0x04, 0x00, 0x08, 0x00, 0x00, 0x10, 0xDE, 0xBE, 0x09, 0x00, 0x00, 0x00, 0x00, 0x00,
            0x00, 0x00,
        ][..]
    );
}

#[test]
fn repr_serialize_writes_the_checksum_of_the_getters_test() {
    let repr = Repr { src_port: 1024, dst_port: 2048, length: 16 };
    assert_eq!(repr.buffer_len(), 16);
    let mut bytes = vec![0; 16];
    bytes[8] = 9;
    let mut packet = Packet::try_new(bytes).unwrap();
    repr.serialize(&mut packet, &ip_repr(16));
    assert_eq!(packet.checksum(), 57022);
    assert!(matches!(packet.check_encoding(&ip_repr(16)), Ok(())));
    assert_eq!(Repr::deserialize(&packet).unwrap(), repr);
}

#[test]
fn zero_checksum_is_not_checked() {
    let mut packet = Packet::try_new(vec![0; 8]).unwrap();
    packet.set_length(8);
    assert!(matches!(packet.check_encoding(&ip_repr(8)), Ok(())));
    assert_eq!(Packet::buffer_len(4), 12);
}
