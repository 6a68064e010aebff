use usrnet::layers::icmpv4::{
    Packet as LayersPacket,
    Repr as LayersRepr,
};
use usrnet::repr::{
    Icmpv4DestinationUnreachable,
    Icmpv4Message,
    Icmpv4Packet,
    Icmpv4Repr,
};
use usrnet::Error;

#[test]
fn icmpv4_test_packet_buffer_too_small() {
    let buffer: [u8; 7] = [0; 7];
    assert!(match LayersPacket::try_new(buffer.to_vec()) {
        Err(Error::Exhausted) => true,
        _ => false,
    });

    let buffer: [u8; 7] = [0; 7];
    assert!(match Icmpv4Packet::try_new(buffer.to_vec()) {
        Err(Error::Exhausted) => true,
        _ => false,
    });
}

#[test]
fn icmpv4_test_packet_with_empty_payload() {
    let buffer: [u8; 8] = [0x00, 0x00, 0x00, 0x00, 0x00, 0x00, 0x00, 0x00];
    let packet = LayersPacket::try_new(buffer.to_vec()).unwrap();
    assert_eq!(packet.payload().len(), 0);

    let buffer: [u8; 8] = [0x00, 0x00, 0x00, 0x00, 0x00, 0x00, 0x00, 0x00];
    let packet = Icmpv4Packet::try_new(buffer.to_vec()).unwrap();
    assert_eq!(packet.payload().len(), 0);
}

#[test]
fn icmpv4_test_packet_with_invalid_checksum() {
    let buffer: [u8; 9] = [0x01, 0x02, 0x03, 0x04, 0x05, 0x06, 0x07, 0x08, 0x09];
    let packet = LayersPacket::try_new(buffer.to_vec()).unwrap();
    assert!(matches!(packet.check_encoding(), Err(Error::Checksum)));

    let buffer: [u8; 9] = [0x01, 0x02, 0x03, 0x04, 0x05, 0x06, 0x07, 0x08, 0x09];
    let packet = Icmpv4Packet::try_new(buffer.to_vec()).unwrap();
    assert!(matches!(packet.check_encoding(), Err(Error::Checksum)));
}

#[test]
fn icmpv4_test_packet_getters() {
    let buffer: [u8; 9] = [0x01, 0x02, 0xE9, 0xEf, 0x05, 0x06, 0x07, 0x08, 0x09];
    let packet = LayersPacket::try_new(buffer.to_vec()).unwrap();
    assert!(matches!(packet.check_encoding(), Ok(_)));
    assert_eq!(packet._type(), 1);
    assert_eq!(packet.code(), 2);
    assert_eq!(packet.checksum(), 59887);
    assert_eq!(packet.header(), [0x05, 0x06, 0x07, 0x08]);
    assert_eq!(packet.payload(), [0x09]);

    let buffer: [u8; 9] = [0x01, 0x02, 0xE9, 0xEf, 0x05, 0x06, 0x07, 0x08, 0x09];
    let packet = Icmpv4Packet::try_new(buffer.to_vec()).unwrap();
    assert!(matches!(packet.check_encoding(), Ok(_)));
    assert_eq!(packet._type(), 1);
    assert_eq!(packet.code(), 2);
    assert_eq!(packet.checksum(), 59887);
    assert_eq!(packet.header(), [0x05, 0x06, 0x07, 0x08]);
    assert_eq!(packet.payload(), [0x09]);
}

#[test]
fn icmpv4_test_packet_setters() {
    let buffer: [u8; 9] = [0; 9];
    let mut packet = LayersPacket::try_new(buffer.to_vec()).unwrap();
    packet.set_type(1);
    packet.set_code(2);
    packet.set_checksum(772);
    packet.set_header([0x05, 0x06, 0x07, 0x08]);
    packet.payload_mut()[0] = 0x09;
    assert_eq!(
        packet.as_ref(),
        &[0x01, 0x02, 0x03, 0x04, 0x05, 0x06, 0x07, 0x08, 0x09][..]
    );

    let buffer: [u8; 9] = [0; 9];
    let mut packet = Icmpv4Packet::try_new(buffer.to_vec()).unwrap();
    packet.set_type(1);
    packet.set_code(2);
    packet.set_checksum(772);
    packet.header_mut().copy_from_slice(&[0x05, 0x06, 0x07, 0x08]);
    packet.payload_mut()[0] = 0x09;
    assert_eq!(
        packet.as_ref(),
        &[0x01, 0x02, 0x03, 0x04, 0x05, 0x06, 0x07, 0x08, 0x09][..]
    );
}

#[test]
fn echo_request_serializes_with_checksum_and_reads_back() {
    let mut packet = LayersPacket::try_new(vec![0; 12]).unwrap();
    LayersRepr::EchoRequest { id: 0x1234, seq: 7 }.serialize(&mut packet);
    assert_eq!(packet.as_ref()[0], 8);
    assert_eq!(packet.header(), [0x12, 0x34, 0x00, 0x07]);
    assert!(matches!(packet.check_encoding(), Ok(())));
    assert!(matches!(
        LayersRepr::deserialize(&packet),
        Ok(LayersRepr::EchoRequest { id: 0x1234, seq: 7 })
    ));
}

#[test]
fn layers_repr_rejects_unknown_type() {
    let packet = LayersPacket::try_new(vec![3, 3, 0, 0, 0, 0, 0, 0]).unwrap();
    assert!(matches!(LayersRepr::deserialize(&packet), Err(Error::Malformed)));
}

#[test]
fn port_unreachable_round_trip() {
    let repr = Icmpv4Repr {
        message: Icmpv4Message::DestinationUnreachable(
            Icmpv4DestinationUnreachable::PortUnreachable,
        ),
        payload_len: 4,
    };
    let mut packet = Icmpv4Packet::try_new(vec![0xAA; 12]).unwrap();
    repr.serialize(&mut packet).unwrap();
    packet.fill_checksum();
    assert_eq!(&packet.as_ref()[0..2], &[3, 3][..]);
    assert_eq!(packet.header(), &[0, 0, 0, 0][..]);
    assert!(matches!(packet.check_encoding(), Ok(())));
    let back = Icmpv4Repr::deserialize(&packet).unwrap();
    assert_eq!(back, repr);
}

#[test]
fn repr_buffer_len_counts_header() {
    let repr = Icmpv4Repr { message: Icmpv4Message::EchoReply { id: 1, seq: 2 }, payload_len: 10 };
    assert_eq!(repr.buffer_len(), 18);
    assert_eq!(LayersRepr::EchoReply { id: 1, seq: 2 }.buffer_len(), 8);
    assert_eq!(Icmpv4Packet::buffer_len(5), 13);
}
