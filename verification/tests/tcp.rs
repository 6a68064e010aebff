use usrnet::repr::tcp::{
    TcpOption,
    TcpOptionIter,
};
use usrnet::repr::{
    Ipv4Address,
    Ipv4Protocol,
    Ipv4Repr,
    TcpPacket as Packet,
    TcpRepr as Repr,
};
use usrnet::Error;

fn ipv4_repr(payload_len: u16) -> Ipv4Repr {
    Ipv4Repr {
        src_addr: Ipv4Address::new([0, 1, 2, 3]),
        dst_addr: Ipv4Address::new([4, 5, 6, 7]),
        protocol: Ipv4Protocol::TCP,
        payload_len,
    }
}

#[test]
fn tcp_test_packet_with_buffer_less_than_min_header() {
    let buffer: [u8; 19] = [0; 19];
    let packet = Packet::try_new(buffer.to_vec());
    assert!(matches!(packet, Err(Error::Exhausted)));
}

#[test]
fn tcp_test_packet_with_invalid_checksum() {
    let buffer: [u8; 36] = [
        0x45, 0x00, 0x00, 0x14, 0x00, 0x00, 0x12, 0x34, 0x00, 0x00, 0x00, 0x00, 0x00, 0x00, 0x00,
        0x00, 0x9C, 0x90, 0x00, 0x00, 0x00, 0x00, 0x00, 0x00, 0x00, 0x00, 0x00, 0x00, 0x00, 0x00,
        0x00, 0x00, 0x00, 0x00, 0x00, 0x00,
    ];
    let packet = Packet::try_new(buffer.to_vec()).unwrap();
    assert!(matches!(packet.check_encoding(&ipv4_repr(16)), Err(Error::Checksum)));
}

#[test]
fn test_packet_with_invalid_data_offset() {
    let buffer: [u8; 36] = [
        0x45, 0x00, 0x00, 0x14, 0x00, 0x00, 0x12, 0x34, 0x00, 0x00, 0x00, 0x00, 0x10, 0x00, 0x00,
        0x00, 0x8C, 0x91, 0x00, 0x00, 0x00, 0x00, 0x00, 0x00, 0x00, 0x00, 0x00, 0x00, 0x00, 0x00,
        0x00, 0x00, 0x00, 0x00, 0x00, 0x00,
    ];
    let packet = Packet::try_new(buffer.to_vec()).unwrap();
    assert!(matches!(packet.check_encoding(&ipv4_repr(16)), Err(Error::Malformed)));
}

#[test]
fn tcp_test_packet_getters() {
    let buffer: [u8; 40] = [
        0x45, 0x00, 0x00, 0x14, 0x00, 0x00, 0xB0, 0x12, 0x00, 0x00, 0x00, 0x34, 0x61, 0xFF, 0x43,
        0x21, 0x3B, 0x26, 0x12, 0x34, 0x02, 0x04, 0x01, 0x00, 0x09, 0x00, 0x00, 0x00, 0x00, 0x00,
        0x00, 0x00, 0x00, 0x00, 0x00, 0x00, 0x00, 0x00, 0x00, 0x00,
    ];

    let packet = Packet::try_new(buffer.to_vec()).unwrap();

    assert!(matches!(packet.check_encoding(&ipv4_repr(16)), Ok(_)));
    assert_eq!(17664, packet.src_port());
    assert_eq!(20, packet.dst_port());
    assert_eq!(45074, packet.seq_num());
    assert_eq!(52, packet.ack_num());
    assert_eq!(6, packet.data_offset());
    assert_eq!(17185, packet.window_size());
    assert_eq!(true, packet.ns());
    assert_eq!(true, packet.cwr());
    assert_eq!(true, packet.ece());
    assert_eq!(true, packet.urg());
    assert_eq!(true, packet.ack());
    assert_eq!(true, packet.psh());
    assert_eq!(true, packet.rst());
    assert_eq!(true, packet.syn());
    assert_eq!(true, packet.fin());
    assert_eq!(15142, packet.checksum());
    assert_eq!(4660, packet.urgent_pointer());

    let repr = Repr::deserialize(&packet);

    assert_eq!(
        repr,
        Repr {
            src_port: 17664,
            dst_port: 20,
            seq_num: 45074,
            ack_num: 52,
            flags: [true; 9],
            window_size: 17185,
            urgent_pointer: 4660,
            max_segment_size: Some(256),
        }
    );
}

#[test]
fn tcp_test_packet_setters() {
    let repr = Repr {
        src_port: 17664,
        dst_port: 20,
        seq_num: 45074,
        ack_num: 52,
        flags: [true; 9],
        window_size: 17185,
        urgent_pointer: 4660,
        max_segment_size: Some(256),
    };

    assert_eq!(24, repr.header_len());

    let buffer: [u8; 40] = [0; 40];

    let mut packet = Packet::try_new(buffer.to_vec()).unwrap();
    repr.serialize(&mut packet).unwrap();
    packet.payload_mut()[0] = 9;
    packet.fill_checksum(&ipv4_repr(16));

    assert_eq!(
        packet.as_ref(),
        &[
            0x45, 0x00, 0x00, 0x14, 0x00, 0x00, 0xB0, 0x12, 0x00, 0x00, 0x00, 0x34, 0x61, 0xFF,
            0x43, 0x21, 0x3B, 0x26, 0x12, 0x34, 0x02, 0x04, 0x01, 0x00, 0x09, 0x00, 0x00, 0x00,
            0x00, 0x00, 0x00, 0x00, 0x00, 0x00, 0x00, 0x00, 0x00, 0x00, 0x00, 0x00,
        ][..]
    );
}

#[test]
fn test_options_iterator() {
    let buffer: [u8; 20] = [0, 1, 3, 4, 4, 5, 2, 4, 1, 1, 0, 1, 1, 1, 5, 99, 2, 4, 1, 1];
    let mut iter = TcpOptionIter::new(&buffer);
    let mut options = Vec::new();
    while let Some(option) = iter.next() {
        options.push(option);
    }

    assert_eq!(
        options,
        vec![
            TcpOption::EOL,
            TcpOption::NoOp,
            TcpOption::Unknown { kind: 3, payload: &[4, 5] },
            TcpOption::MaxSegmentSize(257),
            TcpOption::EOL,
            TcpOption::NoOp,
            TcpOption::NoOp,
            TcpOption::NoOp,
        ]
    );
}

#[test]
fn serialize_into_too_small_packet_fails() {
    let repr = Repr {
        src_port: 1,
        dst_port: 2,
        seq_num: 3,
        ack_num: 4,
        flags: [false; 9],
        window_size: 5,
        urgent_pointer: 6,
        max_segment_size: Some(1460),
    };
    let mut packet = Packet::try_new(vec![0; 20]).unwrap();
    assert!(matches!(repr.serialize(&mut packet), Err(Error::Exhausted)));
    assert_eq!(packet.as_ref(), &[0; 20][..]);
}

#[test]
fn serialize_without_options_round_trip() {
    let mut flags = [false; 9];
    flags[Repr::FLAG_SYN] = true;
    flags[Repr::FLAG_ACK] = true;
    let repr = Repr {
        src_port: 80,
        dst_port: 5000,
        seq_num: 0xDEADBEEF,
        ack_num: 1,
        flags,
        window_size: 1024,
        urgent_pointer: 0,
        max_segment_size: None,
    };
    assert_eq!(repr.header_len(), 20);
    let mut packet = Packet::try_new(vec![0; 20]).unwrap();
    repr.serialize(&mut packet).unwrap();
    packet.fill_checksum(&ipv4_repr(20));
    assert!(matches!(packet.check_encoding(&ipv4_repr(20)), Ok(())));
    assert!(packet.syn() && packet.ack() && !packet.fin());
    assert_eq!(Repr::deserialize(&packet), repr);
}

#[test]
fn option_iteration_ends_within_the_buffer_length() {
    let buffers: Vec<Vec<u8>> = vec![
        vec![],
        vec![0, 0, 0, 0],
        vec![1, 1, 1, 1, 1],
        vec![2, 4, 0x05, 0xB4, 1, 0],
        vec![9, 3, 7, 1, 9, 2],
        vec![9, 200, 1],
        vec![1, 9],
    ];
    let expected = [0, 4, 5, 3, 3, 0, 1];
    for (buffer, expected) in buffers.iter().zip(expected.iter()) {
        let mut iter = TcpOptionIter::new(buffer);
        let mut count = 0;
        while iter.next().is_some() {
            count += 1;
            assert!(count <= buffer.len());
        }
        assert_eq!(count, *expected);
    }
}
