use usrnet::addr::{
    Ipv4,
    Mac,
    ETH_BROADCAST,
};
use usrnet::layers::arp::{
    Arp as LayersArp,
    Op as LayersOp,
};
use usrnet::layers::{
    EthernetAddress as LayersEthernetAddress,
    Ipv4Address as LayersIpv4Address,
};
use usrnet::net::arp::{
    Arp as NetArp,
    Op as NetOp,
};
use usrnet::repr::{
    Arp,
    ArpOp,
    EthernetAddress,
    Ipv4Address,
};
use usrnet::Error;

fn repr_request() -> Arp {
    Arp {
        op: ArpOp::Request,
        source_hw_addr: EthernetAddress::new([1, 2, 3, 4, 5, 6]),
        source_proto_addr: Ipv4Address::new([10, 0, 0, 1]),
        target_hw_addr: EthernetAddress::new([0xFF; 6]),
        target_proto_addr: Ipv4Address::new([10, 0, 0, 2]),
    }
}

const REQUEST_BYTES: [u8; 28] = [
    0x00, 0x01, 0x08, 0x00, 6, 4, 0x00, 0x01, 1, 2, 3, 4, 5, 6, 10, 0, 0, 1, 0xFF, 0xFF, 0xFF,
    0xFF, 0xFF, 0xFF, 10, 0, 0, 2,
];

#[test]
fn repr_arp_serializes_to_wire_format() {
    let arp = repr_request();
    assert_eq!(arp.buffer_len(), 28);
    let mut buffer = [0u8; 30];
    arp.serialize(&mut buffer).unwrap();
    assert_eq!(&buffer[..28], &REQUEST_BYTES[..]);
    assert_eq!(&buffer[28..], &[0, 0][..]);
    assert_eq!(Arp::deserialize(&buffer).unwrap(), arp);
}

#[test]
fn repr_arp_rejects_short_and_foreign_packets() {
    let mut small = [0u8; 27];
    assert!(matches!(repr_request().serialize(&mut small), Err(Error::Exhausted)));
    assert!(matches!(Arp::deserialize(&REQUEST_BYTES[..27]), Err(Error::Malformed)));
    let mut bytes = REQUEST_BYTES;
    bytes[7] = 3;
    assert!(matches!(Arp::deserialize(&bytes), Err(Error::Malformed)));
}

#[test]
fn layers_arp_round_trip() {
    let arp = LayersArp::EthernetIpv4 {
        op: LayersOp::Reply,
        source_hw_addr: LayersEthernetAddress::new([1, 2, 3, 4, 5, 6]),
        source_proto_addr: LayersIpv4Address::new([10, 0, 0, 1]),
        target_hw_addr: LayersEthernetAddress::new([6, 5, 4, 3, 2, 1]),
        target_proto_addr: LayersIpv4Address::new([10, 0, 0, 2]),
    };
    assert_eq!(arp.buffer_len(), 28);
    let mut buffer = [0u8; 28];
    arp.serialize(&mut buffer).unwrap();
    assert_eq!(&buffer[..8], &[0x00, 0x01, 0x08, 0x00, 6, 4, 0x00, 0x02][..]);
    assert_eq!(LayersArp::deserialize(&buffer).unwrap(), arp);
}

#[test]
fn layers_arp_errors() {
    assert!(matches!(LayersArp::deserialize(&[0; 7]), Err(Error::Buffer)));
    assert!(matches!(LayersArp::deserialize(&[0; 8]), Err(Error::Encoding)));
    let mut small = [0u8; 20];
    let arp = LayersArp::EthernetIpv4 {
        op: LayersOp::Request,
        source_hw_addr: LayersEthernetAddress::new([0; 6]),
        source_proto_addr: LayersIpv4Address::new([0; 4]),
        target_hw_addr: LayersEthernetAddress::new([0; 6]),
        target_proto_addr: LayersIpv4Address::new([0; 4]),
    };
    assert!(matches!(arp.serialize(&mut small), Err(Error::Buffer)));
}

#[test]
fn net_arp_writes_the_hardware_type_in_both_type_fields() {
    let source_hw_addr: Mac = [1, 2, 3, 4, 5, 6];
    let source_proto_addr: Ipv4 = [10, 0, 0, 1];
    let arp = NetArp::EthernetIpv4 {
        op: NetOp::Request,
        source_hw_addr,
        source_proto_addr,
        target_hw_addr: ETH_BROADCAST,
        target_proto_addr: [10, 0, 0, 2],
    };
    assert_eq!(arp.buffer_len(), 28);
    let mut buffer = [0u8; 28];
    arp.serialize(&mut buffer).unwrap();
    let mut expected = REQUEST_BYTES;
    expected[2] = 0x00;
    expected[3] = 0x01;
    assert_eq!(buffer, expected);
    let mut small = [0u8; 27];
    assert!(matches!(arp.serialize(&mut small), Err(usrnet::net::Error::Overflow)));
}
