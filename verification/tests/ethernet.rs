use usrnet::layers::ethernet::{
    Address as LayersAddress,
    Frame as LayersFrame,
    Type,
};
use usrnet::repr::{
    eth_types,
    EthernetAddress as Address,
    EthernetFrame as Frame,
};
use usrnet::Error;

#[test]
fn ethernet_test_is_unicast() {
    let addr = Address::new([0x00, 0xFF, 0xFF, 0xFF, 0xFF, 0xFF]);
    assert!(addr.is_unicast());
}

#[test]
fn ethernet_test_is_multicast() {
    let addr = Address::new([0xFF; 6]);
    assert!(addr.is_broadcast());
}

#[test]
fn test_is_broadcast() {
    let addr = Address::new([0xFF; 6]);
    assert!(addr.is_broadcast());
}

#[test]
fn test_is_local() {
    let addr = Address::new([0x02, 0xFF, 0xFF, 0xFF, 0xFF, 0xFF]);
    assert!(addr.is_local());
}

#[test]
fn multicast_is_not_unicast() {
    let addr = Address::new([0x01, 0x00, 0x5E, 0x00, 0x00, 0x01]);
    assert!(addr.is_multicast());
    assert!(!addr.is_unicast());
    assert!(!addr.is_broadcast());
    assert!(!addr.is_local());
}

#[test]
fn frame_fields_round_trip() {
    let mut frame = Frame::try_new(vec![0; 16]).unwrap();
    frame.set_dst_addr(Address::new([1, 2, 3, 4, 5, 6]));
    frame.set_src_addr(Address::new([7, 8, 9, 10, 11, 12]));
    frame.set_payload_type(eth_types::IPV4);
    frame.payload_mut()[1] = 0xAB;
    assert_eq!(frame.dst_addr(), Address::new([1, 2, 3, 4, 5, 6]));
    assert_eq!(frame.src_addr(), Address::new([7, 8, 9, 10, 11, 12]));
    assert_eq!(frame.payload_type(), 0x0800);
    assert_eq!(frame.payload(), &[0x00, 0xAB][..]);
    assert_eq!(Frame::buffer_len(2), 16);
}

#[test]
fn frame_size_limits() {
    assert!(matches!(Frame::try_new(vec![0; 13]), Err(Error::Exhausted)));
    assert!(matches!(Frame::try_new(vec![0; 1519]), Err(Error::Exhausted)));
    assert!(Frame::try_new(vec![0; 1518]).is_ok());
    assert!(matches!(Address::try_new(&[1, 2, 3]), Err(Error::Exhausted)));
}

#[test]
fn layers_frame_payload_type() {
    let mut frame = LayersFrame::new(vec![0; 20]).unwrap();
    assert!(matches!(frame.get_payload_type(), Err(0)));
    frame.set_payload_type(Type::Arp);
    frame.set_dst_addr(LayersAddress::broadcast());
    frame.set_src_addr(LayersAddress::new([1, 2, 3, 4, 5, 6]));
    assert!(matches!(frame.get_payload_type(), Ok(Type::Arp)));
    assert_eq!(&frame.as_ref()[0..14], &[0xFF, 0xFF, 0xFF, 0xFF, 0xFF, 0xFF, 1, 2, 3, 4, 5, 6, 0x08, 0x06][..]);
    assert_eq!(frame.payload().len(), 6);
    assert!(matches!(LayersAddress::try_from(&[1, 2]), Err(Error::Buffer)));
}
