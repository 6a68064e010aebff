use usrnet::layers::{
    EthernetAddress as LayersEthernetAddress,
    Ipv4Address as LayersIpv4Address,
};
use usrnet::repr::{
    EthernetAddress,
    Ipv4Address,
    Ipv4AddressCidr,
};
use usrnet::text::parse_u8;

#[test]
fn ipv4_address_parses_dotted_decimal() {
    assert_eq!("10.0.0.1".parse::<Ipv4Address>(), Ok(Ipv4Address::new([10, 0, 0, 1])));
    assert_eq!("255.255.255.255".parse::<Ipv4Address>(), Ok(Ipv4Address::new([255; 4])));
    assert_eq!("+1.02.003.4".parse::<Ipv4Address>(), Ok(Ipv4Address::new([1, 2, 3, 4])));
    assert_eq!("256.0.0.1".parse::<Ipv4Address>(), Err(()));
    assert_eq!("1.2.3".parse::<Ipv4Address>(), Err(()));
    assert_eq!("1.2.3.4.".parse::<Ipv4Address>(), Err(()));
    assert_eq!("1.2..4".parse::<Ipv4Address>(), Err(()));
    assert_eq!("1.2.3.x".parse::<Ipv4Address>(), Err(()));
    assert_eq!("-1.2.3.4".parse::<Ipv4Address>(), Err(()));
    assert_eq!("".parse::<Ipv4Address>(), Err(()));
    assert_eq!("9.8.7.6".parse::<LayersIpv4Address>(), Ok(LayersIpv4Address::new([9, 8, 7, 6])));
}

#[test]
fn ipv4_address_text() {
    assert_eq!(Ipv4Address::new([10, 0, 0, 102]).to_string(), "10.0.0.102");
    assert_eq!(Ipv4Address::new([0, 9, 99, 255]).to_string(), "0.9.99.255");
    assert_eq!(LayersIpv4Address::new([192, 168, 1, 1]).to_string(), "192.168.1.1");
    let cidr = Ipv4AddressCidr::new(Ipv4Address::new([10, 0, 0, 102]), 24);
    assert_eq!(cidr.to_string(), "10.0.0.102/24");
}

#[test]
fn mac_address_parses_and_prints_hex() {
    let mac = EthernetAddress::new([0x02, 0x00, 0xAB, 0xcd, 0x0F, 0xFF]);
    assert_eq!("02:00:ab:CD:f:ff".parse::<EthernetAddress>(), Ok(mac));
    assert_eq!(mac.to_string(), "02:00:AB:CD:0F:FF");
    assert_eq!("02:00:ab:cd:0f".parse::<EthernetAddress>(), Err(()));
    assert_eq!("02:00:ab:cd:0f:100".parse::<EthernetAddress>(), Err(()));
    assert_eq!("02-00-ab-cd-0f-ff".parse::<EthernetAddress>(), Err(()));
    assert_eq!(LayersEthernetAddress::new([1, 2, 3, 4, 5, 6]).to_string(), "01:02:03:04:05:06");
    assert_eq!(
        "01:02:03:04:05:06".parse::<LayersEthernetAddress>(),
        Ok(LayersEthernetAddress::new([1, 2, 3, 4, 5, 6]))
    );
}

#[test]
fn printed_addresses_parse_back() {
    for a in [[0u8, 0, 0, 0], [1, 22, 133, 244], [255, 10, 100, 9]] {
        let addr = Ipv4Address::new(a);
        assert_eq!(addr.to_string().parse::<Ipv4Address>(), Ok(addr));
    }
    let mac = EthernetAddress::new([0xFE, 0x01, 0x10, 0xA0, 0x0A, 0x99]);
    assert_eq!(mac.to_string().parse::<EthernetAddress>(), Ok(mac));
}

#[test]
fn byte_tokens() {
    assert_eq!(parse_u8(b"0", 10), Some(0));
    assert_eq!(parse_u8(b"255", 10), Some(255));
    assert_eq!(parse_u8(b"0000255", 10), Some(255));
    assert_eq!(parse_u8(b"256", 10), None);
    assert_eq!(parse_u8(b"99999999999", 10), None);
    assert_eq!(parse_u8(b"+", 10), None);
    assert_eq!(parse_u8(b"", 10), None);
    assert_eq!(parse_u8(b"ff", 16), Some(255));
    assert_eq!(parse_u8(b"ff", 10), None);
    assert_eq!(parse_u8(b"+A", 16), Some(10));
}
