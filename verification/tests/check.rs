use usrnet::check::{
    internet_checksum,
    ByteOrderIter,
};

#[test]
fn test_byte_order_iter_empty() {
    let buffer: [u8; 0] = [];
    let mut iter = ByteOrderIter::from(&buffer[..]);
    assert!(matches!(iter.next(), None));
}

#[test]
fn test_byte_order_iter_even() {
    let buffer: [u8; 6] = [0x01, 0x02, 0x03, 0x04, 0x05, 0x06];
    let mut iter = ByteOrderIter::from(&buffer[..]);
    assert!(matches!(iter.next(), Some(258)));
    assert!(matches!(iter.next(), Some(772)));
    assert!(matches!(iter.next(), Some(1286)));
    assert!(matches!(iter.next(), None));
}

#[test]
fn test_byte_order_iter_odd() {
    let buffer: [u8; 5] = [0x01, 0x02, 0x03, 0x04, 0x05];
    let mut iter = ByteOrderIter::from(&buffer[..]);
    assert!(matches!(iter.next(), Some(258)));
    assert!(matches!(iter.next(), Some(772)));
    assert!(matches!(iter.next(), Some(1280)));
    assert!(matches!(iter.next(), None));
}

#[test]
fn test_internet_checksum() {
    let buffer: [u8; 20] = [
        0x45, 0x00, 0x00, 0x73, 0x00, 0x00, 0x40, 0x00, 0x40, 0x11, 0x00, 0x00, 0xc0, 0xa8, 0x00,
        0x01, 0xc0, 0xa8, 0x00, 0xc7,
    ];
    let iter = ByteOrderIter::from(&buffer[..]);
    assert_eq!(0xB861, internet_checksum(iter));
}

#[test]
fn checksum_of_empty_buffer_is_all_ones() {
    let buffer: [u8; 0] = [];
    assert_eq!(0xFFFF, internet_checksum(ByteOrderIter::from(&buffer[..])));
}

#[test]
fn checksum_folds_carries() {
    // 0xFFFF + 0x0001 = 0x10000, which folds to 0x0001; its complement is 0xFFFE.
    let buffer: [u8; 4] = [0xFF, 0xFF, 0x00, 0x01];
    assert_eq!(0xFFFE, internet_checksum(ByteOrderIter::from(&buffer[..])));
}

#[test]
fn filled_checksum_checks_out() {
    let mut buffer: [u8; 20] = [
        0x45, 0x00, 0x00, 0x73, 0x00, 0x00, 0x40, 0x00, 0x40, 0x11, 0x00, 0x00, 0xc0, 0xa8, 0x00,
        0x01, 0xc0, 0xa8, 0x00, 0xc7,
    ];
    let checksum = internet_checksum(ByteOrderIter::from(&buffer[..]));
    buffer[10] = (checksum >> 8) as u8;
    buffer[11] = (checksum & 0xFF) as u8;
    assert_eq!(0, internet_checksum(ByteOrderIter::from(&buffer[..])));
}
