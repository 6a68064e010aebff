//! IPv4 addresses, subnets, headers and packets.
use vstd::prelude::*;

use crate::bits::lemma_u8_bits;
use crate::bytes::{
    be16_bytes,
    be32_bytes,
    get_u16,
    get_u32,
    set_bytes,
    set_u16,
    spec_be16,
    spec_be32,
    splice,
};
use crate::check::{
    internet_checksum,
    lemma_checksum_fill,
    spec_internet_checksum,
    ByteOrderIter,
};
use crate::{
    Error,
    Result,
};

pub mod flags;
pub mod protocols;

use vstd::string::StringSliceAdditionalSpecFns;

use crate::text::{
    ascii_to_string,
    spec_decimal,
    parse_fields,
    spec_decimal_text,
    spec_ascii_chars,
    spec_parse_fields,
    write_fields,
};

verus! {

/// [IPv4 address](https://en.wikipedia.org/wiki/IPv4) in network byte order.
/// See [this](https://en.wikipedia.org/wiki/Classful_network) for a description
/// of IPv4 address classes.
#[derive(Clone, Copy, Debug, Eq, Hash)]
pub struct Address([u8; 4]);

impl View for Address {
    type V = Seq<u8>;

    /// The four bytes of the address in network byte order.
    closed spec fn view(&self) -> Seq<u8> {
        self.0@
    }
}

impl PartialEq for Address {
    fn eq(&self, other: &Address) -> (r: bool) {
        let r = self.0[0] == other.0[0] && self.0[1] == other.0[1] && self.0[2] == other.0[2]
            && self.0[3] == other.0[3];
        proof {
            if r {
                assert(self.0@ =~= other.0@);
            }
        }
        r
    }
}

impl vstd::std_specs::cmp::PartialEqSpecImpl for Address {
    open spec fn obeys_eq_spec() -> bool {
        true
    }

    open spec fn eq_spec(&self, other: &Address) -> bool {
        self@ == other@
    }
}

/// The address whose network byte order representation is the first four
/// bytes of `s`.
pub closed spec fn spec_address(s: Seq<u8>) -> Address {
    Address([s[0], s[1], s[2], s[3]])
}

/// An address is determined by its bytes.
pub proof fn lemma_address_view(a: Address)
    ensures
        spec_address(a@) == a,
        a@.len() == 4,
{
    assert(spec_address(a@).0 =~= a.0);
}

/// The bytes of the address read from a sequence.
pub proof fn lemma_spec_address(s: Seq<u8>)
    requires
        s.len() >= 4,
    ensures
        spec_address(s)@ == s.subrange(0, 4),
{
    assert(spec_address(s)@ =~= s.subrange(0, 4));
}

/// Reads the address stored at offset `at` of a buffer.
pub(crate) fn address_at(buf: &[u8], at: usize) -> (a: Address)
    requires
        at + 4 <= buf@.len(),
    ensures
        a == spec_address(buf@.subrange(at as int, at + 4)),
        a@ == buf@.subrange(at as int, at + 4),
{
    let a = Address([buf[at], buf[at + 1], buf[at + 2], buf[at + 3]]);
    assert(a@ =~= buf@.subrange(at as int, at + 4));
    a
}

impl core::str::FromStr for Address {
    type Err = ();

    /// Parses an IPv4 address from an A.B.C.D style string.
    fn from_str(addr: &str) -> (r: core::result::Result<Address, ()>)
        ensures
            match r {
                Ok(a) => spec_parse_fields(addr.spec_bytes(), 0x2E, 10, 4) == Some(a@),
                Err(_) => spec_parse_fields(addr.spec_bytes(), 0x2E, 10, 4) is None,
            },
    {
        match parse_fields(addr.as_bytes(), 0x2E, 10, 4) {
            Some(v) => {
                let a = Address([v[0], v[1], v[2], v[3]]);
                assert(a@ =~= v@);
                Ok(a)
            },
            None => Err(()),
        }
    }
}

impl Address {
    /// The text of the address: the decimal value of each byte, separated by dots.
    pub fn to_string(&self) -> (s: String)
        ensures
            s@ == spec_ascii_chars(spec_decimal_text(self@, 0x2E)),
    {
        let text = write_fields(&self.0, 0x2E, false);
        ascii_to_string(text)
    }

    /// Creates an IPv4 address from a network byte order buffer.
    pub fn new(addr: [u8; 4]) -> (a: Address)
        ensures
            a@ == addr@,
    {
        Address(addr)
    }

    /// Tries to creates an IPv4 address from a network byte order slice.
    pub fn try_new(addr: &[u8]) -> (r: Result<Address>)
        ensures
            r is Ok <==> addr@.len() == 4,
            r matches Ok(a) ==> a@ == addr@,
            r matches Err(e) ==> e is Exhausted,
    {
        if addr.len() != 4 {
            return Err(Error::Exhausted);
        }
        let a = address_at(addr, 0);
        assert(addr@.subrange(0, 4) =~= addr@);
        Ok(a)
    }

    /// Returns a reference to the network byte order representation of the
    /// address.
    pub fn as_bytes(&self) -> (bytes: &[u8])
        ensures
            bytes@ == self@,
    {
        &self.0
    }

    /// Returns an integer representation of the address in host byte order.
    pub fn as_int(&self) -> (n: u32)
        ensures
            n as int == spec_be32(self@, 0),
    {
        get_u32(self.as_bytes(), 0)
    }

    /// Checks if this is a unicast address.
    pub fn is_unicast(&self) -> (r: bool)
        ensures
            r == (self@[0] < 0xE0),
    {
        !(self.is_multicast() || self.is_reserved())
    }

    /// Checks if this is a multicast address.
    pub fn is_multicast(&self) -> (r: bool)
        ensures
            r == (self@[0] >= 0xE0),
    {
        proof {
            lemma_u8_bits(self.0[0], 0);
        }
        (self.0[0] & 0b11100000) == 0b11100000
    }

    /// Checks if this is a reserved address.
    pub fn is_reserved(&self) -> (r: bool)
        ensures
            r == (self@[0] >= 0xF0),
    {
        proof {
            lemma_u8_bits(self.0[0], 0);
        }
        (self.0[0] & 0b11110000) == 0b11110000
    }
}

impl From<u32> for Address {
    /// Creates an address from its integer representation in host byte order.
    fn from(addr: u32) -> (a: Address) {
        let mut bytes: Vec<u8> = vec![0, 0, 0, 0];
        crate::bytes::set_u32(bytes.as_mut_slice(), 0, addr);
        let a = address_at(bytes.as_slice(), 0);
        assert(bytes@.subrange(0, 4) =~= be32_bytes(addr));
        a
    }
}

impl vstd::std_specs::convert::FromSpecImpl<u32> for Address {
    open spec fn obeys_from_spec() -> bool {
        true
    }

    open spec fn from_spec(addr: u32) -> Address {
        spec_address(be32_bytes(addr))
    }
}

/// The subnet mask of a prefix of `subnet_len` bits.
pub open spec fn spec_subnet_mask(subnet_len: u32) -> u32 {
    !(0xFFFFFFFFu32 >> subnet_len)
}

/// Whether `address` is on the subnet: its prefix is that of the subnet's
/// address.
pub open spec fn spec_is_member(cidr: (Address, u32), address: Address) -> bool {
    spec_be32(address@, 0) as u32 & spec_subnet_mask(cidr.1) == spec_be32(cidr.0@, 0) as u32
        & spec_subnet_mask(cidr.1)
}

/// An IPv4 address with the length of its subnet prefix.
#[derive(Clone, Copy, Debug, PartialEq, Eq, Hash)]
pub struct AddressCidr {
    address: Address,
    subnet_len: u32,
}

impl View for AddressCidr {
    type V = (Address, u32);

    /// The address and the length of the subnet prefix.
    closed spec fn view(&self) -> (Address, u32) {
        (self.address, self.subnet_len)
    }
}

impl AddressCidr {
    #[verifier::type_invariant]
    closed spec fn inv(&self) -> bool {
        self.subnet_len <= 32
    }

    /// Creates an IPv4 address with a subnet mask.
    ///
    /// The subnet mask may be at most 32 bits long.
    pub fn new(address: Address, subnet_len: usize) -> (cidr: AddressCidr)
        requires
            subnet_len <= 32,
        ensures
            cidr@ == (address, subnet_len as u32),
    {
        AddressCidr { address, subnet_len: subnet_len as u32 }
    }

    /// The address itself.
    pub fn deref(&self) -> (a: &Address)
        ensures
            *a == self@.0,
    {
        &self.address
    }

    /// The text of the address with its subnet: the address, a slash and the
    /// length of the prefix.
    pub fn to_string(&self) -> (s: String)
        ensures
            s@ == spec_ascii_chars(
                spec_decimal_text(self@.0@, 0x2E) + seq![0x2Fu8] + spec_decimal(self@.1 as u8),
            ),
    {
        proof {
            use_type_invariant(self);
            lemma_address_view(self.address);
        }
        let mut text = write_fields(&self.address.0, 0x2E, false);
        text.push(0x2F);
        crate::text::push_decimal(&mut text, self.subnet_len as u8);
        ascii_to_string(text)
    }

    /// The length of the subnet prefix in bits.
    pub fn subnet_len(&self) -> (n: u32)
        ensures
            n == self@.1,
    {
        self.subnet_len
    }

    /// Checks if the address is a member of the subnet.
    ///
    /// The computation of the mask shifts by the prefix length, which must
    /// be less than 32.
    pub fn is_member(&self, address: Address) -> (r: bool)
        requires
            self@.1 < 32,
        ensures
            r == spec_is_member(self@, address),
    {
        let mask = !(0xFFFFFFFFu32 >> self.subnet_len);
        (address.as_int() & mask) == (self.address.as_int() & mask)
    }

    /// Checks if the address is a broadcast address for the subnet.
    pub fn is_broadcast(&self, address: Address) -> (r: bool)
        requires
            self@.1 < 32,
        ensures
            r == (address == spec_broadcast(self@)),
    {
        let b = self.broadcast();
        proof {
            lemma_address_view(address);
            lemma_address_view(b);
        }
        address == b
    }

    /// Creates an IPv4 broadcast address for the subnet.
    pub fn broadcast(&self) -> (a: Address)
        requires
            self@.1 < 32,
        ensures
            a == spec_broadcast(self@),
    {
        let mask = !(0xFFFFFFFFu32 >> self.subnet_len);
        let addr = (self.address.as_int() & mask) | (!mask);
        Address::from(addr)
    }
}

/// The broadcast address of a subnet: its prefix followed by ones.
pub open spec fn spec_broadcast(cidr: (Address, u32)) -> Address {
    spec_address(
        be32_bytes(
            (spec_be32(cidr.0@, 0) as u32 & spec_subnet_mask(cidr.1)) | !spec_subnet_mask(
                cidr.1,
            ),
        ),
    )
}

/// The broadcast address of a subnet is on the subnet, and it is the
/// address that `is_broadcast` recognizes.
pub proof fn lemma_broadcast_is_member(cidr: (Address, u32))
    ensures
        spec_is_member(cidr, spec_broadcast(cidr)),
{
    let x = spec_be32(cidr.0@, 0) as u32;
    let mask = spec_subnet_mask(cidr.1);
    let b = (x & mask) | !mask;
    crate::bytes::lemma_be_bytes(0, b);
    lemma_spec_address(be32_bytes(b));
    assert(spec_broadcast(cidr)@ =~= be32_bytes(b));
    assert(((x & mask) | !mask) & mask == x & mask) by (bit_vector);
}

/// A set of supported protocols over IPv4.
#[derive(Clone, Copy, Debug, PartialEq, Eq, Structural)]
pub enum Protocol {
    ICMP,
    UDP,
    TCP,
    #[allow(non_camel_case_types)]
    __Nonexhaustive,
}

/// The protocol number of a protocol.
pub open spec fn spec_protocol_code(p: Protocol) -> u8 {
    match p {
        Protocol::ICMP => protocols::ICMP,
        Protocol::UDP => protocols::UDP,
        Protocol::TCP => protocols::TCP,
        Protocol::__Nonexhaustive => 7,
    }
}

impl Protocol {
    /// The protocol number of the protocol.
    pub fn code(&self) -> (c: u8)
        ensures
            c == spec_protocol_code(*self),
    {
        match self {
            Protocol::ICMP => protocols::ICMP,
            Protocol::UDP => protocols::UDP,
            Protocol::TCP => protocols::TCP,
            Protocol::__Nonexhaustive => 7,
        }
    }
}

// Header fields of an IPv4 packet held in the byte sequence `s`.
/// The IP version: high nibble of byte 0.
pub open spec fn spec_ip_version(s: Seq<u8>) -> u8 {
    s[0] / 16
}

/// The header length in 32 bit words: low nibble of byte 0.
pub open spec fn spec_header_len(s: Seq<u8>) -> u8 {
    s[0] % 16
}

/// The DSCP: high six bits of byte 1.
pub open spec fn spec_dscp(s: Seq<u8>) -> u8 {
    s[1] / 4
}

/// The ECN: low two bits of byte 1.
pub open spec fn spec_ecn(s: Seq<u8>) -> u8 {
    s[1] % 4
}

/// The total packet length: bytes 2 and 3.
pub open spec fn spec_packet_len(s: Seq<u8>) -> u16 {
    spec_be16(s, 2) as u16
}

/// The identification: bytes 4 and 5.
pub open spec fn spec_identification(s: Seq<u8>) -> u16 {
    spec_be16(s, 4) as u16
}

/// The flags: high three bits of byte 6.
pub open spec fn spec_flags(s: Seq<u8>) -> u8 {
    s[6] / 32
}

/// The fragment offset: low five bits of byte 6 followed by byte 7.
pub open spec fn spec_fragment_offset(s: Seq<u8>) -> u16 {
    ((s[6] % 32) as int * 256 + s[7] as int) as u16
}

/// The header checksum: bytes 10 and 11.
pub open spec fn spec_header_checksum(s: Seq<u8>) -> u16 {
    spec_be16(s, 10) as u16
}

/// The header length in bytes.
pub open spec fn spec_header_bytes(s: Seq<u8>) -> int {
    spec_header_len(s) as int * 4
}

/// The checksum computed over the header of the packet.
pub open spec fn spec_gen_header_checksum(s: Seq<u8>) -> u16 {
    spec_internet_checksum(s.subrange(0, spec_header_bytes(s)))
}

/// The result of the encoding checks of an IPv4 packet: version 4, a header
/// of at least 20 bytes that fits the total length, a total length that fits
/// the buffer, and a header checksum that checks out. A packet that passes
/// has a payload between the end of its header and its total length.
pub open spec fn spec_check_encoding(s: Seq<u8>) -> Result<()> {
    if spec_packet_len(s) > s.len() || spec_header_bytes(s) < 20 || spec_header_bytes(s) > s.len()
        || spec_header_bytes(s) > spec_packet_len(s) || spec_ip_version(s) != 4 {
        Err(Error::Malformed)
    } else if spec_gen_header_checksum(s) != 0 {
        Err(Error::Checksum)
    } else {
        Ok(())
    }
}

/// The payload lies between the end of the header and the end of the packet.
pub open spec fn spec_payload_in_bounds(s: Seq<u8>) -> bool {
    spec_header_bytes(s) <= spec_packet_len(s) <= s.len()
}

/// The payload of the packet.
pub open spec fn spec_payload(s: Seq<u8>) -> Seq<u8> {
    s.subrange(spec_header_bytes(s), spec_packet_len(s) as int)
}

// Field access on buffers of at least 20 bytes, shared by the packet views.
pub(crate) fn field_ip_version(buf: &[u8]) -> (r: u8)
    requires
        buf@.len() >= 20,
    ensures
        r == spec_ip_version(buf@),
{
    proof {
        lemma_u8_bits(buf@[0], 0);
    }
    (buf[0] & 0xF0) >> 4
}

pub(crate) fn field_header_len(buf: &[u8]) -> (r: u8)
    requires
        buf@.len() >= 20,
    ensures
        r == spec_header_len(buf@),
{
    proof {
        lemma_u8_bits(buf@[0], 0);
    }
    buf[0] & 0x0F
}

pub(crate) fn field_dscp(buf: &[u8]) -> (r: u8)
    requires
        buf@.len() >= 20,
    ensures
        r == spec_dscp(buf@),
{
    proof {
        lemma_u8_bits(buf@[1], 0);
    }
    (buf[1] & 0xFC) >> 2
}

pub(crate) fn field_ecn(buf: &[u8]) -> (r: u8)
    requires
        buf@.len() >= 20,
    ensures
        r == spec_ecn(buf@),
{
    proof {
        lemma_u8_bits(buf@[1], 0);
    }
    buf[1] & 0x03
}

pub(crate) fn field_flags(buf: &[u8]) -> (r: u8)
    requires
        buf@.len() >= 20,
    ensures
        r == spec_flags(buf@),
{
    proof {
        lemma_u8_bits(buf@[6], 0);
    }
    (buf[6] & 0xE0) >> 5
}

pub(crate) fn field_fragment_offset(buf: &[u8]) -> (r: u16)
    requires
        buf@.len() >= 20,
    ensures
        r == spec_fragment_offset(buf@),
{
    proof {
        lemma_u8_bits(buf@[6], 0);
    }
    let frag_offset_only: [u8; 2] = [buf[6] & 0x1F, buf[7]];
    get_u16(&frag_offset_only, 0)
}

pub(crate) fn field_gen_header_checksum(buf: &[u8]) -> (r: u16)
    requires
        buf@.len() >= 20,
        spec_header_bytes(buf@) <= buf@.len(),
    ensures
        r == spec_gen_header_checksum(buf@),
{
    let header_len = (field_header_len(buf) * 4) as usize;
    internet_checksum(ByteOrderIter::from(&buf[0..header_len]))
}

pub(crate) fn field_set_ip_version(buf: &mut Vec<u8>, version: u8)
    requires
        old(buf)@.len() >= 20,
    ensures
        final(buf)@ == old(buf)@.update(0, ((version % 16) * 16 + old(buf)@[0] % 16) as u8),
{
    proof {
        lemma_u8_bits(buf@[0], version);
    }
    let b = (buf[0] & !0xF0u8) | (version << 4);
    buf[0] = b;
}

pub(crate) fn field_set_header_len(buf: &mut Vec<u8>, header_len: u8)
    requires
        old(buf)@.len() >= 20,
    ensures
        final(buf)@ == old(buf)@.update(0, ((old(buf)@[0] / 16) * 16 + header_len % 16) as u8),
{
    proof {
        lemma_u8_bits(buf@[0], header_len);
    }
    let b = (buf[0] & !0x0Fu8) | (header_len & 0x0F);
    buf[0] = b;
}

pub(crate) fn field_set_dscp(buf: &mut Vec<u8>, dscp: u8)
    requires
        old(buf)@.len() >= 20,
    ensures
        final(buf)@ == old(buf)@.update(1, ((dscp % 64) * 4 + old(buf)@[1] % 4) as u8),
{
    proof {
        lemma_u8_bits(buf@[1], dscp);
    }
    let b = (buf[1] & !0xFCu8) | (dscp << 2);
    buf[1] = b;
}

pub(crate) fn field_set_ecn(buf: &mut Vec<u8>, ecn: u8)
    requires
        old(buf)@.len() >= 20,
    ensures
        final(buf)@ == old(buf)@.update(1, ((old(buf)@[1] / 4) * 4 + ecn % 4) as u8),
{
    proof {
        lemma_u8_bits(buf@[1], ecn);
    }
    let b = (buf[1] & !0x03u8) | (ecn & 0x03);
    buf[1] = b;
}

pub(crate) fn field_set_flags(buf: &mut Vec<u8>, flags: u8)
    requires
        old(buf)@.len() >= 20,
    ensures
        final(buf)@ == old(buf)@.update(6, ((flags % 8) * 32 + old(buf)@[6] % 32) as u8),
{
    proof {
        lemma_u8_bits(buf@[6], flags);
    }
    let b = (buf[6] & 0x1F) | (flags << 5);
    buf[6] = b;
}

pub(crate) fn field_set_fragment_offset(buf: &mut Vec<u8>, frag_offset: u16)
    requires
        old(buf)@.len() >= 20,
    ensures
        final(buf)@ == old(buf)@.update(
            6,
            ((old(buf)@[6] / 32) * 32 + (frag_offset / 256) % 32) as u8,
        ).update(7, (frag_offset % 256) as u8),
{
    let flags = field_flags(buf.as_slice());
    set_u16(buf.as_mut_slice(), 6, frag_offset);
    field_set_flags(buf, flags);
    assert(buf@ =~= old(buf)@.update(
        6,
        ((old(buf)@[6] / 32) * 32 + (frag_offset / 256) % 32) as u8,
    ).update(7, (frag_offset % 256) as u8));
}

/// View of a byte buffer as an IPv4 packet.
#[derive(Debug)]
pub struct Packet {
    buffer: Vec<u8>,
}

impl View for Packet {
    type V = Seq<u8>;

    /// The bytes of the packet.
    closed spec fn view(&self) -> Seq<u8> {
        self.buffer@
    }
}

impl Packet {
    pub const MIN_HEADER_LEN: usize = 20;

    /// Tries to create an IPv4 packet from a byte buffer.
    ///
    /// NOTE: Use check_encoding() before operating on the packet if the provided
    /// buffer originates from a untrusted source such as a link.
    pub fn try_new(buffer: Vec<u8>) -> (r: Result<Packet>)
        ensures
            r is Ok <==> buffer@.len() >= 20,
            r matches Ok(p) ==> p@ == buffer@,
            r matches Err(e) ==> e is Exhausted,
    {
        if buffer.len() < Self::MIN_HEADER_LEN {
            Err(Error::Exhausted)
        } else {
            Ok(Packet { buffer })
        }
    }

    /// Returns the bytes of the packet.
    pub fn as_ref(&self) -> (bytes: &[u8])
        ensures
            bytes@ == self@,
    {
        self.buffer.as_slice()
    }

    /// Returns the buffer of the packet.
    pub fn into_inner(self) -> (buffer: Vec<u8>)
        ensures
            buffer@ == self@,
    {
        self.buffer
    }

    /// Returns the length of an IPv4 packet with the specified payload size.
    pub fn buffer_len(payload_len: usize) -> (len: usize)
        requires
            payload_len <= usize::MAX - 20,
        ensures
            len == 20 + payload_len,
    {
        20 + payload_len
    }

    /// Checks if the packet has a valid encoding. This may include checksum, field
    /// consistency, etc. checks.
    pub fn check_encoding(&self) -> (r: Result<()>)
        requires
            self@.len() >= 20,
        ensures
            r == spec_check_encoding(self@),
            r is Ok ==> spec_payload_in_bounds(self@),
    {
        let len = self.buffer.len();
        let header_bytes = (self.header_len() * 4) as usize;
        if (self.packet_len() as usize) > len || header_bytes < Self::MIN_HEADER_LEN
            || header_bytes > len || header_bytes > (self.packet_len() as usize)
            || self.ip_version() != 4 {
            Err(Error::Malformed)
        } else if self.gen_header_checksum() != 0 {
            Err(Error::Checksum)
        } else {
            Ok(())
        }
    }

    /// Calculates the header checksum.
    pub fn gen_header_checksum(&self) -> (checksum: u16)
        requires
            self@.len() >= 20,
            spec_header_bytes(self@) <= self@.len(),
        ensures
            checksum == spec_gen_header_checksum(self@),
    {
        field_gen_header_checksum(self.buffer.as_slice())
    }

    pub fn ip_version(&self) -> (r: u8)
        requires
            self@.len() >= 20,
        ensures
            r == spec_ip_version(self@),
    {
        field_ip_version(self.buffer.as_slice())
    }

    pub fn header_len(&self) -> (r: u8)
        requires
            self@.len() >= 20,
        ensures
            r == spec_header_len(self@),
            r < 16,
    {
        field_header_len(self.buffer.as_slice())
    }

    pub fn dscp(&self) -> (r: u8)
        requires
            self@.len() >= 20,
        ensures
            r == spec_dscp(self@),
    {
        field_dscp(self.buffer.as_slice())
    }

    pub fn ecn(&self) -> (r: u8)
        requires
            self@.len() >= 20,
        ensures
            r == spec_ecn(self@),
    {
        field_ecn(self.buffer.as_slice())
    }

    pub fn packet_len(&self) -> (r: u16)
        requires
            self@.len() >= 20,
        ensures
            r == spec_packet_len(self@),
    {
        get_u16(self.buffer.as_slice(), 2)
    }

    pub fn identification(&self) -> (r: u16)
        requires
            self@.len() >= 20,
        ensures
            r == spec_identification(self@),
    {
        get_u16(self.buffer.as_slice(), 4)
    }

    pub fn flags(&self) -> (r: u8)
        requires
            self@.len() >= 20,
        ensures
            r == spec_flags(self@),
    {
        field_flags(self.buffer.as_slice())
    }

    pub fn fragment_offset(&self) -> (r: u16)
        requires
            self@.len() >= 20,
        ensures
            r == spec_fragment_offset(self@),
    {
        field_fragment_offset(self.buffer.as_slice())
    }

    pub fn ttl(&self) -> (r: u8)
        requires
            self@.len() >= 20,
        ensures
            r == self@[8],
    {
        self.buffer[8]
    }

    pub fn protocol(&self) -> (r: u8)
        requires
            self@.len() >= 20,
        ensures
            r == self@[9],
    {
        self.buffer[9]
    }

    pub fn header_checksum(&self) -> (r: u16)
        requires
            self@.len() >= 20,
        ensures
            r == spec_header_checksum(self@),
    {
        get_u16(self.buffer.as_slice(), 10)
    }

    pub fn src_addr(&self) -> (a: Address)
        requires
            self@.len() >= 20,
        ensures
            a == spec_address(self@.subrange(12, 16)),
            a@ == self@.subrange(12, 16),
    {
        address_at(self.buffer.as_slice(), 12)
    }

    pub fn dst_addr(&self) -> (a: Address)
        requires
            self@.len() >= 20,
        ensures
            a == spec_address(self@.subrange(16, 20)),
            a@ == self@.subrange(16, 20),
    {
        address_at(self.buffer.as_slice(), 16)
    }

    /// Returns the payload: the bytes after the header, up to the packet
    /// length.
    pub fn payload(&self) -> (payload: &[u8])
        requires
            self@.len() >= 20,
            spec_payload_in_bounds(self@),
        ensures
            payload@ == spec_payload(self@),
    {
        let header_len = (self.header_len() * 4) as usize;
        let packet_len = self.packet_len() as usize;
        &self.buffer.as_slice()[header_len..packet_len]
    }

    pub fn set_ip_version(&mut self, version: u8)
        requires
            old(self)@.len() >= 20,
        ensures
            final(self)@ == old(self)@.update(0, ((version % 16) * 16 + old(self)@[0] % 16) as u8),
    {
        field_set_ip_version(&mut self.buffer, version);
    }

    pub fn set_header_len(&mut self, header_len: u8)
        requires
            old(self)@.len() >= 20,
        ensures
            final(self)@ == old(self)@.update(0, ((old(self)@[0] / 16) * 16 + header_len % 16) as u8),
    {
        field_set_header_len(&mut self.buffer, header_len);
    }

    pub fn set_dscp(&mut self, dscp: u8)
        requires
            old(self)@.len() >= 20,
        ensures
            final(self)@ == old(self)@.update(1, ((dscp % 64) * 4 + old(self)@[1] % 4) as u8),
    {
        field_set_dscp(&mut self.buffer, dscp);
    }

    pub fn set_ecn(&mut self, ecn: u8)
        requires
            old(self)@.len() >= 20,
        ensures
            final(self)@ == old(self)@.update(1, ((old(self)@[1] / 4) * 4 + ecn % 4) as u8),
    {
        field_set_ecn(&mut self.buffer, ecn);
    }

    pub fn set_packet_len(&mut self, packet_len: u16)
        requires
            old(self)@.len() >= 20,
        ensures
            final(self)@ == splice(old(self)@, 2, be16_bytes(packet_len)),
    {
        set_u16(self.buffer.as_mut_slice(), 2, packet_len);
    }

    pub fn set_identification(&mut self, id: u16)
        requires
            old(self)@.len() >= 20,
        ensures
            final(self)@ == splice(old(self)@, 4, be16_bytes(id)),
    {
        set_u16(self.buffer.as_mut_slice(), 4, id);
    }

    pub fn set_flags(&mut self, flags: u8)
        requires
            old(self)@.len() >= 20,
        ensures
            final(self)@ == old(self)@.update(6, ((flags % 8) * 32 + old(self)@[6] % 32) as u8),
    {
        field_set_flags(&mut self.buffer, flags);
    }

    pub fn set_fragment_offset(&mut self, frag_offset: u16)
        requires
            old(self)@.len() >= 20,
        ensures
            final(self)@ == old(self)@.update(
                6,
                ((old(self)@[6] / 32) * 32 + (frag_offset / 256) % 32) as u8,
            ).update(7, (frag_offset % 256) as u8),
    {
        field_set_fragment_offset(&mut self.buffer, frag_offset);
    }

    pub fn set_ttl(&mut self, ttl: u8)
        requires
            old(self)@.len() >= 20,
        ensures
            final(self)@ == old(self)@.update(8, ttl),
    {
        self.buffer[8] = ttl;
    }

    pub fn set_protocol(&mut self, protocol: u8)
        requires
            old(self)@.len() >= 20,
        ensures
            final(self)@ == old(self)@.update(9, protocol),
    {
        self.buffer[9] = protocol;
    }

    pub fn set_header_checksum(&mut self, header_checksum: u16)
        requires
            old(self)@.len() >= 20,
        ensures
            final(self)@ == splice(old(self)@, 10, be16_bytes(header_checksum)),
    {
        set_u16(self.buffer.as_mut_slice(), 10, header_checksum);
    }

    pub fn set_src_addr(&mut self, addr: Address)
        requires
            old(self)@.len() >= 20,
        ensures
            final(self)@ == splice(old(self)@, 12, addr@),
    {
        proof {
            lemma_address_view(addr);
        }
        set_bytes(self.buffer.as_mut_slice(), 12, addr.as_bytes());
    }

    pub fn set_dst_addr(&mut self, addr: Address)
        requires
            old(self)@.len() >= 20,
        ensures
            final(self)@ == splice(old(self)@, 16, addr@),
    {
        proof {
            lemma_address_view(addr);
        }
        set_bytes(self.buffer.as_mut_slice(), 16, addr.as_bytes());
    }

    /// Returns a mutable view of the payload: the bytes after the header, up
    /// to the packet length.
    pub fn payload_mut(&mut self) -> (payload: &mut [u8])
        requires
            old(self)@.len() >= 20,
            spec_payload_in_bounds(old(self)@),
        ensures
            payload@ == spec_payload(old(self)@),
            final(self)@ == old(self)@.subrange(0, spec_header_bytes(old(self)@)) + final(payload)@
                + old(self)@.subrange(spec_packet_len(old(self)@) as int, old(self)@.len() as int),
    {
        let header_len = (self.header_len() * 4) as usize;
        let packet_len = self.packet_len() as usize;
        let s = self.buffer.as_mut_slice();
        let (_, rest) = s.split_at_mut(header_len);
        let (payload, _) = rest.split_at_mut(packet_len - header_len);
        payload
    }
}

/// An IPv4 header.
#[derive(Clone, Copy, Debug, PartialEq, Eq)]
pub struct Repr {
    pub src_addr: Address,
    pub dst_addr: Address,
    pub protocol: Protocol,
    pub payload_len: u16,
}

/// The header that `Repr::deserialize` reads from a packet.
pub open spec fn spec_deserialize(s: Seq<u8>) -> Result<Repr> {
    if s[9] == protocols::ICMP || s[9] == protocols::UDP {
        Ok(
            Repr {
                src_addr: spec_address(s.subrange(12, 16)),
                dst_addr: spec_address(s.subrange(16, 20)),
                protocol: if s[9] == protocols::ICMP {
                    Protocol::ICMP
                } else {
                    Protocol::UDP
                },
                payload_len: (spec_packet_len(s) - spec_header_bytes(s)) as u16,
            },
        )
    } else {
        Err(Error::Malformed)
    }
}

/// The 20 byte header that `Repr::serialize` writes, with a zero checksum:
/// version 4, a header of five words, no DSCP or ECN, the total length, no
/// identification, the don't fragment flag, no fragment offset, a TTL of 64,
/// the protocol and the addresses.
pub open spec fn spec_header_template(r: Repr) -> Seq<u8> {
    seq![
        0x45u8,
        0u8,
        ((20 + r.payload_len) / 256) as u8,
        ((20 + r.payload_len) % 256) as u8,
        0u8,
        0u8,
        0x40u8,
        0u8,
        64u8,
        spec_protocol_code(r.protocol),
        0u8,
        0u8,
    ] + r.src_addr@ + r.dst_addr@
}

/// The header that `Repr::serialize` writes: the template with its checksum.
pub open spec fn spec_header(r: Repr) -> Seq<u8> {
    let t = spec_header_template(r);
    splice(t, 10, be16_bytes(spec_internet_checksum(t)))
}

/// The 12 byte pseudo header of a transport checksum: the addresses, a zero
/// byte, the protocol and the payload length.
pub open spec fn spec_pseudo_header(r: Repr) -> Seq<u8> {
    r.src_addr@ + r.dst_addr@ + seq![0u8, spec_protocol_code(r.protocol)] + be16_bytes(
        r.payload_len,
    )
}

impl Repr {
    /// Returns the buffer size needed to serialize the IPv4 header and
    /// associated payload.
    pub fn buffer_len(&self) -> (len: usize)
        ensures
            len == 20 + self.payload_len,
    {
        Packet::MIN_HEADER_LEN + (self.payload_len as usize)
    }

    /// Tries to deserialize a packet into an IPv4 header.
    ///
    /// Only ICMP and UDP packets are understood; other protocols are
    /// reported as malformed.
    pub fn deserialize(packet: &Packet) -> (r: Result<Repr>)
        requires
            packet@.len() >= 20,
            spec_payload_in_bounds(packet@),
        ensures
            r == spec_deserialize(packet@),
            r matches Err(e) ==> e is Malformed,
    {
        let protocol = match packet.protocol() {
            protocols::ICMP => Protocol::ICMP,
            protocols::UDP => Protocol::UDP,
            _ => return Err(Error::Malformed),
        };
        Ok(
            Repr {
                src_addr: packet.src_addr(),
                dst_addr: packet.dst_addr(),
                protocol,
                payload_len: packet.payload().len() as u16,
            },
        )
    }

    /// Serializes the IPv4 header into a packet and performs a checksum update.
    ///
    /// The total length `20 + payload_len` must fit 16 bits.
    #[verifier::spinoff_prover]
    #[verifier::rlimit(40)]
    pub fn serialize(&self, packet: &mut Packet)
        requires
            old(packet)@.len() >= 20,
            self.payload_len <= 65515,
        ensures
            final(packet)@ == splice(old(packet)@, 0, spec_header(*self)),
    {
        packet.set_ip_version(4);
        packet.set_header_len(5);
        packet.set_dscp(0);
        packet.set_ecn(0);
        packet.set_packet_len(20 + self.payload_len as u16);
        packet.set_identification(0);
        packet.set_flags(flags::DONT_FRAGMENT);
        packet.set_fragment_offset(0);
        packet.set_ttl(64);
        packet.set_protocol(self.protocol.code());
        packet.set_header_checksum(0);
        packet.set_src_addr(self.src_addr);
        packet.set_dst_addr(self.dst_addr);
        let ghost t = spec_header_template(*self);
        proof {
            lemma_address_view(self.src_addr);
            lemma_address_view(self.dst_addr);
            assert(packet@ =~= splice(old(packet)@, 0, t));
            assert(packet@.subrange(0, 20) =~= t);
        }
        let checksum = packet.gen_header_checksum();
        packet.set_header_checksum(checksum);
        assert(packet@ =~= splice(old(packet)@, 0, spec_header(*self)));
    }

    /// Generates a checksum for the byte buffer, using a pseudo-header
    /// corresponding to this IP header.
    pub fn gen_checksum_with_pseudo_header(&self, buffer: &[u8]) -> (checksum: u16)
        requires
            buffer@.len() <= 131062,
        ensures
            checksum == spec_internet_checksum(spec_pseudo_header(*self) + buffer@),
    {
        let mut data: Vec<u8> = vec![0; 12];
        proof {
            lemma_address_view(self.src_addr);
            lemma_address_view(self.dst_addr);
        }
        set_bytes(data.as_mut_slice(), 0, self.src_addr.as_bytes());
        set_bytes(data.as_mut_slice(), 4, self.dst_addr.as_bytes());
        data[9] = self.protocol.code();
        set_u16(data.as_mut_slice(), 10, self.payload_len);
        assert(data@ =~= spec_pseudo_header(*self));
        let mut i: usize = 0;
        while i < buffer.len()
            invariant
                i <= buffer@.len(),
                data@ == spec_pseudo_header(*self) + buffer@.subrange(0, i as int),
            decreases buffer@.len() - i,
        {
            data.push(buffer[i]);
            i = i + 1;
            assert(data@ =~= spec_pseudo_header(*self) + buffer@.subrange(0, i as int));
        }
        assert(buffer@.subrange(0, buffer@.len() as int) =~= buffer@);
        internet_checksum(ByteOrderIter::from(data.as_slice()))
    }
}

/// Serializing a header into a buffer that can hold the packet yields a
/// packet that passes the encoding checks (version, lengths and header
/// checksum), and deserializing it gives the header back, for the protocols
/// that deserialization understands.
pub proof fn lemma_serialize_deserialize(r: Repr, s: Seq<u8>)
    requires
        s.len() >= 20 + r.payload_len,
        r.payload_len <= 65515,
        r.protocol == Protocol::ICMP || r.protocol == Protocol::UDP,
    ensures
        spec_check_encoding(splice(s, 0, spec_header(r))) == Ok::<(), Error>(()),
        spec_deserialize(splice(s, 0, spec_header(r))) == Ok::<Repr, Error>(r),
{
    let t = spec_header_template(r);
    let h = spec_header(r);
    let p = splice(s, 0, h);
    lemma_address_view(r.src_addr);
    lemma_address_view(r.dst_addr);
    assert(t.len() == 20);
    lemma_checksum_fill(t, 10);
    assert(p.subrange(0, 20) =~= h);
    assert(spec_packet_len(p) == 20 + r.payload_len) by {
        assert(p[2] == t[2] && p[3] == t[3]);
    }
    assert(p.subrange(12, 16) =~= r.src_addr@);
    assert(p.subrange(16, 20) =~= r.dst_addr@);
}

/// The IPv4 protocol numbers: ICMP is 1, TCP 6 and UDP 17, as IANA assigns
/// them; the hidden fourth variant follows TCP in the declaration and takes
/// 7.
pub open spec fn spec_iana_protocol_number(p: Protocol) -> u8 {
    match p {
        Protocol::ICMP => 1,
        Protocol::UDP => 17,
        Protocol::TCP => 6,
        Protocol::__Nonexhaustive => 7,
    }
}

/// Each protocol is written with its IANA protocol number.
pub proof fn lemma_protocol_numbers(p: Protocol)
    ensures
        spec_protocol_code(p) == spec_iana_protocol_number(p),
{
}

/// The pseudo header of a transport checksum follows RFC 768 and RFC 793:
/// the source address, the destination address, a zero byte, the protocol
/// number and the payload length (most significant byte first), 12 bytes.
pub proof fn lemma_pseudo_header_layout(r: Repr)
    ensures
        ({
            let p = spec_pseudo_header(r);
            &&& p.len() == 12
            &&& p.subrange(0, 4) == r.src_addr@
            &&& p.subrange(4, 8) == r.dst_addr@
            &&& p[8] == 0
            &&& p[9] == spec_iana_protocol_number(r.protocol)
            &&& p[10] as int * 256 + p[11] == r.payload_len
        }),
{
    let p = spec_pseudo_header(r);
    lemma_address_view(r.src_addr);
    lemma_address_view(r.dst_addr);
    assert(p.subrange(0, 4) =~= r.src_addr@);
    assert(p.subrange(4, 8) =~= r.dst_addr@);
    let n = r.payload_len;
    assert(p[10] as int * 256 + p[11] == n) by (nonlinear_arith)
        requires
            p[10] == (n / 256) as u8,
            p[11] == (n % 256) as u8;
}

/// The header that `Repr::serialize` writes follows RFC 791: version 4 with
/// a header of five words (0x45), no DSCP or ECN, the total length of header
/// and payload (most significant byte first), identification 0, the don't
/// fragment flag and fragment offset 0 (an unfragmented datagram), a time to
/// live of 64, the protocol number, the source and destination addresses,
/// and a header checksum that makes the header sum to zero.
pub proof fn lemma_header_layout(r: Repr)
    requires
        r.payload_len <= 65515,
    ensures
        ({
            let h = spec_header(r);
            &&& h.len() == 20
            &&& h[0] == 0x45 && h[1] == 0
            &&& h[2] as int * 256 + h[3] == 20 + r.payload_len
            &&& h[4] == 0 && h[5] == 0
            &&& h[6] == 0x40 && h[7] == 0
            &&& h[8] == 64
            &&& h[9] == spec_iana_protocol_number(r.protocol)
            &&& h.subrange(12, 16) == r.src_addr@
            &&& h.subrange(16, 20) == r.dst_addr@
            &&& spec_internet_checksum(h) == 0
        }),
{
    let t = spec_header_template(r);
    let h = spec_header(r);
    lemma_address_view(r.src_addr);
    lemma_address_view(r.dst_addr);
    assert(t.len() == 20);
    lemma_checksum_fill(t, 10);
    crate::bytes::lemma_splice_index(t, 10, be16_bytes(spec_internet_checksum(t)));
    assert(h.subrange(12, 16) =~= r.src_addr@);
    assert(h.subrange(16, 20) =~= r.dst_addr@);
    let n = 20 + r.payload_len;
    assert(h[2] as int * 256 + h[3] == n) by (nonlinear_arith)
        requires
            h[2] == (n / 256) as u8,
            h[3] == (n % 256) as u8,
            0 <= n < 65536;
}

/// Reading an IPv4 header follows RFC 791: protocol number 1 (ICMP) or 17
/// (UDP) in byte 9, the source address in bytes 12 to 16, the destination
/// address in bytes 16 to 20, and a payload that is the total length (bytes
/// 2 and 3, most significant first) less the header length (four times the
/// low nibble of byte 0); any other protocol number is refused.
pub proof fn lemma_deserialize_reads_rfc791(s: Seq<u8>)
    requires
        s.len() >= 20,
        spec_payload_in_bounds(s),
    ensures
        s[9] != 1 && s[9] != 17 ==> spec_deserialize(s) == Err::<Repr, Error>(Error::Malformed),
        s[9] == 1 || s[9] == 17 ==> (spec_deserialize(s) matches Ok(r) && r.src_addr@
            == s.subrange(12, 16) && r.dst_addr@ == s.subrange(16, 20) && spec_iana_protocol_number(
            r.protocol,
        ) == s[9] && r.payload_len == s[2] as int * 256 + s[3] as int - (s[0] % 16) as int * 4),
{
    lemma_spec_address(s.subrange(12, 16));
    lemma_spec_address(s.subrange(16, 20));
    assert(s.subrange(12, 16).subrange(0, 4) =~= s.subrange(12, 16));
    assert(s.subrange(16, 20).subrange(0, 4) =~= s.subrange(16, 20));
}

/// The encoding checks of an IPv4 packet follow RFC 791: a packet of at
/// least 20 bytes passes exactly when its version (high nibble of byte 0) is
/// 4, its header length (four times the low nibble of byte 0) is at least 20
/// and no more than its total length (bytes 2 and 3), its total length fits
/// the buffer, and its header sums to zero; a packet with a wrong layout is
/// malformed, and one with only a wrong header checksum fails the checksum.
pub proof fn lemma_check_encoding_rfc791(s: Seq<u8>)
    requires
        s.len() >= 20,
    ensures
        ({
            let header = (s[0] % 16) as int * 4;
            let total = s[2] as int * 256 + s[3] as int;
            let layout = s[0] / 16 == 4 && 20 <= header <= total <= s.len();
            &&& !layout ==> spec_check_encoding(s) == Err::<(), Error>(Error::Malformed)
            &&& layout && spec_internet_checksum(s.take(header)) != 0 ==> spec_check_encoding(s)
                == Err::<(), Error>(Error::Checksum)
            &&& layout && spec_internet_checksum(s.take(header)) == 0 ==> spec_check_encoding(s)
                == Ok::<(), Error>(())
        }),
{
    let header = (s[0] % 16) as int * 4;
    if 20 <= header <= s.len() {
        assert(s.take(header) =~= s.subrange(0, spec_header_bytes(s)));
    }
}

/// An address is on a subnet exactly when its first `len` bits, the subnet
/// prefix, are those of the subnet's address (RFC 4632): with a prefix of 0
/// bits every address is on it, and with a prefix of 1 to 31 bits the two
/// addresses agree once their last `32 - len` bits are shifted out.
pub proof fn lemma_is_member_prefix(cidr: (Address, u32), address: Address)
    requires
        cidr.1 < 32,
    ensures
        ({
            let a = spec_be32(address@, 0) as u32;
            let c = spec_be32(cidr.0@, 0) as u32;
            let len = cidr.1;
            &&& len == 0 ==> spec_is_member(cidr, address)
            &&& 0 < len ==> (spec_is_member(cidr, address) <==> a >> ((32 - len) as u32) == c >> ((32
                - len) as u32))
        }),
{
    let a = spec_be32(address@, 0) as u32;
    let c = spec_be32(cidr.0@, 0) as u32;
    let len = cidr.1;
    if len == 0 {
        assert((a & !(0xFFFFFFFFu32 >> 0u32)) == 0u32) by (bit_vector);
        assert((c & !(0xFFFFFFFFu32 >> 0u32)) == 0u32) by (bit_vector);
    } else {
        let n = (32 - len) as u32;
        assert((a & !(0xFFFFFFFFu32 >> len) == c & !(0xFFFFFFFFu32 >> len)) <==> (a >> n == c >> n))
            by (bit_vector)
            requires
                0 < len < 32,
                n == 32 - len,
        ;
    }
}

/// The fields read from the header that `Repr::serialize` writes are those
/// RFC 791 gives an unfragmented datagram: version 4, five words of header,
/// DSCP and ECN 0, the total length, identification 0, the flags 0b010
/// (don't fragment, last fragment) with fragment offset 0, and the header
/// checksum that makes the header sum to zero.
pub proof fn lemma_header_fields(r: Repr)
    requires
        r.payload_len <= 65515,
    ensures
        ({
            let h = spec_header(r);
            &&& spec_ip_version(h) == 4
            &&& spec_header_len(h) == 5
            &&& spec_dscp(h) == 0 && spec_ecn(h) == 0
            &&& spec_packet_len(h) == 20 + r.payload_len
            &&& spec_identification(h) == 0
            &&& spec_flags(h) == 2
            &&& spec_fragment_offset(h) == 0
            &&& spec_gen_header_checksum(h) == 0
        }),
{
    let h = spec_header(r);
    lemma_header_layout(r);
    assert(h.subrange(0, 20) =~= h);
}

} // verus!
