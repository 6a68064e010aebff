//! IPv4 addresses and packets of the first version of the stack.
use vstd::prelude::*;

use crate::bytes::{
    be16_bytes,
    get_u16,
    set_bytes,
    set_u16,
    splice,
};
use crate::repr::ipv4::{
    field_dscp,
    field_ecn,
    field_flags,
    field_fragment_offset,
    field_gen_header_checksum,
    field_header_len,
    field_ip_version,
    field_set_dscp,
    field_set_ecn,
    field_set_flags,
    field_set_fragment_offset,
    field_set_header_len,
    field_set_ip_version,
    spec_dscp,
    spec_ecn,
    spec_flags,
    spec_fragment_offset,
    spec_gen_header_checksum,
    spec_header_bytes,
    spec_header_checksum,
    spec_header_len,
    spec_identification,
    spec_ip_version,
    spec_packet_len,
};
use crate::{
    Error,
    Result,
};

pub mod flags;
pub mod types;

use vstd::string::StringSliceAdditionalSpecFns;

use crate::text::{
    ascii_to_string,
    parse_fields,
    spec_decimal_text,
    spec_ascii_chars,
    spec_parse_fields,
    write_fields,
};

verus! {

/// [IPv4 address](https://en.wikipedia.org/wiki/IPv4) in network byte order.
#[derive(Clone, Copy, Debug, Eq, Hash)]
pub struct Address([u8; 4]);

impl View for Address {
    type V = Seq<u8>;

    /// The four bytes of the address in network byte order.
    closed spec fn view(&self) -> Seq<u8> {
        self.0@
    }
}

impl PartialEq for Address {
    fn eq(&self, other: &Address) -> (r: bool) {
        let r = self.0[0] == other.0[0] && self.0[1] == other.0[1] && self.0[2] == other.0[2]
            && self.0[3] == other.0[3];
        proof {
            if r {
                assert(self.0@ =~= other.0@);
            }
        }
        r
    }
}

impl vstd::std_specs::cmp::PartialEqSpecImpl for Address {
    open spec fn obeys_eq_spec() -> bool {
        true
    }

    open spec fn eq_spec(&self, other: &Address) -> bool {
        self@ == other@
    }
}

/// The address whose network byte order representation is the first four
/// bytes of `s`.
pub closed spec fn spec_address(s: Seq<u8>) -> Address {
    Address([s[0], s[1], s[2], s[3]])
}

/// The bytes of the address read from a sequence.
pub proof fn lemma_spec_address(s: Seq<u8>)
    requires
        s.len() >= 4,
    ensures
        spec_address(s)@ == s.subrange(0, 4),
{
    assert(spec_address(s)@ =~= s.subrange(0, 4));
}

/// An address is determined by its bytes.
pub proof fn lemma_address_view(a: Address)
    ensures
        spec_address(a@) == a,
        a@.len() == 4,
{
    assert(spec_address(a@).0 =~= a.0);
}

/// Reads the address stored at offset `at` of a buffer.
pub(crate) fn address_at(buf: &[u8], at: usize) -> (a: Address)
    requires
        at + 4 <= buf@.len(),
    ensures
        a == spec_address(buf@.subrange(at as int, at + 4)),
        a@ == buf@.subrange(at as int, at + 4),
{
    let a = Address([buf[at], buf[at + 1], buf[at + 2], buf[at + 3]]);
    assert(a@ =~= buf@.subrange(at as int, at + 4));
    a
}

impl core::str::FromStr for Address {
    type Err = ();

    /// Parses an IPv4 address from an A.B.C.D style string.
    fn from_str(addr: &str) -> (r: core::result::Result<Address, ()>)
        ensures
            match r {
                Ok(a) => spec_parse_fields(addr.spec_bytes(), 0x2E, 10, 4) == Some(a@),
                Err(_) => spec_parse_fields(addr.spec_bytes(), 0x2E, 10, 4) is None,
            },
    {
        match parse_fields(addr.as_bytes(), 0x2E, 10, 4) {
            Some(v) => {
                let a = Address([v[0], v[1], v[2], v[3]]);
                assert(a@ =~= v@);
                Ok(a)
            },
            None => Err(()),
        }
    }
}

impl Address {
    /// The text of the address: the decimal value of each byte, separated by dots.
    pub fn to_string(&self) -> (s: String)
        ensures
            s@ == spec_ascii_chars(spec_decimal_text(self@, 0x2E)),
    {
        let text = write_fields(&self.0, 0x2E, false);
        ascii_to_string(text)
    }

    /// Creates an IPv4 address from a network byte order buffer.
    pub fn new(addr: [u8; 4]) -> (a: Address)
        ensures
            a@ == addr@,
    {
        Address(addr)
    }

    /// Creates an IPv4 address from a network byte order slice.
    pub fn try_from(addr: &[u8]) -> (r: Result<Address>)
        ensures
            r is Ok <==> addr@.len() == 4,
            r matches Ok(a) ==> a@ == addr@,
            r matches Err(e) ==> e is Buffer,
    {
        if addr.len() != 4 {
            return Err(Error::Buffer);
        }
        let a = address_at(addr, 0);
        assert(addr@.subrange(0, 4) =~= addr@);
        Ok(a)
    }

    /// Returns a reference to the network byte order representation of the address.
    pub fn as_bytes(&self) -> (bytes: &[u8])
        ensures
            bytes@ == self@,
    {
        &self.0
    }
}

/// The result of the encoding checks of an IPv4 packet.
pub open spec fn spec_is_encoding_ok(s: Seq<u8>) -> Result<()> {
    if spec_ip_version(s) != 4 || spec_header_bytes(s) > s.len() || spec_packet_len(s) > s.len() {
        Err(Error::Encoding)
    } else if spec_gen_header_checksum(s) != 0 {
        Err(Error::Checksum)
    } else {
        Ok(())
    }
}

/// IPv4 packet represented as a byte buffer.
#[derive(Debug)]
pub struct Packet {
    buffer: Vec<u8>,
}

impl View for Packet {
    type V = Seq<u8>;

    /// The bytes of the packet.
    closed spec fn view(&self) -> Seq<u8> {
        self.buffer@
    }
}

impl Packet {
    /// Wraps and represents the buffer as an IPv4 packet.
    ///
    /// # Errors
    ///
    /// Causes an error if the buffer is too small or too large. You should
    /// ensure the packet encoding is valid via is_encoding_ok() if parsing
    /// a packet from the wire. Otherwise member functions may panic.
    pub fn try_from(buffer: Vec<u8>) -> (r: Result<Packet>)
        ensures
            r is Ok <==> 20 <= buffer@.len() <= 65535,
            r matches Ok(p) ==> p@ == buffer@,
            r matches Err(e) ==> e is Buffer,
    {
        let buffer_len = buffer.len();

        if buffer_len < Self::buffer_len(0) || buffer_len > 65535 {
            return Err(Error::Buffer);
        }
        Ok(Packet { buffer })
    }

    /// Returns the bytes of the packet.
    pub fn as_ref(&self) -> (bytes: &[u8])
        ensures
            bytes@ == self@,
    {
        self.buffer.as_slice()
    }

    /// Returns the buffer of the packet.
    pub fn into_inner(self) -> (buffer: Vec<u8>)
        ensures
            buffer@ == self@,
    {
        self.buffer
    }

    /// Checks if the packet encoding is valid.
    pub fn is_encoding_ok(&self) -> (r: Result<()>)
        requires
            self@.len() >= 20,
        ensures
            r == spec_is_encoding_ok(self@),
    {
        let len = self.buffer.len();
        if self.ip_version() != 4 || ((self.header_len() * 4) as usize) > len
            || (self.packet_len() as usize) > len {
            return Err(Error::Encoding);
        }
        if self.gen_header_checksum() != 0 {
            return Err(Error::Checksum);
        }
        Ok(())
    }

    /// Returns the length of a IPv4 packet with no options and the payload size.
    pub fn buffer_len(payload_len: usize) -> (len: usize)
        requires
            payload_len <= usize::MAX - 20,
        ensures
            len == 20 + payload_len,
    {
        20 + payload_len
    }

    /// Calculates a checksum for the entire header.
    pub fn gen_header_checksum(&self) -> (checksum: u16)
        requires
            self@.len() >= 20,
            spec_header_bytes(self@) <= self@.len(),
        ensures
            checksum == spec_gen_header_checksum(self@),
    {
        field_gen_header_checksum(self.buffer.as_slice())
    }

    pub fn ip_version(&self) -> (r: u8)
        requires
            self@.len() >= 20,
        ensures
            r == spec_ip_version(self@),
    {
        field_ip_version(self.buffer.as_slice())
    }

    pub fn header_len(&self) -> (r: u8)
        requires
            self@.len() >= 20,
        ensures
            r == spec_header_len(self@),
            r < 16,
    {
        field_header_len(self.buffer.as_slice())
    }

    pub fn dscp(&self) -> (r: u8)
        requires
            self@.len() >= 20,
        ensures
            r == spec_dscp(self@),
    {
        field_dscp(self.buffer.as_slice())
    }

    pub fn ecn(&self) -> (r: u8)
        requires
            self@.len() >= 20,
        ensures
            r == spec_ecn(self@),
    {
        field_ecn(self.buffer.as_slice())
    }

    pub fn packet_len(&self) -> (r: u16)
        requires
            self@.len() >= 20,
        ensures
            r == spec_packet_len(self@),
    {
        get_u16(self.buffer.as_slice(), 2)
    }

    pub fn identification(&self) -> (r: u16)
        requires
            self@.len() >= 20,
        ensures
            r == spec_identification(self@),
    {
        get_u16(self.buffer.as_slice(), 4)
    }

    pub fn flags(&self) -> (r: u8)
        requires
            self@.len() >= 20,
        ensures
            r == spec_flags(self@),
    {
        field_flags(self.buffer.as_slice())
    }

    pub fn fragment_offset(&self) -> (r: u16)
        requires
            self@.len() >= 20,
        ensures
            r == spec_fragment_offset(self@),
    {
        field_fragment_offset(self.buffer.as_slice())
    }

    pub fn ttl(&self) -> (r: u8)
        requires
            self@.len() >= 20,
        ensures
            r == self@[8],
    {
        self.buffer[8]
    }

    pub fn protocol(&self) -> (r: u8)
        requires
            self@.len() >= 20,
        ensures
            r == self@[9],
    {
        self.buffer[9]
    }

    pub fn header_checksum(&self) -> (r: u16)
        requires
            self@.len() >= 20,
        ensures
            r == spec_header_checksum(self@),
    {
        get_u16(self.buffer.as_slice(), 10)
    }

    pub fn src_addr(&self) -> (a: Address)
        requires
            self@.len() >= 20,
        ensures
            a == spec_address(self@.subrange(12, 16)),
            a@ == self@.subrange(12, 16),
    {
        address_at(self.buffer.as_slice(), 12)
    }

    pub fn dst_addr(&self) -> (a: Address)
        requires
            self@.len() >= 20,
        ensures
            a == spec_address(self@.subrange(16, 20)),
            a@ == self@.subrange(16, 20),
    {
        address_at(self.buffer.as_slice(), 16)
    }

    /// Returns an immutable view of the payload: everything after the header.
    pub fn payload(&self) -> (payload: &[u8])
        requires
            self@.len() >= 20,
            spec_header_bytes(self@) <= self@.len(),
        ensures
            payload@ == self@.subrange(spec_header_bytes(self@), self@.len() as int),
    {
        let header_len = (self.header_len() * 4) as usize;
        let s = self.buffer.as_slice();
        &s[header_len..s.len()]
    }

    pub fn set_ip_version(&mut self, version: u8)
        requires
            old(self)@.len() >= 20,
        ensures
            final(self)@ == old(self)@.update(0, ((version % 16) * 16 + old(self)@[0] % 16) as u8),
    {
        field_set_ip_version(&mut self.buffer, version);
    }

    pub fn set_header_len(&mut self, header_len: u8)
        requires
            old(self)@.len() >= 20,
        ensures
            final(self)@ == old(self)@.update(0, ((old(self)@[0] / 16) * 16 + header_len % 16) as u8),
    {
        field_set_header_len(&mut self.buffer, header_len);
    }

    pub fn set_dscp(&mut self, dscp: u8)
        requires
            old(self)@.len() >= 20,
        ensures
            final(self)@ == old(self)@.update(1, ((dscp % 64) * 4 + old(self)@[1] % 4) as u8),
    {
        field_set_dscp(&mut self.buffer, dscp);
    }

    pub fn set_ecn(&mut self, ecn: u8)
        requires
            old(self)@.len() >= 20,
        ensures
            final(self)@ == old(self)@.update(1, ((old(self)@[1] / 4) * 4 + ecn % 4) as u8),
    {
        field_set_ecn(&mut self.buffer, ecn);
    }

    pub fn set_packet_len(&mut self, packet_len: u16)
        requires
            old(self)@.len() >= 20,
        ensures
            final(self)@ == splice(old(self)@, 2, be16_bytes(packet_len)),
    {
        set_u16(self.buffer.as_mut_slice(), 2, packet_len);
    }

    pub fn set_identification(&mut self, id: u16)
        requires
            old(self)@.len() >= 20,
        ensures
            final(self)@ == splice(old(self)@, 4, be16_bytes(id)),
    {
        set_u16(self.buffer.as_mut_slice(), 4, id);
    }

    pub fn set_flags(&mut self, flags: u8)
        requires
            old(self)@.len() >= 20,
        ensures
            final(self)@ == old(self)@.update(6, ((flags % 8) * 32 + old(self)@[6] % 32) as u8),
    {
        field_set_flags(&mut self.buffer, flags);
    }

    pub fn set_fragment_offset(&mut self, frag_offset: u16)
        requires
            old(self)@.len() >= 20,
        ensures
            final(self)@ == old(self)@.update(
                6,
                ((old(self)@[6] / 32) * 32 + (frag_offset / 256) % 32) as u8,
            ).update(7, (frag_offset % 256) as u8),
    {
        field_set_fragment_offset(&mut self.buffer, frag_offset);
    }

    pub fn set_ttl(&mut self, ttl: u8)
        requires
            old(self)@.len() >= 20,
        ensures
            final(self)@ == old(self)@.update(8, ttl),
    {
        self.buffer[8] = ttl;
    }

    pub fn set_protocol(&mut self, protocol: u8)
        requires
            old(self)@.len() >= 20,
        ensures
            final(self)@ == old(self)@.update(9, protocol),
    {
        self.buffer[9] = protocol;
    }

    pub fn set_header_checksum(&mut self, header_checksum: u16)
        requires
            old(self)@.len() >= 20,
        ensures
            final(self)@ == splice(old(self)@, 10, be16_bytes(header_checksum)),
    {
        set_u16(self.buffer.as_mut_slice(), 10, header_checksum);
    }

    pub fn set_src_addr(&mut self, addr: Address)
        requires
            old(self)@.len() >= 20,
        ensures
            final(self)@ == splice(old(self)@, 12, addr@),
    {
        proof {
            lemma_address_view(addr);
        }
        set_bytes(self.buffer.as_mut_slice(), 12, addr.as_bytes());
    }

    pub fn set_dst_addr(&mut self, addr: Address)
        requires
            old(self)@.len() >= 20,
        ensures
            final(self)@ == splice(old(self)@, 16, addr@),
    {
        proof {
            lemma_address_view(addr);
        }
        set_bytes(self.buffer.as_mut_slice(), 16, addr.as_bytes());
    }

    /// Returns a mutable view of the payload: everything after the header.
    pub fn payload_mut(&mut self) -> (payload: &mut [u8])
        requires
            old(self)@.len() >= 20,
            spec_header_bytes(old(self)@) <= old(self)@.len(),
        ensures
            payload@ == old(self)@.subrange(spec_header_bytes(old(self)@), old(self)@.len() as int),
            final(self)@ == old(self)@.subrange(0, spec_header_bytes(old(self)@)) + final(payload)@,
    {
        let header_len = self.header_len();
        let s = self.buffer.as_mut_slice();
        let (_, payload) = s.split_at_mut((header_len * 4) as usize);
        payload
    }
}

/// The encoding checks of an IPv4 packet follow RFC 791: a packet of at
/// least 20 bytes passes exactly when its version (high nibble of byte 0) is
/// 4, its header (four times the low nibble of byte 0) and its total length
/// (bytes 2 and 3) fit the buffer, and its header sums to zero; a wrong
/// layout is an encoding error, and a wrong header checksum a checksum
/// error.
pub proof fn lemma_is_encoding_ok_rfc791(s: Seq<u8>)
    requires
        s.len() >= 20,
    ensures
        ({
            let header = (s[0] % 16) as int * 4;
            let total = s[2] as int * 256 + s[3] as int;
            let layout = s[0] / 16 == 4 && header <= s.len() && total <= s.len();
            &&& !layout ==> spec_is_encoding_ok(s) == Err::<(), Error>(Error::Encoding)
            &&& layout && crate::check::spec_internet_checksum(s.take(header)) != 0
                ==> spec_is_encoding_ok(s) == Err::<(), Error>(Error::Checksum)
            &&& layout && crate::check::spec_internet_checksum(s.take(header)) == 0
                ==> spec_is_encoding_ok(s) == Ok::<(), Error>(())
        }),
{
    let header = (s[0] % 16) as int * 4;
    if header <= s.len() {
        assert(s.take(header) =~= s.subrange(0, spec_header_bytes(s)));
    }
}

} // verus!
