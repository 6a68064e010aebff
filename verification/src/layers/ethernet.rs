//! Ethernet addresses and frames of the first version of the stack.
use vstd::prelude::*;

use crate::bytes::{
    be16_bytes,
    get_u16,
    set_bytes,
    set_u16,
    spec_be16,
    splice,
};
use crate::{
    Error,
    Result,
};

use vstd::string::StringSliceAdditionalSpecFns;

use crate::text::{
    ascii_to_string,
    parse_fields,
    spec_hex_text,
    spec_ascii_chars,
    spec_parse_fields,
    write_fields,
};

verus! {

/// [MAC address](https://en.wikipedia.org/wiki/MAC_address) in network byte order.
#[derive(Clone, Copy, Debug, Eq)]
pub struct Address([u8; 6]);

impl View for Address {
    type V = Seq<u8>;

    /// The six bytes of the address in network byte order.
    closed spec fn view(&self) -> Seq<u8> {
        self.0@
    }
}

impl PartialEq for Address {
    fn eq(&self, other: &Address) -> (r: bool) {
        let r = self.0[0] == other.0[0] && self.0[1] == other.0[1] && self.0[2] == other.0[2]
            && self.0[3] == other.0[3] && self.0[4] == other.0[4] && self.0[5] == other.0[5];
        proof {
            if r {
                assert(self.0@ =~= other.0@);
            }
        }
        r
    }
}

impl vstd::std_specs::cmp::PartialEqSpecImpl for Address {
    open spec fn obeys_eq_spec() -> bool {
        true
    }

    open spec fn eq_spec(&self, other: &Address) -> bool {
        self@ == other@
    }
}

/// The address whose network byte order representation is the first six
/// bytes of `s`.
pub closed spec fn spec_address(s: Seq<u8>) -> Address {
    Address([s[0], s[1], s[2], s[3], s[4], s[5]])
}

/// The bytes of the address read from a sequence.
pub proof fn lemma_spec_address(s: Seq<u8>)
    requires
        s.len() >= 6,
    ensures
        spec_address(s)@ == s.subrange(0, 6),
{
    assert(spec_address(s)@ =~= s.subrange(0, 6));
}

/// An address is determined by its bytes.
pub proof fn lemma_address_view(a: Address)
    ensures
        spec_address(a@) == a,
        a@.len() == 6,
{
    assert(spec_address(a@).0 =~= a.0);
}

/// Reads the address stored at offset `at` of a buffer.
pub(crate) fn address_at(buf: &[u8], at: usize) -> (a: Address)
    requires
        at + 6 <= buf@.len(),
    ensures
        a == spec_address(buf@.subrange(at as int, at + 6)),
        a@ == buf@.subrange(at as int, at + 6),
{
    let a = Address([buf[at], buf[at + 1], buf[at + 2], buf[at + 3], buf[at + 4], buf[at + 5]]);
    assert(a@ =~= buf@.subrange(at as int, at + 6));
    a
}

impl core::str::FromStr for Address {
    type Err = ();

    /// Parses a MAC address from an A:B:C:D:E:F style string.
    fn from_str(addr: &str) -> (r: core::result::Result<Address, ()>)
        ensures
            match r {
                Ok(a) => spec_parse_fields(addr.spec_bytes(), 0x3A, 16, 6) == Some(a@),
                Err(_) => spec_parse_fields(addr.spec_bytes(), 0x3A, 16, 6) is None,
            },
    {
        match parse_fields(addr.as_bytes(), 0x3A, 16, 6) {
            Some(v) => {
                let a = Address([v[0], v[1], v[2], v[3], v[4], v[5]]);
                assert(a@ =~= v@);
                Ok(a)
            },
            None => Err(()),
        }
    }
}

impl Address {
    /// The text of the address: two upper case hexadecimal digits per byte, separated by colons.
    pub fn to_string(&self) -> (s: String)
        ensures
            s@ == spec_ascii_chars(spec_hex_text(self@, 0x3A)),
    {
        let text = write_fields(&self.0, 0x3A, true);
        ascii_to_string(text)
    }

    /// The broadcast address `FF:FF:FF:FF:FF:FF`.
    pub fn broadcast() -> (a: Address)
        ensures
            a@ == seq![0xFFu8, 0xFFu8, 0xFFu8, 0xFFu8, 0xFFu8, 0xFFu8],
    {
        let a = Address([0xff, 0xff, 0xff, 0xff, 0xff, 0xff]);
        assert(a@ =~= seq![0xFFu8, 0xFFu8, 0xFFu8, 0xFFu8, 0xFFu8, 0xFFu8]);
        a
    }

    /// Creates a MAC address from a network byte order buffer.
    pub fn new(addr: [u8; 6]) -> (a: Address)
        ensures
            a@ == addr@,
    {
        Address(addr)
    }

    /// Creates a MAC address from a network byte order slice.
    pub fn try_from(addr: &[u8]) -> (r: Result<Address>)
        ensures
            r is Ok <==> addr@.len() == 6,
            r matches Ok(a) ==> a@ == addr@,
            r matches Err(e) ==> e is Buffer,
    {
        if addr.len() != 6 {
            return Err(Error::Buffer);
        }
        let a = address_at(addr, 0);
        assert(addr@.subrange(0, 6) =~= addr@);
        Ok(a)
    }

    /// Returns a reference to the network byte order representation of the address.
    pub fn as_bytes(&self) -> (bytes: &[u8])
        ensures
            bytes@ == self@,
    {
        &self.0
    }
}

#[derive(Clone, Copy, Debug, PartialEq, Eq, Structural)]
/// [https://en.wikipedia.org/wiki/EtherType](https://en.wikipedia.org/wiki/EtherType)
pub enum Type {
    Arp,
}

/// The EtherType code of a payload type.
pub open spec fn spec_type_code(t: Type) -> u16 {
    match t {
        Type::Arp => 0x0806,
    }
}

/// Ethernet frame represented as a byte buffer.
pub struct Frame {
    buffer: Vec<u8>,
}

impl View for Frame {
    type V = Seq<u8>;

    /// The bytes of the frame.
    closed spec fn view(&self) -> Seq<u8> {
        self.buffer@
    }
}

impl Frame {
    pub const MIN_BUFFER_SIZE: usize = 14;

    /// Wraps and represents the buffer as an Ethernet frame.
    ///
    /// You should ensure the buffer contains at least buffer_len() bytes to avoid errors.
    pub fn new(buffer: Vec<u8>) -> (r: Result<Frame>)
        ensures
            r is Ok <==> buffer@.len() >= 14,
            r matches Ok(f) ==> f@ == buffer@,
            r matches Err(e) ==> e is Buffer,
    {
        if buffer.len() < Self::MIN_BUFFER_SIZE {
            return Err(Error::Buffer);
        }
        Ok(Frame { buffer })
    }

    /// Returns the bytes of the frame.
    pub fn as_ref(&self) -> (bytes: &[u8])
        ensures
            bytes@ == self@,
    {
        self.buffer.as_slice()
    }

    /// Returns the buffer of the frame.
    pub fn into_inner(self) -> (buffer: Vec<u8>)
        ensures
            buffer@ == self@,
    {
        self.buffer
    }

    /// Returns the length of an Ethernet frame with the specified payload size.
    pub fn buffer_len(payload_len: usize) -> (len: usize)
        requires
            payload_len <= usize::MAX - 14,
        ensures
            len == 14 + payload_len,
    {
        Self::MIN_BUFFER_SIZE + payload_len
    }

    /// Returns the payload type of the frame or an error containing the unknown code.
    pub fn get_payload_type(&self) -> (r: core::result::Result<Type, u16>)
        requires
            self@.len() >= 14,
        ensures
            spec_be16(self@, 12) == 0x0806 ==> r == Ok::<Type, u16>(Type::Arp),
            spec_be16(self@, 12) != 0x0806 ==> r == Err::<Type, u16>(spec_be16(self@, 12) as u16),
    {
        let payload_type = get_u16(self.buffer.as_slice(), 12);
        match payload_type {
            0x0806 => Ok(Type::Arp),
            _ => Err(payload_type),
        }
    }

    /// Returns an immutable view of the payload.
    pub fn payload(&self) -> (payload: &[u8])
        requires
            self@.len() >= 14,
        ensures
            payload@ == self@.subrange(14, self@.len() as int),
    {
        let s = self.buffer.as_slice();
        &s[14..s.len()]
    }

    /// Sets the hardware destination address.
    pub fn set_dst_addr(&mut self, addr: Address)
        requires
            old(self)@.len() >= 14,
        ensures
            final(self)@ == splice(old(self)@, 0, addr@),
    {
        proof {
            lemma_address_view(addr);
        }
        set_bytes(self.buffer.as_mut_slice(), 0, addr.as_bytes());
    }

    /// Sets the hardware source address, usually that of the link.
    pub fn set_src_addr(&mut self, addr: Address)
        requires
            old(self)@.len() >= 14,
        ensures
            final(self)@ == splice(old(self)@, 6, addr@),
    {
        proof {
            lemma_address_view(addr);
        }
        set_bytes(self.buffer.as_mut_slice(), 6, addr.as_bytes());
    }

    /// Sets the payload type.
    pub fn set_payload_type(&mut self, payload_type: Type)
        requires
            old(self)@.len() >= 14,
        ensures
            final(self)@ == splice(old(self)@, 12, be16_bytes(spec_type_code(payload_type))),
    {
        let code: u16 = match payload_type {
            Type::Arp => 0x0806,
        };
        set_u16(self.buffer.as_mut_slice(), 12, code);
    }

    /// Returns a mutable view of the payload.
    pub fn payload_mut(&mut self) -> (payload: &mut [u8])
        requires
            old(self)@.len() >= 14,
        ensures
            payload@ == old(self)@.subrange(14, old(self)@.len() as int),
            final(self)@ == old(self)@.subrange(0, 14) + final(payload)@,
    {
        let s = self.buffer.as_mut_slice();
        let (_, payload) = s.split_at_mut(14);
        payload
    }
}

} // verus!
