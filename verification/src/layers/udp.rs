//! UDP headers and packets.
use vstd::prelude::*;

use crate::bytes::{
    be16_bytes,
    get_u16,
    set_u16,
    spec_be16,
    splice,
};
use crate::check::{
    lemma_checksum_fill,
    spec_internet_checksum,
};
use crate::repr::ipv4::spec_pseudo_header;
use crate::repr::Ipv4Repr;
use crate::{
    Error,
    Result,
};

verus! {

/// Safe representation of a UDP header.
#[derive(Clone, Copy, Debug, PartialEq, Eq, Structural)]
pub struct Repr {
    pub src_port: u16,
    pub dst_port: u16,
    pub length: u16,
}

/// The header that `Repr::deserialize` reads from a packet.
pub open spec fn spec_repr(s: Seq<u8>) -> Repr {
    Repr {
        src_port: spec_be16(s, 0) as u16,
        dst_port: spec_be16(s, 2) as u16,
        length: spec_be16(s, 4) as u16,
    }
}

/// The checksum of the packet `s` with the pseudo header of `ip_repr`.
pub open spec fn spec_gen_packet_checksum(s: Seq<u8>, ip_repr: Ipv4Repr) -> u16 {
    spec_internet_checksum(spec_pseudo_header(ip_repr) + s)
}

/// The result of the encoding checks of a UDP packet: a non-zero checksum
/// field must check out, and the length field must be the packet length.
pub open spec fn spec_check_encoding(s: Seq<u8>, ip_repr: Ipv4Repr) -> Result<()> {
    if spec_be16(s, 6) != 0 && spec_gen_packet_checksum(s, ip_repr) != 0 {
        Err(Error::Checksum)
    } else if spec_be16(s, 4) != s.len() {
        Err(Error::Malformed)
    } else {
        Ok(())
    }
}

/// The header of `r` with a zero checksum.
pub open spec fn spec_header_template(r: Repr) -> Seq<u8> {
    be16_bytes(r.src_port) + be16_bytes(r.dst_port) + be16_bytes(r.length) + be16_bytes(0)
}

/// The packet that `Repr::serialize` leaves: the header with the checksum
/// over the pseudo header and the packet.
pub open spec fn spec_serialize(r: Repr, s: Seq<u8>, ip_repr: Ipv4Repr) -> Seq<u8> {
    let z = splice(s, 0, spec_header_template(r));
    splice(z, 6, be16_bytes(spec_gen_packet_checksum(z, ip_repr)))
}

impl Repr {
    /// Returns the UDP packet size needed to serialize this UDP header and
    /// payload.
    pub fn buffer_len(&self) -> (len: usize)
        ensures
            len == self.length,
    {
        self.length as usize
    }

    /// Tries to deserialize a packet into a UDP header.
    pub fn deserialize(packet: &Packet) -> (r: Result<Repr>)
        requires
            packet@.len() >= 8,
        ensures
            r == Ok::<Repr, Error>(spec_repr(packet@)),
    {
        Ok(Repr { src_port: packet.src_port(), dst_port: packet.dst_port(), length: packet.length() })
    }

    /// Serializes the UDP header into a packet.
    pub fn serialize(&self, packet: &mut Packet, ip_repr: &Ipv4Repr)
        requires
            8 <= old(packet)@.len() <= 65535,
        ensures
            final(packet)@ == spec_serialize(*self, old(packet)@, *ip_repr),
    {
        packet.set_src_port(self.src_port);
        packet.set_dst_port(self.dst_port);
        packet.set_length(self.length);
        packet.set_checksum(0);
        assert(packet@ =~= splice(old(packet)@, 0, spec_header_template(*self)));

        let checksum = packet.gen_packet_checksum(ip_repr);
        packet.set_checksum(checksum);
    }
}

/// View of a byte buffer as a UDP packet.
#[derive(Debug)]
pub struct Packet {
    buffer: Vec<u8>,
}

impl View for Packet {
    type V = Seq<u8>;

    /// The bytes of the packet.
    closed spec fn view(&self) -> Seq<u8> {
        self.buffer@
    }
}

impl Packet {
    pub const HEADER_LEN: usize = 8;

    pub const MAX_PACKET_LEN: usize = 65535;

    /// Tries to create a UDP packet view over a byte buffer.
    pub fn try_new(buffer: Vec<u8>) -> (r: Result<Packet>)
        ensures
            r is Ok <==> 8 <= buffer@.len() <= 65535,
            r matches Ok(p) ==> p@ == buffer@,
            r matches Err(e) ==> e is Exhausted,
    {
        let buffer_len = buffer.len();

        if buffer_len < 8 || buffer_len > 65535 {
            Err(Error::Exhausted)
        } else {
            Ok(Packet { buffer })
        }
    }

    /// Returns the bytes of the packet.
    pub fn as_ref(&self) -> (bytes: &[u8])
        ensures
            bytes@ == self@,
    {
        self.buffer.as_slice()
    }

    /// Returns a mutable view of all the bytes of the packet.
    pub fn as_mut(&mut self) -> (bytes: &mut [u8])
        ensures
            bytes@ == old(self)@,
            final(self)@ == final(bytes)@,
    {
        self.buffer.as_mut_slice()
    }

    /// Returns the buffer of the packet.
    pub fn into_inner(self) -> (buffer: Vec<u8>)
        ensures
            buffer@ == self@,
    {
        self.buffer
    }

    /// Returns the length of a UDP packet with the specified payload size.
    pub fn buffer_len(payload_len: usize) -> (len: usize)
        requires
            payload_len <= usize::MAX - 8,
        ensures
            len == 8 + payload_len,
    {
        8 + payload_len
    }

    /// Checks if the packet has a valid encoding. This may include checksum, field
    /// consistency, etc. checks.
    pub fn check_encoding(&self, ip_repr: &Ipv4Repr) -> (r: Result<()>)
        requires
            8 <= self@.len() <= 65535,
        ensures
            r == spec_check_encoding(self@, *ip_repr),
    {
        // NOTE: Should enforce checksum if using IPv6, optional for IPv4.
        if self.checksum() != 0 && self.gen_packet_checksum(ip_repr) != 0 {
            Err(Error::Checksum)
        } else if self.length() as usize != self.buffer.len() {
            Err(Error::Malformed)
        } else {
            Ok(())
        }
    }

    /// Calculates the packet checksum.
    pub fn gen_packet_checksum(&self, ip_repr: &Ipv4Repr) -> (checksum: u16)
        requires
            self@.len() <= 65535,
        ensures
            checksum == spec_gen_packet_checksum(self@, *ip_repr),
    {
        ip_repr.gen_checksum_with_pseudo_header(self.buffer.as_slice())
    }

    pub fn src_port(&self) -> (port: u16)
        requires
            self@.len() >= 8,
        ensures
            port == spec_be16(self@, 0),
    {
        get_u16(self.buffer.as_slice(), 0)
    }

    pub fn dst_port(&self) -> (port: u16)
        requires
            self@.len() >= 8,
        ensures
            port == spec_be16(self@, 2),
    {
        get_u16(self.buffer.as_slice(), 2)
    }

    pub fn length(&self) -> (length: u16)
        requires
            self@.len() >= 8,
        ensures
            length == spec_be16(self@, 4),
    {
        get_u16(self.buffer.as_slice(), 4)
    }

    pub fn checksum(&self) -> (checksum: u16)
        requires
            self@.len() >= 8,
        ensures
            checksum == spec_be16(self@, 6),
    {
        get_u16(self.buffer.as_slice(), 6)
    }

    pub fn payload(&self) -> (payload: &[u8])
        requires
            self@.len() >= 8,
        ensures
            payload@ == self@.subrange(8, self@.len() as int),
    {
        let s = self.buffer.as_slice();
        &s[8..s.len()]
    }

    pub fn set_src_port(&mut self, port: u16)
        requires
            old(self)@.len() >= 8,
        ensures
            final(self)@ == splice(old(self)@, 0, be16_bytes(port)),
    {
        set_u16(self.buffer.as_mut_slice(), 0, port)
    }

    pub fn set_dst_port(&mut self, port: u16)
        requires
            old(self)@.len() >= 8,
        ensures
            final(self)@ == splice(old(self)@, 2, be16_bytes(port)),
    {
        set_u16(self.buffer.as_mut_slice(), 2, port)
    }

    pub fn set_length(&mut self, length: u16)
        requires
            old(self)@.len() >= 8,
        ensures
            final(self)@ == splice(old(self)@, 4, be16_bytes(length)),
    {
        set_u16(self.buffer.as_mut_slice(), 4, length)
    }

    pub fn set_checksum(&mut self, checksum: u16)
        requires
            old(self)@.len() >= 8,
        ensures
            final(self)@ == splice(old(self)@, 6, be16_bytes(checksum)),
    {
        set_u16(self.buffer.as_mut_slice(), 6, checksum)
    }

    pub fn payload_mut(&mut self) -> (payload: &mut [u8])
        requires
            old(self)@.len() >= 8,
        ensures
            payload@ == old(self)@.subrange(8, old(self)@.len() as int),
            final(self)@ == old(self)@.subrange(0, 8) + final(payload)@,
    {
        let s = self.buffer.as_mut_slice();
        let (_, payload) = s.split_at_mut(8);
        payload
    }
}

/// Serializing a header whose length field is the packet length yields a
/// packet that passes the encoding checks and deserializes to the header.
pub proof fn lemma_serialize_deserialize(r: Repr, s: Seq<u8>, ip_repr: Ipv4Repr)
    requires
        8 <= s.len() <= 65535,
        r.length == s.len(),
    ensures
        spec_check_encoding(spec_serialize(r, s, ip_repr), ip_repr) == Ok::<(), Error>(()),
        spec_repr(spec_serialize(r, s, ip_repr)) == r,
{
    let z = splice(s, 0, spec_header_template(r));
    let c = spec_gen_packet_checksum(z, ip_repr);
    let s2 = spec_serialize(r, s, ip_repr);
    let p = spec_pseudo_header(ip_repr);
    crate::repr::ipv4::lemma_address_view(ip_repr.src_addr);
    crate::repr::ipv4::lemma_address_view(ip_repr.dst_addr);
    assert(p.len() == 12);
    assert((p + z)[18] == 0 && (p + z)[19] == 0);
    lemma_checksum_fill(p + z, 18);
    assert(p + s2 =~= splice(p + z, 18, be16_bytes(c)));
    assert(s2.subrange(0, 6) =~= z.subrange(0, 6));
    assert(spec_be16(s2, 0) == r.src_port && spec_be16(s2, 2) == r.dst_port && spec_be16(s2, 4)
        == r.length) by (nonlinear_arith)
        requires
            s2[0] == (r.src_port / 256) as u8,
            s2[1] == (r.src_port % 256) as u8,
            s2[2] == (r.dst_port / 256) as u8,
            s2[3] == (r.dst_port % 256) as u8,
            s2[4] == (r.length / 256) as u8,
            s2[5] == (r.length % 256) as u8;
}

/// Reading a UDP header follows RFC 768: the source port in bytes 0 and 1,
/// the destination port in bytes 2 and 3 and the length in bytes 4 and 5,
/// each most significant byte first.
pub proof fn lemma_deserialize_reads_rfc768(s: Seq<u8>)
    requires
        s.len() >= 8,
    ensures
        spec_repr(s).src_port == s[0] as int * 256 + s[1] as int,
        spec_repr(s).dst_port == s[2] as int * 256 + s[3] as int,
        spec_repr(s).length == s[4] as int * 256 + s[5] as int,
{
}

/// Writing a UDP header follows RFC 768: the source port in bytes 0 and 1,
/// the destination port in bytes 2 and 3 and the length in bytes 4 and 5,
/// each most significant byte first, and in bytes 6 and 7 the checksum that
/// makes the packet, behind the pseudo header of `ip_repr`, sum to zero; the
/// payload is left as it was.
pub proof fn lemma_serialize_writes_rfc768(r: Repr, s: Seq<u8>, ip_repr: Ipv4Repr)
    requires
        8 <= s.len() <= 65535,
    ensures
        ({
            let t = spec_serialize(r, s, ip_repr);
            &&& t.len() == s.len()
            &&& t[0] as int * 256 + t[1] == r.src_port
            &&& t[2] as int * 256 + t[3] == r.dst_port
            &&& t[4] as int * 256 + t[5] == r.length
            &&& t.skip(8) == s.skip(8)
            &&& spec_internet_checksum(spec_pseudo_header(ip_repr) + t) == 0
        }),
{
    let z = splice(s, 0, spec_header_template(r));
    let c = spec_gen_packet_checksum(z, ip_repr);
    let t = spec_serialize(r, s, ip_repr);
    let p = spec_pseudo_header(ip_repr);
    crate::repr::ipv4::lemma_address_view(ip_repr.src_addr);
    crate::repr::ipv4::lemma_address_view(ip_repr.dst_addr);
    crate::bytes::lemma_splice_index(s, 0, spec_header_template(r));
    crate::bytes::lemma_splice_index(z, 6, be16_bytes(c));
    assert(p.len() == 12);
    assert((p + z)[18] == 0 && (p + z)[19] == 0);
    lemma_checksum_fill(p + z, 18);
    assert(p + t =~= splice(p + z, 18, be16_bytes(c)));
    assert(t.skip(8) =~= s.skip(8));
    assert(t[0] as int * 256 + t[1] == r.src_port && t[2] as int * 256 + t[3] == r.dst_port
        && t[4] as int * 256 + t[5] == r.length) by (nonlinear_arith)
        requires
            t[0] == (r.src_port / 256) as u8,
            t[1] == (r.src_port % 256) as u8,
            t[2] == (r.dst_port / 256) as u8,
            t[3] == (r.dst_port % 256) as u8,
            t[4] == (r.length / 256) as u8,
            t[5] == (r.length % 256) as u8;
}

/// The encoding checks of a UDP packet follow RFC 768: the packet passes
/// exactly when its checksum field (bytes 6 and 7) is zero, meaning none was
/// computed, or the packet behind the pseudo header of `ip_repr` sums to
/// zero, and its length field (bytes 4 and 5) is the packet's length; a
/// wrong checksum fails the checksum, and a wrong length is malformed.
pub proof fn lemma_check_encoding_rfc768(s: Seq<u8>, ip_repr: Ipv4Repr)
    requires
        s.len() >= 8,
    ensures
        ({
            let summed = s[6] == 0 && s[7] == 0 || spec_internet_checksum(
                spec_pseudo_header(ip_repr) + s,
            ) == 0;
            let length_ok = s[4] as int * 256 + s[5] as int == s.len();
            &&& !summed ==> spec_check_encoding(s, ip_repr) == Err::<(), Error>(Error::Checksum)
            &&& summed && !length_ok ==> spec_check_encoding(s, ip_repr) == Err::<(), Error>(
                Error::Malformed,
            )
            &&& summed && length_ok ==> spec_check_encoding(s, ip_repr) == Ok::<(), Error>(())
        }),
{
}

} // verus!
