//! ICMP echo headers and packets of the first version of the stack.
use vstd::prelude::*;

use crate::bytes::{
    be16_bytes,
    get_u16,
    set_u16,
    spec_be16,
    splice,
};
use crate::check::{
    internet_checksum,
    lemma_checksum_fill,
    spec_internet_checksum,
    ByteOrderIter,
};
use crate::{
    Error,
    Result,
};

verus! {

/// Safe representation of an ICMP header.
#[derive(Clone, Copy, Debug, PartialEq, Eq, Structural)]
pub enum Repr {
    EchoReply { id: u16, seq: u16 },
    EchoRequest { id: u16, seq: u16 },
}

/// The type byte of an echo header.
pub open spec fn spec_type(r: Repr) -> u8 {
    match r {
        Repr::EchoReply { .. } => 0,
        Repr::EchoRequest { .. } => 8,
    }
}

/// The four header bytes of an echo: identifier and sequence number.
pub open spec fn spec_echo_header(r: Repr) -> Seq<u8> {
    match r {
        Repr::EchoReply { id, seq } => be16_bytes(id) + be16_bytes(seq),
        Repr::EchoRequest { id, seq } => be16_bytes(id) + be16_bytes(seq),
    }
}

/// The ICMP header that `Repr::deserialize` reads from a packet.
pub open spec fn spec_deserialize(s: Seq<u8>) -> Result<Repr> {
    let id = spec_be16(s, 4) as u16;
    let seq = spec_be16(s, 6) as u16;
    if s[0] == 0 && s[1] == 0 {
        Ok(Repr::EchoReply { id, seq })
    } else if s[0] == 8 && s[1] == 0 {
        Ok(Repr::EchoRequest { id, seq })
    } else {
        Err(Error::Malformed)
    }
}

/// The packet with type, code and checksum zero and the echo header written
/// over `s`, before its checksum is computed.
pub open spec fn spec_unsummed(r: Repr, s: Seq<u8>) -> Seq<u8> {
    splice(splice(s, 0, seq![spec_type(r), 0u8, 0u8, 0u8]), 4, spec_echo_header(r))
}

/// The packet that `Repr::serialize` leaves: the header written over `s`, and
/// the checksum of that packet in the checksum field.
pub open spec fn spec_serialize(r: Repr, s: Seq<u8>) -> Seq<u8> {
    let z = spec_unsummed(r, s);
    splice(z, 2, be16_bytes(spec_internet_checksum(z)))
}

/// The result of the encoding checks of an ICMP packet.
pub open spec fn spec_check_encoding(s: Seq<u8>) -> Result<()> {
    if spec_internet_checksum(s) != 0 {
        Err(Error::Checksum)
    } else {
        Ok(())
    }
}

impl Repr {
    /// Returns the ICMP packet size needed to serialize this ICMP representation.
    pub fn buffer_len(&self) -> (len: usize)
        ensures
            len == 8,
    {
        8
    }

    /// Tries to deserialize a packet into an ICMP representation.
    pub fn deserialize(packet: &Packet) -> (r: Result<Repr>)
        requires
            packet@.len() >= 8,
        ensures
            r == spec_deserialize(packet@),
    {
        let header = packet.header();
        let id = get_u16(&header, 0);
        let seq = get_u16(&header, 2);

        let t = packet._type();
        let c = packet.code();
        if t == 0 && c == 0 {
            Ok(Repr::EchoReply { id, seq })
        } else if t == 8 && c == 0 {
            Ok(Repr::EchoRequest { id, seq })
        } else {
            Err(Error::Malformed)
        }
    }

    /// Serializes the ICMP representation into a packet, checksum included.
    pub fn serialize(&self, packet: &mut Packet)
        requires
            8 <= old(packet)@.len() <= 65535,
        ensures
            final(packet)@ == spec_serialize(*self, old(packet)@),
            spec_check_encoding(final(packet)@) == Ok::<(), Error>(()),
    {
        match *self {
            Repr::EchoReply { id, seq } => echo_reply_or_request(packet, 0, id, seq),
            Repr::EchoRequest { id, seq } => echo_reply_or_request(packet, 8, id, seq),
        }
    }
}

/// Writes an echo header with its checksum.
fn echo_reply_or_request(packet: &mut Packet, type_of: u8, id: u16, seq: u16)
    requires
        8 <= old(packet)@.len() <= 65535,
    ensures
        ({
            let z = splice(
                splice(old(packet)@, 0, seq![type_of, 0u8, 0u8, 0u8]),
                4,
                be16_bytes(id) + be16_bytes(seq),
            );
            final(packet)@ == splice(z, 2, be16_bytes(spec_internet_checksum(z)))
        }),
        spec_check_encoding(final(packet)@) == Ok::<(), Error>(()),
{
    packet.set_type(type_of);
    packet.set_code(0);
    packet.set_checksum(0);

    let mut header: [u8; 4] = [0; 4];
    set_u16(&mut header, 0, id);
    set_u16(&mut header, 2, seq);
    packet.set_header(header);

    let ghost z = packet@;
    assert(z =~= splice(
        splice(old(packet)@, 0, seq![type_of, 0u8, 0u8, 0u8]),
        4,
        be16_bytes(id) + be16_bytes(seq),
    ));
    let checksum = packet.gen_packet_checksum();
    packet.set_checksum(checksum);
    proof {
        assert(z[2] == 0 && z[3] == 0);
        lemma_checksum_fill(z, 2);
    }
}

/// View of a byte buffer as an ICMP packet.
#[derive(Debug)]
pub struct Packet {
    buffer: Vec<u8>,
}

impl View for Packet {
    type V = Seq<u8>;

    /// The bytes of the packet.
    closed spec fn view(&self) -> Seq<u8> {
        self.buffer@
    }
}

impl Packet {
    pub const HEADER_LEN: usize = 8;

    pub const MAX_PACKET_LEN: usize = 65535;

    /// Tries to create an ICMP packet view over a byte buffer.
    pub fn try_new(buffer: Vec<u8>) -> (r: Result<Packet>)
        ensures
            r is Ok <==> 8 <= buffer@.len() <= 65535,
            r matches Ok(p) ==> p@ == buffer@,
            r matches Err(e) ==> e is Exhausted,
    {
        if buffer.len() < Self::HEADER_LEN || buffer.len() > Self::MAX_PACKET_LEN {
            Err(Error::Exhausted)
        } else {
            Ok(Packet { buffer })
        }
    }

    /// Returns the bytes of the packet.
    pub fn as_ref(&self) -> (bytes: &[u8])
        ensures
            bytes@ == self@,
    {
        self.buffer.as_slice()
    }

    /// Returns the buffer of the packet.
    pub fn into_inner(self) -> (buffer: Vec<u8>)
        ensures
            buffer@ == self@,
    {
        self.buffer
    }

    /// Returns the length of an ICMP packet with the specified payload size.
    pub fn buffer_len(payload_len: usize) -> (len: usize)
        requires
            payload_len <= usize::MAX - 8,
        ensures
            len == 8 + payload_len,
    {
        Self::HEADER_LEN + payload_len
    }

    /// Checks if the packet has a valid encoding. This may include checksum, field
    /// consistency, etc. checks.
    pub fn check_encoding(&self) -> (r: Result<()>)
        requires
            self@.len() <= 65535,
        ensures
            r == spec_check_encoding(self@),
    {
        if self.gen_packet_checksum() != 0 {
            Err(Error::Checksum)
        } else {
            Ok(())
        }
    }

    /// Calculates the packet checksum.
    pub fn gen_packet_checksum(&self) -> (checksum: u16)
        requires
            self@.len() <= 65535,
        ensures
            checksum == spec_internet_checksum(self@),
    {
        internet_checksum(ByteOrderIter::from(self.buffer.as_slice()))
    }

    pub fn _type(&self) -> (t: u8)
        requires
            self@.len() >= 8,
        ensures
            t == self@[0],
    {
        self.buffer[0]
    }

    pub fn code(&self) -> (c: u8)
        requires
            self@.len() >= 8,
        ensures
            c == self@[1],
    {
        self.buffer[1]
    }

    pub fn checksum(&self) -> (c: u16)
        requires
            self@.len() >= 8,
        ensures
            c == spec_be16(self@, 2),
    {
        get_u16(self.buffer.as_slice(), 2)
    }

    pub fn header(&self) -> (header: [u8; 4])
        requires
            self@.len() >= 8,
        ensures
            header@ == self@.subrange(4, 8),
    {
        let header: [u8; 4] = [self.buffer[4], self.buffer[5], self.buffer[6], self.buffer[7]];
        assert(header@ =~= self@.subrange(4, 8));
        header
    }

    pub fn payload(&self) -> (payload: &[u8])
        requires
            self@.len() >= 8,
        ensures
            payload@ == self@.subrange(8, self@.len() as int),
    {
        let s = self.buffer.as_slice();
        &s[8..s.len()]
    }

    pub fn set_type(&mut self, type_of: u8)
        requires
            old(self)@.len() >= 8,
        ensures
            final(self)@ == old(self)@.update(0, type_of),
    {
        self.buffer.set(0, type_of);
    }

    pub fn set_code(&mut self, code: u8)
        requires
            old(self)@.len() >= 8,
        ensures
            final(self)@ == old(self)@.update(1, code),
    {
        self.buffer.set(1, code);
    }

    pub fn set_checksum(&mut self, checksum: u16)
        requires
            old(self)@.len() >= 8,
        ensures
            final(self)@ == splice(old(self)@, 2, be16_bytes(checksum)),
    {
        set_u16(self.buffer.as_mut_slice(), 2, checksum);
    }

    pub fn set_header(&mut self, header: [u8; 4])
        requires
            old(self)@.len() >= 8,
        ensures
            final(self)@ == splice(old(self)@, 4, header@),
    {
        self.buffer.set(4, header[0]);
        self.buffer.set(5, header[1]);
        self.buffer.set(6, header[2]);
        self.buffer.set(7, header[3]);
        assert(self.buffer@ =~= splice(old(self)@, 4, header@));
    }

    pub fn payload_mut(&mut self) -> (payload: &mut [u8])
        requires
            old(self)@.len() >= 8,
        ensures
            payload@ == old(self)@.subrange(8, old(self)@.len() as int),
            final(self)@ == old(self)@.subrange(0, 8) + final(payload)@,
    {
        let s = self.buffer.as_mut_slice();
        let (_, payload) = s.split_at_mut(8);
        payload
    }
}

/// A serialized echo header passes the encoding checks and deserializes to
/// the header.
pub proof fn lemma_serialize_deserialize(r: Repr, s: Seq<u8>)
    requires
        8 <= s.len() <= 65535,
    ensures
        spec_check_encoding(spec_serialize(r, s)) == Ok::<(), Error>(()),
        spec_deserialize(spec_serialize(r, s)) == Ok::<Repr, Error>(r),
{
    let z = spec_unsummed(r, s);
    let s2 = spec_serialize(r, s);
    assert(z[2] == 0 && z[3] == 0);
    lemma_checksum_fill(z, 2);
    assert(s2[0] == spec_type(r) && s2[1] == 0);
    assert(s2.subrange(4, 8) =~= spec_echo_header(r));
    match r {
        Repr::EchoReply { id, seq } => {
            assert(spec_be16(s2, 4) == id as int && spec_be16(s2, 6) == seq as int) by (nonlinear_arith)
                requires
                    s2[4] == (id / 256) as u8,
                    s2[5] == (id % 256) as u8,
                    s2[6] == (seq / 256) as u8,
                    s2[7] == (seq % 256) as u8;
        },
        Repr::EchoRequest { id, seq } => {
            assert(spec_be16(s2, 4) == id as int && spec_be16(s2, 6) == seq as int) by (nonlinear_arith)
                requires
                    s2[4] == (id / 256) as u8,
                    s2[5] == (id % 256) as u8,
                    s2[6] == (seq / 256) as u8,
                    s2[7] == (seq % 256) as u8;
        },
    }
}

/// Reading an echo header follows RFC 792: type 0 code 0 is an echo reply
/// and type 8 code 0 an echo request, each with the identifier in bytes 4
/// and 5 and the sequence number in bytes 6 and 7 (most significant byte
/// first); every other type and code pair is malformed.
pub proof fn lemma_deserialize_reads_rfc792(s: Seq<u8>)
    requires
        s.len() >= 8,
    ensures
        ({
            let id = (s[4] as int * 256 + s[5] as int) as u16;
            let seq = (s[6] as int * 256 + s[7] as int) as u16;
            let r = spec_deserialize(s);
            &&& s[0] == 0 && s[1] == 0 ==> r == Ok::<Repr, Error>(Repr::EchoReply { id, seq })
            &&& s[0] == 8 && s[1] == 0 ==> r == Ok::<Repr, Error>(Repr::EchoRequest { id, seq })
            &&& !((s[0] == 0 || s[0] == 8) && s[1] == 0) ==> r == Err::<Repr, Error>(
                Error::Malformed,
            )
        }),
{
}

/// Writing an echo header follows RFC 792: type 0 for a reply and 8 for a
/// request, code 0, the identifier in bytes 4 and 5 and the sequence number
/// in bytes 6 and 7 (most significant byte first), and a checksum that
/// checks out; the payload is left as it was.
pub proof fn lemma_serialize_writes_rfc792(r: Repr, s: Seq<u8>)
    requires
        8 <= s.len() <= 65535,
    ensures
        ({
            let t = spec_serialize(r, s);
            let (ty, id, seq) = match r {
                Repr::EchoReply { id, seq } => (0u8, id, seq),
                Repr::EchoRequest { id, seq } => (8u8, id, seq),
            };
            &&& t.len() == s.len()
            &&& t[0] == ty && t[1] == 0
            &&& t[4] as int * 256 + t[5] == id && t[6] as int * 256 + t[7] == seq
            &&& t.skip(8) == s.skip(8)
            &&& spec_internet_checksum(t) == 0
        }),
{
    let z = spec_unsummed(r, s);
    let t = spec_serialize(r, s);
    lemma_serialize_deserialize(r, s);
    let s1 = splice(s, 0, seq![spec_type(r), 0u8, 0u8, 0u8]);
    crate::bytes::lemma_splice_index(s, 0, seq![spec_type(r), 0u8, 0u8, 0u8]);
    crate::bytes::lemma_splice_index(s1, 4, spec_echo_header(r));
    crate::bytes::lemma_splice_index(z, 2, be16_bytes(spec_internet_checksum(z)));
    assert(t.skip(8) =~= s.skip(8));
    match r {
        Repr::EchoReply { id, seq } => {
            assert(t[4] as int * 256 + t[5] == id && t[6] as int * 256 + t[7] == seq) by (nonlinear_arith)
                requires
                    t[4] == (id / 256) as u8,
                    t[5] == (id % 256) as u8,
                    t[6] == (seq / 256) as u8,
                    t[7] == (seq % 256) as u8;
        },
        Repr::EchoRequest { id, seq } => {
            assert(t[4] as int * 256 + t[5] == id && t[6] as int * 256 + t[7] == seq) by (nonlinear_arith)
                requires
                    t[4] == (id / 256) as u8,
                    t[5] == (id % 256) as u8,
                    t[6] == (seq / 256) as u8,
                    t[7] == (seq % 256) as u8;
        },
    }
}

/// The encoding check of an ICMP packet follows RFC 792: it passes exactly
/// when the whole packet sums to zero.
pub proof fn lemma_check_encoding_rfc792(s: Seq<u8>)
    ensures
        spec_check_encoding(s) == if spec_internet_checksum(s) == 0 {
            Ok::<(), Error>(())
        } else {
            Err::<(), Error>(Error::Checksum)
        },
{
}

} // verus!
