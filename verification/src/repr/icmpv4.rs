//! ICMP messages and packets.
use vstd::prelude::*;

use crate::bytes::{
    be16_bytes,
    get_u16,
    set_u16,
    spec_be16,
    splice,
};
use crate::check::{
    internet_checksum,
    lemma_checksum_fill,
    spec_internet_checksum,
    ByteOrderIter,
};
use crate::{
    Error,
    Result,
};

verus! {

#[derive(Clone, Copy, Debug, PartialEq, Eq, Structural)]
pub enum DestinationUnreachable {
    PortUnreachable,
    #[allow(non_camel_case_types)]
    ___Exhaustive,
}

#[derive(Clone, Copy, Debug, PartialEq, Eq, Structural)]
pub enum TimeExceeded {
    TTLExpired,
    #[allow(non_camel_case_types)]
    ___Exhaustive,
}

#[derive(Clone, Copy, Debug, PartialEq, Eq, Structural)]
pub enum Message {
    EchoReply { id: u16, seq: u16 },
    EchoRequest { id: u16, seq: u16 },
    DestinationUnreachable(DestinationUnreachable),
    TimeExceeded(TimeExceeded),
    #[allow(non_camel_case_types)]
    ___Exhaustive,
}

/// An ICMP header.
#[derive(Clone, Copy, Debug, PartialEq, Eq, Structural)]
pub struct Repr {
    pub message: Message,
    pub payload_len: usize,
}

/// The messages that have an encoding.
pub open spec fn spec_message_ok(m: Message) -> bool {
    match m {
        Message::DestinationUnreachable(d) => d == DestinationUnreachable::PortUnreachable,
        Message::TimeExceeded(t) => t == TimeExceeded::TTLExpired,
        Message::___Exhaustive => false,
        _ => true,
    }
}

/// The type and code bytes of a message.
pub open spec fn spec_type_code(m: Message) -> Seq<u8> {
    match m {
        Message::EchoReply { .. } => seq![0u8, 0u8],
        Message::EchoRequest { .. } => seq![8u8, 0u8],
        Message::DestinationUnreachable(_) => seq![3u8, 3u8],
        _ => seq![11u8, 0u8],
    }
}

/// The four header bytes of a message: identifier and sequence number of an
/// echo, zeros for an error.
pub open spec fn spec_rest_of_header(m: Message) -> Seq<u8> {
    match m {
        Message::EchoReply { id, seq } => be16_bytes(id) + be16_bytes(seq),
        Message::EchoRequest { id, seq } => be16_bytes(id) + be16_bytes(seq),
        _ => seq![0u8, 0u8, 0u8, 0u8],
    }
}

/// The packet `Repr::serialize` leaves: type and code, and the rest of the
/// header, written over `s`.
pub open spec fn spec_serialize(r: Repr, s: Seq<u8>) -> Seq<u8> {
    splice(splice(s, 0, spec_type_code(r.message)), 4, spec_rest_of_header(r.message))
}

/// The ICMP header that `Repr::deserialize` reads from a packet.
pub open spec fn spec_deserialize(s: Seq<u8>) -> Result<Repr> {
    let id = spec_be16(s, 4) as u16;
    let seq = spec_be16(s, 6) as u16;
    let payload_len = (s.len() - 8) as usize;
    if s[0] == 0 && s[1] == 0 {
        Ok(Repr { message: Message::EchoReply { id, seq }, payload_len })
    } else if s[0] == 8 && s[1] == 0 {
        Ok(Repr { message: Message::EchoRequest { id, seq }, payload_len })
    } else if s[0] == 3 && s[1] == 3 {
        Ok(
            Repr {
                message: Message::DestinationUnreachable(DestinationUnreachable::PortUnreachable),
                payload_len,
            },
        )
    } else if s[0] == 11 && s[1] == 0 {
        Ok(Repr { message: Message::TimeExceeded(TimeExceeded::TTLExpired), payload_len })
    } else {
        Err(Error::Malformed)
    }
}

/// The checksum over a whole ICMP packet.
pub open spec fn spec_gen_packet_checksum(s: Seq<u8>) -> u16 {
    spec_internet_checksum(s)
}

/// The result of the encoding checks of an ICMP packet.
pub open spec fn spec_check_encoding(s: Seq<u8>) -> Result<()> {
    if spec_gen_packet_checksum(s) != 0 {
        Err(Error::Checksum)
    } else {
        Ok(())
    }
}

/// The packet `fill_checksum` leaves: the checksum field holds the checksum
/// computed with a zero checksum field.
pub open spec fn spec_fill_checksum(s: Seq<u8>) -> Seq<u8> {
    let z = splice(s, 2, be16_bytes(0));
    splice(z, 2, be16_bytes(spec_internet_checksum(z)))
}

impl Repr {
    /// Returns the buffer size needed to serialize the ICMP header and
    /// associated payload.
    pub fn buffer_len(&self) -> (len: usize)
        requires
            self.payload_len <= usize::MAX - 8,
        ensures
            len == 8 + self.payload_len,
    {
        8 + self.payload_len
    }

    /// Tries to deserialize a packet into an ICMP header.
    pub fn deserialize(packet: &Packet) -> (r: Result<Repr>)
        requires
            packet@.len() >= 8,
        ensures
            r == spec_deserialize(packet@),
    {
        let header = packet.header();
        let (id, seq) = (get_u16(header, 0), get_u16(header, 2));

        let payload_len = packet.payload().len();

        let t = packet._type();
        let c = packet.code();
        if t == 0 && c == 0 {
            Ok(Repr { message: Message::EchoReply { id, seq }, payload_len })
        } else if t == 8 && c == 0 {
            Ok(Repr { message: Message::EchoRequest { id, seq }, payload_len })
        } else if t == 3 && c == 3 {
            Ok(
                Repr {
                    message: Message::DestinationUnreachable(
                        DestinationUnreachable::PortUnreachable,
                    ),
                    payload_len,
                },
            )
        } else if t == 11 && c == 0 {
            Ok(Repr { message: Message::TimeExceeded(TimeExceeded::TTLExpired), payload_len })
        } else {
            Err(Error::Malformed)
        }
    }

    /// Serializes the ICMP header into a packet.
    ///
    /// NOTE: Use fill_checksum() on the packet before sending over the wire!
    pub fn serialize(&self, packet: &mut Packet) -> (r: Result<()>)
        requires
            old(packet)@.len() >= 8,
            spec_message_ok(self.message),
        ensures
            r is Ok,
            final(packet)@ == spec_serialize(*self, old(packet)@),
    {
        match self.message {
            Message::EchoReply { id, seq } => echo(packet, 0, id, seq),
            Message::EchoRequest { id, seq } => echo(packet, 8, id, seq),
            Message::DestinationUnreachable(_) => error(packet, 3, 3),
            _ => error(packet, 11, 0),
        };
        assert(packet@ =~= spec_serialize(*self, old(packet)@));
        Ok(())
    }
}

/// Writes the type, code and the identifier and sequence number of an echo.
fn echo(packet: &mut Packet, type_of: u8, id: u16, seq: u16)
    requires
        old(packet)@.len() >= 8,
    ensures
        final(packet)@ == splice(
            splice(old(packet)@, 0, seq![type_of, 0u8]),
            4,
            be16_bytes(id) + be16_bytes(seq),
        ),
{
    packet.set_type(type_of);
    packet.set_code(0);
    {
        let header = packet.header_mut();
        set_u16(header, 0, id);
        set_u16(header, 2, seq);
    }
    assert(packet@ =~= splice(
        splice(old(packet)@, 0, seq![type_of, 0u8]),
        4,
        be16_bytes(id) + be16_bytes(seq),
    ));
}

/// Writes the type and code of an error and zeros the rest of the header.
fn error(packet: &mut Packet, type_of: u8, code: u8)
    requires
        old(packet)@.len() >= 8,
    ensures
        final(packet)@ == splice(
            splice(old(packet)@, 0, seq![type_of, code]),
            4,
            seq![0u8, 0u8, 0u8, 0u8],
        ),
{
    packet.set_type(type_of);
    packet.set_code(code);
    {
        let header = packet.header_mut();
        header[0] = 0;
        header[1] = 0;
        header[2] = 0;
        header[3] = 0;
    }
    assert(packet@ =~= splice(
        splice(old(packet)@, 0, seq![type_of, code]),
        4,
        seq![0u8, 0u8, 0u8, 0u8],
    ));
}

/// View of a byte buffer as an ICMP packet.
#[derive(Debug)]
pub struct Packet {
    buffer: Vec<u8>,
}

impl View for Packet {
    type V = Seq<u8>;

    /// The bytes of the packet.
    closed spec fn view(&self) -> Seq<u8> {
        self.buffer@
    }
}

impl Packet {
    pub const HEADER_LEN: usize = 8;

    pub const MAX_PACKET_LEN: usize = 65535;

    /// Tries to create an ICMP packet from a byte buffer.
    ///
    /// NOTE: Use check_encoding() before operating on the packet if the provided
    /// buffer originates from a untrusted source such as a link.
    pub fn try_new(buffer: Vec<u8>) -> (r: Result<Packet>)
        ensures
            r is Ok <==> 8 <= buffer@.len() <= 65535,
            r matches Ok(p) ==> p@ == buffer@,
            r matches Err(e) ==> e is Exhausted,
    {
        if buffer.len() < Self::HEADER_LEN || buffer.len() > Self::MAX_PACKET_LEN {
            Err(Error::Exhausted)
        } else {
            Ok(Packet { buffer })
        }
    }

    /// Returns the bytes of the packet.
    pub fn as_ref(&self) -> (bytes: &[u8])
        ensures
            bytes@ == self@,
    {
        self.buffer.as_slice()
    }

    /// Returns the buffer of the packet.
    pub fn into_inner(self) -> (buffer: Vec<u8>)
        ensures
            buffer@ == self@,
    {
        self.buffer
    }

    /// Returns the length of an ICMP packet with the specified payload size.
    pub fn buffer_len(payload_len: usize) -> (len: usize)
        requires
            payload_len <= usize::MAX - 8,
        ensures
            len == 8 + payload_len,
    {
        Self::HEADER_LEN + payload_len
    }

    /// Checks if the packet has a valid encoding. This may include checksum, field
    /// consistency, etc. checks.
    pub fn check_encoding(&self) -> (r: Result<()>)
        requires
            self@.len() <= 65535,
        ensures
            r == spec_check_encoding(self@),
    {
        if self.gen_packet_checksum() != 0 {
            Err(Error::Checksum)
        } else {
            Ok(())
        }
    }

    /// Calculates the packet checksum.
    pub fn gen_packet_checksum(&self) -> (checksum: u16)
        requires
            self@.len() <= 65535,
        ensures
            checksum == spec_gen_packet_checksum(self@),
    {
        internet_checksum(ByteOrderIter::from(self.buffer.as_slice()))
    }

    pub fn _type(&self) -> (t: u8)
        requires
            self@.len() >= 8,
        ensures
            t == self@[0],
    {
        self.buffer[0]
    }

    pub fn code(&self) -> (c: u8)
        requires
            self@.len() >= 8,
        ensures
            c == self@[1],
    {
        self.buffer[1]
    }

    pub fn checksum(&self) -> (c: u16)
        requires
            self@.len() >= 8,
        ensures
            c == spec_be16(self@, 2),
    {
        get_u16(self.buffer.as_slice(), 2)
    }

    pub fn header(&self) -> (header: &[u8])
        requires
            self@.len() >= 8,
        ensures
            header@ == self@.subrange(4, 8),
    {
        &self.buffer.as_slice()[4..8]
    }

    pub fn payload(&self) -> (payload: &[u8])
        requires
            self@.len() >= 8,
        ensures
            payload@ == self@.subrange(8, self@.len() as int),
    {
        let s = self.buffer.as_slice();
        &s[8..s.len()]
    }

    pub fn set_type(&mut self, type_of: u8)
        requires
            old(self)@.len() >= 8,
        ensures
            final(self)@ == old(self)@.update(0, type_of),
    {
        self.buffer[0] = type_of;
    }

    pub fn set_code(&mut self, code: u8)
        requires
            old(self)@.len() >= 8,
        ensures
            final(self)@ == old(self)@.update(1, code),
    {
        self.buffer[1] = code;
    }

    pub fn set_checksum(&mut self, checksum: u16)
        requires
            old(self)@.len() >= 8,
        ensures
            final(self)@ == splice(old(self)@, 2, be16_bytes(checksum)),
    {
        set_u16(self.buffer.as_mut_slice(), 2, checksum);
    }

    pub fn header_mut(&mut self) -> (header: &mut [u8])
        requires
            old(self)@.len() >= 8,
        ensures
            header@ == old(self)@.subrange(4, 8),
            final(self)@ == old(self)@.subrange(0, 4) + final(header)@ + old(self)@.subrange(
                8,
                old(self)@.len() as int,
            ),
    {
        let s = self.buffer.as_mut_slice();
        let (_, rest) = s.split_at_mut(4);
        let (header, _) = rest.split_at_mut(4);
        header
    }

    pub fn payload_mut(&mut self) -> (payload: &mut [u8])
        requires
            old(self)@.len() >= 8,
        ensures
            payload@ == old(self)@.subrange(8, old(self)@.len() as int),
            final(self)@ == old(self)@.subrange(0, 8) + final(payload)@,
    {
        let s = self.buffer.as_mut_slice();
        let (_, payload) = s.split_at_mut(8);
        payload
    }

    /// Computes the checksum of the packet and writes it to the checksum
    /// field; the packet then passes the checksum check.
    pub fn fill_checksum(&mut self)
        requires
            8 <= old(self)@.len() <= 65535,
        ensures
            final(self)@ == spec_fill_checksum(old(self)@),
            spec_check_encoding(final(self)@) == Ok::<(), Error>(()),
    {
        self.set_checksum(0);
        let checksum = self.gen_packet_checksum();
        self.set_checksum(checksum);
        proof {
            let z = splice(old(self)@, 2, be16_bytes(0));
            assert(z[2] == 0 && z[3] == 0);
            lemma_checksum_fill(z, 2);
        }
    }
}

/// Serializing a header and filling in the checksum yields a packet that
/// passes the encoding checks and deserializes to the header, when the
/// header's payload length is that of the packet.
pub proof fn lemma_serialize_deserialize(r: Repr, s: Seq<u8>)
    requires
        8 <= s.len() <= 65535,
        r.payload_len == s.len() - 8,
        spec_message_ok(r.message),
    ensures
        spec_check_encoding(spec_fill_checksum(spec_serialize(r, s))) == Ok::<(), Error>(()),
        spec_deserialize(spec_fill_checksum(spec_serialize(r, s))) == Ok::<Repr, Error>(r),
{
    let s1 = spec_serialize(r, s);
    let z = splice(s1, 2, be16_bytes(0));
    let s2 = spec_fill_checksum(s1);
    assert(z[2] == 0 && z[3] == 0);
    lemma_checksum_fill(z, 2);
    assert(s2[0] == s1[0] && s2[1] == s1[1]);
    assert(s2.subrange(4, 8) =~= spec_rest_of_header(r.message));
    match r.message {
        Message::EchoReply { id, seq } => {
            assert(spec_be16(s2, 4) == id as int && spec_be16(s2, 6) == seq as int) by (nonlinear_arith)
                requires
                    s2[4] == (id / 256) as u8,
                    s2[5] == (id % 256) as u8,
                    s2[6] == (seq / 256) as u8,
                    s2[7] == (seq % 256) as u8;
        },
        Message::EchoRequest { id, seq } => {
            assert(spec_be16(s2, 4) == id as int && spec_be16(s2, 6) == seq as int) by (nonlinear_arith)
                requires
                    s2[4] == (id / 256) as u8,
                    s2[5] == (id % 256) as u8,
                    s2[6] == (seq / 256) as u8,
                    s2[7] == (seq % 256) as u8;
        },
        _ => {},
    }
}

/// The ICMP type and code of each message, as RFC 792 numbers them.
pub open spec fn spec_rfc792_type_code(m: Message) -> (u8, u8) {
    match m {
        Message::EchoReply { .. } => (0, 0),
        Message::EchoRequest { .. } => (8, 0),
        Message::DestinationUnreachable(_) => (3, 3),
        _ => (11, 0),
    }
}

/// Reading an ICMP packet follows the RFC 792 numbering: type 0 code 0 is an
/// echo reply and type 8 code 0 an echo request, each with the identifier in
/// bytes 4 and 5 and the sequence number in bytes 6 and 7 (most significant
/// byte first); type 3 code 3 is a port unreachable report and type 11 code
/// 0 a time to live that expired in transit; every other type and code pair
/// is malformed. The payload is what follows the first 8 bytes.
pub proof fn lemma_deserialize_reads_rfc792(s: Seq<u8>)
    requires
        s.len() >= 8,
    ensures
        ({
            let id = (s[4] as int * 256 + s[5] as int) as u16;
            let seq = (s[6] as int * 256 + s[7] as int) as u16;
            let payload_len = (s.len() - 8) as usize;
            let r = spec_deserialize(s);
            &&& s[0] == 0 && s[1] == 0 ==> r == Ok::<Repr, Error>(
                Repr { message: Message::EchoReply { id, seq }, payload_len },
            )
            &&& s[0] == 8 && s[1] == 0 ==> r == Ok::<Repr, Error>(
                Repr { message: Message::EchoRequest { id, seq }, payload_len },
            )
            &&& s[0] == 3 && s[1] == 3 ==> r == Ok::<Repr, Error>(
                Repr {
                    message: Message::DestinationUnreachable(
                        DestinationUnreachable::PortUnreachable,
                    ),
                    payload_len,
                },
            )
            &&& s[0] == 11 && s[1] == 0 ==> r == Ok::<Repr, Error>(
                Repr { message: Message::TimeExceeded(TimeExceeded::TTLExpired), payload_len },
            )
            &&& !((s[0] == 0 || s[0] == 8) && s[1] == 0) && !(s[0] == 3 && s[1] == 3) && !(s[0]
                == 11 && s[1] == 0) ==> r == Err::<Repr, Error>(Error::Malformed)
        }),
{
}

/// Writing an ICMP header follows the RFC 792 numbering: bytes 0 and 1 hold
/// the type and code of the message, an echo has its identifier in bytes 4
/// and 5 and its sequence number in bytes 6 and 7 (most significant byte
/// first), an error message has zeros there; the checksum field and the
/// payload are left as they were.
pub proof fn lemma_serialize_writes_rfc792(r: Repr, s: Seq<u8>)
    requires
        s.len() >= 8,
        spec_message_ok(r.message),
    ensures
        ({
            let t = spec_serialize(r, s);
            let (ty, code) = spec_rfc792_type_code(r.message);
            &&& t.len() == s.len()
            &&& t[0] == ty && t[1] == code
            &&& t[2] == s[2] && t[3] == s[3]
            &&& t.skip(8) == s.skip(8)
            &&& (r.message matches Message::EchoReply { id, seq } ==> t[4] as int * 256 + t[5]
                == id && t[6] as int * 256 + t[7] == seq)
            &&& (r.message matches Message::EchoRequest { id, seq } ==> t[4] as int * 256 + t[5]
                == id && t[6] as int * 256 + t[7] == seq)
            &&& (!(r.message is EchoReply) && !(r.message is EchoRequest) ==> t[4] == 0 && t[5]
                == 0 && t[6] == 0 && t[7] == 0)
        }),
{
    let t = spec_serialize(r, s);
    let s1 = splice(s, 0, spec_type_code(r.message));
    crate::bytes::lemma_splice_index(s, 0, spec_type_code(r.message));
    crate::bytes::lemma_splice_index(s1, 4, spec_rest_of_header(r.message));
    assert(t.skip(8) =~= s.skip(8));
    match r.message {
        Message::EchoReply { id, seq } => {
            assert(t[4] as int * 256 + t[5] == id && t[6] as int * 256 + t[7] == seq) by (nonlinear_arith)
                requires
                    t[4] == (id / 256) as u8,
                    t[5] == (id % 256) as u8,
                    t[6] == (seq / 256) as u8,
                    t[7] == (seq % 256) as u8;
        },
        Message::EchoRequest { id, seq } => {
            assert(t[4] as int * 256 + t[5] == id && t[6] as int * 256 + t[7] == seq) by (nonlinear_arith)
                requires
                    t[4] == (id / 256) as u8,
                    t[5] == (id % 256) as u8,
                    t[6] == (seq / 256) as u8,
                    t[7] == (seq % 256) as u8;
        },
        _ => {},
    }
}

/// The encoding check of an ICMP packet follows RFC 792: it passes exactly
/// when the whole packet sums to zero.
pub proof fn lemma_check_encoding_rfc792(s: Seq<u8>)
    ensures
        spec_check_encoding(s) == if spec_internet_checksum(s) == 0 {
            Ok::<(), Error>(())
        } else {
            Err::<(), Error>(Error::Checksum)
        },
{
}

} // verus!
