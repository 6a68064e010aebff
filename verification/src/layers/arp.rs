//! ARP packets of the first version of the stack.
use vstd::prelude::*;

use crate::bytes::{
    be16_bytes,
    get_u16,
    set_bytes,
    set_u16,
    spec_be16,
    splice,
};
use crate::layers::ethernet;
use crate::layers::ipv4;
use crate::layers::{
    EthernetAddress,
    Ipv4Address,
};
use crate::{
    Error,
    Result,
};

verus! {

// https://www.iana.org/assignments/arp-parameters/arp-parameters.xhtml#arp-parameters-1
#[derive(Clone, Copy, Debug, PartialEq, Eq, Structural)]
pub enum Op {
    Request,
    Reply,
}

// https://www.iana.org/assignments/arp-parameters/arp-parameters.xhtml#arp-parameters-2
#[derive(Clone, Copy, Debug, PartialEq, Eq, Structural)]
pub enum HwType {
    Ethernet,
}

// https://www.iana.org/assignments/arp-parameters/arp-parameters.xhtml#arp-parameters-3
#[derive(Clone, Copy, Debug, PartialEq, Eq, Structural)]
pub enum ProtoType {
    Ipv4,
}

/// The operation code of an ARP operation.
pub open spec fn spec_op_code(op: Op) -> u16 {
    match op {
        Op::Request => 0x0001,
        Op::Reply => 0x0002,
    }
}

/// The code of a hardware type.
pub open spec fn spec_hw_type_code(t: HwType) -> u16 {
    match t {
        HwType::Ethernet => 0x0001,
    }
}

/// The code of a protocol type.
pub open spec fn spec_proto_type_code(t: ProtoType) -> u16 {
    match t {
        ProtoType::Ipv4 => 0x0800,
    }
}

impl Op {
    /// The operation code.
    pub fn code(&self) -> (c: u16)
        ensures
            c == spec_op_code(*self),
    {
        match self {
            Op::Request => 0x0001,
            Op::Reply => 0x0002,
        }
    }
}

impl HwType {
    /// The hardware type code.
    pub fn code(&self) -> (c: u16)
        ensures
            c == spec_hw_type_code(*self),
    {
        match self {
            HwType::Ethernet => 0x0001,
        }
    }
}

impl ProtoType {
    /// The protocol type code.
    pub fn code(&self) -> (c: u16)
        ensures
            c == spec_proto_type_code(*self),
    {
        match self {
            ProtoType::Ipv4 => 0x0800,
        }
    }
}

#[derive(Clone, Copy, Debug, PartialEq, Eq)]
pub enum Arp {
    EthernetIpv4 {
        op: Op,
        source_hw_addr: EthernetAddress,
        source_proto_addr: Ipv4Address,
        target_hw_addr: EthernetAddress,
        target_proto_addr: Ipv4Address,
    },
}

/// The bytes of an ARP packet for IPv4 over Ethernet: hardware type, protocol
/// type, the two address sizes, the operation and the four addresses.
pub open spec fn spec_arp_bytes(a: Arp) -> Seq<u8> {
    match a {
        Arp::EthernetIpv4 {
            op,
            source_hw_addr,
            source_proto_addr,
            target_hw_addr,
            target_proto_addr,
        } => be16_bytes(spec_hw_type_code(HwType::Ethernet)) + be16_bytes(
            spec_proto_type_code(ProtoType::Ipv4),
        ) + seq![6u8, 4u8] + be16_bytes(spec_op_code(op)) + source_hw_addr@ + source_proto_addr@
            + target_hw_addr@ + target_proto_addr@,
    }
}

/// Whether the fixed part of an ARP header announces IPv4 over Ethernet with
/// a known operation.
pub open spec fn spec_header_ok(s: Seq<u8>) -> bool {
    &&& spec_be16(s, 0) == spec_hw_type_code(HwType::Ethernet)
    &&& spec_be16(s, 2) == spec_proto_type_code(ProtoType::Ipv4)
    &&& 1 <= spec_be16(s, 6) <= 2
}

/// The ARP packet that `Arp::deserialize` reads from a buffer.
pub open spec fn spec_deserialize(s: Seq<u8>) -> Result<Arp> {
    if s.len() < 8 {
        Err(Error::Buffer)
    } else if !spec_header_ok(s) {
        Err(Error::Encoding)
    } else {
        Ok(
            Arp::EthernetIpv4 {
                op: if spec_be16(s, 6) == 1 {
                    Op::Request
                } else {
                    Op::Reply
                },
                source_hw_addr: ethernet::spec_address(s.subrange(8, 14)),
                source_proto_addr: ipv4::spec_address(s.subrange(14, 18)),
                target_hw_addr: ethernet::spec_address(s.subrange(18, 24)),
                target_proto_addr: ipv4::spec_address(s.subrange(24, 28)),
            },
        )
    }
}

impl Arp {
    /// Returns the size of the ARP packet when serialized to a buffer.
    pub fn buffer_len(&self) -> (len: usize)
        ensures
            len == spec_arp_bytes(*self).len(),
            len == 28,
    {
        proof {
            let Arp::EthernetIpv4 {
                source_hw_addr,
                source_proto_addr,
                target_hw_addr,
                target_proto_addr,
                ..
            } = *self;
            ethernet::lemma_address_view(source_hw_addr);
            ethernet::lemma_address_view(target_hw_addr);
            ipv4::lemma_address_view(source_proto_addr);
            ipv4::lemma_address_view(target_proto_addr);
        }
        8 + match *self {
            Arp::EthernetIpv4 { .. } => 20,
        }
    }

    /// Attempts to deserialize a buffer into an ARP packet.
    ///
    /// A buffer whose first 8 bytes form a valid header must hold the 20
    /// address bytes that follow.
    pub fn deserialize(buffer: &[u8]) -> (r: Result<Arp>)
        requires
            buffer@.len() >= 8 && spec_header_ok(buffer@) ==> buffer@.len() >= 28,
        ensures
            r == spec_deserialize(buffer@),
    {
        if buffer.len() < 8 {
            return Err(Error::Buffer);
        }
        let hw_type = get_u16(buffer, 0);
        let proto_type = get_u16(buffer, 2);
        let op = get_u16(buffer, 6);

        if hw_type != HwType::Ethernet.code() || proto_type != ProtoType::Ipv4.code() || op == 0
            || op > 2 {
            return Err(Error::Encoding);
        }

        Ok(
            Arp::EthernetIpv4 {
                op: if op == 1 {
                    Op::Request
                } else {
                    Op::Reply
                },
                source_hw_addr: ethernet::address_at(buffer, 8),
                source_proto_addr: ipv4::address_at(buffer, 14),
                target_hw_addr: ethernet::address_at(buffer, 18),
                target_proto_addr: ipv4::address_at(buffer, 24),
            },
        )
    }

    /// Serializes the ARP packet into a buffer.
    ///
    /// You should ensure buffer has at least buffer_len() bytes to avoid errors.
    pub fn serialize(&self, buffer: &mut [u8]) -> (r: Result<()>)
        ensures
            r is Ok <==> old(buffer)@.len() >= 28,
            r is Ok ==> final(buffer)@ == splice(old(buffer)@, 0, spec_arp_bytes(*self)),
            r matches Err(e) ==> e is Buffer && final(buffer)@ == old(buffer)@,
    {
        if self.buffer_len() > buffer.len() {
            return Err(Error::Buffer);
        }
        match *self {
            Arp::EthernetIpv4 {
                op,
                ref source_hw_addr,
                ref source_proto_addr,
                ref target_hw_addr,
                ref target_proto_addr,
            } => {
                proof {
                    ethernet::lemma_address_view(*source_hw_addr);
                    ethernet::lemma_address_view(*target_hw_addr);
                    ipv4::lemma_address_view(*source_proto_addr);
                    ipv4::lemma_address_view(*target_proto_addr);
                }
                set_u16(buffer, 0, HwType::Ethernet.code());
                set_u16(buffer, 2, ProtoType::Ipv4.code());
                buffer[4] = 6;
                buffer[5] = 4;
                set_u16(buffer, 6, op.code());
                set_bytes(buffer, 8, source_hw_addr.as_bytes());
                set_bytes(buffer, 14, source_proto_addr.as_bytes());
                set_bytes(buffer, 18, target_hw_addr.as_bytes());
                set_bytes(buffer, 24, target_proto_addr.as_bytes());
                assert(buffer@ =~= splice(old(buffer)@, 0, spec_arp_bytes(*self)));
            },
        }
        Ok(())
    }
}

/// Deserializing a serialized ARP packet gives the packet back.
pub proof fn lemma_serialize_deserialize(a: Arp, s: Seq<u8>)
    requires
        s.len() >= 28,
    ensures
        spec_header_ok(splice(s, 0, spec_arp_bytes(a))),
        spec_deserialize(splice(s, 0, spec_arp_bytes(a))) == Ok::<Arp, Error>(a),
{
    let t = splice(s, 0, spec_arp_bytes(a));
    let Arp::EthernetIpv4 {
        op,
        source_hw_addr,
        source_proto_addr,
        target_hw_addr,
        target_proto_addr,
    } = a;
    ethernet::lemma_address_view(source_hw_addr);
    ethernet::lemma_address_view(target_hw_addr);
    ipv4::lemma_address_view(source_proto_addr);
    ipv4::lemma_address_view(target_proto_addr);
    assert(t.subrange(8, 14) =~= source_hw_addr@);
    assert(t.subrange(14, 18) =~= source_proto_addr@);
    assert(t.subrange(18, 24) =~= target_hw_addr@);
    assert(t.subrange(24, 28) =~= target_proto_addr@);
    assert(t[0] == 0 && t[1] == 1 && t[2] == 8 && t[3] == 0);
    assert(t[6] == 0 && t[7] == spec_op_code(op));
}

/// Reading an ARP packet follows RFC 826 for IPv4 over Ethernet: hardware
/// type 1 in bytes 0 and 1, protocol type 0x0800 in bytes 2 and 3, the
/// operation in bytes 6 and 7 (1 a request, 2 a reply), then the sender's
/// Ethernet address in bytes 8 to 14, the sender's IPv4 address in bytes 14
/// to 18, the target's Ethernet address in bytes 18 to 24 and the target's
/// IPv4 address in bytes 24 to 28. A buffer shorter than 8 bytes is too
/// short, and any other type or operation is refused.
pub proof fn lemma_deserialize_reads_rfc826(s: Seq<u8>)
    ensures
        s.len() < 8 ==> spec_deserialize(s) == Err::<Arp, Error>(Error::Buffer),
        s.len() >= 8 && !(s[0] == 0 && s[1] == 1 && s[2] == 8 && s[3] == 0 && s[6] == 0 && (s[7]
            == 1 || s[7] == 2)) ==> spec_deserialize(s) == Err::<Arp, Error>(Error::Encoding),
        s.len() >= 28 && s[0] == 0 && s[1] == 1 && s[2] == 8 && s[3] == 0 && s[6] == 0 && (s[7]
            == 1 || s[7] == 2) ==> (spec_deserialize(s) matches Ok(
            Arp::EthernetIpv4 {
                op,
                source_hw_addr,
                source_proto_addr,
                target_hw_addr,
                target_proto_addr,
            },
        ) && (op == Op::Request <==> s[7] == 1) && source_hw_addr@ == s.subrange(8, 14)
            && source_proto_addr@ == s.subrange(14, 18) && target_hw_addr@ == s.subrange(18, 24)
            && target_proto_addr@ == s.subrange(24, 28)),
{
    if s.len() >= 28 {
        ethernet::lemma_spec_address(s.subrange(8, 14));
        ipv4::lemma_spec_address(s.subrange(14, 18));
        ethernet::lemma_spec_address(s.subrange(18, 24));
        ipv4::lemma_spec_address(s.subrange(24, 28));
        assert(s.subrange(8, 14).subrange(0, 6) =~= s.subrange(8, 14));
        assert(s.subrange(14, 18).subrange(0, 4) =~= s.subrange(14, 18));
        assert(s.subrange(18, 24).subrange(0, 6) =~= s.subrange(18, 24));
        assert(s.subrange(24, 28).subrange(0, 4) =~= s.subrange(24, 28));
    }
}

/// Writing an ARP packet follows RFC 826 for IPv4 over Ethernet: hardware
/// type 1, protocol type 0x0800, address sizes 6 and 4, the operation (1 a
/// request, 2 a reply), then the sender's Ethernet and IPv4 addresses and
/// the target's Ethernet and IPv4 addresses, in 28 bytes.
pub proof fn lemma_serialize_writes_rfc826(a: Arp)
    ensures
        ({
            let b = spec_arp_bytes(a);
            let Arp::EthernetIpv4 {
                op,
                source_hw_addr,
                source_proto_addr,
                target_hw_addr,
                target_proto_addr,
            } = a;
            &&& b.len() == 28
            &&& b.take(8) == seq![0u8, 1u8, 8u8, 0u8, 6u8, 4u8, 0u8, if op == Op::Request {
                1u8
            } else {
                2u8
            }]
            &&& b.subrange(8, 14) == source_hw_addr@
            &&& b.subrange(14, 18) == source_proto_addr@
            &&& b.subrange(18, 24) == target_hw_addr@
            &&& b.subrange(24, 28) == target_proto_addr@
        }),
{
    let Arp::EthernetIpv4 {
        op,
        source_hw_addr,
        source_proto_addr,
        target_hw_addr,
        target_proto_addr,
    } = a;
    let b = spec_arp_bytes(a);
    ethernet::lemma_address_view(source_hw_addr);
    ethernet::lemma_address_view(target_hw_addr);
    ipv4::lemma_address_view(source_proto_addr);
    ipv4::lemma_address_view(target_proto_addr);
    assert(b.take(8) =~= seq![0u8, 1u8, 8u8, 0u8, 6u8, 4u8, 0u8, if op == Op::Request {
        1u8
    } else {
        2u8
    }]);
    assert(b.subrange(8, 14) =~= source_hw_addr@);
    assert(b.subrange(14, 18) =~= source_proto_addr@);
    assert(b.subrange(18, 24) =~= target_hw_addr@);
    assert(b.subrange(24, 28) =~= target_proto_addr@);
}

} // verus!
