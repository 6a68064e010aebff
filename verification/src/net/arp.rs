//! ARP packets over plain address arrays.
use vstd::prelude::*;

use crate::addr::{
    Ipv4,
    Mac,
};
use crate::bytes::{
    be16_bytes,
    set_bytes,
    set_u16,
    splice,
};
use crate::net::{
    Error,
    Result,
};

verus! {

#[derive(Clone, Copy, Debug, PartialEq, Eq, Structural)]
pub enum Op {
    Request,
    Reply,
    __Nonexhaustive,
}

#[derive(Clone, Copy, Debug, PartialEq, Eq, Structural)]
pub enum HwType {
    Ethernet,
}

#[derive(Clone, Copy, Debug, PartialEq, Eq, Structural)]
pub enum ProtoType {
    Ethernet,
}

/// The operation code of an ARP operation; the hidden variant has the code
/// that follows the last operation.
pub open spec fn spec_op_code(op: Op) -> u16 {
    match op {
        Op::Request => 0x0001,
        Op::Reply => 0x0002,
        Op::__Nonexhaustive => 0x0003,
    }
}

/// The code of a hardware type.
pub open spec fn spec_hw_type_code(t: HwType) -> u16 {
    match t {
        HwType::Ethernet => 0x0001,
    }
}

/// The code of a protocol type.
pub open spec fn spec_proto_type_code(t: ProtoType) -> u16 {
    match t {
        ProtoType::Ethernet => 0x0800,
    }
}

impl Op {
    /// The operation code.
    pub fn code(&self) -> (c: u16)
        ensures
            c == spec_op_code(*self),
    {
        match self {
            Op::Request => 0x0001,
            Op::Reply => 0x0002,
            Op::__Nonexhaustive => 0x0003,
        }
    }
}

impl HwType {
    /// The hardware type code.
    pub fn code(&self) -> (c: u16)
        ensures
            c == spec_hw_type_code(*self),
    {
        match self {
            HwType::Ethernet => 0x0001,
        }
    }
}

impl ProtoType {
    /// The protocol type code.
    pub fn code(&self) -> (c: u16)
        ensures
            c == spec_proto_type_code(*self),
    {
        match self {
            ProtoType::Ethernet => 0x0800,
        }
    }
}

pub enum Arp {
    EthernetIpv4 {
        op: Op,
        source_hw_addr: Mac,
        source_proto_addr: Ipv4,
        target_hw_addr: Mac,
        target_proto_addr: Ipv4,
    },
}

/// The bytes that `Arp::serialize` writes: the hardware type code in both of
/// the first two fields, the two address sizes, the operation and the four
/// addresses.
pub open spec fn spec_arp_bytes(a: Arp) -> Seq<u8> {
    match a {
        Arp::EthernetIpv4 {
            op,
            source_hw_addr,
            source_proto_addr,
            target_hw_addr,
            target_proto_addr,
        } => be16_bytes(spec_hw_type_code(HwType::Ethernet)) + be16_bytes(
            spec_hw_type_code(HwType::Ethernet),
        ) + seq![6u8, 4u8] + be16_bytes(spec_op_code(op)) + source_hw_addr@ + source_proto_addr@
            + target_hw_addr@ + target_proto_addr@,
    }
}

impl Arp {
    /// Returns the size of the ARP packet when serialized to a buffer.
    pub fn buffer_len(&self) -> (len: usize)
        ensures
            len == spec_arp_bytes(*self).len(),
            len == 28,
    {
        8 + match *self {
            Arp::EthernetIpv4 { .. } => 20,
        }
    }

    /// Serializes the ARP packet into a buffer.
    ///
    /// You should ensure the buffer has at least buffer_len() bytes to avoid
    /// errors.
    pub fn serialize(&self, buf: &mut [u8]) -> (r: Result<()>)
        ensures
            r is Ok <==> old(buf)@.len() >= 28,
            r is Ok ==> final(buf)@ == splice(old(buf)@, 0, spec_arp_bytes(*self)),
            r matches Err(e) ==> e is Overflow && final(buf)@ == old(buf)@,
    {
        if self.buffer_len() > buf.len() {
            return Err(Error::Overflow);
        }
        match *self {
            Arp::EthernetIpv4 {
                op,
                ref source_hw_addr,
                ref source_proto_addr,
                ref target_hw_addr,
                ref target_proto_addr,
            } => {
                assert(source_hw_addr@.len() == 6 && target_hw_addr@.len() == 6);
                assert(source_proto_addr@.len() == 4 && target_proto_addr@.len() == 4);
                set_u16(buf, 0, HwType::Ethernet.code());
                set_u16(buf, 2, HwType::Ethernet.code());
                buf[4] = 6;
                buf[5] = 4;
                set_u16(buf, 6, op.code());
                set_bytes(buf, 8, source_hw_addr.as_slice());
                set_bytes(buf, 14, source_proto_addr.as_slice());
                set_bytes(buf, 18, target_hw_addr.as_slice());
                set_bytes(buf, 24, target_proto_addr.as_slice());
                assert(buf@ =~= splice(old(buf)@, 0, spec_arp_bytes(*self)));
            },
        }
        Ok(())
    }
}

/// Writing an ARP packet lays it out as RFC 826 does for IPv4 over Ethernet:
/// bytes 0 and 1 hold the Ethernet hardware type 1, and so do bytes 2 and 3
/// (where RFC 826 puts the protocol type), then address sizes 6 and 4, the
/// operation (1 a request, 2 a reply, 3 the hidden variant), the sender's
/// Ethernet and IPv4 addresses and the target's Ethernet and IPv4 addresses,
/// in 28 bytes.
pub proof fn lemma_serialize_writes_layout(a: Arp)
    ensures
        ({
            let b = spec_arp_bytes(a);
            let Arp::EthernetIpv4 {
                op,
                source_hw_addr,
                source_proto_addr,
                target_hw_addr,
                target_proto_addr,
            } = a;
            &&& b.len() == 28
            &&& b.take(8) == seq![0u8, 1u8, 0u8, 1u8, 6u8, 4u8, 0u8, match op {
                Op::Request => 1u8,
                Op::Reply => 2u8,
                Op::__Nonexhaustive => 3u8,
            }]
            &&& b.subrange(8, 14) == source_hw_addr@
            &&& b.subrange(14, 18) == source_proto_addr@
            &&& b.subrange(18, 24) == target_hw_addr@
            &&& b.subrange(24, 28) == target_proto_addr@
        }),
{
    let Arp::EthernetIpv4 {
        op,
        source_hw_addr,
        source_proto_addr,
        target_hw_addr,
        target_proto_addr,
    } = a;
    let b = spec_arp_bytes(a);
    assert(source_hw_addr@.len() == 6 && target_hw_addr@.len() == 6);
    assert(source_proto_addr@.len() == 4 && target_proto_addr@.len() == 4);
    assert(b.take(8) =~= seq![0u8, 1u8, 0u8, 1u8, 6u8, 4u8, 0u8, match op {
        Op::Request => 1u8,
        Op::Reply => 2u8,
        Op::__Nonexhaustive => 3u8,
    }]);
    assert(b.subrange(8, 14) =~= source_hw_addr@);
    assert(b.subrange(14, 18) =~= source_proto_addr@);
    assert(b.subrange(18, 24) =~= target_hw_addr@);
    assert(b.subrange(24, 28) =~= target_proto_addr@);
}

} // verus!
