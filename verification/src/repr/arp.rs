//! ARP packets for resolving IPv4 addresses to Ethernet addresses.
use vstd::prelude::*;

use crate::bytes::{
    be16_bytes,
    get_u16,
    set_bytes,
    set_u16,
    spec_be16,
    splice,
};
use crate::repr::ethernet;
use crate::repr::ipv4;
use crate::repr::{
    EthernetAddress,
    Ipv4Address,
};
use crate::{
    Error,
    Result,
};

pub mod hw_types;
pub mod proto_types;

verus! {

// https://www.iana.org/assignments/arp-parameters/arp-parameters.xhtml#arp-parameters-1
#[derive(Clone, Copy, Debug, PartialEq, Eq, Structural)]
pub enum Op {
    Request,
    Reply,
}

/// The operation code of an ARP operation.
pub open spec fn spec_op_code(op: Op) -> u16 {
    match op {
        Op::Request => 1,
        Op::Reply => 2,
    }
}

/// An ARP packet.
#[derive(Clone, Copy, Debug, PartialEq, Eq)]
pub struct Arp {
    pub op: Op,
    pub source_hw_addr: EthernetAddress,
    pub source_proto_addr: Ipv4Address,
    pub target_hw_addr: EthernetAddress,
    pub target_proto_addr: Ipv4Address,
}

/// The 28 bytes of an ARP packet for IPv4 over Ethernet: hardware type,
/// protocol type, the two address sizes, the operation and the four addresses.
pub open spec fn spec_arp_bytes(a: Arp) -> Seq<u8> {
    be16_bytes(hw_types::ETHERNET) + be16_bytes(proto_types::IPV4) + seq![6u8, 4u8] + be16_bytes(
        spec_op_code(a.op),
    ) + a.source_hw_addr@ + a.source_proto_addr@ + a.target_hw_addr@ + a.target_proto_addr@
}

/// The ARP packet that `Arp::deserialize` reads from a buffer.
pub open spec fn spec_deserialize(s: Seq<u8>) -> Result<Arp> {
    if s.len() < 28 {
        Err(Error::Malformed)
    } else if spec_be16(s, 0) != hw_types::ETHERNET || spec_be16(s, 2) != proto_types::IPV4
        || spec_be16(s, 6) == 0 || spec_be16(s, 6) > 2 {
        Err(Error::Malformed)
    } else {
        Ok(
            Arp {
                op: if spec_be16(s, 6) == 1 {
                    Op::Request
                } else {
                    Op::Reply
                },
                source_hw_addr: ethernet::spec_address(s.subrange(8, 14)),
                source_proto_addr: ipv4::spec_address(s.subrange(14, 18)),
                target_hw_addr: ethernet::spec_address(s.subrange(18, 24)),
                target_proto_addr: ipv4::spec_address(s.subrange(24, 28)),
            },
        )
    }
}

impl Arp {
    /// Returns the buffer size needed to serialize the ARP packet.
    pub fn buffer_len(&self) -> (len: usize)
        ensures
            len == 28,
    {
        // 8 for header + 20 for addresses.
        28
    }

    /// Tries to deserialize a buffer into an ARP packet.
    pub fn deserialize(buffer: &[u8]) -> (r: Result<Arp>)
        ensures
            r == spec_deserialize(buffer@),
    {
        if buffer.len() < 28 {
            return Err(Error::Malformed);
        }
        let hw_type = get_u16(buffer, 0);
        let proto_type = get_u16(buffer, 2);
        let op = get_u16(buffer, 6);

        if hw_type != hw_types::ETHERNET || proto_type != proto_types::IPV4 || op == 0 || op > 2 {
            return Err(Error::Malformed);
        }

        Ok(
            Arp {
                op: if op == 1 {
                    Op::Request
                } else {
                    Op::Reply
                },
                source_hw_addr: ethernet::address_at(buffer, 8),
                source_proto_addr: ipv4::address_at(buffer, 14),
                target_hw_addr: ethernet::address_at(buffer, 18),
                target_proto_addr: ipv4::address_at(buffer, 24),
            },
        )
    }

    /// Serializes the ARP packet into a buffer.
    pub fn serialize(&self, buffer: &mut [u8]) -> (r: Result<()>)
        ensures
            r is Ok <==> old(buffer)@.len() >= 28,
            r is Ok ==> final(buffer)@ == splice(old(buffer)@, 0, spec_arp_bytes(*self)),
            r matches Err(e) ==> e is Exhausted && final(buffer)@ == old(buffer)@,
    {
        if self.buffer_len() > buffer.len() {
            return Err(Error::Exhausted);
        }
        let op: u16 = match self.op {
            Op::Request => 1,
            Op::Reply => 2,
        };
        proof {
            ethernet::lemma_address_view(self.source_hw_addr);
            ethernet::lemma_address_view(self.target_hw_addr);
            ipv4::lemma_address_view(self.source_proto_addr);
            ipv4::lemma_address_view(self.target_proto_addr);
        }
        set_u16(buffer, 0, hw_types::ETHERNET);
        set_u16(buffer, 2, proto_types::IPV4);
        buffer[4] = 6;
        buffer[5] = 4;
        set_u16(buffer, 6, op);
        set_bytes(buffer, 8, self.source_hw_addr.as_bytes());
        set_bytes(buffer, 14, self.source_proto_addr.as_bytes());
        set_bytes(buffer, 18, self.target_hw_addr.as_bytes());
        set_bytes(buffer, 24, self.target_proto_addr.as_bytes());
        assert(buffer@ =~= splice(old(buffer)@, 0, spec_arp_bytes(*self)));
        Ok(())
    }
}

/// Deserializing a serialized ARP packet gives the packet back.
pub proof fn lemma_serialize_deserialize(a: Arp, s: Seq<u8>)
    requires
        s.len() >= 28,
    ensures
        spec_deserialize(splice(s, 0, spec_arp_bytes(a))) == Ok::<Arp, Error>(a),
{
    let t = splice(s, 0, spec_arp_bytes(a));
    ethernet::lemma_address_view(a.source_hw_addr);
    ethernet::lemma_address_view(a.target_hw_addr);
    ipv4::lemma_address_view(a.source_proto_addr);
    ipv4::lemma_address_view(a.target_proto_addr);
    assert(t.subrange(8, 14) =~= a.source_hw_addr@);
    assert(t.subrange(14, 18) =~= a.source_proto_addr@);
    assert(t.subrange(18, 24) =~= a.target_hw_addr@);
    assert(t.subrange(24, 28) =~= a.target_proto_addr@);
    assert(t[0] == 0 && t[1] == 1 && t[2] == 8 && t[3] == 0);
    assert(t[6] == 0 && t[7] == spec_op_code(a.op));
}

/// Reading an ARP packet follows RFC 826 for IPv4 over Ethernet: hardware
/// type 1 in bytes 0 and 1, protocol type 0x0800 in bytes 2 and 3, the
/// operation in bytes 6 and 7 (1 a request, 2 a reply), then the sender's
/// Ethernet address in bytes 8 to 14, the sender's IPv4 address in bytes 14
/// to 18, the target's Ethernet address in bytes 18 to 24 and the target's
/// IPv4 address in bytes 24 to 28. A buffer shorter than 28 bytes, or with
/// any other type or operation, is malformed.
pub proof fn lemma_deserialize_reads_rfc826(s: Seq<u8>)
    ensures
        s.len() < 28 || !(s[0] == 0 && s[1] == 1 && s[2] == 8 && s[3] == 0 && s[6] == 0 && (s[7]
            == 1 || s[7] == 2)) ==> spec_deserialize(s) == Err::<Arp, Error>(Error::Malformed),
        s.len() >= 28 && s[0] == 0 && s[1] == 1 && s[2] == 8 && s[3] == 0 && s[6] == 0 && (s[7]
            == 1 || s[7] == 2) ==> (spec_deserialize(s) matches Ok(a) && (a.op == Op::Request
            <==> s[7] == 1) && a.source_hw_addr@ == s.subrange(8, 14) && a.source_proto_addr@
            == s.subrange(14, 18) && a.target_hw_addr@ == s.subrange(18, 24) && a.target_proto_addr@
            == s.subrange(24, 28)),
{
    if s.len() >= 28 {
        ethernet::lemma_spec_address(s.subrange(8, 14));
        ipv4::lemma_spec_address(s.subrange(14, 18));
        ethernet::lemma_spec_address(s.subrange(18, 24));
        ipv4::lemma_spec_address(s.subrange(24, 28));
        assert(s.subrange(8, 14).subrange(0, 6) =~= s.subrange(8, 14));
        assert(s.subrange(14, 18).subrange(0, 4) =~= s.subrange(14, 18));
        assert(s.subrange(18, 24).subrange(0, 6) =~= s.subrange(18, 24));
        assert(s.subrange(24, 28).subrange(0, 4) =~= s.subrange(24, 28));
    }
}

/// Writing an ARP packet follows RFC 826 for IPv4 over Ethernet: hardware
/// type 1, protocol type 0x0800, address sizes 6 and 4, the operation (1 a
/// request, 2 a reply), then the sender's Ethernet and IPv4 addresses and
/// the target's Ethernet and IPv4 addresses, in 28 bytes.
pub proof fn lemma_serialize_writes_rfc826(a: Arp)
    ensures
        ({
            let b = spec_arp_bytes(a);
            &&& b.len() == 28
            &&& b.take(8) == seq![0u8, 1u8, 8u8, 0u8, 6u8, 4u8, 0u8, if a.op == Op::Request {
                1u8
            } else {
                2u8
            }]
            &&& b.subrange(8, 14) == a.source_hw_addr@
            &&& b.subrange(14, 18) == a.source_proto_addr@
            &&& b.subrange(18, 24) == a.target_hw_addr@
            &&& b.subrange(24, 28) == a.target_proto_addr@
        }),
{
    let b = spec_arp_bytes(a);
    ethernet::lemma_address_view(a.source_hw_addr);
    ethernet::lemma_address_view(a.target_hw_addr);
    ipv4::lemma_address_view(a.source_proto_addr);
    ipv4::lemma_address_view(a.target_proto_addr);
    assert(b.take(8) =~= seq![0u8, 1u8, 8u8, 0u8, 6u8, 4u8, 0u8, if a.op == Op::Request {
        1u8
    } else {
        2u8
    }]);
    assert(b.subrange(8, 14) =~= a.source_hw_addr@);
    assert(b.subrange(14, 18) =~= a.source_proto_addr@);
    assert(b.subrange(18, 24) =~= a.target_hw_addr@);
    assert(b.subrange(24, 28) =~= a.target_proto_addr@);
}

} // verus!
