//! Packet views and headers of the first version of the network stack.
pub mod arp;
pub mod ethernet;
pub mod icmpv4;
pub mod ipv4;
pub mod udp;

pub use self::arp::{
    Arp,
    Op as ArpOp,
};
pub use self::ethernet::{
    Address as EthernetAddress,
    Frame as EthernetFrame,
    Type as EthernetType,
};
pub use self::icmpv4::{
    Packet as Icmpv4Packet,
    Repr as Icmpv4Repr,
};
pub use self::ipv4::{
    flags as ipv4_flags,
    types as ipv4_types,
    Address as Ipv4Address,
    Packet as Ipv4Packet,
};
pub use self::udp::{
    Packet as UdpPacket,
    Repr as UdpRepr,
};
pub use crate::{
    Error,
    Result,
};
