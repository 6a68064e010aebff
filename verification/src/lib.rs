//! A user space TCP/IP stack: packet formats, checksums, address resolution
//! and the packet processing decisions of each network layer.
use vstd::prelude::*;

pub mod addr;
pub mod arp_cache;
pub mod bits;
pub mod bytes;
pub mod check;
pub mod dev;
pub mod layers;
pub mod link;
pub mod net;
pub mod repr;
pub mod service;
pub mod socket;
pub mod text;
pub mod time;

use crate::repr::ipv4::Address as Ipv4Address;

verus! {

/// Errors of the network stack.
#[derive(Clone, Copy, Debug)]
pub enum Error {
    /// A buffer is too small or too large for what it should hold.
    Exhausted,
    /// A packet does not follow the encoding of its format.
    Malformed,
    /// A checksum does not match the data it covers.
    Checksum,
    /// A buffer has the wrong size for a packet view.
    Buffer,
    /// A packet fails the field consistency checks of its format.
    Encoding,
    /// A packet is not addressed to this host and was ignored.
    Ignored,
    /// A packet needs no further processing.
    NoOp,
    /// An Ethernet address is not known yet; a request for it was sent.
    Address,
    /// The Ethernet address of the IPv4 address is not known yet; an ARP
    /// request for it was sent.
    MacResolution(Ipv4Address),
}

pub type Result<T> = core::result::Result<T, Error>;

} // verus!
