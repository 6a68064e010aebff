//! [https://en.wikipedia.org/wiki/EtherType](https://en.wikipedia.org/wiki/EtherType)
use vstd::prelude::*;

verus! {

pub const IPV4: u16 = 0x800;

pub const ARP: u16 = 0x806;

} // verus!
