//! https://www.iana.org/assignments/arp-parameters/arp-parameters.xhtml#arp-parameters-3
use vstd::prelude::*;

verus! {

pub const IPV4: u16 = 0x0800;

} // verus!
