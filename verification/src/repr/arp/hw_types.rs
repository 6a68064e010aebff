//! https://www.iana.org/assignments/arp-parameters/arp-parameters.xhtml#arp-parameters-2
use vstd::prelude::*;

verus! {

pub const ETHERNET: u16 = 0x0001;

} // verus!
