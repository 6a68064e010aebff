//! [https://www.iana.org/assignments/protocol-numbers/protocol-numbers.xhtml](https://www.iana.org/assignments/protocol-numbers/protocol-numbers.xhtml)
use vstd::prelude::*;

verus! {

pub const ICMP: u8 = 1;

pub const TCP: u8 = 6;

pub const UDP: u8 = 17;

} // verus!
