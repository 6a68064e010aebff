//! [https://www.iana.org/assignments/protocol-numbers/protocol-numbers.xhtml](https://www.iana.org/assignments/protocol-numbers/protocol-numbers.xhtml)
use vstd::prelude::*;

verus! {

pub const ICMP: u8 = 1;

} // verus!
