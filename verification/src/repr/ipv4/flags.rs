//! Values of the 3 bit flags field of an IPv4 header.
use vstd::prelude::*;

verus! {

pub const DONT_FRAGMENT: u8 = 0b00000010;

pub const NOT_LAST: u8 = 0b00000001;

} // verus!
