//! Packet formats written straight into byte slices.
use vstd::prelude::*;

pub mod arp;

verus! {

#[derive(Debug)]
pub enum Error {
    /// Indicates a buffer overflow.
    Overflow,
}

pub type Result<T> = core::result::Result<T, Error>;

} // verus!
