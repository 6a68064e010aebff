//! Time as the network stack sees it.
use vstd::prelude::*;

verus! {

/// A point in time: nanoseconds since an origin that the environment picks.
pub type Instant = u64;

/// A source of the current time.
pub trait Env {
    /// Returns the current time.
    fn now_instant(&self) -> Instant;
}

} // verus!
