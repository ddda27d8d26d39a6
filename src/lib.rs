//! A read gate that lets at most one read attempt through per fixed interval.
//!
//! Time is measured in ticks (`u64`), supplied by the caller on every poll.
use vstd::prelude::*;

pub mod throttle;
pub mod timer;

verus! {

} // verus!
