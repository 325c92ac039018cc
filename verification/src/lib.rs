//! A time-decay threshold consensus engine for governance voting.
//!
//! Vote influence shrinks the longer a voter waits (and the more often they
//! revise their vote), while the approval bar a proposal must clear rises over
//! time.  All ratios and curve values are fixed-point integers in parts per
//! million, so the whole evaluation pipeline is verified end to end.

use vstd::prelude::*;

mod fixed;
pub mod blockchain;
pub mod decay;
pub mod engine;
pub mod proposal;
pub mod threshold;
pub mod vote;
pub mod window;

verus! {

/// One million: the fixed-point scale in which weights, thresholds and
/// approval ratios are expressed (1_000_000 = 1.0).
pub const PPM: u64 = 1000000;

} // verus!
