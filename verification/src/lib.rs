//! Epoch calculator for a halving block-reward schedule.
//!
//! The library maps between block heights, ordinal unit indices, and the
//! halving epochs they fall into, and computes the per-block reward
//! (subsidy) of each epoch.

use vstd::prelude::*;

pub mod epoch;

pub use epoch::Epoch;
pub use epoch::BLOCKS;
pub use epoch::INITIAL_SUBSIDY;

verus! {

/// Number of base monetary units in one whole coin.
pub const COIN_VALUE: u64 = 100_000_000;

/// A block height: the number of blocks from genesis (block 0).
#[derive(Copy, Clone, PartialEq, Eq, Structural, Debug)]
pub struct Height(pub u64);

/// An absolute unit index in the global issuance sequence.
#[derive(Copy, Clone, PartialEq, Eq, Structural, Debug)]
pub struct Ordinal(pub u64);

impl Ordinal {
    pub fn new(n: u64) -> (r: Ordinal)
        ensures
            r.0 == n,
    {
        Ordinal(n)
    }
}

} // verus!

