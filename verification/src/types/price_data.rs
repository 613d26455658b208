use vstd::prelude::*;

verus! {

/// A price reported by the oracle: a rate at scale `SCALE`, and when it was observed.
#[derive(Clone, Copy, Debug, PartialEq, Eq, Structural)]
pub struct PriceData {
    pub price: i128,
    pub timestamp: u64,
}

} // verus!
