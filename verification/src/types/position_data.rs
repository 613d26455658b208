use vstd::prelude::*;

verus! {

/// The slot pool of one asset: how many slots there are, how many are taken,
/// and the size of a slot in the asset's native units.
#[derive(Clone, Copy, Debug, PartialEq, Eq, Structural)]
pub struct PositionData {
    pub limit: u64,
    pub used: u64,
    pub deposit_amount: i128,
}

} // verus!
