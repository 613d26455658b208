use vstd::prelude::*;
use crate::types::address::Address;

verus! {

/// Liquidation-risk snapshot of one participant at a given price.
#[derive(Clone, Copy, Debug, PartialEq, Eq, Structural)]
pub struct UserLiqData {
    pub address: Address,
    pub collateral: i128,
    pub min_collateral: i128,
    pub is_liquidated: bool,
}

} // verus!
