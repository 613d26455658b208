use vstd::prelude::*;
use crate::types::address::Address;

verus! {

/// The aggregate record of one asset: the counters of all participants on it.
#[derive(Clone, Copy, Debug, PartialEq, Eq, Structural)]
pub struct Token {
    pub address: Address,
    pub deposited_amount: i128,
    pub swapped_amount: i128,
    pub returned_amount: i128,
    pub withdrawn_amount: i128,
    pub reclaimed_amount: i128,
    pub collateral_amount: i128,
    pub withdrawn_collateral: i128,
}

} // verus!
