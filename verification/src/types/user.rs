use vstd::prelude::*;
use crate::types::address::Address;

verus! {

/// The record of one participant. `deposited_amount`, `collateral`,
/// `withdrawn_amount`, `reclaimed_amount` and `withdrawn_collateral` are in the
/// deposited asset; `swapped_amount` and `returned_amount` are in the other one.
#[derive(Clone, Copy, Debug, PartialEq, Eq, Structural)]
pub struct User {
    pub deposited_token: Address,
    pub deposited_amount: i128,
    pub swapped_amount: i128,
    pub returned_amount: i128,
    pub withdrawn_amount: i128,
    pub reclaimed_amount: i128,
    pub collateral: i128,
    pub withdrawn_collateral: i128,
    pub is_liquidated: bool,
}

/// A participant's identity with its record, as the ledger keeps it.
#[derive(Clone, Copy, Debug, PartialEq, Eq, Structural)]
pub struct Participant {
    pub address: Address,
    pub balance: User,
}

} // verus!
