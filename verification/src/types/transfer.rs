use vstd::prelude::*;
use crate::types::address::Address;

verus! {

/// Which way a requested transfer moves funds.
#[derive(Clone, Copy, Debug, PartialEq, Eq, Structural)]
pub enum TransferKind {
    /// From the party into the contract's custody.
    Escrow,
    /// From the contract's custody to the party.
    Payout,
}

/// A transfer that an operation asks the custody of `token` to make.
#[derive(Clone, Copy, Debug, PartialEq, Eq, Structural)]
pub struct Transfer {
    pub kind: TransferKind,
    pub token: Address,
    pub party: Address,
    pub amount: i128,
}

} // verus!
