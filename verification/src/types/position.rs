use vstd::prelude::*;
use crate::types::address::Address;

verus! {

/// One occupied deposit slot. A slot counts in the matching only once it is
/// valid, that is once its funds have been taken into escrow.
#[derive(Clone, Copy, Debug, PartialEq, Eq, Structural)]
pub struct Position {
    pub address: Address,
    pub is_valid: bool,
}

} // verus!
