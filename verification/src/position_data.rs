use vstd::prelude::*;
use crate::model::Ledger;
use crate::storage::Swap;
use crate::types::address::Address;
use crate::types::position_data::PositionData;

verus! {

/// Sets up the pool of asset A: `limit` free slots of `amount` each.
pub fn init_position_a(e: &mut Swap, limit: u64, amount: i128)
    ensures
        final(e)@ == (Ledger {
            position_a: PositionData { limit, used: 0, deposit_amount: amount },
            ..old(e)@
        }),
{
    e.position_a = PositionData { limit, used: 0, deposit_amount: amount };
}

/// Sets up the pool of asset B: `limit` free slots of `amount` each.
pub fn init_position_b(e: &mut Swap, limit: u64, amount: i128)
    ensures
        final(e)@ == (Ledger {
            position_b: PositionData { limit, used: 0, deposit_amount: amount },
            ..old(e)@
        }),
{
    e.position_b = PositionData { limit, used: 0, deposit_amount: amount };
}

/// Puts `position` in place of the pool of asset A.
pub fn set_position_a(e: &mut Swap, position: &PositionData)
    ensures
        final(e)@ == (Ledger { position_a: *position, ..old(e)@ }),
{
    e.position_a = *position;
}

/// Puts `position` in place of the pool of asset B.
pub fn set_position_b(e: &mut Swap, position: &PositionData)
    ensures
        final(e)@ == (Ledger { position_b: *position, ..old(e)@ }),
{
    e.position_b = *position;
}

/// The pool of asset A.
pub fn get_position_a(e: &Swap) -> (p: PositionData)
    ensures
        p == e@.position_a,
{
    e.position_a
}

/// The pool of asset B.
pub fn get_position_b(e: &Swap) -> (p: PositionData)
    ensures
        p == e@.position_b,
{
    e.position_b
}

/// The pool that `token` stands for: that of asset A where `token` is its
/// address, that of asset B for any other address.
pub fn get_position_data(e: &Swap, token: &Address) -> (p: PositionData)
    ensures
        p == e@.pool_of(e@.is_a(*token)),
{
    if *token == e.token_a.address {
        get_position_a(e)
    } else {
        get_position_b(e)
    }
}

/// Whether the pool has a free slot.
pub fn are_positions_open(position: &PositionData) -> (b: bool)
    ensures
        b == (position.used < position.limit),
{
    position.used < position.limit
}

/// Takes one slot of the pool that `token` stands for: the pool becomes
/// `position` with one more slot used.
pub fn ocupy_one_position(e: &mut Swap, token: &Address, position: &PositionData)
    requires
        position.used < u64::MAX,
    ensures
        final(e)@ == old(e)@.with_pool(
            old(e)@.is_a(*token),
            (PositionData {
                limit: position.limit,
                used: (position.used + 1) as u64,
                deposit_amount: position.deposit_amount,
            }),
        ),
{
    let new_position_data = PositionData {
        limit: position.limit,
        used: position.used + 1,
        deposit_amount: position.deposit_amount,
    };
    if *token == e.token_a.address {
        set_position_a(e, &new_position_data)
    } else {
        set_position_b(e, &new_position_data)
    }
}

} // verus!
