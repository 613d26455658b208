use vstd::prelude::*;
use crate::constants::{TIME_TO_EXEC, TIME_TO_REPAY};
use crate::storage::Swap;
use crate::types::stage::Stage;

verus! {

/// The stage at time `now`. The three boundaries are computed without
/// overflow, whatever the configured times are.
pub fn get_stage(e: &Swap, now: u64) -> (s: Stage)
    ensures
        s == e@.stage(now),
{
    let ledger_timestamp: u128 = now as u128;
    let time_to_deposit: u128 = e.init_time as u128 + TIME_TO_EXEC as u128;
    let time_to_swap: u128 = time_to_deposit + e.time_to_mature as u128;
    let time_limit: u128 = time_to_swap + TIME_TO_REPAY as u128;
    if ledger_timestamp < time_to_deposit {
        Stage::Deposit
    } else if ledger_timestamp < time_to_swap {
        Stage::Swap
    } else if ledger_timestamp < time_limit {
        Stage::Repay
    } else {
        Stage::Withdraw
    }
}

/// Whether the time at which the spot rate may be captured has come.
pub fn near_leg_time_reached(e: &Swap, now: u64) -> (b: bool)
    ensures
        b == (now >= e@.swap_start()),
        b == (e@.stage(now) != Stage::Deposit),
{
    let exec_time: u128 = e.init_time as u128 + TIME_TO_EXEC as u128;
    now as u128 >= exec_time
}

/// Whether the deposit stage is over.
pub fn has_near_leg_executed(e: &Swap, now: u64) -> (b: bool)
    ensures
        b == (e@.stage(now) != Stage::Deposit),
        b == (e@.stage(now).rank() >= Stage::Swap.rank()),
{
    get_stage(e, now).rank() >= Stage::Swap.rank()
}

/// Whether the withdraw stage has begun.
pub fn max_time_reached(e: &Swap, now: u64) -> (b: bool)
    ensures
        b == e@.max_time_reached(now),
        b == (e@.stage(now) == Stage::Withdraw),
{
    let time_limit: u128 = e.init_time as u128 + TIME_TO_EXEC as u128 + e.time_to_mature as u128
        + TIME_TO_REPAY as u128;
    now as u128 >= time_limit
}

} // verus!
