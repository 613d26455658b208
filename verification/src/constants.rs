use vstd::prelude::*;

verus! {

/// Fixed-point scale of every rate: a rate of `SCALE` is one-to-one.
pub const SCALE: i128 = 100_000_000_000_000;

/// Collateral buffer, in percent of the deposit it covers.
pub const COLLATERAL_BUFFER: i128 = 20;

/// Margin kept against a mark-to-market loss, in percent of that loss.
pub const COLLATERAL_THRESHOLD: i128 = 125;

/// Share of the remaining collateral paid to whoever liquidates, in percent.
pub const LIQUIDATION_REWARD: i128 = 1;

/// Largest surplus that `reclaim` leaves in place instead of paying out.
pub const DUST: i128 = 9;

/// Seconds from initialization to the start of the swap stage.
pub const TIME_TO_EXEC: u64 = 86400;

/// Seconds from maturity to the start of the withdraw stage.
pub const TIME_TO_REPAY: u64 = 172800;

} // verus!
