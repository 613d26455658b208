use vstd::prelude::*;
use crate::clock::{get_stage, max_time_reached};
use crate::constants::{COLLATERAL_BUFFER, COLLATERAL_THRESHOLD, LIQUIDATION_REWARD};
use crate::matching::checked_used_deposit;
use crate::model::Ledger;
use crate::rates::{
    calculate_percentage, checked_percentage, fits, checked_to_counterpart, checked_to_own, lemma_convert_floor,
    lemma_percentage_floor, percentage, percentage_fits, to_counterpart, to_counterpart_fits,
    to_own, to_own_fits,
};
use crate::setup::transfer;
use crate::storage::Swap;
use crate::token_data::add_token_withdrawn_collateral;
use crate::types::address::Address;
use crate::types::error::Error;
use crate::types::stage::Stage;
use crate::types::token::Token;
use crate::types::transfer::{Transfer, TransferKind};
use crate::types::user::User;
use crate::user::{find_user, get_swapped_amount, has_not_repaid, put_user};

verus! {

/// The part of a deposit that was used, recovered from what was received in
/// the swap at the spot rate of the swap.
pub open spec fn used_of_swapped(side_a: bool, swapped: int, swap_spot: int) -> int {
    to_own(side_a, swapped, swap_spot)
}

/// What is due at the forward rate for a used deposit, in the other asset.
pub open spec fn due_at_forward(side_a: bool, used: int, forward: int) -> int {
    to_counterpart(side_a, used, forward)
}

/// The margin that is always kept: the collateral buffer on the used deposit.
pub open spec fn margin_floor(used: int) -> int {
    percentage(used, COLLATERAL_BUFFER as int)
}

/// The loss of a position marked to market at `spot`: what is due at the
/// forward rate less what the used deposit is worth now, in the other asset.
pub open spec fn mark_to_market(side_a: bool, used: int, forward: int, spot: int) -> int {
    due_at_forward(side_a, used, forward) - to_counterpart(side_a, used, spot)
}

/// The margin for a loss: `COLLATERAL_THRESHOLD` percent of it, in the
/// participant's own asset at `spot`.
pub open spec fn loss_margin(side_a: bool, loss: int, spot: int) -> int {
    percentage(to_own(side_a, loss, spot), COLLATERAL_THRESHOLD as int)
}

/// The least collateral that a participant must keep after having received
/// `swapped` in the swap made at `swap_spot`, when the price is `spot`.
///
/// With no loss at `spot` it is the floor. With a loss it is the margin for
/// the loss, and the floor at least.
pub open spec fn min_collateral(
    side_a: bool,
    swapped: int,
    swap_spot: int,
    forward: int,
    spot: int,
) -> int {
    let used = used_of_swapped(side_a, swapped, swap_spot);
    let loss = mark_to_market(side_a, used, forward, spot);
    let floor = margin_floor(used);
    if loss > 0 && loss_margin(side_a, loss, spot) > floor {
        loss_margin(side_a, loss, spot)
    } else {
        floor
    }
}

/// Whether `min_collateral` can be computed in `i128`: no division by zero,
/// and no product out of range.
pub open spec fn min_collateral_fits(
    side_a: bool,
    swapped: int,
    swap_spot: int,
    forward: int,
    spot: int,
) -> bool {
    let used = used_of_swapped(side_a, swapped, swap_spot);
    let loss = mark_to_market(side_a, used, forward, spot);
    &&& to_own_fits(side_a, swapped, swap_spot)
    &&& to_counterpart_fits(side_a, used, forward)
    &&& to_counterpart_fits(side_a, used, spot)
    &&& percentage_fits(used, COLLATERAL_BUFFER as int)
    &&& loss > 0 ==> {
        &&& fits(loss)
        &&& to_own_fits(side_a, loss, spot)
        &&& percentage_fits(to_own(side_a, loss, spot), COLLATERAL_THRESHOLD as int)
    }
}

/// With positive rates and nothing negative received, no margin is negative,
/// and the least collateral is the floor at least.
pub proof fn lemma_min_collateral_floor(
    side_a: bool,
    swapped: int,
    swap_spot: int,
    forward: int,
    spot: int,
)
    requires
        swapped >= 0,
        swap_spot > 0,
    ensures
        used_of_swapped(side_a, swapped, swap_spot) >= 0,
        margin_floor(used_of_swapped(side_a, swapped, swap_spot)) >= 0,
        min_collateral(side_a, swapped, swap_spot, forward, spot) >= margin_floor(
            used_of_swapped(side_a, swapped, swap_spot),
        ),
        min_collateral(side_a, swapped, swap_spot, forward, spot) >= 0,
        mark_to_market(side_a, used_of_swapped(side_a, swapped, swap_spot), forward, spot) <= 0
            ==> min_collateral(side_a, swapped, swap_spot, forward, spot) == margin_floor(
            used_of_swapped(side_a, swapped, swap_spot),
        ),
{
    lemma_convert_floor(swapped, swap_spot);
    let used = used_of_swapped(side_a, swapped, swap_spot);
    lemma_percentage_floor(used, COLLATERAL_BUFFER as int);
}

/// `min_collateral`, or `None` where it cannot be computed in `i128`.
pub fn checked_min_collateral(
    side_a: bool,
    swapped_amount: i128,
    og_spot_rate: i128,
    forward_rate: i128,
    spot_rate: i128,
) -> (r: Option<i128>)
    ensures
        r.is_some() == min_collateral_fits(
            side_a,
            swapped_amount as int,
            og_spot_rate as int,
            forward_rate as int,
            spot_rate as int,
        ),
        r.is_some() ==> r.unwrap() == min_collateral(
            side_a,
            swapped_amount as int,
            og_spot_rate as int,
            forward_rate as int,
            spot_rate as int,
        ),
{
    let used_deposited_amount: i128 = match checked_to_own(side_a, swapped_amount, og_spot_rate) {
        Some(v) => v,
        None => {
            return None;
        },
    };
    let to_return_amount: i128 = match checked_to_counterpart(
        side_a,
        used_deposited_amount,
        forward_rate,
    ) {
        Some(v) => v,
        None => {
            return None;
        },
    };
    let current_price: i128 = match checked_to_counterpart(side_a, used_deposited_amount, spot_rate) {
        Some(v) => v,
        None => {
            return None;
        },
    };
    let min_col: i128 = match checked_percentage(used_deposited_amount, COLLATERAL_BUFFER) {
        Some(v) => v,
        None => {
            return None;
        },
    };
    if to_return_amount > current_price {
        let mtm: i128 = match to_return_amount.checked_sub(current_price) {
            Some(v) => v,
            None => {
                return None;
            },
        };
        let amount: i128 = match checked_to_own(side_a, mtm, spot_rate) {
            Some(v) => v,
            None => {
                return None;
            },
        };
        let margin: i128 = match checked_percentage(amount, COLLATERAL_THRESHOLD) {
            Some(v) => v,
            None => {
                return None;
            },
        };
        Some(if margin > min_col { margin } else { min_col })
    } else {
        Some(min_col)
    }
}

impl Ledger {
    /// The least collateral that `who` must keep when the price is `spot`,
    /// taken as a participant on the given side.
    pub open spec fn min_collateral(self, who: Address, spot: int, side_a: bool) -> int {
        min_collateral(
            side_a,
            self.counters(who).swapped_amount as int,
            self.spot_rate as int,
            self.forward_rate as int,
            spot,
        )
    }

    /// Whether `min_collateral` can be computed for `who`.
    pub open spec fn min_collateral_fits(self, who: Address, spot: int, side_a: bool) -> bool {
        min_collateral_fits(
            side_a,
            self.counters(who).swapped_amount as int,
            self.spot_rate as int,
            self.forward_rate as int,
            spot,
        )
    }
}

/// The least collateral that `to` must keep when the price is `spot_rate`.
pub fn get_min_collateral(e: &Swap, to: &Address, spot_rate: i128, is_deposit_token_a: bool) -> (r:
    i128)
    requires
        e@.users_distinct(),
        e@.min_collateral_fits(*to, spot_rate as int, is_deposit_token_a),
    ensures
        r == e@.min_collateral(*to, spot_rate as int, is_deposit_token_a),
{
    let swapped_amount = get_swapped_amount(e, to);
    let margin = checked_min_collateral(
        is_deposit_token_a,
        swapped_amount,
        e.spot_rate,
        e.forward_rate,
        spot_rate,
    );
    margin.unwrap()
}

impl Ledger {
    /// The collateral of `who` that is still in the contract.
    pub open spec fn remaining_collateral(self, who: Address) -> int {
        self.counters(who).collateral - self.counters(who).withdrawn_collateral
    }

    /// Whether the time is over and `who` has not returned more than it received.
    pub open spec fn expired_and_not_repaid(self, now: u64, who: Address) -> bool {
        self.max_time_reached(now) && self.counters(who).swapped_amount >= self.counters(
            who,
        ).returned_amount
    }

    /// Whether a call of `liquidate` at `now` and at the price `spot`
    /// liquidates `to`: it has a record and is not liquidated yet, and either
    /// its time is over with nothing more returned than received, or its
    /// remaining collateral is below the least it must keep.
    pub open spec fn liquidation_due(self, now: u64, to: Address, spot: int) -> bool {
        &&& self.has_user(to)
        &&& !self.user(to).is_liquidated
        &&& (self.expired_and_not_repaid(now, to) || self.min_collateral(
            to,
            spot,
            self.user_on_a(to),
        ) > self.remaining_collateral(to))
    }

    /// The reward for liquidating `to`: `LIQUIDATION_REWARD` percent of its
    /// remaining collateral.
    pub open spec fn liquidation_reward(self, to: Address) -> int {
        percentage(self.remaining_collateral(to), LIQUIDATION_REWARD as int)
    }

    /// Whether `liquidate` is defined: a contract that was initialized; and,
    /// for a participant with a record that is not liquidated yet, a least
    /// collateral that can be computed.
    pub open spec fn liquidate_defined(self, to: Address, spot: int) -> bool {
        &&& self.is_initialized()
        &&& self.has_user(to) && !self.user(to).is_liquidated ==> self.min_collateral_fits(
            to,
            spot,
            self.user_on_a(to),
        )
    }

    /// The ledger after `to` was liquidated by `caller`: the record is marked,
    /// and custody is asked to pay the reward to `caller` in the asset of `to`.
    pub open spec fn after_liquidate(self, to: Address, caller: Address) -> Ledger {
        self.with_user(to, User { is_liquidated: true, ..self.user(to) }).with_transfer(
            Transfer {
                kind: TransferKind::Payout,
                token: self.user(to).deposited_token,
                party: caller,
                amount: self.liquidation_reward(to) as i128,
            },
        )
    }

    /// Whether a margin is asked of `who` when it takes collateral out at
    /// `now`: not where none of its deposit is matched, where it is
    /// liquidated, or where the time is over.
    pub open spec fn margin_is_asked(self, now: u64, who: Address) -> bool {
        !(self.used_deposit(who) == 0 || self.user(who).is_liquidated || self.max_time_reached(
            now,
        ))
    }

    /// The least collateral that `who` must keep at `now`, at the price
    /// `spot`, when it asks for collateral back: nothing where no margin is
    /// asked, so that the price does not matter there.
    pub open spec fn required_margin(self, now: u64, who: Address, spot: int) -> int {
        if !self.margin_is_asked(now, who) {
            0
        } else {
            self.min_collateral(who, spot, self.user_on_a(who))
        }
    }

    /// What a call of `reclaim_col` pays out: the collateral above what must
    /// be kept and what was taken out already, and nothing below zero.
    pub open spec fn reclaim_col_amount(self, now: u64, who: Address, spot: int) -> int {
        let free = self.user(who).collateral - self.required_margin(now, who, spot) - self.user(
            who,
        ).withdrawn_collateral;
        if free > 0 {
            free
        } else {
            0
        }
    }

    /// Whether `reclaim_col` is defined at `now`: a contract that was
    /// initialized; and, from the swap stage on, a participant with a record,
    /// a matched deposit and, where one is needed, a least collateral that
    /// can be computed, and sums that fit `i128`.
    pub open spec fn reclaim_col_defined(self, now: u64, who: Address, spot: int) -> bool {
        &&& self.is_initialized()
        &&& self.stage(now) != Stage::Deposit ==> {
            &&& self.has_user(who)
            &&& self.used_deposit_defined(who)
            &&& self.margin_is_asked(now, who) ==> self.min_collateral_fits(
                who,
                spot,
                self.user_on_a(who),
            )
            &&& fits(
                self.token_of(self.user_on_a(who)).withdrawn_collateral + self.reclaim_col_amount(
                    now,
                    who,
                    spot,
                ),
            )
        }
    }

    /// The ledger after `who` has taken collateral out.
    pub open spec fn after_reclaim_col(self, now: u64, who: Address, spot: int) -> Ledger {
        let side = self.user_on_a(who);
        let amount = self.reclaim_col_amount(now, who, spot);
        let was = self.user(who);
        let own = self.token_of(side);
        self.with_user(
            who,
            User { withdrawn_collateral: (was.withdrawn_collateral + amount) as i128, ..was },
        ).with_token(
            side,
            Token { withdrawn_collateral: (own.withdrawn_collateral + amount) as i128, ..own },
        ).with_transfer(
            Transfer {
                kind: TransferKind::Payout,
                token: own.address,
                party: who,
                amount: amount as i128,
            },
        )
    }
}

/// Liquidates `to` at `now` and at the price `spot_price` if that is due, and
/// returns the reward of the caller `from`; returns 0 and changes nothing if
/// it is not.
pub fn liquidate_user(e: &mut Swap, now: u64, to: &Address, from: &Address, spot_price: i128) -> (r:
    i128)
    requires
        old(e)@.wf(),
        old(e)@.liquidate_defined(*to, spot_price as int),
    ensures
        final(e)@.wf(),
        old(e)@.continued_by(final(e)@),
        old(e)@.liquidation_due(now, *to, spot_price as int) ==> r == old(e)@.liquidation_reward(
            *to,
        ) && final(e)@ == old(e)@.after_liquidate(*to, *from),
        !old(e)@.liquidation_due(now, *to, spot_price as int) ==> r == 0 && final(e)@ == old(e)@,
        r >= 0,
{
    let index: usize = match find_user(e, to) {
        Some(index) => index,
        None => {
            return 0;
        },
    };
    let ghost before = e@;
    proof {
        before.lemma_user_within_aggregates(*to);
    }
    let mut balance = e.users[index].balance;
    let collateral: i128 = balance.collateral - balance.withdrawn_collateral;
    let expired_and_not_repaid = max_time_reached(e, now) && has_not_repaid(e, to);
    if balance.is_liquidated {
        return 0;
    }
    let side_a = balance.deposited_token == e.token_a.address;
    let min_collateral = get_min_collateral(e, to, spot_price, side_a);
    if min_collateral > collateral || expired_and_not_repaid {
        proof {
            lemma_percentage_floor(collateral as int, LIQUIDATION_REWARD as int);
        }
        let reward_amount = calculate_percentage(collateral, LIQUIDATION_REWARD);
        balance.is_liquidated = true;
        put_user(e, to, balance);
        transfer(e, balance.deposited_token, *from, reward_amount);
        proof {
            let after = e@;
            assert(after.users =~= before.after_liquidate(*to, *from).users);
            assert(after.transfers =~= before.after_liquidate(*to, *from).transfers);
            before.lemma_step_conserved(after, *to, balance);
            before.lemma_step_continued(after, *to, balance);
        }
        reward_amount
    } else {
        0
    }
}

impl Swap {
    /// Whether `liquidate` is defined on these arguments.
    pub fn liquidate_defined(&self, to: &Address, spot_price: i128) -> (ok: bool)
        requires
            self@.wf(),
        ensures
            ok == self@.liquidate_defined(*to, spot_price as int),
    {
        if self.admin.is_none() {
            return false;
        }
        let index: usize = match find_user(self, to) {
            Some(index) => index,
            None => {
                return true;
            },
        };
        let balance = self.users[index].balance;
        if balance.is_liquidated {
            return true;
        }
        checked_min_collateral(
            balance.deposited_token == self.token_a.address,
            balance.swapped_amount,
            self.spot_rate,
            self.forward_rate,
            spot_price,
        ).is_some()
    }

    /// Whether `reclaim_col` at `now` depends on the price for `from`: from
    /// the swap stage on, for a participant with a record and a matched
    /// deposit that can be computed, where a margin is asked. Where it does
    /// not, `reclaim_col` is defined or not, refuses or pays, the same at
    /// every price, and the oracle need not be asked.
    pub fn reclaim_col_needs_price(&self, now: u64, from: &Address) -> (b: bool)
        requires
            self@.wf(),
        ensures
            b == (self@.stage(now) != Stage::Deposit && self@.has_user(*from)
                && self@.used_deposit_defined(*from) && self@.margin_is_asked(now, *from)),
            !b ==> forall|p: int, q: int|
                self@.reclaim_col_defined(now, *from, p) == self@.reclaim_col_defined(
                    now,
                    *from,
                    q,
                ) && (self@.stage(now) != Stage::Deposit && self@.has_user(*from)
                    && self@.used_deposit_defined(*from) ==> #[trigger] self@.reclaim_col_amount(
                    now,
                    *from,
                    p,
                ) == #[trigger] self@.reclaim_col_amount(now, *from, q)),
    {
        if get_stage(self, now) == Stage::Deposit {
            return false;
        }
        let index: usize = match find_user(self, from) {
            Some(index) => index,
            None => {
                return false;
            },
        };
        match checked_used_deposit(self, from) {
            Some(used_deposited_amount) => used_deposited_amount != 0
                && !self.users[index].balance.is_liquidated && !max_time_reached(self, now),
            None => false,
        }
    }

    /// Whether `reclaim_col` is defined on these arguments.
    pub fn reclaim_col_defined(&self, now: u64, from: &Address, spot_price: i128) -> (ok: bool)
        requires
            self@.wf(),
        ensures
            ok == self@.reclaim_col_defined(now, *from, spot_price as int),
    {
        if self.admin.is_none() {
            return false;
        }
        if get_stage(self, now) == Stage::Deposit {
            return true;
        }
        let index: usize = match find_user(self, from) {
            Some(index) => index,
            None => {
                return false;
            },
        };
        proof {
            self@.lemma_user_within_aggregates(*from);
        }
        let balance = self.users[index].balance;
        let side_a = balance.deposited_token == self.token_a.address;
        let used_deposited_amount: i128 = match checked_used_deposit(self, from) {
            Some(v) => v,
            None => {
                return false;
            },
        };
        let min_col: i128 = if used_deposited_amount != 0 && !balance.is_liquidated
            && !max_time_reached(self, now) {
            proof {
                lemma_min_collateral_floor(
                    side_a,
                    balance.swapped_amount as int,
                    self.spot_rate as int,
                    self.forward_rate as int,
                    spot_price as int,
                );
            }
            match checked_min_collateral(
                side_a,
                balance.swapped_amount,
                self.spot_rate,
                self.forward_rate,
                spot_price,
            ) {
                Some(v) => v,
                None => {
                    return false;
                },
            }
        } else {
            0
        };
        let withdraw_amount: i128 = balance.collateral - min_col - balance.withdrawn_collateral;
        if withdraw_amount <= 0 {
            return true;
        }
        let own = if side_a {
            self.token_a
        } else {
            self.token_b
        };
        own.withdrawn_collateral.checked_add(withdraw_amount).is_some()
    }

    /// Liquidates `to` if that is due at `now` and at the price `spot_price`
    /// that the oracle gave, and returns the reward of the caller `from`.
    /// Anyone may call. Where no liquidation is due, and so for a participant
    /// that is liquidated already, nothing changes and 0 is returned. Whether
    /// the call is defined, `liquidate_defined` tells.
    pub fn liquidate(&mut self, now: u64, to: &Address, from: &Address, spot_price: i128) -> (r:
        i128)
        requires
            old(self)@.wf(),
            old(self)@.liquidate_defined(*to, spot_price as int),
        ensures
            final(self)@.wf(),
            old(self)@.continued_by(final(self)@),
            old(self)@.liquidation_due(now, *to, spot_price as int) ==> r == old(
                self,
            )@.liquidation_reward(*to) && final(self)@ == old(self)@.after_liquidate(*to, *from),
            !old(self)@.liquidation_due(now, *to, spot_price as int) ==> r == 0 && final(self)@
                == old(self)@,
            r >= 0,
    {
        liquidate_user(self, now, to, from, spot_price)
    }

    /// Pays out to `from` the collateral that it need not keep at `now` and
    /// at the price `spot_price` that the oracle gave, and returns the amount.
    ///
    /// In the deposit stage the call is refused with `TimeNotReached`. Where
    /// nothing is free, nothing changes and 0 is returned. Whether the call
    /// is defined, `reclaim_col_defined` tells.
    pub fn reclaim_col(&mut self, now: u64, from: &Address, spot_price: i128) -> (r: Result<
        i128,
        Error,
    >)
        requires
            old(self)@.wf(),
            old(self)@.reclaim_col_defined(now, *from, spot_price as int),
        ensures
            final(self)@.wf(),
            old(self)@.continued_by(final(self)@),
            old(self)@.stage(now) == Stage::Deposit ==> r == Err::<i128, Error>(
                Error::TimeNotReached,
            ) && final(self)@ == old(self)@,
            old(self)@.stage(now) != Stage::Deposit ==> r == Ok::<i128, Error>(
                old(self)@.reclaim_col_amount(now, *from, spot_price as int) as i128,
            ),
            old(self)@.stage(now) != Stage::Deposit && old(self)@.reclaim_col_amount(
                now,
                *from,
                spot_price as int,
            ) == 0 ==> final(self)@ == old(self)@,
            old(self)@.stage(now) != Stage::Deposit && old(self)@.reclaim_col_amount(
                now,
                *from,
                spot_price as int,
            ) != 0 ==> final(self)@ == old(self)@.after_reclaim_col(
                now,
                *from,
                spot_price as int,
            ),
    {
        if get_stage(self, now) == Stage::Deposit {
            return Err(Error::TimeNotReached);
        }
        let ghost before = self@;
        proof {
            before.lemma_user_within_aggregates(*from);
        }
        let index: usize = find_user(self, from).unwrap();
        let mut balance = self.users[index].balance;
        let side_a = balance.deposited_token == self.token_a.address;
        let used_deposited_amount = checked_used_deposit(self, from).unwrap();
        let min_col: i128 = if used_deposited_amount != 0 && !balance.is_liquidated
            && !max_time_reached(self, now) {
            proof {
                lemma_min_collateral_floor(
                    side_a,
                    balance.swapped_amount as int,
                    self.spot_rate as int,
                    self.forward_rate as int,
                    spot_price as int,
                );
            }
            get_min_collateral(self, from, spot_price, side_a)
        } else {
            0
        };
        let withdraw_amount: i128 = balance.collateral - min_col - balance.withdrawn_collateral;
        if withdraw_amount <= 0 {
            return Ok(0);
        }
        let token = balance.deposited_token;
        balance.withdrawn_collateral = balance.withdrawn_collateral + withdraw_amount;
        put_user(self, from, balance);
        add_token_withdrawn_collateral(self, &token, withdraw_amount);
        transfer(self, token, *from, withdraw_amount);
        proof {
            let after = self@;
            let expected = before.after_reclaim_col(now, *from, spot_price as int);
            assert(after.users =~= expected.users);
            assert(after.transfers =~= expected.transfers);
            before.lemma_step_conserved(after, *from, balance);
            before.lemma_step_continued(after, *from, balance);
        }
        Ok(withdraw_amount)
    }
}

} // verus!
