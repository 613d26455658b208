use vstd::prelude::*;
use crate::clock::get_stage;
use crate::constants::DUST;
use crate::matching::checked_used_deposit;
use crate::model::Ledger;
use crate::rates::{checked_to_counterpart, fits, lemma_convert_floor, to_counterpart, to_counterpart_fits};
use crate::setup::transfer;
use crate::storage::Swap;
use crate::token_data::{add_token_reclaimed_amount, edit_token_of, get_token_of};
use crate::types::address::Address;
use crate::types::error::Error;
use crate::types::stage::Stage;
use crate::types::token::Token;
use crate::types::transfer::{Transfer, TransferKind};
use crate::types::user::User;
use crate::user::{find_user, put_user};

verus! {

impl Ledger {
    /// The address of asset A if `side_a`, of asset B if not.
    pub open spec fn address_of(self, side_a: bool) -> Address {
        self.token_of(side_a).address
    }

    /// What `who` is entitled to receive in the swap, in the other asset: its
    /// matched deposit at the spot rate.
    pub open spec fn swap_entitlement(self, who: Address) -> int {
        to_counterpart(self.user_on_a(who), self.used_deposit(who), self.spot_rate as int)
    }

    /// What is left of the other asset to swap out: its deposits less what
    /// was swapped out already.
    pub open spec fn swap_liquidity(self, who: Address) -> int {
        let other = self.token_of(!self.user_on_a(who));
        other.deposited_amount - other.swapped_amount
    }

    /// What a call of `swap` credits to `who`: what it is entitled to and has
    /// not received yet, as far as the liquidity goes, and nothing below zero.
    pub open spec fn swap_amount(self, who: Address) -> int {
        let open = self.swap_entitlement(who) - self.user(who).swapped_amount;
        let capped = if open < self.swap_liquidity(who) {
            open
        } else {
            self.swap_liquidity(who)
        };
        if capped > 0 {
            capped
        } else {
            0
        }
    }

    /// Whether `swap` is defined at `now`: a contract that was initialized;
    /// and, in the swap stage and for a participant with a record, a matched
    /// deposit and an entitlement that can be computed.
    pub open spec fn swap_defined(self, now: u64, who: Address) -> bool {
        &&& self.is_initialized()
        &&& self.stage(now) == Stage::Swap && self.has_user(who) ==> {
            &&& self.used_deposit_defined(who)
            &&& to_counterpart_fits(
                self.user_on_a(who),
                self.used_deposit(who),
                self.spot_rate as int,
            )
        }
    }

    /// The ledger after `who` has swapped: the amount is added to what it has
    /// received and to what was swapped out of the other asset, and custody
    /// is asked to pay it out.
    pub open spec fn after_swap(self, who: Address) -> Ledger {
        let side = self.user_on_a(who);
        let amount = self.swap_amount(who);
        let was = self.user(who);
        let other = self.token_of(!side);
        self.with_user(
            who,
            User { swapped_amount: (was.swapped_amount + amount) as i128, ..was },
        ).with_token(
            !side,
            Token { swapped_amount: (other.swapped_amount + amount) as i128, ..other },
        ).with_transfer(
            Transfer {
                kind: TransferKind::Payout,
                token: other.address,
                party: who,
                amount: amount as i128,
            },
        )
    }

    /// The surplus that `who` can reclaim: its deposit less what is matched
    /// and what it has reclaimed already.
    pub open spec fn reclaimable(self, who: Address) -> int {
        self.user(who).deposited_amount - self.used_deposit(who) - self.user(who).reclaimed_amount
    }

    /// What a call of `reclaim` pays out: the surplus, unless it is dust.
    pub open spec fn reclaim_amount(self, who: Address) -> int {
        if self.reclaimable(who) <= DUST {
            0
        } else {
            self.reclaimable(who)
        }
    }

    /// Whether `reclaim` is defined at `now`: a contract that was
    /// initialized; and, from the swap stage on, a participant with a record,
    /// a matched deposit that can be computed, and sums that fit `i128`.
    pub open spec fn reclaim_defined(self, now: u64, who: Address) -> bool {
        &&& self.is_initialized()
        &&& self.stage(now) != Stage::Deposit ==> {
            &&& self.has_user(who)
            &&& self.used_deposit_defined(who)
            &&& fits(self.reclaimable(who))
            &&& fits(
                self.token_of(self.user_on_a(who)).reclaimed_amount + self.reclaim_amount(who),
            )
        }
    }

    /// The ledger after `who` has reclaimed a surplus that is more than dust.
    pub open spec fn after_reclaim(self, who: Address) -> Ledger {
        let side = self.user_on_a(who);
        let amount = self.reclaim_amount(who);
        let was = self.user(who);
        let own = self.token_of(side);
        self.with_user(
            who,
            User { reclaimed_amount: (was.reclaimed_amount + amount) as i128, ..was },
        ).with_token(
            side,
            Token { reclaimed_amount: (own.reclaimed_amount + amount) as i128, ..own },
        ).with_transfer(
            Transfer {
                kind: TransferKind::Payout,
                token: own.address,
                party: who,
                amount: amount as i128,
            },
        )
    }
}

impl Swap {
    /// Whether `swap` is defined on these arguments.
    pub fn swap_defined(&self, now: u64, from: &Address) -> (ok: bool)
        requires
            self@.wf(),
        ensures
            ok == self@.swap_defined(now, *from),
    {
        if self.admin.is_none() {
            return false;
        }
        if get_stage(self, now) != Stage::Swap {
            return true;
        }
        let index: usize = match find_user(self, from) {
            Some(index) => index,
            None => {
                return true;
            },
        };
        let side_a = self.users[index].balance.deposited_token == self.token_a.address;
        match checked_used_deposit(self, from) {
            Some(used_deposited_amount) => checked_to_counterpart(
                side_a,
                used_deposited_amount,
                self.spot_rate,
            ).is_some(),
            None => false,
        }
    }

    /// Whether `reclaim` is defined on these arguments.
    pub fn reclaim_defined(&self, now: u64, from: &Address) -> (ok: bool)
        requires
            self@.wf(),
        ensures
            ok == self@.reclaim_defined(now, *from),
    {
        if self.admin.is_none() {
            return false;
        }
        if get_stage(self, now) == Stage::Deposit {
            return true;
        }
        let index: usize = match find_user(self, from) {
            Some(index) => index,
            None => {
                return false;
            },
        };
        proof {
            self@.lemma_user_within_aggregates(*from);
        }
        let balance = self.users[index].balance;
        let used_deposited_amount: i128 = match checked_used_deposit(self, from) {
            Some(v) => v,
            None => {
                return false;
            },
        };
        let unused: i128 = balance.deposited_amount - used_deposited_amount;
        let amount: i128 = match unused.checked_sub(balance.reclaimed_amount) {
            Some(v) => v,
            None => {
                return false;
            },
        };
        if amount <= DUST {
            return true;
        }
        let own = get_token_of(self, balance.deposited_token == self.token_a.address);
        own.reclaimed_amount.checked_add(amount).is_some()
    }

    /// Credits to `from` what it is entitled to in the swap and has not
    /// received yet, as far as the other asset's liquidity goes, and returns
    /// the amount credited by this call.
    ///
    /// Outside the swap stage the call is refused with `WrongStageToSwap`.
    /// For an address without a record nothing happens and 0 is returned.
    /// What `from` has received in all never exceeds its entitlement through
    /// this call: a call that follows another with nothing changed in between
    /// credits nothing. Whether the call is defined, `swap_defined` tells.
    pub fn swap(&mut self, now: u64, from: &Address) -> (r: Result<i128, Error>)
        requires
            old(self)@.wf(),
            old(self)@.swap_defined(now, *from),
        ensures
            final(self)@.wf(),
            old(self)@.continued_by(final(self)@),
            old(self)@.stage(now) != Stage::Swap ==> r == Err::<i128, Error>(
                Error::WrongStageToSwap,
            ) && final(self)@ == old(self)@,
            old(self)@.stage(now) == Stage::Swap && !old(self)@.has_user(*from) ==> r == Ok::<
                i128,
                Error,
            >(0) && final(self)@ == old(self)@,
            old(self)@.stage(now) == Stage::Swap && old(self)@.has_user(*from) ==> r == Ok::<
                i128,
                Error,
            >(old(self)@.swap_amount(*from) as i128) && final(self)@ == old(self)@.after_swap(
                *from,
            ),
    {
        if get_stage(self, now) != Stage::Swap {
            return Err(Error::WrongStageToSwap);
        }
        let index: usize = match find_user(self, from) {
            Some(index) => index,
            None => {
                return Ok(0);
            },
        };
        let ghost before = self@;
        proof {
            before.lemma_user_within_aggregates(*from);
        }
        let mut balance = self.users[index].balance;
        let side_a = balance.deposited_token == self.token_a.address;
        let spot_rate = self.spot_rate;
        let used_deposited_amount = checked_used_deposit(self, from).unwrap();
        let exp_swap_amount = checked_to_counterpart(side_a, used_deposited_amount, spot_rate).unwrap();
        proof {
            lemma_convert_floor(used_deposited_amount as int, spot_rate as int);
        }
        let mut other = get_token_of(self, !side_a);
        let available_amount: i128 = other.deposited_amount - other.swapped_amount;
        let open_amount: i128 = exp_swap_amount - balance.swapped_amount;
        let capped: i128 = if open_amount < available_amount {
            open_amount
        } else {
            available_amount
        };
        let swap_amount: i128 = if capped > 0 {
            capped
        } else {
            0
        };
        balance.swapped_amount = balance.swapped_amount + swap_amount;
        put_user(self, from, balance);
        other.swapped_amount = other.swapped_amount + swap_amount;
        edit_token_of(self, !side_a, other);
        transfer(self, other.address, *from, swap_amount);
        proof {
            let after = self@;
            assert(after.users =~= before.after_swap(*from).users);
            assert(after.transfers =~= before.after_swap(*from).transfers);
            before.lemma_step_conserved(after, *from, balance);
            before.lemma_step_continued(after, *from, balance);
        }
        Ok(swap_amount)
    }

    /// Pays out to `from` the part of its deposit that is not matched and
    /// that it has not reclaimed yet, and returns the amount paid.
    ///
    /// In the deposit stage the call is refused with `TimeNotReached`. A
    /// surplus of `DUST` or less is left in place: nothing is paid, nothing
    /// changes, and 0 is returned. Whether the call is defined,
    /// `reclaim_defined` tells.
    pub fn reclaim(&mut self, now: u64, from: &Address) -> (r: Result<i128, Error>)
        requires
            old(self)@.wf(),
            old(self)@.reclaim_defined(now, *from),
        ensures
            final(self)@.wf(),
            old(self)@.continued_by(final(self)@),
            old(self)@.stage(now) == Stage::Deposit ==> r == Err::<i128, Error>(
                Error::TimeNotReached,
            ) && final(self)@ == old(self)@,
            old(self)@.stage(now) != Stage::Deposit ==> r == Ok::<i128, Error>(
                old(self)@.reclaim_amount(*from) as i128,
            ),
            old(self)@.stage(now) != Stage::Deposit && old(self)@.reclaim_amount(*from) == 0
                ==> final(self)@ == old(self)@,
            old(self)@.stage(now) != Stage::Deposit && old(self)@.reclaim_amount(*from) != 0
                ==> final(self)@ == old(self)@.after_reclaim(*from),
    {
        if get_stage(self, now) == Stage::Deposit {
            return Err(Error::TimeNotReached);
        }
        let ghost before = self@;
        proof {
            before.lemma_user_within_aggregates(*from);
        }
        let index: usize = find_user(self, from).unwrap();
        let mut balance = self.users[index].balance;
        let used_deposited_amount = checked_used_deposit(self, from).unwrap();
        let amount: i128 = balance.deposited_amount - used_deposited_amount
            - balance.reclaimed_amount;
        if amount <= DUST {
            return Ok(0);
        }
        let token = balance.deposited_token;
        balance.reclaimed_amount = balance.reclaimed_amount + amount;
        put_user(self, from, balance);
        add_token_reclaimed_amount(self, &token, amount);
        transfer(self, token, *from, amount);
        proof {
            let after = self@;
            assert(before.user_ok(before.user(*from)));
            assert(after.users =~= before.after_reclaim(*from).users);
            assert(after.transfers =~= before.after_reclaim(*from).transfers);
            before.lemma_step_conserved(after, *from, balance);
            before.lemma_step_continued(after, *from, balance);
        }
        Ok(amount)
    }
}

} // verus!
