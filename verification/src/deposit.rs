use vstd::prelude::*;
use crate::clock::has_near_leg_executed;
use crate::constants::COLLATERAL_BUFFER;
use crate::model::Ledger;
use crate::position::{create_position, set_position_valid};
use crate::position_data::{are_positions_open, get_position_data, ocupy_one_position};
use crate::rates::{
    calculate_percentage, checked_percentage, fits, lemma_percentage_floor, percentage,
    percentage_fits,
};
use crate::setup::escrow;
use crate::storage::Swap;
use crate::token_data::{
    add_token_collateral_amount, add_token_deposited_amount, get_token, is_valid_token,
};
use crate::types::address::Address;
use crate::types::error::Error;
use crate::types::position::Position;
use crate::types::position_data::PositionData;
use crate::types::stage::Stage;
use crate::types::token::Token;
use crate::types::transfer::{Transfer, TransferKind};
use crate::types::user::User;
use crate::user::{get_deposited_token, get_user_balance, put_deposited_token, put_user};

verus! {

impl Ledger {
    /// Why a deposit is refused, if it is. The rules are tried in this order,
    /// and the first that is broken decides. The token is one of the two
    /// assets. In the deposit stage: the collateral covers the buffer on the
    /// amount, a slot is free, and the amount is zero or one slot. From the
    /// swap stage on: the amount is zero, and the collateral is not negative.
    /// Last, the participant is not on the other asset.
    pub open spec fn deposit_error(
        self,
        now: u64,
        from: Address,
        token: Address,
        amount: i128,
        collateral: i128,
    ) -> Option<Error> {
        let pool = self.pool_of(self.is_a(token));
        if !self.is_valid_token(token) {
            Some(Error::InvalidToken)
        } else if self.stage(now) == Stage::Deposit && collateral < percentage(
            amount as int,
            COLLATERAL_BUFFER as int,
        ) {
            Some(Error::InsufficientCollateral)
        } else if self.stage(now) == Stage::Deposit && pool.used >= pool.limit {
            Some(Error::AllPositionsAreUsed)
        } else if self.stage(now) == Stage::Deposit && amount != 0 && amount
            != pool.deposit_amount {
            Some(Error::DepositAmountDoesntMatchPosition)
        } else if self.stage(now) != Stage::Deposit && amount != 0 {
            Some(Error::CollateralOnlyCanBeDeposited)
        } else if self.stage(now) != Stage::Deposit && collateral < 0 {
            Some(Error::InsufficientCollateral)
        } else if self.has_user(from) && self.user(from).deposited_token != token {
            Some(Error::DifferentDepositedToken)
        } else {
            None
        }
    }

    /// Whether an accepted deposit takes a slot: only in the deposit stage,
    /// and only with an amount.
    pub open spec fn deposit_is_funded(self, now: u64, amount: i128) -> bool {
        self.stage(now) == Stage::Deposit && amount > 0
    }

    /// Whether the buffer on the amount is computed: for one of the two
    /// assets, in the deposit stage.
    pub open spec fn deposit_reaches_buffer(self, now: u64, token: Address) -> bool {
        self.is_valid_token(token) && self.stage(now) == Stage::Deposit
    }

    /// Whether `deposit` is defined: a contract that was initialized, and
    /// sums that fit `i128`: the buffer on the amount where it is computed,
    /// and the aggregates of an accepted deposit.
    pub open spec fn deposit_defined(
        self,
        now: u64,
        from: Address,
        token: Address,
        amount: i128,
        collateral: i128,
    ) -> bool {
        let own = self.token_of(self.is_a(token));
        &&& self.is_initialized()
        &&& self.deposit_reaches_buffer(now, token) ==> percentage_fits(
            amount as int,
            COLLATERAL_BUFFER as int,
        )
        &&& self.deposit_error(now, from, token, amount, collateral).is_none() ==> {
            &&& self.deposit_is_funded(now, amount) ==> fits(own.deposited_amount + amount)
            &&& collateral > 0 ==> fits(own.collateral_amount + collateral)
        }
    }

    /// The record of `from` after an accepted deposit.
    pub open spec fn deposit_record(
        self,
        now: u64,
        from: Address,
        token: Address,
        amount: i128,
        collateral: i128,
    ) -> User {
        let was = self.user_or_new(from, token);
        User {
            deposited_amount: if self.deposit_is_funded(now, amount) {
                (was.deposited_amount + amount) as i128
            } else {
                was.deposited_amount
            },
            collateral: if collateral > 0 {
                (was.collateral + collateral) as i128
            } else {
                was.collateral
            },
            ..was
        }
    }

    /// The ledger after an accepted deposit.
    ///
    /// A funded deposit takes one slot of the pool, puts a valid position of
    /// `from` after all others, adds the amount to the record and to the
    /// aggregate, and asks custody to take the amount into escrow. A
    /// collateral above zero is added and taken into escrow likewise.
    pub open spec fn after_deposit(
        self,
        now: u64,
        from: Address,
        token: Address,
        amount: i128,
        collateral: i128,
    ) -> Ledger {
        let side = self.is_a(token);
        let funded = self.deposit_is_funded(now, amount);
        let own = self.token_of(side);
        let pool = self.pool_of(side);
        let record = self.deposit_record(now, from, token, amount, collateral);
        let aggregate = Token {
            deposited_amount: if funded {
                (own.deposited_amount + amount) as i128
            } else {
                own.deposited_amount
            },
            collateral_amount: if collateral > 0 {
                (own.collateral_amount + collateral) as i128
            } else {
                own.collateral_amount
            },
            ..own
        };
        let slots = if funded {
            PositionData { used: (pool.used + 1) as u64, ..pool }
        } else {
            pool
        };
        let positions = if funded {
            self.positions_of(side).push(Position { address: from, is_valid: true })
        } else {
            self.positions_of(side)
        };
        let first = if funded {
            self.transfers.push(
                Transfer { kind: TransferKind::Escrow, token, party: from, amount },
            )
        } else {
            self.transfers
        };
        let transfers = if collateral > 0 {
            first.push(
                Transfer { kind: TransferKind::Escrow, token, party: from, amount: collateral },
            )
        } else {
            first
        };
        Ledger {
            transfers,
            ..self.with_record(from, record).with_token(side, aggregate).with_pool(
                side,
                slots,
            ).with_positions(side, positions)
        }
    }
}

/// An accepted deposit keeps the ledger well formed and continues it.
pub proof fn lemma_deposit_keeps(
    before: Ledger,
    now: u64,
    from: Address,
    token: Address,
    amount: i128,
    collateral: i128,
)
    requires
        before.wf(),
        before.deposit_defined(now, from, token, amount, collateral),
        before.deposit_error(now, from, token, amount, collateral).is_none(),
    ensures
        before.after_deposit(now, from, token, amount, collateral).wf(),
        before.continued_by(before.after_deposit(now, from, token, amount, collateral)),
        before.after_deposit(now, from, token, amount, collateral).has_user(from),
        before.after_deposit(now, from, token, amount, collateral).user(from)
            == before.deposit_record(now, from, token, amount, collateral),
{
    let after = before.after_deposit(now, from, token, amount, collateral);
    let record = before.deposit_record(now, from, token, amount, collateral);
    if before.has_user(from) {
        before.lemma_user_within_aggregates(from);
    }
    lemma_percentage_floor(amount as int, COLLATERAL_BUFFER as int);
    before.lemma_step_conserved(after, from, record);
    before.lemma_step_continued(after, from, record);
}

impl Swap {
    /// Whether `deposit` is defined on these arguments.
    pub fn deposit_defined(
        &self,
        now: u64,
        from: &Address,
        token: &Address,
        amount: i128,
        collateral: i128,
    ) -> (ok: bool)
        requires
            self@.wf(),
        ensures
            ok == self@.deposit_defined(now, *from, *token, amount, collateral),
    {
        if self.admin.is_none() {
            return false;
        }
        let position_data = get_position_data(self, token);
        let in_deposit_stage = !has_near_leg_executed(self, now);
        if !is_valid_token(self, token) {
            return true;
        }
        if in_deposit_stage {
            match checked_percentage(amount, COLLATERAL_BUFFER) {
                Some(min_collateral) => {
                    if collateral < min_collateral {
                        return true;
                    }
                },
                None => {
                    return false;
                },
            }
            if !are_positions_open(&position_data) {
                return true;
            }
            if amount != 0 && amount != position_data.deposit_amount {
                return true;
            }
        } else {
            if amount != 0 {
                return true;
            }
            if collateral < 0 {
                return true;
            }
        }
        match get_deposited_token(self, from) {
            Some(p) => {
                if p != *token {
                    return true;
                }
            },
            None => {},
        }
        let own = get_token(self, token);
        if in_deposit_stage && amount > 0 && own.deposited_amount.checked_add(amount).is_none() {
            return false;
        }
        if collateral > 0 && own.collateral_amount.checked_add(collateral).is_none() {
            return false;
        }
        true
    }

    /// Deposits `amount` of `token` and `collateral` for `from`, and returns
    /// the cumulative deposit and collateral of `from`.
    ///
    /// On success the ledger is `after_deposit`. A deposit that breaks a rule
    /// is refused with the error of `deposit_error` and changes nothing.
    /// Whether the call is defined, `deposit_defined` tells.
    pub fn deposit(
        &mut self,
        now: u64,
        from: &Address,
        token: &Address,
        amount: i128,
        collateral: i128,
    ) -> (r: Result<(i128, i128), Error>)
        requires
            old(self)@.wf(),
            old(self)@.deposit_defined(now, *from, *token, amount, collateral),
        ensures
            final(self)@.wf(),
            old(self)@.continued_by(final(self)@),
            match old(self)@.deposit_error(now, *from, *token, amount, collateral) {
                Some(error) => r == Err::<(i128, i128), Error>(error) && final(self)@ == old(
                    self,
                )@,
                None => final(self)@ == old(self)@.after_deposit(
                    now,
                    *from,
                    *token,
                    amount,
                    collateral,
                ) && r == Ok::<(i128, i128), Error>(
                    (
                        final(self)@.user(*from).deposited_amount,
                        final(self)@.user(*from).collateral,
                    ),
                ) && final(self)@.has_user(*from) && final(self)@.user(*from) == old(
                    self,
                )@.deposit_record(now, *from, *token, amount, collateral),
            },
    {
        if !is_valid_token(self, token) {
            return Err(Error::InvalidToken);
        }
        let near_leg_executed = has_near_leg_executed(self, now);
        let position_data = get_position_data(self, token);
        if near_leg_executed {
            if amount != 0 {
                return Err(Error::CollateralOnlyCanBeDeposited);
            }
            if collateral < 0 {
                return Err(Error::InsufficientCollateral);
            }
        } else {
            let min_collateral = calculate_percentage(amount, COLLATERAL_BUFFER);
            if collateral < min_collateral {
                return Err(Error::InsufficientCollateral);
            }
            if !are_positions_open(&position_data) {
                return Err(Error::AllPositionsAreUsed);
            }
            if amount != 0 && amount != position_data.deposit_amount {
                return Err(Error::DepositAmountDoesntMatchPosition);
            }
        }
        match get_deposited_token(self, from) {
            Some(p) => {
                if p != *token {
                    return Err(Error::DifferentDepositedToken);
                }
            },
            None => {},
        }
        let ghost before = self@;
        let ghost side = before.is_a(*token);
        let ghost record = before.deposit_record(now, *from, *token, amount, collateral);
        proof {
            if before.has_user(*from) {
                before.lemma_user_within_aggregates(*from);
            }
        }

        put_deposited_token(self, from, token);
        let mut balance = get_user_balance(self, from);

        if !near_leg_executed && amount > 0 {
            let position_index = create_position(self, from, token);
            escrow(self, *token, *from, amount);
            balance.deposited_amount = balance.deposited_amount + amount;
            add_token_deposited_amount(self, token, amount);
            set_position_valid(self, position_index, token);
            ocupy_one_position(self, token, &position_data);
        }
        if collateral > 0 {
            escrow(self, *token, *from, collateral);
            balance.collateral = balance.collateral + collateral;
            add_token_collateral_amount(self, token, collateral);
        }
        put_user(self, from, balance);

        proof {
            let after = self@;
            let expected = before.after_deposit(now, *from, *token, amount, collateral);
            assert(balance == record);
            assert(after.users =~= expected.users);
            assert(after.used_positions_a =~= expected.used_positions_a);
            assert(after.used_positions_b =~= expected.used_positions_b);
            assert(after.transfers =~= expected.transfers);
            assert(after == expected);
            lemma_deposit_keeps(before, now, *from, *token, amount, collateral);
        }
        Ok((balance.deposited_amount, balance.collateral))
    }
}

} // verus!
