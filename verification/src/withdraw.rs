use vstd::prelude::*;
use crate::clock::max_time_reached;
use crate::constants::COLLATERAL_BUFFER;
use crate::model::Ledger;
use crate::rates::{
    checked_percentage, checked_to_counterpart, checked_to_own, fits, lemma_convert_floor,
    lemma_convert_monotonic, lemma_convert_negative, lemma_percentage_floor, lemma_round_trip,
    percentage, percentage_fits, to_counterpart, to_counterpart_fits, to_own, to_own_fits,
};
use crate::setup::transfer;
use crate::storage::Swap;
use crate::token_data::{edit_token_of, get_token_of};
use crate::types::address::Address;
use crate::types::error::Error;
use crate::types::token::Token;
use crate::types::transfer::{Transfer, TransferKind};
use crate::types::user::User;
use crate::user::{find_user, put_user};

verus! {

/// The two legs of a withdrawal, as mathematical amounts.
pub struct Withdrawal {
    /// What is paid in the participant's own asset; where it is not above
    /// zero, nothing is paid in that asset.
    pub own: int,
    /// Whether the own asset fell short, so that the other asset makes up.
    pub short: bool,
    /// What the other asset makes up out of what the participant returned.
    pub from_returned: int,
    /// What the other asset makes up out of the collateral buffer.
    pub from_collateral: int,
    /// What the make-up counts for, in the participant's own asset.
    pub credited: int,
}

impl Withdrawal {
    /// What is paid in the other asset.
    pub open spec fn other(self) -> int {
        self.from_returned + self.from_collateral
    }
}

/// What a participant can expect in its own asset: what it returned, valued
/// at the forward rate, less what it has withdrawn.
pub open spec fn expected_withdrawal(side_a: bool, returned: int, withdrawn: int, forward: int) -> int {
    to_own(side_a, returned, forward) - withdrawn
}

/// The smaller of two amounts.
pub open spec fn least(x: int, y: int) -> int {
    if x < y {
        x
    } else {
        y
    }
}

/// The withdrawal of a participant that has returned `returned` and
/// withdrawn `withdrawn`, when `available` of its own asset is at hand.
///
/// The own asset pays what is expected, as far as it is at hand. What is
/// still expected then is made up in the other asset at the forward rate:
/// first out of what the participant returned and the own leg does not
/// account for, then out of the collateral buffer, to `COLLATERAL_BUFFER`
/// percent of the first part at most.
pub open spec fn withdrawal(
    side_a: bool,
    returned: int,
    withdrawn: int,
    available: int,
    forward: int,
) -> Withdrawal {
    let expected = expected_withdrawal(side_a, returned, withdrawn, forward);
    let own = least(expected, available);
    if expected > own {
        let missing = to_counterpart(side_a, expected - own, forward);
        let accounted = to_counterpart(side_a, own, forward);
        let from_returned = least(returned - accounted, missing);
        let from_collateral = least(
            missing - from_returned,
            percentage(from_returned, COLLATERAL_BUFFER as int),
        );
        Withdrawal {
            own,
            short: true,
            from_returned,
            from_collateral,
            credited: to_own(side_a, from_returned + from_collateral, forward),
        }
    } else {
        Withdrawal { own, short: false, from_returned: 0, from_collateral: 0, credited: 0 }
    }
}

/// Whether `withdrawal` can be computed in `i128`.
pub open spec fn withdrawal_fits(
    side_a: bool,
    returned: int,
    withdrawn: int,
    available: int,
    forward: int,
) -> bool {
    let expected = expected_withdrawal(side_a, returned, withdrawn, forward);
    let own = least(expected, available);
    let w = withdrawal(side_a, returned, withdrawn, available, forward);
    &&& to_own_fits(side_a, returned, forward)
    &&& fits(expected)
    &&& expected > own ==> {
        &&& fits(expected - own)
        &&& to_counterpart_fits(side_a, expected - own, forward)
        &&& to_counterpart_fits(side_a, own, forward)
        &&& fits(returned - to_counterpart(side_a, own, forward))
        &&& percentage_fits(w.from_returned, COLLATERAL_BUFFER as int)
        &&& fits(to_counterpart(side_a, expected - own, forward) - w.from_returned)
        &&& fits(w.other())
        &&& to_own_fits(side_a, w.other(), forward)
    }
}

/// With a positive forward rate and nothing negative returned or withdrawn,
/// no part of the make-up is negative.
pub proof fn lemma_withdrawal_signs(
    side_a: bool,
    returned: int,
    withdrawn: int,
    available: int,
    forward: int,
)
    requires
        returned >= 0,
        withdrawn >= 0,
        forward > 0,
    ensures
        ({
            let w = withdrawal(side_a, returned, withdrawn, available, forward);
            &&& w.from_returned >= 0
            &&& w.from_collateral >= 0
            &&& w.credited >= 0
            &&& w.own <= available
            &&& w.own <= expected_withdrawal(side_a, returned, withdrawn, forward)
            &&& w.other() <= to_counterpart(
                side_a,
                expected_withdrawal(side_a, returned, withdrawn, forward) - w.own,
                forward,
            ) || !w.short
        }),
{
    let expected = expected_withdrawal(side_a, returned, withdrawn, forward);
    let own = least(expected, available);
    let w = withdrawal(side_a, returned, withdrawn, available, forward);
    lemma_convert_floor(returned, forward);
    let valued = to_own(side_a, returned, forward);
    if expected > own {
        lemma_convert_floor(expected - own, forward);
        let accounted = to_counterpart(side_a, own, forward);
        if own >= 0 {
            lemma_convert_monotonic(own, valued, forward);
            lemma_round_trip(returned, forward);
            assert(to_counterpart(side_a, own, forward) <= to_counterpart(side_a, valued, forward));
            assert(to_counterpart(side_a, to_own(side_a, returned, forward), forward) <= returned);
        } else {
            lemma_convert_negative(own, forward);
            assert(to_counterpart(side_a, own, forward) <= 0);
        }
        assert(accounted <= returned);
        assert(w.from_returned >= 0);
        lemma_percentage_floor(w.from_returned, COLLATERAL_BUFFER as int);
        assert(w.from_collateral >= 0);
        lemma_convert_floor(w.other(), forward);
    }
}

/// The two legs of a withdrawal, as computed.
pub struct WithdrawalAmounts {
    pub own: i128,
    pub short: bool,
    pub from_returned: i128,
    pub from_collateral: i128,
    pub credited: i128,
}

impl View for WithdrawalAmounts {
    type V = Withdrawal;

    open spec fn view(&self) -> Withdrawal {
        Withdrawal {
            own: self.own as int,
            short: self.short,
            from_returned: self.from_returned as int,
            from_collateral: self.from_collateral as int,
            credited: self.credited as int,
        }
    }
}

/// `withdrawal`, or `None` where it cannot be computed in `i128`.
pub fn checked_withdrawal(
    side_a: bool,
    returned_amount: i128,
    withdrawn_amount: i128,
    available_amount: i128,
    forward_rate: i128,
) -> (r: Option<WithdrawalAmounts>)
    ensures
        r.is_some() == withdrawal_fits(
            side_a,
            returned_amount as int,
            withdrawn_amount as int,
            available_amount as int,
            forward_rate as int,
        ),
        r.is_some() ==> r.unwrap()@ == withdrawal(
            side_a,
            returned_amount as int,
            withdrawn_amount as int,
            available_amount as int,
            forward_rate as int,
        ),
{
    let converted_returned_amount: i128 = match checked_to_own(side_a, returned_amount, forward_rate) {
        Some(v) => v,
        None => {
            return None;
        },
    };
    let exp_withdraw: i128 = match converted_returned_amount.checked_sub(withdrawn_amount) {
        Some(v) => v,
        None => {
            return None;
        },
    };
    let withdraw_amount: i128 = if exp_withdraw < available_amount {
        exp_withdraw
    } else {
        available_amount
    };
    if exp_withdraw > withdraw_amount {
        let rem_withdraw: i128 = match exp_withdraw.checked_sub(withdraw_amount) {
            Some(v) => v,
            None => {
                return None;
            },
        };
        let exp_withdraw_other: i128 = match checked_to_counterpart(
            side_a,
            rem_withdraw,
            forward_rate,
        ) {
            Some(v) => v,
            None => {
                return None;
            },
        };
        let used_returned: i128 = match checked_to_counterpart(side_a, withdraw_amount, forward_rate) {
            Some(v) => v,
            None => {
                return None;
            },
        };
        let left_returned: i128 = match returned_amount.checked_sub(used_returned) {
            Some(v) => v,
            None => {
                return None;
            },
        };
        let use_from_returned: i128 = if left_returned < exp_withdraw_other {
            left_returned
        } else {
            exp_withdraw_other
        };
        let max_collateral_available: i128 = match checked_percentage(
            use_from_returned,
            COLLATERAL_BUFFER,
        ) {
            Some(v) => v,
            None => {
                return None;
            },
        };
        let still_missing: i128 = match exp_withdraw_other.checked_sub(use_from_returned) {
            Some(v) => v,
            None => {
                return None;
            },
        };
        let use_from_col: i128 = if still_missing < max_collateral_available {
            still_missing
        } else {
            max_collateral_available
        };
        let withdraw_amount_other: i128 = match use_from_returned.checked_add(use_from_col) {
            Some(v) => v,
            None => {
                return None;
            },
        };
        let converted_withdraw_amount_other: i128 = match checked_to_own(
            side_a,
            withdraw_amount_other,
            forward_rate,
        ) {
            Some(v) => v,
            None => {
                return None;
            },
        };
        Some(
            WithdrawalAmounts {
                own: withdraw_amount,
                short: true,
                from_returned: use_from_returned,
                from_collateral: use_from_col,
                credited: converted_withdraw_amount_other,
            },
        )
    } else {
        Some(
            WithdrawalAmounts {
                own: withdraw_amount,
                short: false,
                from_returned: 0,
                from_collateral: 0,
                credited: 0,
            },
        )
    }
}

impl Ledger {
    /// What of the own asset of `who` is at hand: what was returned in it
    /// less what was withdrawn from it.
    pub open spec fn withdraw_liquidity(self, who: Address) -> int {
        let own = self.token_of(self.user_on_a(who));
        own.returned_amount - own.withdrawn_amount
    }

    /// The withdrawal that `who` can make.
    pub open spec fn withdrawal(self, who: Address) -> Withdrawal {
        withdrawal(
            self.user_on_a(who),
            self.user(who).returned_amount as int,
            self.user(who).withdrawn_amount as int,
            self.withdraw_liquidity(who),
            self.forward_rate as int,
        )
    }

    /// What is paid of the own asset of `who`: the own leg where it is above
    /// zero.
    pub open spec fn withdrawal_paid_own(self, who: Address) -> int {
        if self.withdrawal(who).own > 0 {
            self.withdrawal(who).own
        } else {
            0
        }
    }

    /// Why a withdrawal is refused at `now`, if it is.
    pub open spec fn withdraw_error(self, now: u64, who: Address) -> Option<Error> {
        if !self.max_time_reached(now) {
            Some(Error::TimeNotReached)
        } else if self.user(who).is_liquidated {
            Some(Error::LiquidatedUser)
        } else {
            None
        }
    }

    /// Whether `withdraw` is defined at `now`: a contract that was
    /// initialized and a participant with a record; and, for a withdrawal
    /// that is not refused, a positive forward rate, legs that can be
    /// computed, and sums that fit `i128`.
    pub open spec fn withdraw_defined(self, now: u64, who: Address) -> bool {
        let w = self.withdrawal(who);
        let other = self.token_of(!self.user_on_a(who));
        &&& self.is_initialized()
        &&& self.has_user(who)
        &&& self.withdraw_error(now, who).is_none() ==> {
            &&& self.forward_rate > 0
            &&& fits(self.withdraw_liquidity(who))
            &&& withdrawal_fits(
                self.user_on_a(who),
                self.user(who).returned_amount as int,
                self.user(who).withdrawn_amount as int,
                self.withdraw_liquidity(who),
                self.forward_rate as int,
            )
            &&& fits(
                self.user(who).withdrawn_amount + self.withdrawal_paid_own(who) + w.credited,
            )
            &&& fits(other.withdrawn_amount + w.from_returned)
            &&& fits(other.withdrawn_collateral + w.from_collateral)
        }
    }

    /// The ledger after a withdrawal that is not refused.
    ///
    /// An own leg above zero is paid out, and added to what the participant
    /// has withdrawn and to what was withdrawn from its asset. Where the own
    /// asset fell short, the make-up is paid out in the other asset; what it
    /// counts for is added to what the participant has withdrawn, and its two
    /// parts to what was withdrawn from the other asset and to the collateral
    /// taken out of it.
    pub open spec fn after_withdraw(self, who: Address) -> Ledger {
        let side = self.user_on_a(who);
        let w = self.withdrawal(who);
        let was = self.user(who);
        let own = self.token_of(side);
        let other = self.token_of(!side);
        let paid = self.withdrawal_paid_own(who);
        let first = if w.own > 0 {
            self.transfers.push(
                Transfer {
                    kind: TransferKind::Payout,
                    token: own.address,
                    party: who,
                    amount: w.own as i128,
                },
            )
        } else {
            self.transfers
        };
        let transfers = if w.short {
            first.push(
                Transfer {
                    kind: TransferKind::Payout,
                    token: other.address,
                    party: who,
                    amount: w.other() as i128,
                },
            )
        } else {
            first
        };
        Ledger {
            transfers,
            ..self.with_user(
                who,
                User { withdrawn_amount: (was.withdrawn_amount + paid + w.credited) as i128, ..was },
            ).with_token(
                side,
                Token { withdrawn_amount: (own.withdrawn_amount + paid) as i128, ..own },
            ).with_token(
                !side,
                Token {
                    withdrawn_amount: (other.withdrawn_amount + w.from_returned) as i128,
                    withdrawn_collateral: (other.withdrawn_collateral + w.from_collateral) as i128,
                    ..other
                },
            )
        }
    }

    /// What `withdraw` returns: the amount of asset A and the amount of asset
    /// B of the two legs.
    pub open spec fn withdraw_result(self, who: Address) -> (i128, i128) {
        let w = self.withdrawal(who);
        if self.user_on_a(who) {
            (w.own as i128, w.other() as i128)
        } else {
            (w.other() as i128, w.own as i128)
        }
    }
}

impl Swap {
    /// Whether `withdraw` is defined on these arguments.
    pub fn withdraw_defined(&self, now: u64, from: &Address) -> (ok: bool)
        requires
            self@.wf(),
        ensures
            ok == self@.withdraw_defined(now, *from),
    {
        if self.admin.is_none() {
            return false;
        }
        let index: usize = match find_user(self, from) {
            Some(index) => index,
            None => {
                return false;
            },
        };
        let balance = self.users[index].balance;
        if !max_time_reached(self, now) || balance.is_liquidated {
            return true;
        }
        if self.forward_rate <= 0 {
            return false;
        }
        let side_a = balance.deposited_token == self.token_a.address;
        let own = get_token_of(self, side_a);
        let other = get_token_of(self, !side_a);
        let available_amount: i128 = own.returned_amount - own.withdrawn_amount;
        let legs = match checked_withdrawal(
            side_a,
            balance.returned_amount,
            balance.withdrawn_amount,
            available_amount,
            self.forward_rate,
        ) {
            Some(legs) => legs,
            None => {
                return false;
            },
        };
        proof {
            lemma_withdrawal_signs(
                side_a,
                balance.returned_amount as int,
                balance.withdrawn_amount as int,
                available_amount as int,
                self.forward_rate as int,
            );
        }
        let paid_own: i128 = if legs.own > 0 {
            legs.own
        } else {
            0
        };
        let with_own: i128 = match balance.withdrawn_amount.checked_add(paid_own) {
            Some(v) => v,
            None => {
                return false;
            },
        };
        if with_own.checked_add(legs.credited).is_none() {
            return false;
        }
        if other.withdrawn_amount.checked_add(legs.from_returned).is_none() {
            return false;
        }
        other.withdrawn_collateral.checked_add(legs.from_collateral).is_some()
    }

    /// Lets `from` withdraw its own asset against what it has returned, and
    /// returns the amounts of asset A and of asset B of the two legs.
    ///
    /// Before the withdraw stage the call is refused with `TimeNotReached`,
    /// and for a liquidated participant with `LiquidatedUser`; a refused call
    /// changes nothing. Otherwise the ledger is `after_withdraw`. Whether the
    /// call is defined, `withdraw_defined` tells.
    pub fn withdraw(&mut self, now: u64, from: &Address) -> (r: Result<(i128, i128), Error>)
        requires
            old(self)@.wf(),
            old(self)@.withdraw_defined(now, *from),
        ensures
            final(self)@.wf(),
            old(self)@.continued_by(final(self)@),
            match old(self)@.withdraw_error(now, *from) {
                Some(error) => r == Err::<(i128, i128), Error>(error) && final(self)@ == old(
                    self,
                )@,
                None => r == Ok::<(i128, i128), Error>(old(self)@.withdraw_result(*from))
                    && final(self)@ == old(self)@.after_withdraw(*from),
            },
    {
        let ghost before = self@;
        proof {
            before.lemma_user_within_aggregates(*from);
        }
        let index: usize = find_user(self, from).unwrap();
        let mut balance = self.users[index].balance;
        let side_a = balance.deposited_token == self.token_a.address;
        let forward_rate = self.forward_rate;
        let mut own = get_token_of(self, side_a);
        let mut other = get_token_of(self, !side_a);

        if !max_time_reached(self, now) {
            return Err(Error::TimeNotReached);
        }
        if balance.is_liquidated {
            return Err(Error::LiquidatedUser);
        }
        let available_amount: i128 = own.returned_amount - own.withdrawn_amount;
        let legs = checked_withdrawal(
            side_a,
            balance.returned_amount,
            balance.withdrawn_amount,
            available_amount,
            forward_rate,
        ).unwrap();
        proof {
            lemma_withdrawal_signs(
                side_a,
                balance.returned_amount as int,
                balance.withdrawn_amount as int,
                available_amount as int,
                forward_rate as int,
            );
        }
        let mut paid_other: i128 = 0;
        if legs.own > 0 {
            own.withdrawn_amount = own.withdrawn_amount + legs.own;
            balance.withdrawn_amount = balance.withdrawn_amount + legs.own;
        }
        if legs.short {
            paid_other = legs.from_returned + legs.from_collateral;
            balance.withdrawn_amount = balance.withdrawn_amount + legs.credited;
            other.withdrawn_amount = other.withdrawn_amount + legs.from_returned;
            other.withdrawn_collateral = other.withdrawn_collateral + legs.from_collateral;
        }
        put_user(self, from, balance);
        edit_token_of(self, side_a, own);
        edit_token_of(self, !side_a, other);
        if legs.own > 0 {
            transfer(self, own.address, *from, legs.own);
        }
        if legs.short {
            transfer(self, other.address, *from, paid_other);
        }
        proof {
            let after = self@;
            let expected = before.after_withdraw(*from);
            assert(after.users =~= expected.users);
            assert(after.transfers =~= expected.transfers);
            assert(after == expected);
            before.lemma_step_conserved(after, *from, balance);
            before.lemma_step_continued(after, *from, balance);
        }
        if side_a {
            Ok((legs.own, paid_other))
        } else {
            Ok((paid_other, legs.own))
        }
    }
}

} // verus!
