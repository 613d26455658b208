use vstd::prelude::*;
use crate::model::Ledger;
use crate::rates::{
    a_to_b, a_to_b_fits, b_to_a, b_to_a_fits, checked_a_to_b, checked_b_to_a, fits,
};
use crate::setup::escrow;
use crate::storage::Swap;
use crate::token_data::{edit_token_of, get_token_of, is_valid_token};
use crate::types::address::Address;
use crate::types::error::Error;
use crate::types::token::Token;
use crate::types::transfer::{Transfer, TransferKind};
use crate::types::user::User;
use crate::user::{find_user, put_user};

verus! {

/// What a participant owes for having received `swapped` in the swap.
///
/// On the side of asset A it is the used deposit, recovered from `swapped`
/// at the spot rate, valued in asset B at the forward rate. On the side of
/// asset B it is `swapped` itself.
pub open spec fn amount_to_repay(side_a: bool, swapped: int, spot_rate: int, forward_rate: int) -> int {
    if side_a {
        a_to_b(b_to_a(swapped, spot_rate), forward_rate)
    } else {
        swapped
    }
}

/// Whether `amount_to_repay` can be computed in `i128`.
pub open spec fn amount_to_repay_fits(
    side_a: bool,
    swapped: int,
    spot_rate: int,
    forward_rate: int,
) -> bool {
    side_a ==> b_to_a_fits(swapped, spot_rate) && a_to_b_fits(
        b_to_a(swapped, spot_rate),
        forward_rate,
    )
}

/// `amount_to_repay`, or `None` where it cannot be computed in `i128`.
pub fn checked_amount_to_repay(
    side_a: bool,
    swapped_amount: i128,
    spot_rate: i128,
    forward_rate: i128,
) -> (r: Option<i128>)
    ensures
        r.is_some() == amount_to_repay_fits(
            side_a,
            swapped_amount as int,
            spot_rate as int,
            forward_rate as int,
        ),
        r.is_some() ==> r.unwrap() == amount_to_repay(
            side_a,
            swapped_amount as int,
            spot_rate as int,
            forward_rate as int,
        ),
{
    if side_a {
        match checked_b_to_a(swapped_amount, spot_rate) {
            Some(used_deposited_amount) => checked_a_to_b(used_deposited_amount, forward_rate),
            None => None,
        }
    } else {
        Some(swapped_amount)
    }
}

impl Ledger {
    /// What `who` owes in all; nothing where it has no record.
    pub open spec fn owed(self, who: Address) -> int {
        if self.has_user(who) {
            amount_to_repay(
                self.user_on_a(who),
                self.user(who).swapped_amount as int,
                self.spot_rate as int,
                self.forward_rate as int,
            )
        } else {
            0
        }
    }

    /// Whether `owed` can be computed for `who`.
    pub open spec fn owed_fits(self, who: Address) -> bool {
        self.has_user(who) ==> amount_to_repay_fits(
            self.user_on_a(who),
            self.user(who).swapped_amount as int,
            self.spot_rate as int,
            self.forward_rate as int,
        )
    }

    /// What a repayment of `amount` by `who` takes: the amount, as far as
    /// something is still owed.
    pub open spec fn repay_amount(self, who: Address, amount: i128) -> int {
        let open = self.owed(who) - self.user(who).returned_amount;
        if amount < open {
            amount as int
        } else {
            open
        }
    }

    /// Why a repayment is refused, if it is. The rules are tried in this
    /// order: the token is one of the two assets; the participant is not
    /// liquidated; the token is the asset that the participant did not
    /// deposit; the repayment takes more than nothing.
    pub open spec fn repay_error(self, from: Address, token: Address, amount: i128) -> Option<
        Error,
    > {
        if !self.is_valid_token(token) {
            Some(Error::InvalidToken)
        } else if self.user(from).is_liquidated {
            Some(Error::LiquidatedUser)
        } else if token != self.address_of(!self.user_on_a(from)) {
            Some(Error::WrongRepayToken)
        } else if self.repay_amount(from, amount) <= 0 {
            Some(Error::AlreadyRepaid)
        } else {
            None
        }
    }

    /// Whether `repay` is defined: a contract that was initialized; for one
    /// of the two assets, a participant with a record; and, where neither the
    /// token nor a liquidation stands against it, a debt that can be computed
    /// and sums that fit `i128`.
    pub open spec fn repay_defined(self, from: Address, token: Address, amount: i128) -> bool {
        &&& self.is_initialized()
        &&& self.is_valid_token(token) ==> {
            &&& self.has_user(from)
            &&& token == self.address_of(!self.user_on_a(from)) && !self.user(from).is_liquidated
                ==> {
                &&& self.owed_fits(from)
                &&& fits(self.owed(from) - self.user(from).returned_amount)
                &&& self.repay_amount(from, amount) > 0 ==> fits(
                    self.token_of(!self.user_on_a(from)).returned_amount + self.repay_amount(
                        from,
                        amount,
                    ),
                )
            }
        }
    }

    /// The ledger after an accepted repayment: what it takes is added to what
    /// the participant has returned and to what was returned in the token,
    /// and custody is asked to take it into escrow.
    pub open spec fn after_repay(self, from: Address, token: Address, amount: i128) -> Ledger {
        let side = self.user_on_a(from);
        let taken = self.repay_amount(from, amount);
        let was = self.user(from);
        let other = self.token_of(!side);
        self.with_user(
            from,
            User { returned_amount: (was.returned_amount + taken) as i128, ..was },
        ).with_token(
            !side,
            Token { returned_amount: (other.returned_amount + taken) as i128, ..other },
        ).with_transfer(
            Transfer { kind: TransferKind::Escrow, token, party: from, amount: taken as i128 },
        )
    }
}

/// What `to` owes in all; nothing where it has no record.
pub fn get_user_amount_to_repay(e: &Swap, to: &Address) -> (r: i128)
    requires
        e@.users_distinct(),
        e@.owed_fits(*to),
    ensures
        r == e@.owed(*to),
{
    match find_user(e, to) {
        Some(index) => {
            let balance = e.users[index].balance;
            let side_a = balance.deposited_token == e.token_a.address;
            checked_amount_to_repay(
                side_a,
                balance.swapped_amount,
                e.spot_rate,
                e.forward_rate,
            ).unwrap()
        },
        None => 0,
    }
}

impl Swap {
    /// Whether `repay` is defined on these arguments.
    pub fn repay_defined(&self, from: &Address, token: &Address, amount: i128) -> (ok: bool)
        requires
            self@.wf(),
        ensures
            ok == self@.repay_defined(*from, *token, amount),
    {
        if self.admin.is_none() {
            return false;
        }
        if !is_valid_token(self, token) {
            return true;
        }
        let index: usize = match find_user(self, from) {
            Some(index) => index,
            None => {
                return false;
            },
        };
        let balance = self.users[index].balance;
        let side_a = balance.deposited_token == self.token_a.address;
        let other = get_token_of(self, !side_a);
        if *token != other.address || balance.is_liquidated {
            return true;
        }
        let owed: i128 = match checked_amount_to_repay(
            side_a,
            balance.swapped_amount,
            self.spot_rate,
            self.forward_rate,
        ) {
            Some(v) => v,
            None => {
                return false;
            },
        };
        let open_amount: i128 = match owed.checked_sub(balance.returned_amount) {
            Some(v) => v,
            None => {
                return false;
            },
        };
        let repay_amount: i128 = if amount < open_amount {
            amount
        } else {
            open_amount
        };
        if repay_amount <= 0 {
            return true;
        }
        other.returned_amount.checked_add(repay_amount).is_some()
    }

    /// Takes from `from` a repayment of at most `amount` in `token`, and
    /// returns what `from` has returned in all and what it owes in all.
    ///
    /// On success the ledger is `after_repay`. A repayment that breaks a rule
    /// is refused with the error of `repay_error` and changes nothing.
    /// Whether the call is defined, `repay_defined` tells.
    pub fn repay(&mut self, from: &Address, token: &Address, amount: i128) -> (r: Result<
        (i128, i128),
        Error,
    >)
        requires
            old(self)@.wf(),
            old(self)@.repay_defined(*from, *token, amount),
        ensures
            final(self)@.wf(),
            old(self)@.continued_by(final(self)@),
            match old(self)@.repay_error(*from, *token, amount) {
                Some(error) => r == Err::<(i128, i128), Error>(error) && final(self)@ == old(
                    self,
                )@,
                None => r == Ok::<(i128, i128), Error>(
                    (
                        (old(self)@.user(*from).returned_amount + old(self)@.repay_amount(
                            *from,
                            amount,
                        )) as i128,
                        old(self)@.owed(*from) as i128,
                    ),
                ) && final(self)@ == old(self)@.after_repay(*from, *token, amount),
            },
    {
        if !is_valid_token(self, token) {
            return Err(Error::InvalidToken);
        }
        let ghost before = self@;
        proof {
            before.lemma_user_within_aggregates(*from);
        }
        let index: usize = find_user(self, from).unwrap();
        let mut balance = self.users[index].balance;
        let side_a = balance.deposited_token == self.token_a.address;
        let mut other = get_token_of(self, !side_a);
        if balance.is_liquidated {
            return Err(Error::LiquidatedUser);
        }
        if *token != other.address {
            return Err(Error::WrongRepayToken);
        }
        let total_amount_to_repay = get_user_amount_to_repay(self, from);
        let open_amount: i128 = total_amount_to_repay - balance.returned_amount;
        let repay_amount: i128 = if amount < open_amount {
            amount
        } else {
            open_amount
        };
        if repay_amount <= 0 {
            return Err(Error::AlreadyRepaid);
        }
        balance.returned_amount = balance.returned_amount + repay_amount;
        put_user(self, from, balance);
        other.returned_amount = other.returned_amount + repay_amount;
        edit_token_of(self, !side_a, other);
        escrow(self, *token, *from, repay_amount);
        proof {
            let after = self@;
            assert(after.users =~= before.after_repay(*from, *token, amount).users);
            assert(after.transfers =~= before.after_repay(*from, *token, amount).transfers);
            before.lemma_step_conserved(after, *from, balance);
            before.lemma_step_continued(after, *from, balance);
        }
        Ok((balance.returned_amount, total_amount_to_repay))
    }
}

} // verus!
