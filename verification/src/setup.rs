use vstd::prelude::*;
use crate::clock::near_leg_time_reached;
use crate::model::Ledger;
use crate::position_data::{init_position_a, init_position_b};
use crate::rates::{a_to_b, a_to_b_fits, convert_amount_token_a_to_b, fits, lemma_floor_div, trunc_div};
use crate::storage::{
    fresh_token, get_admin, get_spot_rate, put_admin, put_forward_rate, put_init_time,
    put_spot_rate, put_time_to_mature, Swap,
};
use crate::token_data::{init_token_a, init_token_b};
use crate::types::address::Address;
use crate::types::error::Error;
use crate::types::position_data::PositionData;
use crate::types::price_data::PriceData;
use crate::types::stage::Stage;
use crate::types::transfer::{Transfer, TransferKind};

verus! {

/// The slot size of asset B that makes `positions_token_b` slots worth, at
/// `spot_rate`, what `positions_token_a` slots of `amount_deposit_token_a` hold.
pub open spec fn slot_amount_b(
    positions_token_a: int,
    positions_token_b: int,
    amount_deposit_token_a: int,
    spot_rate: int,
) -> int {
    a_to_b(trunc_div(positions_token_a * amount_deposit_token_a, positions_token_b), spot_rate)
}

/// Whether `slot_amount_b` can be computed in `i128`.
pub open spec fn slot_amount_b_fits(
    positions_token_a: int,
    positions_token_b: int,
    amount_deposit_token_a: int,
    spot_rate: int,
) -> bool {
    &&& positions_token_b != 0
    &&& fits(positions_token_a * amount_deposit_token_a)
    &&& a_to_b_fits(
        trunc_div(positions_token_a * amount_deposit_token_a, positions_token_b),
        spot_rate,
    )
}

impl Ledger {
    /// Whether `who` is the administrator.
    pub open spec fn is_admin(self, who: Address) -> bool {
        self.admin == Some(who)
    }

    /// The ledger of a contract just initialized.
    pub open spec fn after_initialize(
        self,
        admin: Address,
        token_a: Address,
        token_b: Address,
        forward_rate: i128,
        duration: u64,
        now: u64,
        spot: PriceData,
    ) -> Ledger {
        Ledger {
            admin: Some(admin),
            token_a: fresh_token(token_a),
            token_b: fresh_token(token_b),
            forward_rate,
            init_time: now,
            time_to_mature: duration,
            spot_rate: spot.price,
            ..self
        }
    }

    /// The size of a slot of asset B for the given pools, at the spot rate.
    pub open spec fn slot_amount_b(
        self,
        positions_token_a: u64,
        positions_token_b: u64,
        amount_deposit_token_a: i128,
    ) -> int {
        slot_amount_b(
            positions_token_a as int,
            positions_token_b as int,
            amount_deposit_token_a as int,
            self.spot_rate as int,
        )
    }

    /// Why `init_pos` is refused, if it is: anyone but the administrator is
    /// not authorized; and pools are set up once, so that a call on pools that
    /// were set up is refused as a second initialization.
    pub open spec fn init_pos_error(self, from: Address) -> Option<Error> {
        if !self.is_admin(from) {
            Some(Error::Unauthorized)
        } else if self.pools_set() {
            Some(Error::ContractAlreadyInitialized)
        } else {
            None
        }
    }

    /// Whether `init_pos` is defined: a contract that was initialized; and,
    /// for a call that is not refused, a slot size and a spot rate that are
    /// not negative, at least one slot of asset B, and a slot size of asset B
    /// that can be computed in `i128`.
    pub open spec fn init_pos_defined(
        self,
        from: Address,
        positions_token_a: u64,
        positions_token_b: u64,
        amount_deposit_token_a: i128,
    ) -> bool {
        &&& self.is_initialized()
        &&& self.init_pos_error(from).is_none() ==> {
            &&& amount_deposit_token_a >= 0
            &&& self.spot_rate >= 0
            &&& slot_amount_b_fits(
                positions_token_a as int,
                positions_token_b as int,
                amount_deposit_token_a as int,
                self.spot_rate as int,
            )
        }
    }

    /// The ledger with both pools set up, all slots free.
    pub open spec fn after_init_pos(
        self,
        positions_token_a: u64,
        positions_token_b: u64,
        amount_deposit_token_a: i128,
    ) -> Ledger {
        Ledger {
            position_a: PositionData {
                limit: positions_token_a,
                used: 0,
                deposit_amount: amount_deposit_token_a,
            },
            position_b: PositionData {
                limit: positions_token_b,
                used: 0,
                deposit_amount: self.slot_amount_b(
                    positions_token_a,
                    positions_token_b,
                    amount_deposit_token_a,
                ) as i128,
            },
            ..self
        }
    }

    /// Why `near_leg` is refused at `now`, if it is.
    pub open spec fn near_leg_error(self, now: u64) -> Option<Error> {
        if self.stage(now) == Stage::Deposit {
            Some(Error::TimeNotReached)
        } else if self.spot_rate != 0 {
            Some(Error::SpotRateAlreadyDefined)
        } else {
            None
        }
    }

    /// Why `transfer_admin` is refused, if it is.
    pub open spec fn transfer_admin_error(self, from: Address, token: Address) -> Option<Error> {
        if !self.is_admin(from) {
            Some(Error::Unauthorized)
        } else if !self.is_valid_token(token) {
            Some(Error::InvalidToken)
        } else {
            None
        }
    }
}

/// Whether `to` is the administrator of a contract that was initialized.
pub fn is_authorized(e: &Swap, to: &Address) -> (b: bool)
    requires
        e@.is_initialized(),
    ensures
        b == e@.is_admin(*to),
{
    let admin_address = get_admin(e).unwrap();
    *to == admin_address
}

/// Stores the price that the oracle gave as the spot rate.
pub fn set_spot_price(e: &mut Swap, price_data: PriceData) -> (r: PriceData)
    ensures
        r == price_data,
        final(e)@ == (Ledger { spot_rate: price_data.price, ..old(e)@ }),
{
    put_spot_rate(e, price_data.price);
    price_data
}

/// The slot size of asset B that gives both pools the same worth at the spot rate.
pub fn calculate_amount_deposit_token_b(
    e: &Swap,
    positions_token_a: u64,
    positions_token_b: u64,
    amount_deposit_token_a: i128,
) -> (r: i128)
    requires
        slot_amount_b_fits(
            positions_token_a as int,
            positions_token_b as int,
            amount_deposit_token_a as int,
            e@.spot_rate as int,
        ),
    ensures
        r == e@.slot_amount_b(positions_token_a, positions_token_b, amount_deposit_token_a),
{
    let spot_rate = get_spot_rate(e);
    let total_amount_a: i128 = (positions_token_a as i128) * amount_deposit_token_a;
    proof {
        crate::rates::lemma_trunc_div_bounds(total_amount_a as int, positions_token_b as int);
    }
    let amount_deposit_amount_a: i128 = total_amount_a / (positions_token_b as i128);
    convert_amount_token_a_to_b(amount_deposit_amount_a, spot_rate)
}

impl Swap {
    /// Whether the contract was initialized.
    pub fn is_initialized(&self) -> (b: bool)
        ensures
            b == self@.is_initialized(),
    {
        self.admin.is_some()
    }

    /// Whether `init_pos` is defined on these arguments.
    pub fn init_pos_defined(
        &self,
        from: &Address,
        positions_token_a: u64,
        positions_token_b: u64,
        amount_deposit_token_a: i128,
    ) -> (ok: bool)
        ensures
            ok == self@.init_pos_defined(
                *from,
                positions_token_a,
                positions_token_b,
                amount_deposit_token_a,
            ),
    {
        if self.admin.is_none() {
            return false;
        }
        if !is_authorized(self, from) {
            return true;
        }
        if self.position_a.limit != 0 || self.position_b.limit != 0 {
            return true;
        }
        if amount_deposit_token_a < 0 || self.spot_rate < 0 || positions_token_b == 0 {
            return false;
        }
        match (positions_token_a as i128).checked_mul(amount_deposit_token_a) {
            Some(total_amount_a) => {
                proof {
                    crate::rates::lemma_trunc_div_bounds(
                        total_amount_a as int,
                        positions_token_b as int,
                    );
                }
                let share: i128 = total_amount_a / (positions_token_b as i128);
                crate::rates::checked_a_to_b(share, self.spot_rate).is_some()
            },
            None => false,
        }
    }

    /// Sets the contract up, once: the administrator, the two assets, the
    /// forward rate, the time of initialization and the time to maturity, and
    /// as spot rate the price `spot` that the oracle gave. Returns that price.
    ///
    /// A contract that was initialized before refuses with
    /// `ContractAlreadyInitialized` and stays as it was.
    pub fn initialize(
        &mut self,
        admin: Address,
        token_a: Address,
        token_b: Address,
        forward_rate: i128,
        duration: u64,
        now: u64,
        spot: PriceData,
    ) -> (r: Result<i128, Error>)
        requires
            old(self)@.wf(),
        ensures
            final(self)@.wf(),
            old(self)@.is_initialized() ==> r == Err::<i128, Error>(
                Error::ContractAlreadyInitialized,
            ) && final(self)@ == old(self)@,
            !old(self)@.is_initialized() ==> r == Ok::<i128, Error>(spot.price) && final(self)@
                == old(self)@.after_initialize(
                admin,
                token_a,
                token_b,
                forward_rate,
                duration,
                now,
                spot,
            ),
    {
        match get_admin(self) {
            Some(_) => Err(Error::ContractAlreadyInitialized),
            None => {
                put_admin(self, admin);
                init_token_a(self, &token_a);
                init_token_b(self, &token_b);
                put_forward_rate(self, forward_rate);
                put_init_time(self, now);
                put_time_to_mature(self, duration);
                let price = set_spot_price(self, spot).price;
                proof {
                    assert(self@.users =~= Seq::empty());
                }
                Ok(price)
            },
        }
    }

    /// Sets the two slot pools up, once, all slots free: `positions_token_a`
    /// slots of `amount_deposit_token_a` for asset A, and `positions_token_b`
    /// slots for asset B, of the size that gives both pools the same worth at
    /// the spot rate. Returns the slot size of asset B.
    ///
    /// Anyone but the administrator is refused with `Unauthorized`. Pools
    /// that were set up stay as they are: a call on them is refused with
    /// `ContractAlreadyInitialized`. Whether the call is defined,
    /// `init_pos_defined` tells.
    pub fn init_pos(
        &mut self,
        from: &Address,
        positions_token_a: u64,
        positions_token_b: u64,
        amount_deposit_token_a: i128,
    ) -> (r: Result<i128, Error>)
        requires
            old(self)@.wf(),
            old(self)@.init_pos_defined(
                *from,
                positions_token_a,
                positions_token_b,
                amount_deposit_token_a,
            ),
        ensures
            final(self)@.wf(),
            old(self)@.continued_by(final(self)@),
            match old(self)@.init_pos_error(*from) {
                Some(error) => r == Err::<i128, Error>(error) && final(self)@ == old(self)@,
                None => r == Ok::<i128, Error>(
                    old(self)@.slot_amount_b(
                        positions_token_a,
                        positions_token_b,
                        amount_deposit_token_a,
                    ) as i128,
                ) && final(self)@ == old(self)@.after_init_pos(
                    positions_token_a,
                    positions_token_b,
                    amount_deposit_token_a,
                ) && final(self)@.pools_set(),
            },
    {
        if !is_authorized(self, from) {
            return Err(Error::Unauthorized);
        }
        if self.position_a.limit != 0 || self.position_b.limit != 0 {
            return Err(Error::ContractAlreadyInitialized);
        }
        init_position_a(self, positions_token_a, amount_deposit_token_a);
        let amount_deposit_token_b = calculate_amount_deposit_token_b(
            self,
            positions_token_a,
            positions_token_b,
            amount_deposit_token_a,
        );
        init_position_b(self, positions_token_b, amount_deposit_token_b);
        proof {
            let total = positions_token_a as int * amount_deposit_token_a as int;
            assert(total >= 0) by (nonlinear_arith)
                requires
                    total == positions_token_a as int * amount_deposit_token_a as int,
                    positions_token_a >= 0,
                    amount_deposit_token_a >= 0,
            ;
            lemma_floor_div(total, positions_token_b as int);
            let share = total / (positions_token_b as int);
            if self.spot_rate > 0 {
                crate::rates::lemma_convert_floor(share, self.spot_rate as int);
            } else {
                assert(share * 0 == 0);
            }
        }
        Ok(amount_deposit_token_b)
    }

    /// Captures `price`, which the oracle gave, as the spot rate, and returns
    /// it. Refused with `TimeNotReached` before the swap stage, and with
    /// `SpotRateAlreadyDefined` where the spot rate is not zero.
    pub fn near_leg(&mut self, now: u64, price: PriceData) -> (r: Result<PriceData, Error>)
        requires
            old(self)@.wf(),
        ensures
            final(self)@.wf(),
            old(self)@.continued_by(final(self)@),
            match old(self)@.near_leg_error(now) {
                Some(error) => r == Err::<PriceData, Error>(error) && final(self)@ == old(self)@,
                None => r == Ok::<PriceData, Error>(price) && final(self)@ == (Ledger {
                    spot_rate: price.price,
                    ..old(self)@
                }),
            },
    {
        if !near_leg_time_reached(self, now) {
            return Err(Error::TimeNotReached);
        }
        if get_spot_rate(self) != 0 {
            return Err(Error::SpotRateAlreadyDefined);
        }
        Ok(set_spot_price(self, price))
    }

    /// Sets the spot rate to `rate`. Anyone but the administrator is refused
    /// with `Unauthorized`.
    pub fn set_spot(&mut self, from: &Address, rate: i128) -> (r: Result<(), Error>)
        requires
            old(self)@.wf(),
            old(self)@.is_initialized(),
        ensures
            final(self)@.wf(),
            old(self)@.continued_by(final(self)@),
            !old(self)@.is_admin(*from) ==> r == Err::<(), Error>(Error::Unauthorized) && final(self)@ == old(self)@,
            old(self)@.is_admin(*from) ==> r == Ok::<(), Error>(()) && final(self)@ == (Ledger {
                spot_rate: rate,
                ..old(self)@
            }),
    {
        if !is_authorized(self, from) {
            return Err(Error::Unauthorized);
        }
        put_spot_rate(self, rate);
        Ok(())
    }

    /// Asks custody to pay `amount` of `token` out to `to`. The books do not
    /// change. Anyone but the administrator is refused with `Unauthorized`;
    /// a token that is neither asset is refused with `InvalidToken`.
    pub fn transfer_admin(&mut self, from: &Address, to: &Address, token: &Address, amount: i128) -> (r:
        Result<(), Error>)
        requires
            old(self)@.wf(),
            old(self)@.is_initialized(),
        ensures
            final(self)@.wf(),
            old(self)@.continued_by(final(self)@),
            match old(self)@.transfer_admin_error(*from, *token) {
                Some(error) => r == Err::<(), Error>(error) && final(self)@ == old(self)@,
                None => r == Ok::<(), Error>(()) && final(self)@ == old(self)@.with_transfer(
                    Transfer { kind: TransferKind::Payout, token: *token, party: *to, amount },
                ),
            },
    {
        if !is_authorized(self, from) {
            return Err(Error::Unauthorized);
        }
        if *token == self.token_a.address {
            transfer_a(self, to, amount);
            Ok(())
        } else if *token == self.token_b.address {
            transfer_b(self, to, amount);
            Ok(())
        } else {
            Err(Error::InvalidToken)
        }
    }
}

/// Asks custody to pay `amount` of `token` out to `to`.
pub fn transfer(e: &mut Swap, token: Address, to: Address, amount: i128)
    ensures
        final(e)@ == old(e)@.with_transfer(
            Transfer { kind: TransferKind::Payout, token, party: to, amount },
        ),
{
    e.transfers.push(Transfer { kind: TransferKind::Payout, token, party: to, amount });
}

/// Asks custody to pay `amount` of asset A out to `to`.
pub fn transfer_a(e: &mut Swap, to: &Address, amount: i128)
    ensures
        final(e)@ == old(e)@.with_transfer(
            Transfer {
                kind: TransferKind::Payout,
                token: old(e)@.token_a.address,
                party: *to,
                amount,
            },
        ),
{
    let token = e.token_a.address;
    transfer(e, token, *to, amount);
}

/// Asks custody to pay `amount` of asset B out to `to`.
pub fn transfer_b(e: &mut Swap, to: &Address, amount: i128)
    ensures
        final(e)@ == old(e)@.with_transfer(
            Transfer {
                kind: TransferKind::Payout,
                token: old(e)@.token_b.address,
                party: *to,
                amount,
            },
        ),
{
    let token = e.token_b.address;
    transfer(e, token, *to, amount);
}

/// Asks custody to take `amount` of `token` from `from` into escrow.
pub fn escrow(e: &mut Swap, token: Address, from: Address, amount: i128)
    ensures
        final(e)@ == old(e)@.with_transfer(
            Transfer { kind: TransferKind::Escrow, token, party: from, amount },
        ),
{
    e.transfers.push(Transfer { kind: TransferKind::Escrow, token, party: from, amount });
}

/// Hands over the transfers asked of custody so far, in the order in which
/// they were asked, and forgets them.
pub fn take_transfers(e: &mut Swap) -> (r: Vec<Transfer>)
    ensures
        r@ == old(e)@.transfers,
        final(e)@ == (Ledger { transfers: Seq::empty(), ..old(e)@ }),
{
    let mut taken: Vec<Transfer> = Vec::new();
    std::mem::swap(&mut taken, &mut e.transfers);
    taken
}

} // verus!
