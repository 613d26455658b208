use vstd::prelude::*;
use crate::model::Ledger;
use crate::types::address::Address;
use crate::types::position::Position;
use crate::types::position_data::PositionData;
use crate::types::token::Token;
use crate::types::transfer::Transfer;
use crate::types::user::Participant;

verus! {

/// A swap contract: its configuration and its books. Every operation reads
/// and writes this value and nothing else. Its mathematical content is the
/// `Ledger` that `view` gives.
///
/// An operation takes the time, the oracle's price and the acting address as
/// arguments: whoever calls has read the clock and the oracle and has made
/// sure that the address authorized the call. An operation moves no funds:
/// it puts the transfers that custody is to make after those asked before,
/// for the caller to take with `take_transfers` and to make. A caller for
/// whom a transfer fails drops the contract as the operation left it and
/// keeps the one from before.
///
/// Operations ask for a well-formed contract and keep it so. Where an
/// operation computes with amounts, it is defined only where the results fit
/// `i128`; for each such operation a function of the same name with
/// `_defined` tells whether it is.
#[derive(Clone, Debug)]
pub struct Swap {
    pub admin: Option<Address>,
    pub token_a: Token,
    pub token_b: Token,
    pub spot_rate: i128,
    pub forward_rate: i128,
    pub init_time: u64,
    pub time_to_mature: u64,
    pub position_a: PositionData,
    pub position_b: PositionData,
    pub used_positions_a: Vec<Position>,
    pub used_positions_b: Vec<Position>,
    pub users: Vec<Participant>,
    pub transfers: Vec<Transfer>,
}

impl View for Swap {
    type V = Ledger;

    open spec fn view(&self) -> Ledger {
        Ledger {
            admin: self.admin,
            token_a: self.token_a,
            token_b: self.token_b,
            spot_rate: self.spot_rate,
            forward_rate: self.forward_rate,
            init_time: self.init_time,
            time_to_mature: self.time_to_mature,
            position_a: self.position_a,
            position_b: self.position_b,
            used_positions_a: self.used_positions_a@,
            used_positions_b: self.used_positions_b@,
            users: self.users@,
            transfers: self.transfers@,
        }
    }
}

/// The aggregate of an asset on which nothing has happened yet.
pub open spec fn fresh_token(address: Address) -> Token {
    Token {
        address,
        deposited_amount: 0,
        swapped_amount: 0,
        returned_amount: 0,
        withdrawn_amount: 0,
        reclaimed_amount: 0,
        collateral_amount: 0,
        withdrawn_collateral: 0,
    }
}

/// The ledger of a contract that has not been initialized.
pub open spec fn empty_ledger() -> Ledger {
    let nobody = Address { is_contract: false, hi: 0, lo: 0 };
    Ledger {
        admin: None,
        token_a: fresh_token(nobody),
        token_b: fresh_token(nobody),
        spot_rate: 0,
        forward_rate: 0,
        init_time: 0,
        time_to_mature: 0,
        position_a: PositionData { limit: 0, used: 0, deposit_amount: 0 },
        position_b: PositionData { limit: 0, used: 0, deposit_amount: 0 },
        used_positions_a: Seq::empty(),
        used_positions_b: Seq::empty(),
        users: Seq::empty(),
        transfers: Seq::empty(),
    }
}

impl Swap {
    /// A contract that has not been initialized.
    pub fn new() -> (e: Swap)
        ensures
            e@ == empty_ledger(),
            e@.wf(),
            !e@.is_initialized(),
    {
        let nobody = Address { is_contract: false, hi: 0, lo: 0 };
        let token = Token {
            address: nobody,
            deposited_amount: 0,
            swapped_amount: 0,
            returned_amount: 0,
            withdrawn_amount: 0,
            reclaimed_amount: 0,
            collateral_amount: 0,
            withdrawn_collateral: 0,
        };
        let pool = PositionData { limit: 0, used: 0, deposit_amount: 0 };
        Swap {
            admin: None,
            token_a: token,
            token_b: token,
            spot_rate: 0,
            forward_rate: 0,
            init_time: 0,
            time_to_mature: 0,
            position_a: pool,
            position_b: pool,
            used_positions_a: Vec::new(),
            used_positions_b: Vec::new(),
            users: Vec::new(),
            transfers: Vec::new(),
        }
    }
}

/// The administrator; none before the contract is initialized.
pub fn get_admin(e: &Swap) -> (r: Option<Address>)
    ensures
        r == e@.admin,
{
    e.admin
}

/// The spot rate; zero while none was captured.
pub fn get_spot_rate(e: &Swap) -> (r: i128)
    ensures
        r == e@.spot_rate,
{
    e.spot_rate
}

/// The forward rate agreed at initialization.
pub fn get_forward_rate(e: &Swap) -> (r: i128)
    ensures
        r == e@.forward_rate,
{
    e.forward_rate
}

/// The time of initialization.
pub fn get_init_time(e: &Swap) -> (r: u64)
    ensures
        r == e@.init_time,
{
    e.init_time
}

/// The time from the start of the swap stage to maturity.
pub fn get_time_to_mature(e: &Swap) -> (r: u64)
    ensures
        r == e@.time_to_mature,
{
    e.time_to_mature
}

/// Sets the administrator.
pub fn put_admin(e: &mut Swap, address: Address)
    ensures
        final(e)@ == (Ledger { admin: Some(address), ..old(e)@ }),
{
    e.admin = Some(address);
}

/// Sets the forward rate.
pub fn put_forward_rate(e: &mut Swap, rate: i128)
    ensures
        final(e)@ == (Ledger { forward_rate: rate, ..old(e)@ }),
{
    e.forward_rate = rate;
}

/// Sets the spot rate.
pub fn put_spot_rate(e: &mut Swap, amount: i128)
    ensures
        final(e)@ == (Ledger { spot_rate: amount, ..old(e)@ }),
{
    e.spot_rate = amount;
}

/// Sets the time of initialization to `now`.
pub fn put_init_time(e: &mut Swap, now: u64)
    ensures
        final(e)@ == (Ledger { init_time: now, ..old(e)@ }),
{
    e.init_time = now;
}

/// Sets the time to maturity.
pub fn put_time_to_mature(e: &mut Swap, duration: u64)
    ensures
        final(e)@ == (Ledger { time_to_mature: duration, ..old(e)@ }),
{
    e.time_to_mature = duration;
}

} // verus!
