use vstd::prelude::*;
use crate::model::Ledger;
use crate::rates::fits;
use crate::storage::{fresh_token, Swap};
use crate::types::address::Address;
use crate::types::token::Token;

verus! {

/// Registers `token` as asset A, with all its counters at zero.
pub fn init_token_a(e: &mut Swap, token: &Address)
    ensures
        final(e)@ == (Ledger { token_a: fresh_token(*token), ..old(e)@ }),
{
    e.token_a = Token {
        address: *token,
        deposited_amount: 0,
        swapped_amount: 0,
        returned_amount: 0,
        withdrawn_amount: 0,
        reclaimed_amount: 0,
        collateral_amount: 0,
        withdrawn_collateral: 0,
    };
}

/// Registers `token` as asset B, with all its counters at zero.
pub fn init_token_b(e: &mut Swap, token: &Address)
    ensures
        final(e)@ == (Ledger { token_b: fresh_token(*token), ..old(e)@ }),
{
    e.token_b = Token {
        address: *token,
        deposited_amount: 0,
        swapped_amount: 0,
        returned_amount: 0,
        withdrawn_amount: 0,
        reclaimed_amount: 0,
        collateral_amount: 0,
        withdrawn_collateral: 0,
    };
}

/// The aggregate of asset A.
pub fn get_token_a(e: &Swap) -> (t: Token)
    ensures
        t == e@.token_a,
{
    e.token_a
}

/// The aggregate of asset B.
pub fn get_token_b(e: &Swap) -> (t: Token)
    ensures
        t == e@.token_b,
{
    e.token_b
}

/// The aggregate that `token` stands for: that of asset A where `token` is
/// its address, that of asset B for any other address.
pub fn get_token(e: &Swap, token: &Address) -> (t: Token)
    ensures
        t == e@.token_of(e@.is_a(*token)),
{
    if e.token_a.address == *token {
        e.token_a
    } else {
        e.token_b
    }
}

/// Puts `data` in place of the aggregate that `token` stands for.
pub fn edit_token(e: &mut Swap, token: &Address, data: Token)
    ensures
        final(e)@ == old(e)@.with_token(old(e)@.is_a(*token), data),
{
    if e.token_a.address == *token {
        e.token_a = data;
    } else {
        e.token_b = data;
    }
}

/// The aggregate of asset A if `side_a`, of asset B if not.
pub fn get_token_of(e: &Swap, side_a: bool) -> (t: Token)
    ensures
        t == e@.token_of(side_a),
{
    if side_a {
        e.token_a
    } else {
        e.token_b
    }
}

/// Puts `data` in place of the aggregate of asset A if `side_a`, of asset B
/// if not.
pub fn edit_token_of(e: &mut Swap, side_a: bool, data: Token)
    ensures
        final(e)@ == old(e)@.with_token(side_a, data),
{
    if side_a {
        e.token_a = data;
    } else {
        e.token_b = data;
    }
}

/// The address of asset A.
pub fn get_token_a_address(e: &Swap) -> (a: Address)
    ensures
        a == e@.token_a.address,
{
    e.token_a.address
}

/// The address of asset B.
pub fn get_token_b_address(e: &Swap) -> (a: Address)
    ensures
        a == e@.token_b.address,
{
    e.token_b.address
}

/// Whether `token` is one of the two registered assets.
pub fn is_valid_token(e: &Swap, token: &Address) -> (b: bool)
    ensures
        b == e@.is_valid_token(*token),
{
    *token == e.token_a.address || *token == e.token_b.address
}

/// Adds `amount` to what was deposited in the asset that `token` stands for.
pub fn add_token_deposited_amount(e: &mut Swap, token: &Address, amount: i128)
    requires
        fits(old(e)@.token_of(old(e)@.is_a(*token)).deposited_amount + amount),
    ensures
        final(e)@ == old(e)@.with_token(
            old(e)@.is_a(*token),
            (Token {
                deposited_amount: (old(e)@.token_of(old(e)@.is_a(*token)).deposited_amount
                    + amount) as i128,
                ..old(e)@.token_of(old(e)@.is_a(*token))
            }),
        ),
{
    let mut token_data = get_token(e, token);
    token_data.deposited_amount = token_data.deposited_amount + amount;
    edit_token(e, token, token_data);
}

/// Adds `amount` to what was swapped out of the asset that `token` stands for.
pub fn add_token_swapped_amount(e: &mut Swap, token: &Address, amount: i128)
    requires
        fits(old(e)@.token_of(old(e)@.is_a(*token)).swapped_amount + amount),
    ensures
        final(e)@ == old(e)@.with_token(
            old(e)@.is_a(*token),
            (Token {
                swapped_amount: (old(e)@.token_of(old(e)@.is_a(*token)).swapped_amount
                    + amount) as i128,
                ..old(e)@.token_of(old(e)@.is_a(*token))
            }),
        ),
{
    let mut token_data = get_token(e, token);
    token_data.swapped_amount = token_data.swapped_amount + amount;
    edit_token(e, token, token_data);
}

/// Adds `amount` to what was returned in the asset that `token` stands for.
pub fn add_token_returned_amount(e: &mut Swap, token: &Address, amount: i128)
    requires
        fits(old(e)@.token_of(old(e)@.is_a(*token)).returned_amount + amount),
    ensures
        final(e)@ == old(e)@.with_token(
            old(e)@.is_a(*token),
            (Token {
                returned_amount: (old(e)@.token_of(old(e)@.is_a(*token)).returned_amount
                    + amount) as i128,
                ..old(e)@.token_of(old(e)@.is_a(*token))
            }),
        ),
{
    let mut token_data = get_token(e, token);
    token_data.returned_amount = token_data.returned_amount + amount;
    edit_token(e, token, token_data);
}

/// Adds `amount` to what was withdrawn from the asset that `token` stands for.
pub fn add_token_withdrawn_amount(e: &mut Swap, token: &Address, amount: i128)
    requires
        fits(old(e)@.token_of(old(e)@.is_a(*token)).withdrawn_amount + amount),
    ensures
        final(e)@ == old(e)@.with_token(
            old(e)@.is_a(*token),
            (Token {
                withdrawn_amount: (old(e)@.token_of(old(e)@.is_a(*token)).withdrawn_amount
                    + amount) as i128,
                ..old(e)@.token_of(old(e)@.is_a(*token))
            }),
        ),
{
    let mut token_data = get_token(e, token);
    token_data.withdrawn_amount = token_data.withdrawn_amount + amount;
    edit_token(e, token, token_data);
}

/// Adds `amount` to what was reclaimed of the asset that `token` stands for.
pub fn add_token_reclaimed_amount(e: &mut Swap, token: &Address, amount: i128)
    requires
        fits(old(e)@.token_of(old(e)@.is_a(*token)).reclaimed_amount + amount),
    ensures
        final(e)@ == old(e)@.with_token(
            old(e)@.is_a(*token),
            (Token {
                reclaimed_amount: (old(e)@.token_of(old(e)@.is_a(*token)).reclaimed_amount
                    + amount) as i128,
                ..old(e)@.token_of(old(e)@.is_a(*token))
            }),
        ),
{
    let mut token_data = get_token(e, token);
    token_data.reclaimed_amount = token_data.reclaimed_amount + amount;
    edit_token(e, token, token_data);
}

/// Adds `amount` to the collateral put up in the asset that `token` stands for.
pub fn add_token_collateral_amount(e: &mut Swap, token: &Address, amount: i128)
    requires
        fits(old(e)@.token_of(old(e)@.is_a(*token)).collateral_amount + amount),
    ensures
        final(e)@ == old(e)@.with_token(
            old(e)@.is_a(*token),
            (Token {
                collateral_amount: (old(e)@.token_of(old(e)@.is_a(*token)).collateral_amount
                    + amount) as i128,
                ..old(e)@.token_of(old(e)@.is_a(*token))
            }),
        ),
{
    let mut token_data = get_token(e, token);
    token_data.collateral_amount = token_data.collateral_amount + amount;
    edit_token(e, token, token_data);
}

/// Adds `amount` to the collateral taken out of the asset that `token` stands for.
pub fn add_token_withdrawn_collateral(e: &mut Swap, token: &Address, amount: i128)
    requires
        fits(old(e)@.token_of(old(e)@.is_a(*token)).withdrawn_collateral + amount),
    ensures
        final(e)@ == old(e)@.with_token(
            old(e)@.is_a(*token),
            (Token {
                withdrawn_collateral: (old(e)@.token_of(
                    old(e)@.is_a(*token),
                ).withdrawn_collateral + amount) as i128,
                ..old(e)@.token_of(old(e)@.is_a(*token))
            }),
        ),
{
    let mut token_data = get_token(e, token);
    token_data.withdrawn_collateral = token_data.withdrawn_collateral + amount;
    edit_token(e, token, token_data);
}

} // verus!
