use vstd::prelude::*;
use crate::storage::Swap;
use crate::types::address::Address;
use crate::types::position::Position;

verus! {

/// A copy of a position list.
pub fn copy_positions(positions: &Vec<Position>) -> (r: Vec<Position>)
    ensures
        r@ == positions@,
{
    let mut r: Vec<Position> = Vec::new();
    let mut i: usize = 0;
    while i < positions.len()
        invariant
            0 <= i <= positions.len(),
            r@ == positions@.subrange(0, i as int),
        decreases positions.len() - i,
    {
        r.push(positions[i]);
        assert(r@ =~= positions@.subrange(0, i as int + 1));
        i = i + 1;
    }
    assert(positions@.subrange(0, positions.len() as int) =~= positions@);
    r
}

/// The position list of asset A.
pub fn get_used_positions_a(e: &Swap) -> (r: Vec<Position>)
    ensures
        r@ == e@.used_positions_a,
{
    copy_positions(&e.used_positions_a)
}

/// The position list of asset B.
pub fn get_used_positions_b(e: &Swap) -> (r: Vec<Position>)
    ensures
        r@ == e@.used_positions_b,
{
    copy_positions(&e.used_positions_b)
}

/// The position list that `token` stands for.
pub fn get_used_positions(e: &Swap, token: &Address) -> (r: Vec<Position>)
    ensures
        r@ == e@.positions_of(e@.is_a(*token)),
{
    if e.token_a.address == *token {
        copy_positions(&e.used_positions_a)
    } else {
        copy_positions(&e.used_positions_b)
    }
}

/// Puts `used_positions` in place of the position list that `token` stands for.
pub fn put_used_positions(e: &mut Swap, token: &Address, used_positions: &Vec<Position>)
    ensures
        final(e)@ == old(e)@.with_positions(old(e)@.is_a(*token), used_positions@),
{
    if e.token_a.address == *token {
        e.used_positions_a = copy_positions(used_positions);
    } else {
        e.used_positions_b = copy_positions(used_positions);
    }
}

/// Opens a slot for `to` on the list that `token` stands for: a position
/// that is not valid yet is put after all others. Returns where it stands.
pub fn create_position(e: &mut Swap, to: &Address, token: &Address) -> (index: usize)
    ensures
        index == old(e)@.positions_of(old(e)@.is_a(*token)).len(),
        final(e)@ == old(e)@.with_positions(
            old(e)@.is_a(*token),
            old(e)@.positions_of(old(e)@.is_a(*token)).push(
                Position { address: *to, is_valid: false },
            ),
        ),
{
    let position = Position { address: *to, is_valid: false };
    if e.token_a.address == *token {
        e.used_positions_a.push(position);
        e.used_positions_a.len() - 1
    } else {
        e.used_positions_b.push(position);
        e.used_positions_b.len() - 1
    }
}

/// Marks the position at `position_index` of the list that `token` stands
/// for as valid.
pub fn set_position_valid(e: &mut Swap, position_index: usize, token: &Address)
    requires
        position_index < old(e)@.positions_of(old(e)@.is_a(*token)).len(),
    ensures
        final(e)@ == old(e)@.with_positions(
            old(e)@.is_a(*token),
            old(e)@.positions_of(old(e)@.is_a(*token)).update(
                position_index as int,
                Position {
                    address: old(e)@.positions_of(old(e)@.is_a(*token))[position_index as int].address,
                    is_valid: true,
                },
            ),
        ),
{
    if e.token_a.address == *token {
        let mut position = e.used_positions_a[position_index];
        position.is_valid = true;
        e.used_positions_a[position_index] = position;
    } else {
        let mut position = e.used_positions_b[position_index];
        position.is_valid = true;
        e.used_positions_b[position_index] = position;
    }
}

} // verus!
