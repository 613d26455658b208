use vstd::prelude::*;
use crate::model::new_user;
use crate::rates::fits;
use crate::storage::Swap;
use crate::types::address::Address;
use crate::types::user::{Participant, User};

verus! {

/// Where the record of `to` stands among the records, if it has one.
pub fn find_user(e: &Swap, to: &Address) -> (r: Option<usize>)
    requires
        e@.users_distinct(),
    ensures
        r.is_some() == e@.has_user(*to),
        r.is_some() ==> r.unwrap() == e@.user_index(*to) && r.unwrap() < e.users.len()
            && e.users[r.unwrap() as int].address == *to && e.users[r.unwrap() as int].balance
            == e@.user(*to),
{
    let mut i: usize = 0;
    while i < e.users.len()
        invariant
            0 <= i <= e.users.len(),
            e@.users_distinct(),
            forall|j: int| 0 <= j < i ==> (#[trigger] e.users@[j]).address != *to,
        decreases e.users.len() - i,
    {
        if e.users[i].address == *to {
            proof {
                e@.lemma_user_at(i as int);
            }
            return Some(i);
        }
        i = i + 1;
    }
    None
}

/// The record of `to`, or that of a newcomer on asset A where it has none.
fn counters_of(e: &Swap, to: &Address) -> (u: User)
    requires
        e@.users_distinct(),
    ensures
        u == e@.counters(*to),
{
    match find_user(e, to) {
        Some(i) => e.users[i].balance,
        None => User {
            deposited_token: e.token_a.address,
            deposited_amount: 0,
            swapped_amount: 0,
            returned_amount: 0,
            withdrawn_amount: 0,
            reclaimed_amount: 0,
            collateral: 0,
            withdrawn_collateral: 0,
            is_liquidated: false,
        },
    }
}

/// Puts `u` in place of the record of `to`.
pub fn put_user(e: &mut Swap, to: &Address, u: User)
    requires
        old(e)@.users_distinct(),
        old(e)@.has_user(*to),
    ensures
        final(e)@ == old(e)@.with_user(*to, u),
        final(e)@.users_distinct(),
        final(e)@.has_user(*to),
        final(e)@.user(*to) == u,
        forall|other: Address|
            other != *to ==> final(e)@.has_user(other) == old(e)@.has_user(other) && (old(
                e,
            )@.has_user(other) ==> final(e)@.user(other) == old(e)@.user(other)),
{
    let found = find_user(e, to);
    let i: usize = found.unwrap();
    e.users[i] = Participant { address: *to, balance: u };
    proof {
        let before = old(e)@;
        let after = e@;
        assert(after.users =~= before.users.update(i as int, Participant { address: *to, balance: u }));
        assert(after == before.with_user(*to, u));
        assert(after.users_distinct()) by {
            assert forall|a: int, b: int|
                0 <= a < after.users.len() && 0 <= b < after.users.len() && a != b implies (
            #[trigger] after.users[a]).address != (#[trigger] after.users[b]).address by {
                assert(after.users[a].address == before.users[a].address);
                assert(after.users[b].address == before.users[b].address);
            }
        }
        after.lemma_user_at(i as int);
        assert forall|other: Address| other != *to implies after.has_user(other)
            == before.has_user(other) && (before.has_user(other) ==> after.user(other)
            == before.user(other)) by {
            if before.has_user(other) {
                let j = before.user_index(other);
                assert(after.users[j] == before.users[j]);
                after.lemma_user_at(j);
                before.lemma_user_at(j);
            }
            if after.has_user(other) {
                let j = after.user_index(other);
                assert(before.users[j] == after.users[j]);
            }
        }
    }
}

/// The asset that `to` is on; none where it has no record.
pub fn get_deposited_token(e: &Swap, to: &Address) -> (r: Option<Address>)
    requires
        e@.users_distinct(),
    ensures
        r == e@.deposited_token(*to),
{
    match find_user(e, to) {
        Some(i) => Some(e.users[i].balance.deposited_token),
        None => None,
    }
}

/// What `to` has deposited; 0 where it has no record.
pub fn get_deposited_amount(e: &Swap, to: &Address) -> (r: i128)
    requires
        e@.users_distinct(),
    ensures
        r == e@.counters(*to).deposited_amount,
{
    counters_of(e, to).deposited_amount
}

/// The collateral that `to` has put up; 0 where it has no record.
pub fn get_collateral(e: &Swap, to: &Address) -> (r: i128)
    requires
        e@.users_distinct(),
    ensures
        r == e@.counters(*to).collateral,
{
    counters_of(e, to).collateral
}

/// The collateral that `to` has taken out; 0 where it has no record.
pub fn get_withdrawn_collateral(e: &Swap, to: &Address) -> (r: i128)
    requires
        e@.users_distinct(),
    ensures
        r == e@.counters(*to).withdrawn_collateral,
{
    counters_of(e, to).withdrawn_collateral
}

/// What `to` has returned; 0 where it has no record.
pub fn get_returned_amount(e: &Swap, to: &Address) -> (r: i128)
    requires
        e@.users_distinct(),
    ensures
        r == e@.counters(*to).returned_amount,
{
    counters_of(e, to).returned_amount
}

/// What `to` has received in the swap; 0 where it has no record.
pub fn get_swapped_amount(e: &Swap, to: &Address) -> (r: i128)
    requires
        e@.users_distinct(),
    ensures
        r == e@.counters(*to).swapped_amount,
{
    counters_of(e, to).swapped_amount
}

/// What `to` has withdrawn; 0 where it has no record.
pub fn get_withdrawn_amount(e: &Swap, to: &Address) -> (r: i128)
    requires
        e@.users_distinct(),
    ensures
        r == e@.counters(*to).withdrawn_amount,
{
    counters_of(e, to).withdrawn_amount
}

/// What `to` has reclaimed; 0 where it has no record.
pub fn get_reclaimed_amount(e: &Swap, to: &Address) -> (r: i128)
    requires
        e@.users_distinct(),
    ensures
        r == e@.counters(*to).reclaimed_amount,
{
    counters_of(e, to).reclaimed_amount
}

/// Whether `to` was liquidated; not so where it has no record.
pub fn is_liquidated(e: &Swap, to: &Address) -> (r: bool)
    requires
        e@.users_distinct(),
    ensures
        r == e@.counters(*to).is_liquidated,
{
    counters_of(e, to).is_liquidated
}

/// The cumulative deposit and collateral of `to`.
pub fn get_user_deposit(e: &Swap, to: &Address) -> (r: (i128, i128))
    requires
        e@.users_distinct(),
    ensures
        r == (e@.counters(*to).deposited_amount, e@.counters(*to).collateral),
{
    let u = counters_of(e, to);
    (u.deposited_amount, u.collateral)
}

/// The whole record of `to`, which must have one.
pub fn get_user_balance(e: &Swap, to: &Address) -> (r: User)
    requires
        e@.users_distinct(),
        e@.has_user(*to),
    ensures
        r == e@.user(*to),
{
    let found = find_user(e, to);
    e.users[found.unwrap()].balance
}

/// Records that `to` is on `token`: in its record where it has one, in a new
/// record with all counters at zero where it has none.
pub fn put_deposited_token(e: &mut Swap, to: &Address, token: &Address)
    requires
        old(e)@.users_distinct(),
    ensures
        old(e)@.has_user(*to) ==> final(e)@ == old(e)@.with_user(
            *to,
            (User { deposited_token: *token, ..old(e)@.user(*to) }),
        ),
        !old(e)@.has_user(*to) ==> final(e)@ == old(e)@.with_new_user(*to, new_user(*token)),
        final(e)@.users_distinct(),
        final(e)@.has_user(*to),
        final(e)@.user(*to) == (User { deposited_token: *token, ..old(e)@.user_or_new(*to, *token) }),
{
    match find_user(e, to) {
        Some(i) => {
            let mut u = e.users[i].balance;
            u.deposited_token = *token;
            put_user(e, to, u);
        },
        None => {
            let u = User {
                deposited_token: *token,
                deposited_amount: 0,
                swapped_amount: 0,
                returned_amount: 0,
                withdrawn_amount: 0,
                reclaimed_amount: 0,
                collateral: 0,
                withdrawn_collateral: 0,
                is_liquidated: false,
            };
            e.users.push(Participant { address: *to, balance: u });
            proof {
                let after = e@;
                let before = old(e)@;
                let last = before.users.len() as int;
                assert(after.users =~= before.users.push(Participant { address: *to, balance: u }));
                assert(after.users_distinct()) by {
                    assert forall|a: int, b: int|
                        0 <= a < after.users.len() && 0 <= b < after.users.len() && a
                            != b implies (#[trigger] after.users[a]).address != (
                    #[trigger] after.users[b]).address by {
                        if a < last {
                            assert(after.users[a] == before.users[a]);
                        }
                        if b < last {
                            assert(after.users[b] == before.users[b]);
                        }
                    }
                }
                after.lemma_user_at(last);
            }
        },
    }
}

/// Adds `amount` to what `to` has deposited.
pub fn put_deposited_amount(e: &mut Swap, to: &Address, amount: i128)
    requires
        old(e)@.users_distinct(),
        old(e)@.has_user(*to),
        fits(old(e)@.user(*to).deposited_amount + amount),
    ensures
        final(e)@ == old(e)@.with_user(
            *to,
            (User {
                deposited_amount: (old(e)@.user(*to).deposited_amount + amount) as i128,
                ..old(e)@.user(*to)
            }),
        ),
        final(e)@.users_distinct(),
{
    let mut u = get_user_balance(e, to);
    u.deposited_amount = u.deposited_amount + amount;
    put_user(e, to, u);
}

/// Adds `amount` to what `to` has received in the swap.
pub fn put_swapped_amount(e: &mut Swap, to: &Address, amount: i128)
    requires
        old(e)@.users_distinct(),
        old(e)@.has_user(*to),
        fits(old(e)@.user(*to).swapped_amount + amount),
    ensures
        final(e)@ == old(e)@.with_user(
            *to,
            (User {
                swapped_amount: (old(e)@.user(*to).swapped_amount + amount) as i128,
                ..old(e)@.user(*to)
            }),
        ),
        final(e)@.users_distinct(),
{
    let mut u = get_user_balance(e, to);
    u.swapped_amount = u.swapped_amount + amount;
    put_user(e, to, u);
}

/// Adds `amount` to the collateral that `to` has put up.
pub fn put_collateral(e: &mut Swap, to: &Address, amount: i128)
    requires
        old(e)@.users_distinct(),
        old(e)@.has_user(*to),
        fits(old(e)@.user(*to).collateral + amount),
    ensures
        final(e)@ == old(e)@.with_user(
            *to,
            (User {
                collateral: (old(e)@.user(*to).collateral + amount) as i128,
                ..old(e)@.user(*to)
            }),
        ),
        final(e)@.users_distinct(),
{
    let mut u = get_user_balance(e, to);
    u.collateral = u.collateral + amount;
    put_user(e, to, u);
}

/// Adds `amount` to the collateral that `to` has taken out.
pub fn put_withdrawn_collateral(e: &mut Swap, to: &Address, amount: i128)
    requires
        old(e)@.users_distinct(),
        old(e)@.has_user(*to),
        fits(old(e)@.user(*to).withdrawn_collateral + amount),
    ensures
        final(e)@ == old(e)@.with_user(
            *to,
            (User {
                withdrawn_collateral: (old(e)@.user(*to).withdrawn_collateral + amount) as i128,
                ..old(e)@.user(*to)
            }),
        ),
        final(e)@.users_distinct(),
{
    let mut u = get_user_balance(e, to);
    u.withdrawn_collateral = u.withdrawn_collateral + amount;
    put_user(e, to, u);
}

/// Adds `amount` to what `to` has withdrawn.
pub fn put_withdrawn_amount(e: &mut Swap, to: &Address, amount: i128)
    requires
        old(e)@.users_distinct(),
        old(e)@.has_user(*to),
        fits(old(e)@.user(*to).withdrawn_amount + amount),
    ensures
        final(e)@ == old(e)@.with_user(
            *to,
            (User {
                withdrawn_amount: (old(e)@.user(*to).withdrawn_amount + amount) as i128,
                ..old(e)@.user(*to)
            }),
        ),
        final(e)@.users_distinct(),
{
    let mut u = get_user_balance(e, to);
    u.withdrawn_amount = u.withdrawn_amount + amount;
    put_user(e, to, u);
}

/// Adds `amount` to what `to` has returned.
pub fn put_returned_amount(e: &mut Swap, to: &Address, amount: i128)
    requires
        old(e)@.users_distinct(),
        old(e)@.has_user(*to),
        fits(old(e)@.user(*to).returned_amount + amount),
    ensures
        final(e)@ == old(e)@.with_user(
            *to,
            (User {
                returned_amount: (old(e)@.user(*to).returned_amount + amount) as i128,
                ..old(e)@.user(*to)
            }),
        ),
        final(e)@.users_distinct(),
{
    let mut u = get_user_balance(e, to);
    u.returned_amount = u.returned_amount + amount;
    put_user(e, to, u);
}

/// Adds `amount` to what `to` has reclaimed.
pub fn put_reclaimed_amount(e: &mut Swap, to: &Address, amount: i128)
    requires
        old(e)@.users_distinct(),
        old(e)@.has_user(*to),
        fits(old(e)@.user(*to).reclaimed_amount + amount),
    ensures
        final(e)@ == old(e)@.with_user(
            *to,
            (User {
                reclaimed_amount: (old(e)@.user(*to).reclaimed_amount + amount) as i128,
                ..old(e)@.user(*to)
            }),
        ),
        final(e)@.users_distinct(),
{
    let mut u = get_user_balance(e, to);
    u.reclaimed_amount = u.reclaimed_amount + amount;
    put_user(e, to, u);
}

/// Marks `to` as liquidated or not.
pub fn put_is_liquidated(e: &mut Swap, to: &Address, val: bool)
    requires
        old(e)@.users_distinct(),
        old(e)@.has_user(*to),
    ensures
        final(e)@ == old(e)@.with_user(*to, (User { is_liquidated: val, ..old(e)@.user(*to) })),
        final(e)@.users_distinct(),
{
    let mut u = get_user_balance(e, to);
    u.is_liquidated = val;
    put_user(e, to, u);
}

/// Whether `to` received at least as much in the swap as it has returned.
pub fn has_not_repaid(e: &Swap, to: &Address) -> (r: bool)
    requires
        e@.users_distinct(),
    ensures
        r == (e@.counters(*to).swapped_amount >= e@.counters(*to).returned_amount),
{
    let swapped_amount = get_swapped_amount(e, to);
    let returned_amount = get_returned_amount(e, to);
    swapped_amount >= returned_amount
}

} // verus!
