use vstd::prelude::*;
use crate::model::{counters_not_negative, lemma_tally_push, tally, Ledger, Tally};
use crate::storage::Swap;
use crate::types::address::Address;
use crate::types::token::Token;
use crate::types::user::{Participant, User};

verus! {

/// Where no counter is negative, the tally of the first `n` participants is
/// at most the tally of all.
pub proof fn lemma_tally_prefix(users: Seq<Participant>, n: int, token_a: Address, side_a: bool)
    requires
        0 <= n <= users.len(),
        forall|j: int| 0 <= j < users.len() ==> counters_not_negative(#[trigger] users[j].balance),
    ensures
        ({
            let part = tally(users.subrange(0, n), token_a, side_a);
            let all = tally(users, token_a, side_a);
            &&& 0 <= part.deposited <= all.deposited
            &&& 0 <= part.collateral <= all.collateral
            &&& 0 <= part.swapped <= all.swapped
            &&& 0 <= part.returned <= all.returned
            &&& 0 <= part.reclaimed <= all.reclaimed
            &&& 0 <= part.withdrawn_collateral <= all.withdrawn_collateral
        }),
    decreases users.len() - n,
{
    if n == users.len() {
        assert(users.subrange(0, n) =~= users);
        crate::model::lemma_tally_bounds(users, token_a, side_a);
    } else {
        lemma_tally_prefix(users, n + 1, token_a, side_a);
        assert(users.subrange(0, n + 1) =~= users.subrange(0, n).push(users[n]));
        lemma_tally_push(users.subrange(0, n), users[n], token_a, side_a);
        assert(counters_not_negative(users[n].balance));
        assert forall|j: int| 0 <= j < n implies counters_not_negative(
            #[trigger] users.subrange(0, n)[j].balance,
        ) by {
            assert(users.subrange(0, n)[j] == users[j]);
        }
        crate::model::lemma_tally_bounds(users.subrange(0, n), token_a, side_a);
    }
}

/// Sums of counters, as computed.
pub struct Sums {
    pub deposited: i128,
    pub collateral: i128,
    pub swapped: i128,
    pub returned: i128,
    pub reclaimed: i128,
    pub withdrawn_collateral: i128,
}

impl View for Sums {
    type V = Tally;

    open spec fn view(&self) -> Tally {
        Tally {
            deposited: self.deposited as int,
            collateral: self.collateral as int,
            swapped: self.swapped as int,
            returned: self.returned as int,
            reclaimed: self.reclaimed as int,
            withdrawn_collateral: self.withdrawn_collateral as int,
        }
    }
}

/// Whether every counter of the tally fits `i128`.
pub open spec fn tally_fits(t: Tally) -> bool {
    &&& t.deposited <= i128::MAX
    &&& t.collateral <= i128::MAX
    &&& t.swapped <= i128::MAX
    &&& t.returned <= i128::MAX
    &&& t.reclaimed <= i128::MAX
    &&& t.withdrawn_collateral <= i128::MAX
}

/// The sums with the counters of `u` added, or `None` where one leaves `i128`.
fn add_counters(sums: &Sums, u: &User) -> (r: Option<Sums>)
    requires
        counters_not_negative(*u),
        sums.deposited >= 0,
        sums.collateral >= 0,
        sums.swapped >= 0,
        sums.returned >= 0,
        sums.reclaimed >= 0,
        sums.withdrawn_collateral >= 0,
    ensures
        r.is_some() == tally_fits(sums@.plus(*u)),
        r.is_some() ==> r.unwrap()@ == sums@.plus(*u),
{
    let deposited: i128 = match sums.deposited.checked_add(u.deposited_amount) {
        Some(v) => v,
        None => {
            return None;
        },
    };
    let collateral: i128 = match sums.collateral.checked_add(u.collateral) {
        Some(v) => v,
        None => {
            return None;
        },
    };
    let swapped: i128 = match sums.swapped.checked_add(u.swapped_amount) {
        Some(v) => v,
        None => {
            return None;
        },
    };
    let returned: i128 = match sums.returned.checked_add(u.returned_amount) {
        Some(v) => v,
        None => {
            return None;
        },
    };
    let reclaimed: i128 = match sums.reclaimed.checked_add(u.reclaimed_amount) {
        Some(v) => v,
        None => {
            return None;
        },
    };
    let withdrawn_collateral: i128 = match sums.withdrawn_collateral.checked_add(
        u.withdrawn_collateral,
    ) {
        Some(v) => v,
        None => {
            return None;
        },
    };
    Some(Sums { deposited, collateral, swapped, returned, reclaimed, withdrawn_collateral })
}

/// Whether no counter of the aggregate is negative and no more was swapped
/// out of the asset than was deposited in it.
pub fn token_ok(t: &Token) -> (ok: bool)
    ensures
        ok == Ledger::token_ok(*t),
{
    t.deposited_amount >= 0 && t.swapped_amount >= 0 && t.swapped_amount <= t.deposited_amount
        && t.returned_amount >= 0 && t.withdrawn_amount >= 0 && t.reclaimed_amount >= 0
        && t.collateral_amount >= 0 && t.withdrawn_collateral >= 0
}

/// Whether the record is sound in the contract `e`.
pub fn user_ok(e: &Swap, u: &User) -> (ok: bool)
    ensures
        ok == e@.user_ok(*u),
{
    (u.deposited_token == e.token_a.address || u.deposited_token == e.token_b.address)
        && u.deposited_amount >= 0 && u.swapped_amount >= 0 && u.returned_amount >= 0
        && u.withdrawn_amount >= 0 && u.reclaimed_amount >= 0 && u.collateral >= 0
        && u.withdrawn_collateral >= 0 && u.withdrawn_collateral <= u.collateral
}

/// Whether every record is sound and no two records have the same address.
fn users_ok(e: &Swap) -> (ok: bool)
    ensures
        ok == (e@.users_distinct() && forall|i: int|
            0 <= i < e@.users.len() ==> e@.user_ok(#[trigger] e@.users[i].balance)),
{
    let mut i: usize = 0;
    while i < e.users.len()
        invariant
            0 <= i <= e.users.len(),
            forall|m: int| 0 <= m < i ==> e@.user_ok(#[trigger] e@.users[m].balance),
            forall|a: int, b: int|
                0 <= a < i && 0 <= b < i && a != b ==> (#[trigger] e@.users[a]).address != (
                #[trigger] e@.users[b]).address,
        decreases e.users.len() - i,
    {
        if !user_ok(e, &e.users[i].balance) {
            return false;
        }
        let mut j: usize = 0;
        while j < i
            invariant
                0 <= j <= i < e.users.len(),
                forall|b: int| 0 <= b < j ==> (#[trigger] e@.users[b]).address != e@.users[i as int].address,
            decreases i - j,
        {
            if e.users[j].address == e.users[i].address {
                assert(e@.users[j as int].address == e@.users[i as int].address);
                return false;
            }
            j = j + 1;
        }
        i = i + 1;
    }
    true
}

/// The sums of the counters of the participants on both sides, or `None`
/// where a sum leaves `i128`.
fn tallies(e: &Swap) -> (r: Option<(Sums, Sums)>)
    requires
        forall|i: int| 0 <= i < e@.users.len() ==> e@.user_ok(#[trigger] e@.users[i].balance),
    ensures
        r.is_some() == (tally_fits(tally(e@.users, e@.token_a.address, true)) && tally_fits(
            tally(e@.users, e@.token_a.address, false),
        )),
        r.is_some() ==> r.unwrap().0@ == tally(e@.users, e@.token_a.address, true) && r.unwrap().1@
            == tally(e@.users, e@.token_a.address, false),
{
    let ghost users = e@.users;
    let ghost token_a = e@.token_a.address;
    let mut on_a = Sums {
        deposited: 0,
        collateral: 0,
        swapped: 0,
        returned: 0,
        reclaimed: 0,
        withdrawn_collateral: 0,
    };
    let mut on_b = Sums {
        deposited: 0,
        collateral: 0,
        swapped: 0,
        returned: 0,
        reclaimed: 0,
        withdrawn_collateral: 0,
    };
    proof {
        assert forall|j: int| 0 <= j < users.len() implies counters_not_negative(
            #[trigger] users[j].balance,
        ) by {
            assert(e@.user_ok(users[j].balance));
        }
        assert(users.subrange(0, 0) =~= Seq::<Participant>::empty());
    }
    let mut i: usize = 0;
    while i < e.users.len()
        invariant
            0 <= i <= e.users.len(),
            users == e@.users,
            token_a == e@.token_a.address,
            forall|j: int| 0 <= j < users.len() ==> counters_not_negative(#[trigger] users[j].balance),
            on_a@ == tally(users.subrange(0, i as int), token_a, true),
            on_b@ == tally(users.subrange(0, i as int), token_a, false),
        decreases e.users.len() - i,
    {
        let balance = e.users[i].balance;
        proof {
            assert(users.subrange(0, i as int + 1) =~= users.subrange(0, i as int).push(
                users[i as int],
            ));
            lemma_tally_push(users.subrange(0, i as int), users[i as int], token_a, true);
            lemma_tally_push(users.subrange(0, i as int), users[i as int], token_a, false);
            lemma_tally_prefix(users, i as int, token_a, true);
            lemma_tally_prefix(users, i as int, token_a, false);
            lemma_tally_prefix(users, i as int + 1, token_a, true);
            lemma_tally_prefix(users, i as int + 1, token_a, false);
            assert(counters_not_negative(users[i as int].balance));
        }
        if balance.deposited_token == e.token_a.address {
            match add_counters(&on_a, &balance) {
                Some(sums) => {
                    on_a = sums;
                },
                None => {
                    return None;
                },
            }
        } else {
            match add_counters(&on_b, &balance) {
                Some(sums) => {
                    on_b = sums;
                },
                None => {
                    return None;
                },
            }
        }
        i = i + 1;
    }
    proof {
        assert(users.subrange(0, users.len() as int) =~= users);
    }
    Some((on_a, on_b))
}

impl Swap {
    /// Whether the contract is well formed: whether its records and
    /// aggregates are sound and its books balanced. Every operation keeps a
    /// well-formed contract well formed; a contract that was put together or
    /// brought back from storage by other means can be tested here.
    pub fn is_well_formed(&self) -> (ok: bool)
        ensures
            ok == self@.wf(),
    {
        if self.admin.is_none() && self.users.len() != 0 {
            return false;
        }
        if !token_ok(&self.token_a) || !token_ok(&self.token_b) {
            return false;
        }
        if self.position_a.deposit_amount < 0 || self.position_b.deposit_amount < 0 {
            return false;
        }
        if self.position_a.used > self.position_a.limit || self.position_b.used
            > self.position_b.limit {
            return false;
        }
        if !users_ok(self) {
            return false;
        }
        match tallies(self) {
            Some((a, b)) => {
                self.token_a.deposited_amount == a.deposited && self.token_a.collateral_amount
                    == a.collateral && self.token_a.reclaimed_amount == a.reclaimed
                    && self.token_a.swapped_amount == b.swapped && self.token_a.returned_amount
                    == b.returned && self.token_a.withdrawn_collateral >= a.withdrawn_collateral
                    && self.token_b.deposited_amount == b.deposited
                    && self.token_b.collateral_amount == b.collateral
                    && self.token_b.reclaimed_amount == b.reclaimed && self.token_b.swapped_amount
                    == a.swapped && self.token_b.returned_amount == a.returned
                    && self.token_b.withdrawn_collateral >= b.withdrawn_collateral
            },
            None => false,
        }
    }
}

} // verus!
