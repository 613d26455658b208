use vstd::prelude::*;
use crate::clock::get_stage;
use crate::margin::{checked_min_collateral, get_min_collateral};
use crate::model::Ledger;
use crate::position::{get_used_positions_a, get_used_positions_b};
use crate::storage::{get_admin, get_spot_rate, Swap};
use crate::token_data::{get_token_a, get_token_b};
use crate::types::address::Address;
use crate::types::position::Position;
use crate::types::stage::Stage;
use crate::types::token::Token;
use crate::types::user::User;
use crate::types::user_liq_data::UserLiqData;
use crate::user::{find_user, get_collateral, get_swapped_amount, get_user_balance, is_liquidated};

verus! {

/// Whether the addresses stand in strictly rising order, so that none occurs twice.
pub open spec fn strictly_rising(s: Seq<Address>) -> bool {
    forall|i: int, j: int| 0 <= i < j < s.len() ==> (#[trigger] s[i]).lt(#[trigger] s[j])
}

/// Whether `a` is the address of one of the positions.
pub open spec fn holds_position(ps: Seq<Position>, a: Address) -> bool {
    exists|k: int| 0 <= k < ps.len() && (#[trigger] ps[k]).address == a
}

/// The addresses of the positions, each once, in rising order.
pub fn unique_addresses(positions: &Vec<Position>) -> (r: Vec<Address>)
    ensures
        strictly_rising(r@),
        forall|a: Address| r@.contains(a) <==> holds_position(positions@, a),
{
    let mut out: Vec<Address> = Vec::new();
    let mut n: usize = 0;
    while n < positions.len()
        invariant
            0 <= n <= positions.len(),
            strictly_rising(out@),
            forall|a: Address|
                out@.contains(a) <==> holds_position(positions@.subrange(0, n as int), a),
        decreases positions.len() - n,
    {
        let address = positions[n].address;
        let ghost seen = positions@.subrange(0, n as int);
        let ghost seen_next = positions@.subrange(0, n as int + 1);
        let ghost was = out@;
        let mut k: usize = 0;
        while k < out.len() && out[k].precedes(&address)
            invariant
                0 <= k <= out.len(),
                forall|m: int| 0 <= m < k ==> (#[trigger] out@[m]).lt(address),
            decreases out.len() - k,
        {
            k = k + 1;
        }
        let present = k < out.len() && out[k] == address;
        if !present {
            out.insert(k, address);
            proof {
                assert forall|i: int, j: int| 0 <= i < j < out@.len() implies (#[trigger] out@[i]).lt(
                    #[trigger] out@[j],
                ) by {
                    if j < k {
                        assert(out@[i] == was[i] && out@[j] == was[j]);
                    } else if j == k {
                        assert(out@[i] == was[i]);
                    } else if i == k {
                        assert(out@[j] == was[j - 1]);
                        Address::lemma_lt_total(was[k as int], address);
                        if j - 1 > k {
                            assert(was[k as int].lt(was[j - 1]));
                            Address::lemma_lt_transitive(address, was[k as int], was[j - 1]);
                        }
                    } else if i < k {
                        assert(out@[i] == was[i] && out@[j] == was[j - 1]);
                    } else {
                        assert(out@[i] == was[i - 1] && out@[j] == was[j - 1]);
                    }
                }
            }
        }
        proof {
            assert forall|a: Address| out@.contains(a) <==> holds_position(seen_next, a) by {
                if out@.contains(a) {
                    let i = choose|i: int| 0 <= i < out@.len() && out@[i] == a;
                    if a == address {
                        assert(seen_next[n as int].address == a);
                    } else {
                        if present {
                            assert(was.contains(a));
                        } else {
                            if i < k {
                                assert(was[i] == a);
                            } else {
                                assert(was[i - 1] == a);
                            }
                            assert(was.contains(a));
                        }
                        let q = choose|q: int| 0 <= q < seen.len() && (#[trigger] seen[q]).address == a;
                        assert(seen_next[q].address == a);
                    }
                }
                if holds_position(seen_next, a) {
                    let q = choose|q: int|
                        0 <= q < seen_next.len() && (#[trigger] seen_next[q]).address == a;
                    if q < n {
                        assert(seen[q].address == a);
                        assert(was.contains(a));
                        let i = choose|i: int| 0 <= i < was.len() && was[i] == a;
                        if present {
                            assert(out@[i] == a);
                        } else if i < k {
                            assert(out@[i] == a);
                        } else {
                            assert(out@[i + 1] == a);
                        }
                    } else {
                        assert(a == address);
                        assert(out@[k as int] == a);
                    }
                }
            }
        }
        n = n + 1;
    }
    proof {
        assert(positions@.subrange(0, positions.len() as int) =~= positions@);
    }
    out
}

impl Ledger {
    /// The liquidation-risk snapshot of `who` at the price `spot`, taken as
    /// a participant on the given side.
    pub open spec fn liq_data(self, who: Address, spot: int, side_a: bool) -> UserLiqData {
        UserLiqData {
            address: who,
            collateral: self.counters(who).collateral,
            min_collateral: self.min_collateral(who, spot, side_a) as i128,
            is_liquidated: self.counters(who).is_liquidated,
        }
    }

    /// Whether the snapshot of every holder of one of `deposits` can be computed.
    pub open spec fn liq_data_defined(self, deposits: Seq<Position>, spot: int, side_a: bool) -> bool {
        forall|k: int|
            0 <= k < deposits.len() ==> self.min_collateral_fits(
                (#[trigger] deposits[k]).address,
                spot,
                side_a,
            )
    }

    /// Whether `snapshots` is the liquidation-risk snapshot of the holders of
    /// `deposits`: one entry for each address that holds one of the
    /// positions, in rising order of address, each as `liq_data` gives it.
    pub open spec fn is_liq_snapshot(
        self,
        snapshots: Seq<UserLiqData>,
        deposits: Seq<Position>,
        spot: int,
        side_a: bool,
    ) -> bool {
        &&& strictly_rising(snapshots.map_values(|d: UserLiqData| d.address))
        &&& forall|a: Address|
            snapshots.map_values(|d: UserLiqData| d.address).contains(a) <==> holds_position(
                deposits,
                a,
            )
        &&& forall|i: int|
            0 <= i < snapshots.len() ==> #[trigger] snapshots[i] == self.liq_data(
                snapshots[i].address,
                spot,
                side_a,
            )
    }
}

/// The liquidation-risk snapshot, at the price `spot_rate`, of everyone who
/// holds one of `deposits`, in rising order of address.
pub fn get_users_liq_data(
    e: &Swap,
    deposits: &Vec<Position>,
    is_deposit_token_a: bool,
    spot_rate: i128,
) -> (users: Vec<UserLiqData>)
    requires
        e@.users_distinct(),
        e@.liq_data_defined(deposits@, spot_rate as int, is_deposit_token_a),
    ensures
        e@.is_liq_snapshot(users@, deposits@, spot_rate as int, is_deposit_token_a),
{
    let unique = unique_addresses(deposits);
    let mut users: Vec<UserLiqData> = Vec::new();
    let mut i: usize = 0;
    while i < unique.len()
        invariant
            0 <= i <= unique.len(),
            e@.users_distinct(),
            e@.liq_data_defined(deposits@, spot_rate as int, is_deposit_token_a),
            forall|a: Address| unique@.contains(a) <==> holds_position(deposits@, a),
            users@.len() == i,
            forall|m: int|
                0 <= m < i ==> #[trigger] users@[m] == e@.liq_data(
                    unique@[m],
                    spot_rate as int,
                    is_deposit_token_a,
                ),
        decreases unique.len() - i,
    {
        let address = unique[i];
        proof {
            assert(unique@.contains(address));
            let k = choose|k: int| 0 <= k < deposits@.len() && (#[trigger] deposits@[k]).address == address;
            assert(e@.min_collateral_fits(deposits@[k].address, spot_rate as int, is_deposit_token_a));
        }
        users.push(
            UserLiqData {
                address,
                collateral: get_collateral(e, &address),
                min_collateral: get_min_collateral(e, &address, spot_rate, is_deposit_token_a),
                is_liquidated: is_liquidated(e, &address),
            },
        );
        i = i + 1;
    }
    proof {
        assert(users@.map_values(|d: UserLiqData| d.address) =~= unique@);
    }
    users
}

/// Whether the snapshot of every holder of one of `deposits` can be computed.
pub fn liq_data_defined(
    e: &Swap,
    deposits: &Vec<Position>,
    is_deposit_token_a: bool,
    spot_rate: i128,
) -> (ok: bool)
    requires
        e@.users_distinct(),
    ensures
        ok == e@.liq_data_defined(deposits@, spot_rate as int, is_deposit_token_a),
{
    let mut k: usize = 0;
    while k < deposits.len()
        invariant
            0 <= k <= deposits.len(),
            e@.users_distinct(),
            forall|m: int|
                0 <= m < k ==> e@.min_collateral_fits(
                    (#[trigger] deposits@[m]).address,
                    spot_rate as int,
                    is_deposit_token_a,
                ),
        decreases deposits.len() - k,
    {
        let address = deposits[k].address;
        let swapped_amount = get_swapped_amount(e, &address);
        if checked_min_collateral(
            is_deposit_token_a,
            swapped_amount,
            e.spot_rate,
            e.forward_rate,
            spot_rate,
        ).is_none() {
            return false;
        }
        k = k + 1;
    }
    true
}

impl Swap {
    /// Whether `to` has a record.
    pub fn has_record(&self, to: &Address) -> (b: bool)
        requires
            self@.wf(),
        ensures
            b == self@.has_user(*to),
    {
        find_user(self, to).is_some()
    }

    /// Whether `users` is defined at the price `spot_price`.
    pub fn users_defined(&self, spot_price: i128) -> (ok: bool)
        requires
            self@.wf(),
        ensures
            ok == (self@.liq_data_defined(self@.used_positions_a, spot_price as int, true)
                && self@.liq_data_defined(self@.used_positions_b, spot_price as int, false)),
    {
        liq_data_defined(self, &self.used_positions_a, true, spot_price) && liq_data_defined(
            self,
            &self.used_positions_b,
            false,
            spot_price,
        )
    }

    /// The record of `to`, which must have one.
    pub fn balance(&self, to: &Address) -> (r: User)
        requires
            self@.wf(),
            self@.has_user(*to),
        ensures
            r == self@.user(*to),
    {
        get_user_balance(self, to)
    }

    /// The spot rate; zero while none was captured.
    pub fn spot_rate(&self) -> (r: i128)
        ensures
            r == self@.spot_rate,
    {
        get_spot_rate(self)
    }

    /// The administrator of a contract that was initialized.
    pub fn admin(&self) -> (r: Address)
        requires
            self@.is_initialized(),
        ensures
            Some(r) == self@.admin,
    {
        get_admin(self).unwrap()
    }

    /// The aggregates of asset A and of asset B.
    pub fn tokens(&self) -> (r: (Token, Token))
        ensures
            r == (self@.token_a, self@.token_b),
    {
        let token_a = get_token_a(self);
        let token_b = get_token_b(self);
        (token_a, token_b)
    }

    /// The stage at time `now`.
    pub fn stage(&self, now: u64) -> (r: Stage)
        ensures
            r == self@.stage(now),
    {
        get_stage(self, now)
    }

    /// The position lists of asset A and of asset B.
    pub fn deposits(&self) -> (r: (Vec<Position>, Vec<Position>))
        ensures
            r.0@ == self@.used_positions_a,
            r.1@ == self@.used_positions_b,
    {
        (get_used_positions_a(self), get_used_positions_b(self))
    }

    /// The liquidation-risk snapshots, at the price `spot_price` that the
    /// oracle gave, of the holders of positions of asset A and of asset B.
    /// Whether the call is defined, `users_defined` tells.
    pub fn users(&self, spot_price: i128) -> (r: (Vec<UserLiqData>, Vec<UserLiqData>))
        requires
            self@.wf(),
            self@.liq_data_defined(self@.used_positions_a, spot_price as int, true),
            self@.liq_data_defined(self@.used_positions_b, spot_price as int, false),
        ensures
            self@.is_liq_snapshot(r.0@, self@.used_positions_a, spot_price as int, true),
            self@.is_liq_snapshot(r.1@, self@.used_positions_b, spot_price as int, false),
    {
        let deposits_a = get_used_positions_a(self);
        let deposits_b = get_used_positions_b(self);
        (
            get_users_liq_data(self, &deposits_a, true, spot_price),
            get_users_liq_data(self, &deposits_b, false, spot_price),
        )
    }
}

} // verus!
