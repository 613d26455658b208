use vstd::prelude::*;
use crate::model::Ledger;
use crate::rates::{
    checked_to_counterpart, checked_to_own, fits, lemma_convert_floor, to_counterpart,
    to_counterpart_fits, to_own, to_own_fits,
};
use crate::storage::Swap;
use crate::types::address::Address;
use crate::types::position::Position;

verus! {

/// The number of valid positions among the first `n` of `ps`.
pub open spec fn valid_count(ps: Seq<Position>, n: int) -> int
    decreases n,
{
    if n <= 0 {
        0
    } else {
        valid_count(ps, n - 1) + if ps[n - 1].is_valid {
            1int
        } else {
            0int
        }
    }
}

/// The number of valid positions of `user` among the first `n` of `ps`.
pub open spec fn owned_count(ps: Seq<Position>, user: Address, n: int) -> int
    decreases n,
{
    if n <= 0 {
        0
    } else {
        owned_count(ps, user, n - 1) + if ps[n - 1].is_valid && ps[n - 1].address == user {
            1int
        } else {
            0int
        }
    }
}

/// Whether the walk stops at position `k`: it is the first valid position at
/// which the value of the slots walked, `unit` each, reaches `total`.
pub open spec fn is_stop(ps: Seq<Position>, unit: int, total: int, k: int) -> bool {
    &&& 0 <= k < ps.len()
    &&& ps[k].is_valid
    &&& valid_count(ps, k + 1) * unit >= total
    &&& (valid_count(ps, k) == 0 || valid_count(ps, k) * unit < total)
}

/// Whether the walk stops at all.
pub open spec fn stops(ps: Seq<Position>, unit: int, total: int) -> bool {
    exists|k: int| is_stop(ps, unit, total, k)
}

/// The position at which the walk stops, if it does.
pub open spec fn stop_index(ps: Seq<Position>, unit: int, total: int) -> int {
    choose|k: int| is_stop(ps, unit, total, k)
}

/// How many positions the walk covers: up to and including the stop, or all.
pub open spec fn walked(ps: Seq<Position>, unit: int, total: int) -> int {
    if stops(ps, unit, total) {
        stop_index(ps, unit, total) + 1
    } else {
        ps.len() as int
    }
}

/// Whether the walk stops at a position of `user`.
pub open spec fn stops_at_own(ps: Seq<Position>, user: Address, unit: int, total: int) -> bool {
    stops(ps, unit, total) && ps[stop_index(ps, unit, total)].address == user
}

/// The value walked past `total` when the walk stops.
pub open spec fn surplus(ps: Seq<Position>, unit: int, total: int) -> int {
    valid_count(ps, walked(ps, unit, total)) * unit - total
}

/// How much of the deposit of `user` is matched against the opposing pool.
///
/// The valid positions of `ps` are walked in order. Each is a slot of
/// `slot` native units, worth `unit` in the opposing asset. The walk stops at
/// the first position at which the worth walked reaches `total`, the whole
/// deposit of the opposing pool. The slots of `user` that were walked are
/// matched; where the walk stops at one of them, the worth walked past
/// `total` is taken off, converted back at `spot_rate`, down to zero at most.
pub open spec fn matched_amount(
    ps: Seq<Position>,
    user: Address,
    total: int,
    slot: int,
    unit: int,
    side_a: bool,
    spot_rate: int,
) -> int {
    let owned = owned_count(ps, user, walked(ps, unit, total)) * slot;
    if stops_at_own(ps, user, unit, total) {
        let rest = owned - to_own(side_a, surplus(ps, unit, total), spot_rate);
        if rest > 0 {
            rest
        } else {
            0
        }
    } else {
        owned
    }
}

/// Whether `matched_amount` can be computed in `i128`: the worth walked, the
/// slots of `user` walked, and the conversion of the surplus all fit.
pub open spec fn matched_amount_fits(
    ps: Seq<Position>,
    user: Address,
    total: int,
    slot: int,
    unit: int,
    side_a: bool,
    spot_rate: int,
) -> bool {
    &&& fits(valid_count(ps, walked(ps, unit, total)) * unit)
    &&& fits(owned_count(ps, user, walked(ps, unit, total)) * slot)
    &&& stops_at_own(ps, user, unit, total) ==> to_own_fits(
        side_a,
        surplus(ps, unit, total),
        spot_rate,
    )
}

/// Counts do not decrease along the list, and the positions of one user are
/// among the valid ones.
pub proof fn lemma_counts_monotonic(ps: Seq<Position>, user: Address, m: int, n: int)
    requires
        0 <= m <= n,
    ensures
        0 <= valid_count(ps, m) <= valid_count(ps, n),
        0 <= owned_count(ps, user, m) <= owned_count(ps, user, n),
        owned_count(ps, user, n) <= valid_count(ps, n),
        valid_count(ps, n) <= n,
    decreases n,
{
    if n > 0 {
        if m < n {
            lemma_counts_monotonic(ps, user, m, n - 1);
        } else {
            lemma_counts_monotonic(ps, user, m - 1, n - 1);
        }
    }
}

/// The walk stops at one position at most.
pub proof fn lemma_stop_unique(ps: Seq<Position>, unit: int, total: int, k1: int, k2: int)
    requires
        unit >= 0,
        is_stop(ps, unit, total, k1),
        is_stop(ps, unit, total, k2),
    ensures
        k1 == k2,
{
    let nobody = Address { is_contract: false, hi: 0, lo: 0 };
    if k1 < k2 {
        lemma_counts_monotonic(ps, nobody, k1 + 1, k2);
        lemma_counts_monotonic(ps, nobody, 0, k1);
        let early: int = valid_count(ps, k1 + 1);
        let late: int = valid_count(ps, k2);
        assert(early * unit <= late * unit) by (nonlinear_arith)
            requires
                0 <= early <= late,
                unit >= 0,
        ;
    } else if k2 < k1 {
        lemma_counts_monotonic(ps, nobody, k2 + 1, k1);
        lemma_counts_monotonic(ps, nobody, 0, k2);
        let early: int = valid_count(ps, k2 + 1);
        let late: int = valid_count(ps, k1);
        assert(early * unit <= late * unit) by (nonlinear_arith)
            requires
                0 <= early <= late,
                unit >= 0,
        ;
    }
}

/// Where the worth of the valid positions among the first `n` has not reached
/// `total`, the walk does not stop among them.
pub proof fn lemma_no_stop_before(ps: Seq<Position>, unit: int, total: int, n: int, k: int)
    requires
        unit >= 0,
        0 <= k < n <= ps.len(),
        valid_count(ps, n) == 0 || valid_count(ps, n) * unit < total,
    ensures
        !is_stop(ps, unit, total, k),
{
    let nobody = Address { is_contract: false, hi: 0, lo: 0 };
    lemma_counts_monotonic(ps, nobody, k + 1, n);
    lemma_counts_monotonic(ps, nobody, 0, k);
    if ps[k].is_valid {
        let early: int = valid_count(ps, k + 1);
        let late: int = valid_count(ps, n);
        assert(early == valid_count(ps, k) + 1);
        assert(early * unit <= late * unit) by (nonlinear_arith)
            requires
                0 <= early <= late,
                unit >= 0,
        ;
    }
}

/// A product with a factor that is not negative grows with the other factor.
pub proof fn lemma_product_monotonic(m: int, n: int, unit: int)
    requires
        m <= n,
        unit >= 0,
    ensures
        m * unit <= n * unit,
{
    assert(m * unit <= n * unit) by (nonlinear_arith)
        requires
            m <= n,
            unit >= 0,
    ;
}

/// One more slot of worth: `(n + 1) * unit == n * unit + unit`.
pub proof fn lemma_count_step(n: int, unit: int)
    ensures
        (n + 1) * unit == n * unit + unit,
        n >= 0 && unit >= 0 ==> n * unit >= 0,
{
    assert((n + 1) * unit == n * unit + unit) by (nonlinear_arith);
    assert(n >= 0 && unit >= 0 ==> n * unit >= 0) by (nonlinear_arith);
}

/// `calculate_used_deposited_amount`, or `None` where a step leaves `i128`.
pub fn checked_used_deposited_amount(
    user: &Address,
    used_positions: &Vec<Position>,
    total_other_deposited_amount: i128,
    base_deposit_amount: i128,
    base_converted_amount: i128,
    side_a: bool,
    spot_rate: i128,
) -> (r: Option<i128>)
    requires
        total_other_deposited_amount >= 0,
        base_deposit_amount >= 0,
        base_converted_amount >= 0,
        spot_rate > 0,
    ensures
        r.is_some() == matched_amount_fits(
            used_positions@,
            *user,
            total_other_deposited_amount as int,
            base_deposit_amount as int,
            base_converted_amount as int,
            side_a,
            spot_rate as int,
        ),
        r.is_some() ==> r.unwrap() == matched_amount(
            used_positions@,
            *user,
            total_other_deposited_amount as int,
            base_deposit_amount as int,
            base_converted_amount as int,
            side_a,
            spot_rate as int,
        ),
{
    let ghost ps = used_positions@;
    let ghost unit = base_converted_amount as int;
    let ghost slot = base_deposit_amount as int;
    let ghost total = total_other_deposited_amount as int;
    let mut used_amount: i128 = 0;
    let mut acum: i128 = 0;
    let mut i: usize = 0;
    while i < used_positions.len()
        invariant
            0 <= i <= used_positions.len(),
            ps == used_positions@,
            unit == base_converted_amount as int,
            slot == base_deposit_amount as int,
            total == total_other_deposited_amount as int,
            unit >= 0,
            slot >= 0,
            total >= 0,
            spot_rate > 0,
            acum == valid_count(ps, i as int) * unit,
            used_amount == owned_count(ps, *user, i as int) * slot,
            valid_count(ps, i as int) == 0 || valid_count(ps, i as int) * unit < total,
        decreases used_positions.len() - i,
    {
        let position = used_positions[i];
        proof {
            lemma_count_step(valid_count(ps, i as int), unit);
            lemma_count_step(owned_count(ps, *user, i as int), slot);
            lemma_counts_monotonic(ps, *user, 0, i as int);
            lemma_counts_monotonic(ps, *user, i as int, i as int + 1);
        }
        if position.is_valid {
            let ghost stopping = valid_count(ps, i as int + 1) * unit >= total;
            proof {
                if stopping {
                    assert(is_stop(ps, unit, total, i as int));
                    assert forall|k: int| is_stop(ps, unit, total, k) implies k == i by {
                        lemma_stop_unique(ps, unit, total, k, i as int);
                    }
                    assert(stop_index(ps, unit, total) == i);
                    assert(walked(ps, unit, total) == i + 1);
                } else {
                    assert forall|k: int| 0 <= k < i + 1 implies !is_stop(ps, unit, total, k) by {
                        lemma_no_stop_before(ps, unit, total, i as int + 1, k);
                    }
                    lemma_walk_covers(ps, *user, unit, total, i as int + 1);
                }
                lemma_product_monotonic(
                    valid_count(ps, i as int + 1),
                    valid_count(ps, walked(ps, unit, total)),
                    unit,
                );
                lemma_product_monotonic(
                    owned_count(ps, *user, i as int + 1),
                    owned_count(ps, *user, walked(ps, unit, total)),
                    slot,
                );
            }
            acum = match acum.checked_add(base_converted_amount) {
                Some(sum) => sum,
                None => {
                    return None;
                },
            };
            if position.address == *user {
                used_amount = match used_amount.checked_add(base_deposit_amount) {
                    Some(sum) => sum,
                    None => {
                        return None;
                    },
                };
                if acum >= total_other_deposited_amount {
                    let over: i128 = acum - total_other_deposited_amount;
                    match checked_to_own(side_a, over, spot_rate) {
                        Some(surplus) => {
                            proof {
                                lemma_convert_floor(over as int, spot_rate as int);
                            }
                            let rest: i128 = used_amount - surplus;
                            return Some(if rest > 0 { rest } else { 0 });
                        },
                        None => {
                            return None;
                        },
                    }
                }
            }
            if acum >= total_other_deposited_amount {
                return Some(used_amount);
            }
        }
        i = i + 1;
    }
    proof {
        assert forall|k: int| !is_stop(ps, unit, total, k) by {
            if 0 <= k < ps.len() {
                lemma_no_stop_before(ps, unit, total, ps.len() as int, k);
            }
        }
    }
    Some(used_amount)
}

/// Where the walk does not stop among the first `n` positions, it covers at
/// least those, and the counts over what it covers are at least the counts
/// over them.
pub proof fn lemma_walk_covers(ps: Seq<Position>, user: Address, unit: int, total: int, n: int)
    requires
        0 <= n <= ps.len(),
        forall|k: int| 0 <= k < n ==> !is_stop(ps, unit, total, k),
    ensures
        n <= walked(ps, unit, total) <= ps.len(),
        valid_count(ps, n) <= valid_count(ps, walked(ps, unit, total)),
        owned_count(ps, user, n) <= owned_count(ps, user, walked(ps, unit, total)),
{
    if stops(ps, unit, total) {
        let k = stop_index(ps, unit, total);
        assert(is_stop(ps, unit, total, k));
        assert(k >= n);
    }
    lemma_counts_monotonic(ps, user, n, walked(ps, unit, total));
}

impl Ledger {
    /// The worth of one slot of a side in the opposing asset, at the spot rate.
    pub open spec fn slot_worth(self, side_a: bool) -> int {
        to_counterpart(side_a, self.pool_of(side_a).deposit_amount as int, self.spot_rate as int)
    }

    /// How much of the deposit of `who` is matched, were it on the given side.
    pub open spec fn used_deposit_on(self, who: Address, side_a: bool) -> int {
        matched_amount(
            self.positions_of(side_a),
            who,
            self.token_of(!side_a).deposited_amount as int,
            self.pool_of(side_a).deposit_amount as int,
            self.slot_worth(side_a),
            side_a,
            self.spot_rate as int,
        )
    }

    /// How much of the deposit of `who` is matched against the opposing pool:
    /// the walk of `matched_amount` over the position list of its side.
    pub open spec fn used_deposit(self, who: Address) -> int {
        self.used_deposit_on(who, self.user_on_a(who))
    }

    /// Whether `used_deposit_on` can be computed: the spot rate is positive
    /// and every step fits `i128`.
    pub open spec fn used_deposit_on_defined(self, who: Address, side_a: bool) -> bool {
        &&& self.spot_rate > 0
        &&& to_counterpart_fits(
            side_a,
            self.pool_of(side_a).deposit_amount as int,
            self.spot_rate as int,
        )
        &&& matched_amount_fits(
            self.positions_of(side_a),
            who,
            self.token_of(!side_a).deposited_amount as int,
            self.pool_of(side_a).deposit_amount as int,
            self.slot_worth(side_a),
            side_a,
            self.spot_rate as int,
        )
    }

    /// Whether `used_deposit` can be computed.
    pub open spec fn used_deposit_defined(self, who: Address) -> bool {
        self.used_deposit_on_defined(who, self.user_on_a(who))
    }
}

/// The matched amount is never negative.
pub proof fn lemma_matched_amount_not_negative(
    ps: Seq<Position>,
    user: Address,
    total: int,
    slot: int,
    unit: int,
    side_a: bool,
    spot_rate: int,
)
    requires
        slot >= 0,
    ensures
        matched_amount(ps, user, total, slot, unit, side_a, spot_rate) >= 0,
{
    let n = walked(ps, unit, total);
    if stops(ps, unit, total) {
        assert(is_stop(ps, unit, total, stop_index(ps, unit, total)));
    }
    lemma_counts_monotonic(ps, user, 0, n);
    lemma_count_step(owned_count(ps, user, n), slot);
}

/// How much of a deposit the walk matches, where every step fits `i128`.
pub fn calculate_used_deposited_amount(
    user: &Address,
    used_positions: &Vec<Position>,
    total_other_deposited_amount: i128,
    base_deposit_amount: i128,
    base_converted_amount: i128,
    side_a: bool,
    spot_rate: i128,
) -> (r: i128)
    requires
        total_other_deposited_amount >= 0,
        base_deposit_amount >= 0,
        base_converted_amount >= 0,
        spot_rate > 0,
        matched_amount_fits(
            used_positions@,
            *user,
            total_other_deposited_amount as int,
            base_deposit_amount as int,
            base_converted_amount as int,
            side_a,
            spot_rate as int,
        ),
    ensures
        r == matched_amount(
            used_positions@,
            *user,
            total_other_deposited_amount as int,
            base_deposit_amount as int,
            base_converted_amount as int,
            side_a,
            spot_rate as int,
        ),
        r >= 0,
{
    proof {
        lemma_matched_amount_not_negative(
            used_positions@,
            *user,
            total_other_deposited_amount as int,
            base_deposit_amount as int,
            base_converted_amount as int,
            side_a,
            spot_rate as int,
        );
    }
    let walk = checked_used_deposited_amount(
        user,
        used_positions,
        total_other_deposited_amount,
        base_deposit_amount,
        base_converted_amount,
        side_a,
        spot_rate,
    );
    walk.unwrap()
}

/// `get_used_deposited_amount`, or `None` where it cannot be computed: the
/// spot rate is not positive, or a step leaves `i128`.
pub fn checked_used_deposit(e: &Swap, user: &Address) -> (r: Option<i128>)
    requires
        e@.wf(),
        e@.has_user(*user),
    ensures
        r.is_some() == e@.used_deposit_defined(*user),
        r.is_some() ==> r.unwrap() == e@.used_deposit(*user) && r.unwrap() >= 0,
{
    let spot_rate = e.spot_rate;
    if spot_rate <= 0 {
        return None;
    }
    let found = crate::user::find_user(e, user);
    let side_a = e.users[found.unwrap()].balance.deposited_token == e.token_a.address;
    let slot: i128 = if side_a {
        e.position_a.deposit_amount
    } else {
        e.position_b.deposit_amount
    };
    let total: i128 = if side_a {
        e.token_b.deposited_amount
    } else {
        e.token_a.deposited_amount
    };
    let unit: i128 = match checked_to_counterpart(side_a, slot, spot_rate) {
        Some(unit) => unit,
        None => {
            return None;
        },
    };
    proof {
        lemma_convert_floor(slot as int, spot_rate as int);
        lemma_matched_amount_not_negative(
            e@.positions_of(side_a),
            *user,
            total as int,
            slot as int,
            unit as int,
            side_a,
            spot_rate as int,
        );
    }
    if side_a {
        checked_used_deposited_amount(
            user,
            &e.used_positions_a,
            total,
            slot,
            unit,
            side_a,
            spot_rate,
        )
    } else {
        checked_used_deposited_amount(
            user,
            &e.used_positions_b,
            total,
            slot,
            unit,
            side_a,
            spot_rate,
        )
    }
}

/// How much of the deposit of `user` is matched against the opposing pool.
pub fn get_used_deposited_amount(e: &Swap, user: &Address) -> (r: i128)
    requires
        e@.wf(),
        e@.has_user(*user),
        e@.used_deposit_defined(*user),
    ensures
        r == e@.used_deposit(*user),
        r >= 0,
{
    let amount = checked_used_deposit(e, user).unwrap();
    if amount > 0 {
        amount
    } else {
        0
    }
}

} // verus!
