use vstd::prelude::*;
use crate::constants::{COLLATERAL_BUFFER, COLLATERAL_THRESHOLD, DUST, SCALE, TIME_TO_REPAY};
use crate::margin::{
    due_at_forward, loss_margin, mark_to_market, min_collateral, used_of_swapped,
};
use crate::matching::{
    is_stop, lemma_counts_monotonic, lemma_matched_amount_not_negative, lemma_product_monotonic,
    lemma_stop_unique, matched_amount, owned_count, stop_index, stops, stops_at_own, surplus,
    valid_count, walked,
};
use crate::types::transfer::{Transfer, TransferKind};
use crate::model::{tally, Ledger};
use crate::rates::{
    lemma_convert_floor, lemma_convert_monotonic, lemma_floor_div_antitonic, lemma_floor_div_monotonic, lemma_percentage_floor,
    lemma_round_trip, percentage, to_counterpart, to_own,
};
use crate::types::user::User;
use crate::withdraw::{expected_withdrawal, lemma_withdrawal_signs, withdrawal};
use crate::types::address::Address;
use crate::types::position::Position;
use crate::types::stage::Stage;

verus! {

/// Conservation. In a well-formed ledger, and so after any sequence of
/// operations on a new contract, each aggregate is the sum of the
/// participants' counters: for each asset, what was deposited, put up as
/// collateral and reclaimed is the sum over the participants on that asset,
/// and what was swapped out of the asset and returned in it is the sum over
/// the participants on the other asset, who are paid and who repay in it.
/// The collateral taken out of an asset is at least what its own
/// participants took out of theirs: a withdrawal may draw on it besides.
///
/// Of what was withdrawn nothing of the kind holds of every ledger. A
/// withdrawal that finds its own asset short credits the record in its own
/// asset and the aggregate of the other asset, in which it is made up; a
/// withdrawal that is not short adds the same to record and aggregate, as
/// `law_withdraw_without_shortfall` states.
pub proof fn law_conservation(ledger: Ledger)
    requires
        ledger.wf(),
    ensures
        ledger.token_a.deposited_amount == tally(ledger.users, ledger.token_a.address, true).deposited,
        ledger.token_a.collateral_amount == tally(
            ledger.users,
            ledger.token_a.address,
            true,
        ).collateral,
        ledger.token_a.reclaimed_amount == tally(ledger.users, ledger.token_a.address, true).reclaimed,
        ledger.token_a.swapped_amount == tally(ledger.users, ledger.token_a.address, false).swapped,
        ledger.token_a.returned_amount == tally(ledger.users, ledger.token_a.address, false).returned,
        ledger.token_b.deposited_amount == tally(
            ledger.users,
            ledger.token_a.address,
            false,
        ).deposited,
        ledger.token_b.collateral_amount == tally(
            ledger.users,
            ledger.token_a.address,
            false,
        ).collateral,
        ledger.token_b.reclaimed_amount == tally(
            ledger.users,
            ledger.token_a.address,
            false,
        ).reclaimed,
        ledger.token_b.swapped_amount == tally(ledger.users, ledger.token_a.address, true).swapped,
        ledger.token_b.returned_amount == tally(ledger.users, ledger.token_a.address, true).returned,
        ledger.token_a.withdrawn_collateral >= tally(
            ledger.users,
            ledger.token_a.address,
            true,
        ).withdrawn_collateral,
        ledger.token_b.withdrawn_collateral >= tally(
            ledger.users,
            ledger.token_a.address,
            false,
        ).withdrawn_collateral,
{
}

/// Records only grow. Every settlement operation continues the ledger, as
/// its contract states; continuation leads from a ledger to itself and from
/// ledger to ledger, so that after any sequence of such operations every
/// record is still there, on the asset it chose, with no counter gone down
/// and no liquidation undone, and the position lists have only been added to.
pub proof fn law_continuation(first: Ledger, second: Ledger, third: Ledger)
    requires
        first.continued_by(second),
        second.continued_by(third),
    ensures
        first.continued_by(first),
        first.continued_by(third),
{
    assert forall|who: Address| first.has_user(who) implies #[trigger] third.has_user(who)
        && crate::model::record_grown(first.user(who), third.user(who)) by {
        assert(second.has_user(who));
        assert(third.has_user(who));
    }
}

/// A deposit moves record and aggregate alike. An accepted deposit adds the
/// amount to what the participant has deposited and to what was deposited
/// in the asset, and the collateral to the collateral of both; the aggregate
/// of the other asset and the record of everyone else stay as they were.
pub proof fn law_deposit_step(
    ledger: Ledger,
    now: u64,
    from: Address,
    token: Address,
    amount: i128,
    collateral: i128,
)
    requires
        ledger.wf(),
        ledger.deposit_defined(now, from, token, amount, collateral),
        ledger.deposit_error(now, from, token, amount, collateral).is_none(),
    ensures
        ({
            let after = ledger.after_deposit(now, from, token, amount, collateral);
            let side = ledger.is_a(token);
            let was = ledger.user_or_new(from, token);
            &&& amount >= 0 && collateral >= 0
            &&& after.has_user(from)
            &&& after.user(from).deposited_amount == was.deposited_amount + amount
            &&& after.token_of(side).deposited_amount == ledger.token_of(side).deposited_amount
                + amount
            &&& after.user(from).collateral == was.collateral + collateral
            &&& after.token_of(side).collateral_amount == ledger.token_of(side).collateral_amount
                + collateral
            &&& after.token_of(!side) == ledger.token_of(!side)
            &&& forall|other: Address|
                other != from ==> after.has_user(other) == ledger.has_user(other) && (
                ledger.has_user(other) ==> after.user(other) == ledger.user(other))
        }),
{
    let after = ledger.after_deposit(now, from, token, amount, collateral);
    if ledger.has_user(from) {
        ledger.lemma_user_within_aggregates(from);
    }
    assert(amount >= 0);
    lemma_percentage_floor(amount as int, COLLATERAL_BUFFER as int);
    ledger.lemma_record_replaced(
        after,
        from,
        ledger.deposit_record(now, from, token, amount, collateral),
    );
}

/// A swap moves record and aggregate alike. What a swap credits is added to
/// what the participant has received and to what was swapped out of the
/// other asset, of which no more is swapped out than was deposited; exactly
/// that is paid out, in the other asset; the aggregate of the own asset and
/// the record of everyone else stay as they were.
pub proof fn law_swap_step(ledger: Ledger, now: u64, who: Address)
    requires
        ledger.wf(),
        ledger.stage(now) == Stage::Swap,
        ledger.has_user(who),
        ledger.swap_defined(now, who),
    ensures
        ({
            let after = ledger.after_swap(who);
            let side = ledger.user_on_a(who);
            let credited = ledger.swap_amount(who);
            &&& credited >= 0
            &&& after.user(who).swapped_amount == ledger.user(who).swapped_amount + credited
            &&& after.token_of(!side).swapped_amount == ledger.token_of(!side).swapped_amount
                + credited
            &&& after.token_of(!side).swapped_amount <= after.token_of(!side).deposited_amount
            &&& after.token_of(side) == ledger.token_of(side)
            &&& after.transfers == ledger.transfers.push(
                Transfer {
                    kind: TransferKind::Payout,
                    token: ledger.token_of(!side).address,
                    party: who,
                    amount: credited as i128,
                },
            )
            &&& forall|other: Address|
                other != who ==> after.has_user(other) == ledger.has_user(other) && (
                ledger.has_user(other) ==> after.user(other) == ledger.user(other))
        }),
{
    let after = ledger.after_swap(who);
    let side = ledger.user_on_a(who);
    let was = ledger.user(who);
    ledger.lemma_user_within_aggregates(who);
    lemma_matched_amount_not_negative(
        ledger.positions_of(side),
        who,
        ledger.token_of(!side).deposited_amount as int,
        ledger.pool_of(side).deposit_amount as int,
        ledger.slot_worth(side),
        side,
        ledger.spot_rate as int,
    );
    lemma_convert_floor(ledger.used_deposit(who), ledger.spot_rate as int);
    ledger.lemma_record_replaced(
        after,
        who,
        User { swapped_amount: (was.swapped_amount + ledger.swap_amount(who)) as i128, ..was },
    );
}

/// A repayment moves record and aggregate alike. What an accepted repayment
/// takes is above zero, at most the amount offered and at most what is still
/// owed; it is added to what the participant has returned and to what was
/// returned in the other asset; exactly that is taken into escrow, in the
/// other asset; the aggregate of the own asset and the record of everyone
/// else stay as they were.
pub proof fn law_repay_step(ledger: Ledger, from: Address, token: Address, amount: i128)
    requires
        ledger.wf(),
        ledger.repay_defined(from, token, amount),
        ledger.repay_error(from, token, amount).is_none(),
    ensures
        ({
            let after = ledger.after_repay(from, token, amount);
            let side = ledger.user_on_a(from);
            let taken = ledger.repay_amount(from, amount);
            &&& 0 < taken <= amount
            &&& ledger.user(from).returned_amount + taken <= ledger.owed(from)
            &&& after.user(from).returned_amount == ledger.user(from).returned_amount + taken
            &&& after.token_of(!side).returned_amount == ledger.token_of(!side).returned_amount
                + taken
            &&& after.token_of(side) == ledger.token_of(side)
            &&& after.transfers == ledger.transfers.push(
                Transfer { kind: TransferKind::Escrow, token, party: from, amount: taken as i128 },
            )
            &&& forall|other: Address|
                other != from ==> after.has_user(other) == ledger.has_user(other) && (
                ledger.has_user(other) ==> after.user(other) == ledger.user(other))
        }),
{
    let after = ledger.after_repay(from, token, amount);
    let was = ledger.user(from);
    ledger.lemma_user_within_aggregates(from);
    ledger.lemma_record_replaced(
        after,
        from,
        User {
            returned_amount: (was.returned_amount + ledger.repay_amount(from, amount)) as i128,
            ..was
        },
    );
}

/// A withdrawal that is not short moves record and aggregate alike. Where
/// the own asset has at hand what is expected, what is expected is paid if
/// it is above zero, and nothing else: it is added to what the participant
/// has withdrawn and to what was withdrawn from its asset; the aggregate of
/// the other asset and the record of everyone else stay as they were.
pub proof fn law_withdraw_without_shortfall(ledger: Ledger, now: u64, who: Address)
    requires
        ledger.wf(),
        ledger.withdraw_defined(now, who),
        ledger.withdraw_error(now, who).is_none(),
        !ledger.withdrawal(who).short,
    ensures
        ({
            let after = ledger.after_withdraw(who);
            let side = ledger.user_on_a(who);
            let expected = expected_withdrawal(
                side,
                ledger.user(who).returned_amount as int,
                ledger.user(who).withdrawn_amount as int,
                ledger.forward_rate as int,
            );
            let paid = if expected > 0 {
                expected
            } else {
                0
            };
            &&& expected <= ledger.withdraw_liquidity(who)
            &&& after.user(who).withdrawn_amount == ledger.user(who).withdrawn_amount + paid
            &&& after.token_of(side).withdrawn_amount == ledger.token_of(side).withdrawn_amount
                + paid
            &&& after.token_of(!side) == ledger.token_of(!side)
            &&& after.transfers == if paid > 0 {
                ledger.transfers.push(
                    Transfer {
                        kind: TransferKind::Payout,
                        token: ledger.token_of(side).address,
                        party: who,
                        amount: paid as i128,
                    },
                )
            } else {
                ledger.transfers
            }
            &&& forall|other: Address|
                other != who ==> after.has_user(other) == ledger.has_user(other) && (
                ledger.has_user(other) ==> after.user(other) == ledger.user(other))
        }),
{
    let after = ledger.after_withdraw(who);
    let was = ledger.user(who);
    let w = ledger.withdrawal(who);
    ledger.lemma_user_within_aggregates(who);
    ledger.lemma_record_replaced(
        after,
        who,
        User {
            withdrawn_amount: (was.withdrawn_amount + ledger.withdrawal_paid_own(who)
                + w.credited) as i128,
            ..was
        },
    );
}

/// Taking collateral out moves record and aggregate alike. What
/// `reclaim_col` pays is not negative; where it is above zero it is added to
/// the collateral that the participant has taken out and to the collateral
/// taken out of its asset, and exactly that is paid out; no other counter of
/// the record moves, and the aggregate of the other asset and the record of
/// everyone else stay as they were.
pub proof fn law_reclaim_col_step(ledger: Ledger, now: u64, who: Address, spot: int)
    requires
        ledger.wf(),
        ledger.stage(now) != Stage::Deposit,
        ledger.reclaim_col_defined(now, who, spot),
        ledger.reclaim_col_amount(now, who, spot) != 0,
    ensures
        ({
            let after = ledger.after_reclaim_col(now, who, spot);
            let side = ledger.user_on_a(who);
            let paid = ledger.reclaim_col_amount(now, who, spot);
            let was = ledger.user(who);
            &&& paid > 0
            &&& after.user(who) == (User {
                withdrawn_collateral: (was.withdrawn_collateral + paid) as i128,
                ..was
            })
            &&& after.user(who).withdrawn_collateral == was.withdrawn_collateral + paid
            &&& after.user(who).withdrawn_collateral <= was.collateral
            &&& after.token_of(side).withdrawn_collateral == ledger.token_of(
                side,
            ).withdrawn_collateral + paid
            &&& after.token_of(!side) == ledger.token_of(!side)
            &&& after.transfers == ledger.transfers.push(
                Transfer {
                    kind: TransferKind::Payout,
                    token: ledger.token_of(side).address,
                    party: who,
                    amount: paid as i128,
                },
            )
            &&& forall|other: Address|
                other != who ==> after.has_user(other) == ledger.has_user(other) && (
                ledger.has_user(other) ==> after.user(other) == ledger.user(other))
        }),
{
    let after = ledger.after_reclaim_col(now, who, spot);
    let was = ledger.user(who);
    let side = ledger.user_on_a(who);
    ledger.lemma_user_within_aggregates(who);
    if !(ledger.used_deposit(who) == 0 || was.is_liquidated || ledger.max_time_reached(now)) {
        crate::margin::lemma_min_collateral_floor(
            side,
            was.swapped_amount as int,
            ledger.spot_rate as int,
            ledger.forward_rate as int,
            spot,
        );
    }
    ledger.lemma_record_replaced(
        after,
        who,
        User {
            withdrawn_collateral: (was.withdrawn_collateral + ledger.reclaim_col_amount(
                now,
                who,
                spot,
            )) as i128,
            ..was
        },
    );
}

/// The matched amount is within the slots held. With a slot size and a worth
/// that are not negative and a positive rate, what is matched is not
/// negative and at most the valid slots of the participant times the slot
/// size; positions that are not valid and positions after the stop add
/// nothing.
pub proof fn law_matching_bounds(
    ps: Seq<Position>,
    user: Address,
    total: int,
    slot: int,
    unit: int,
    side_a: bool,
    spot_rate: int,
)
    requires
        slot >= 0,
        unit >= 0,
        spot_rate > 0,
    ensures
        0 <= matched_amount(ps, user, total, slot, unit, side_a, spot_rate) <= owned_count(
            ps,
            user,
            walked(ps, unit, total),
        ) * slot,
        owned_count(ps, user, walked(ps, unit, total)) * slot <= owned_count(
            ps,
            user,
            ps.len() as int,
        ) * slot,
{
    let n = walked(ps, unit, total);
    if stops(ps, unit, total) {
        let k = stop_index(ps, unit, total);
        assert(is_stop(ps, unit, total, k));
        lemma_convert_floor(surplus(ps, unit, total), spot_rate);
    }
    lemma_matched_amount_not_negative(ps, user, total, slot, unit, side_a, spot_rate);
    lemma_counts_monotonic(ps, user, n, ps.len() as int);
    lemma_product_monotonic(owned_count(ps, user, n), owned_count(ps, user, ps.len() as int), slot);
}

/// The earlier is matched in full before the later gets anything. Where all
/// valid positions of `early` come before position `from` and all valid
/// positions of `late` at or after it, and `late` is matched with more than
/// nothing, `early` is matched with all its valid slots.
pub proof fn law_matching_earlier_first(
    ps: Seq<Position>,
    early: Address,
    late: Address,
    from: int,
    total: int,
    slot: int,
    unit: int,
    side_a: bool,
    spot_rate: int,
)
    requires
        unit >= 0,
        forall|i: int| 0 <= i < ps.len() && ps[i].is_valid && ps[i].address == early ==> i < from,
        forall|i: int| 0 <= i < ps.len() && ps[i].is_valid && ps[i].address == late ==> i >= from,
        matched_amount(ps, late, total, slot, unit, side_a, spot_rate) > 0,
    ensures
        matched_amount(ps, early, total, slot, unit, side_a, spot_rate) == owned_count(
            ps,
            early,
            ps.len() as int,
        ) * slot,
{
    if stops(ps, unit, total) {
        let k = stop_index(ps, unit, total);
        assert(is_stop(ps, unit, total, k));
        if from > k {
            law_matching_in_order(ps, late, total, slot, unit, side_a, spot_rate, k);
        } else {
            law_matching_in_order(ps, early, total, slot, unit, side_a, spot_rate, k);
        }
    }
}

/// First come, first matched. A participant whose valid positions all come
/// before the position at which the walk stops is matched in full; one
/// whose valid positions all come after it is not matched at all.
pub proof fn law_matching_in_order(
    ps: Seq<Position>,
    user: Address,
    total: int,
    slot: int,
    unit: int,
    side_a: bool,
    spot_rate: int,
    k: int,
)
    requires
        unit >= 0,
        is_stop(ps, unit, total, k),
    ensures
        (forall|i: int| k <= i < ps.len() ==> !(ps[i].is_valid && ps[i].address == user))
            ==> matched_amount(ps, user, total, slot, unit, side_a, spot_rate) == owned_count(
            ps,
            user,
            ps.len() as int,
        ) * slot,
        (forall|i: int| 0 <= i <= k ==> !(ps[i].is_valid && ps[i].address == user))
            ==> matched_amount(ps, user, total, slot, unit, side_a, spot_rate) == 0,
{
    assert forall|j: int| is_stop(ps, unit, total, j) implies j == k by {
        lemma_stop_unique(ps, unit, total, j, k);
    }
    assert(stop_index(ps, unit, total) == k);
    assert(walked(ps, unit, total) == k + 1);
    if forall|i: int| k <= i < ps.len() ==> !(ps[i].is_valid && ps[i].address == user) {
        lemma_none_owned_between(ps, user, k + 1, ps.len() as int);
        assert(!(ps[k].is_valid && ps[k].address == user));
    }
    if forall|i: int| 0 <= i <= k ==> !(ps[i].is_valid && ps[i].address == user) {
        lemma_none_owned_between(ps, user, 0, k + 1);
        assert(!(ps[k].is_valid && ps[k].address == user));
        assert(owned_count(ps, user, k + 1) * slot == 0) by (nonlinear_arith)
            requires
                owned_count(ps, user, k + 1) == 0,
        ;
    }
}

/// Where `user` has no valid position from `m` up to `n`, its count does not
/// grow from `m` to `n`.
pub proof fn lemma_none_owned_between(ps: Seq<Position>, user: Address, m: int, n: int)
    requires
        0 <= m <= n <= ps.len(),
        forall|i: int| m <= i < n ==> !(ps[i].is_valid && ps[i].address == user),
    ensures
        owned_count(ps, user, n) == owned_count(ps, user, m),
    decreases n - m,
{
    if m < n {
        lemma_none_owned_between(ps, user, m, n - 1);
    }
}

/// Two participants before an opposing pool that is worth more than one slot
/// and no more than two: the first is matched with its whole slot, and the
/// second with its slot less what the two slots are worth above the pool.
pub proof fn law_matching_two_participants(
    first: Address,
    second: Address,
    total: int,
    slot: int,
    unit: int,
    side_a: bool,
    spot_rate: int,
)
    requires
        first != second,
        unit >= 0,
        unit < total <= 2 * unit,
    ensures
        ({
            let ps = seq![
                Position { address: first, is_valid: true },
                Position { address: second, is_valid: true },
            ];
            let rest = slot - to_own(side_a, 2 * unit - total, spot_rate);
            &&& matched_amount(ps, first, total, slot, unit, side_a, spot_rate) == slot
            &&& matched_amount(ps, second, total, slot, unit, side_a, spot_rate) == if rest > 0 {
                rest
            } else {
                0
            }
        }),
{
    let ps = seq![
        Position { address: first, is_valid: true },
        Position { address: second, is_valid: true },
    ];
    reveal_with_fuel(valid_count, 3);
    reveal_with_fuel(owned_count, 3);
    assert(valid_count(ps, 0) == 0);
    assert(valid_count(ps, 1) == 1);
    assert(valid_count(ps, 2) == 2);
    assert(1 * unit == unit) by (nonlinear_arith);
    assert(is_stop(ps, unit, total, 1));
    assert forall|j: int| is_stop(ps, unit, total, j) implies j == 1 by {
        lemma_stop_unique(ps, unit, total, j, 1);
    }
    assert(stop_index(ps, unit, total) == 1);
    assert(walked(ps, unit, total) == 2);
    assert(owned_count(ps, first, 2) == 1);
    assert(owned_count(ps, second, 2) == 1);
    assert(1 * slot == slot) by (nonlinear_arith);
    assert(surplus(ps, unit, total) == 2 * unit - total);
    assert(!stops_at_own(ps, first, unit, total));
    assert(stops_at_own(ps, second, unit, total));
}

/// The margin floor. The least collateral is never below the collateral
/// buffer on the used deposit, and it is exactly that where the position
/// shows no loss at the current price; where it shows one, it is the larger
/// of the margin for the loss and the buffer.
pub proof fn law_margin_floor(side_a: bool, swapped: int, swap_spot: int, forward: int, spot: int)
    requires
        swapped >= 0,
        swap_spot > 0,
    ensures
        min_collateral(side_a, swapped, swap_spot, forward, spot) >= percentage(
            used_of_swapped(side_a, swapped, swap_spot),
            COLLATERAL_BUFFER as int,
        ),
        due_at_forward(side_a, used_of_swapped(side_a, swapped, swap_spot), forward)
            <= to_counterpart(side_a, used_of_swapped(side_a, swapped, swap_spot), spot)
            ==> min_collateral(side_a, swapped, swap_spot, forward, spot) == percentage(
            used_of_swapped(side_a, swapped, swap_spot),
            COLLATERAL_BUFFER as int,
        ),
        ({
            let used = used_of_swapped(side_a, swapped, swap_spot);
            let loss = mark_to_market(side_a, used, forward, spot);
            let floor = percentage(used, COLLATERAL_BUFFER as int);
            loss > 0 ==> min_collateral(side_a, swapped, swap_spot, forward, spot) == if loss_margin(
                side_a,
                loss,
                spot,
            ) > floor {
                loss_margin(side_a, loss, spot)
            } else {
                floor
            }
        }),
{
    crate::margin::lemma_min_collateral_floor(side_a, swapped, swap_spot, forward, spot);
}

/// The margin for a loss grows with the loss and with the price moving
/// against the participant: down on the side of asset A, up on the side of
/// asset B.
pub proof fn lemma_loss_margin_monotonic(side_a: bool, loss1: int, loss2: int, spot1: int, spot2: int)
    requires
        0 <= loss1 <= loss2,
        spot1 > 0,
        spot2 > 0,
        if side_a {
            spot2 <= spot1
        } else {
            spot2 >= spot1
        },
    ensures
        0 <= loss_margin(side_a, loss1, spot1) <= loss_margin(side_a, loss2, spot2),
{
    lemma_convert_floor(loss1, spot1);
    lemma_convert_floor(loss2, spot2);
    lemma_convert_floor(loss1, spot2);
    lemma_convert_monotonic(loss1, loss2, spot2);
    if side_a {
        lemma_floor_div_antitonic(loss1 * SCALE, spot2, spot1);
    } else {
        assert(loss1 * spot1 <= loss1 * spot2) by (nonlinear_arith)
            requires
                loss1 >= 0,
                spot1 <= spot2,
        ;
        lemma_floor_div_monotonic(loss1 * spot1, loss1 * spot2, SCALE as int);
    }
    let own1 = to_own(side_a, loss1, spot1);
    let own2 = to_own(side_a, loss2, spot2);
    assert(0 <= own1 <= own2);
    lemma_percentage_floor(own1, COLLATERAL_THRESHOLD as int);
    lemma_percentage_floor(own2, COLLATERAL_THRESHOLD as int);
    assert(own1 * COLLATERAL_THRESHOLD <= own2 * COLLATERAL_THRESHOLD);
    lemma_floor_div_monotonic(own1 * COLLATERAL_THRESHOLD, own2 * COLLATERAL_THRESHOLD, 100);
}

/// The marked-to-market loss grows as the forward rate and the price move
/// apart against the participant.
pub proof fn lemma_loss_monotonic(
    side_a: bool,
    used: int,
    forward1: int,
    forward2: int,
    spot1: int,
    spot2: int,
)
    requires
        used >= 0,
        forward1 > 0,
        forward2 > 0,
        spot1 > 0,
        spot2 > 0,
        if side_a {
            spot2 <= spot1 && forward2 >= forward1
        } else {
            spot2 >= spot1 && forward2 <= forward1
        },
    ensures
        mark_to_market(side_a, used, forward1, spot1) <= mark_to_market(
            side_a,
            used,
            forward2,
            spot2,
        ),
{
    lemma_convert_floor(used, forward1);
    lemma_convert_floor(used, forward2);
    lemma_convert_floor(used, spot1);
    lemma_convert_floor(used, spot2);
    if side_a {
        assert(used * forward1 <= used * forward2) by (nonlinear_arith)
            requires
                used >= 0,
                forward1 <= forward2,
        ;
        assert(used * spot2 <= used * spot1) by (nonlinear_arith)
            requires
                used >= 0,
                spot2 <= spot1,
        ;
        lemma_floor_div_monotonic(used * forward1, used * forward2, SCALE as int);
        lemma_floor_div_monotonic(used * spot2, used * spot1, SCALE as int);
    } else {
        lemma_floor_div_antitonic(used * SCALE, forward2, forward1);
        lemma_floor_div_antitonic(used * SCALE, spot1, spot2);
    }
}

/// Margin monotonicity. The least collateral does not decrease when the
/// forward rate and the current price move apart against the participant:
/// on the side of asset A when the price falls or the forward rate rises, on
/// the side of asset B when the price rises or the forward rate falls.
pub proof fn law_margin_monotonic(
    side_a: bool,
    swapped: int,
    swap_spot: int,
    forward1: int,
    forward2: int,
    spot1: int,
    spot2: int,
)
    requires
        swapped >= 0,
        swap_spot > 0,
        forward1 > 0,
        forward2 > 0,
        spot1 > 0,
        spot2 > 0,
        if side_a {
            spot2 <= spot1 && forward2 >= forward1
        } else {
            spot2 >= spot1 && forward2 <= forward1
        },
    ensures
        min_collateral(side_a, swapped, swap_spot, forward1, spot1) <= min_collateral(
            side_a,
            swapped,
            swap_spot,
            forward2,
            spot2,
        ),
{
    lemma_convert_floor(swapped, swap_spot);
    let used = used_of_swapped(side_a, swapped, swap_spot);
    let loss1 = mark_to_market(side_a, used, forward1, spot1);
    let loss2 = mark_to_market(side_a, used, forward2, spot2);
    lemma_loss_monotonic(side_a, used, forward1, forward2, spot1, spot2);
    crate::margin::lemma_min_collateral_floor(side_a, swapped, swap_spot, forward2, spot2);
    if loss1 > 0 {
        lemma_loss_margin_monotonic(side_a, loss1, loss2, spot1, spot2);
    }
}

/// Liquidation happens once. After a liquidation no liquidation of the same
/// participant is due, at any time and at any price, so that a second call of
/// `liquidate` returns 0 and changes nothing; and the liquidation itself
/// leaves what the participant has taken out of its collateral as it was.
pub proof fn law_liquidation_once(
    ledger: Ledger,
    now: u64,
    to: Address,
    caller: Address,
    spot: int,
    later: u64,
    later_spot: int,
)
    requires
        ledger.wf(),
        ledger.liquidation_due(now, to, spot),
    ensures
        !ledger.after_liquidate(to, caller).liquidation_due(later, to, later_spot),
        ledger.after_liquidate(to, caller).user(to).withdrawn_collateral == ledger.user(
            to,
        ).withdrawn_collateral,
        ledger.after_liquidate(to, caller).user(to).is_liquidated,
{
    let after = ledger.after_liquidate(to, caller);
    ledger.lemma_with_user(after, to, User { is_liquidated: true, ..ledger.user(to) });
}

/// A participant that is liquidated is not liquidated again.
pub proof fn law_liquidated_stays(ledger: Ledger, now: u64, to: Address, spot: int)
    requires
        ledger.has_user(to),
        ledger.user(to).is_liquidated,
    ensures
        !ledger.liquidation_due(now, to, spot),
{
}

/// Reclaim pays no dust. What `reclaim` pays is nothing or more than `DUST`;
/// and once it has paid, the surplus is gone: with nothing else changed, the
/// next call pays nothing.
pub proof fn law_reclaim_dust(ledger: Ledger, now: u64, who: Address)
    requires
        ledger.wf(),
        ledger.stage(now) != Stage::Deposit,
        ledger.reclaim_defined(now, who),
    ensures
        ledger.reclaim_amount(who) == 0 || ledger.reclaim_amount(who) > DUST,
        ledger.after_reclaim(who).reclaim_amount(who) == 0,
{
    let after = ledger.after_reclaim(who);
    let side = ledger.user_on_a(who);
    ledger.lemma_user_within_aggregates(who);
    lemma_matched_amount_not_negative(
        ledger.positions_of(side),
        who,
        ledger.token_of(!side).deposited_amount as int,
        ledger.pool_of(side).deposit_amount as int,
        ledger.slot_worth(side),
        side,
        ledger.spot_rate as int,
    );
    let was = ledger.user(who);
    ledger.lemma_with_user(
        after,
        who,
        User { reclaimed_amount: (was.reclaimed_amount + ledger.reclaim_amount(who)) as i128, ..was },
    );
    assert(after.user_on_a(who) == side);
    assert(after.positions_of(side) == ledger.positions_of(side));
    assert(after.pool_of(side) == ledger.pool_of(side));
    assert(after.token_of(!side).deposited_amount == ledger.token_of(!side).deposited_amount);
    assert(after.used_deposit(who) == ledger.used_deposit(who));
}

/// Swap credits once. After a swap, with nothing else changed, the next call
/// credits nothing: what a participant has received never exceeds, through
/// `swap`, what it is entitled to.
pub proof fn law_swap_once(ledger: Ledger, now: u64, who: Address)
    requires
        ledger.wf(),
        ledger.stage(now) == Stage::Swap,
        ledger.has_user(who),
        ledger.swap_defined(now, who),
    ensures
        ledger.after_swap(who).swap_amount(who) == 0,
        ledger.after_swap(who).user(who).swapped_amount == ledger.user(who).swapped_amount
            + ledger.swap_amount(who),
        ledger.swap_amount(who) > 0 ==> ledger.after_swap(who).user(who).swapped_amount
            <= ledger.swap_entitlement(who),
{
    let after = ledger.after_swap(who);
    let side = ledger.user_on_a(who);
    ledger.lemma_user_within_aggregates(who);
    lemma_matched_amount_not_negative(
        ledger.positions_of(side),
        who,
        ledger.token_of(!side).deposited_amount as int,
        ledger.pool_of(side).deposit_amount as int,
        ledger.slot_worth(side),
        side,
        ledger.spot_rate as int,
    );
    lemma_convert_floor(ledger.used_deposit(who), ledger.spot_rate as int);
    let was = ledger.user(who);
    ledger.lemma_with_user(
        after,
        who,
        User { swapped_amount: (was.swapped_amount + ledger.swap_amount(who)) as i128, ..was },
    );
    assert(after.user_on_a(who) == side);
    assert(after.positions_of(side) == ledger.positions_of(side));
    assert(after.pool_of(side) == ledger.pool_of(side));
    assert(after.token_of(!side).deposited_amount == ledger.token_of(!side).deposited_amount);
    assert(after.used_deposit(who) == ledger.used_deposit(who));
}

/// The make-up of a withdrawal is bounded. The own asset pays no more than
/// is expected and no more than is at hand. Where it falls short, what the
/// other asset makes up is at most what is missing at the forward rate, and
/// counts for no more than is missing; the part out of the collateral buffer
/// is at most `COLLATERAL_BUFFER` percent of the part out of what was
/// returned; and no part is negative.
pub proof fn law_withdrawal_bounded(
    side_a: bool,
    returned: int,
    withdrawn: int,
    available: int,
    forward: int,
)
    requires
        returned >= 0,
        withdrawn >= 0,
        forward > 0,
    ensures
        ({
            let w = withdrawal(side_a, returned, withdrawn, available, forward);
            let expected = expected_withdrawal(side_a, returned, withdrawn, forward);
            let missing = to_counterpart(side_a, expected - w.own, forward);
            &&& w.own <= available
            &&& w.own <= expected
            &&& w.short == (expected > available)
            &&& 0 <= w.from_returned
            &&& 0 <= w.from_collateral <= percentage(w.from_returned, COLLATERAL_BUFFER as int)
            &&& 0 <= w.credited
            &&& w.short ==> w.other() <= missing && w.credited <= expected - w.own
        }),
{
    let w = withdrawal(side_a, returned, withdrawn, available, forward);
    let expected = expected_withdrawal(side_a, returned, withdrawn, forward);
    lemma_withdrawal_signs(side_a, returned, withdrawn, available, forward);
    if w.short {
        let missing = to_counterpart(side_a, expected - w.own, forward);
        lemma_convert_floor(expected - w.own, forward);
        lemma_convert_monotonic(w.other(), missing, forward);
        lemma_round_trip(expected - w.own, forward);
        assert(to_own(side_a, w.other(), forward) <= to_own(side_a, missing, forward));
    }
}

/// Stage boundaries are exact. One second before the swap stage starts the
/// stage is the deposit stage. At each boundary the stage that starts there
/// is the stage, provided that it lasts: the swap stage with a time to
/// maturity above zero, the repay and withdraw stages always.
pub proof fn law_stage_boundaries(ledger: Ledger, now: u64)
    ensures
        now == ledger.swap_start() - 1 ==> ledger.stage(now) == Stage::Deposit,
        now < ledger.swap_start() <==> ledger.stage(now) == Stage::Deposit,
        now == ledger.swap_start() && ledger.time_to_mature > 0 ==> ledger.stage(now)
            == Stage::Swap,
        now == ledger.repay_start() ==> ledger.stage(now) == Stage::Repay,
        now == ledger.repay_start() - 1 && ledger.time_to_mature > 0 ==> ledger.stage(now)
            == Stage::Swap,
        now == ledger.withdraw_start() ==> ledger.stage(now) == Stage::Withdraw,
        now == ledger.withdraw_start() - 1 ==> ledger.stage(now) == Stage::Repay,
{
    assert(TIME_TO_REPAY > 0);
}

} // verus!
