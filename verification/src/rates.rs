use vstd::prelude::*;
use crate::constants::SCALE;

verus! {

/// Whether `x` can be held in an `i128`.
pub open spec fn fits(x: int) -> bool {
    i128::MIN <= x <= i128::MAX
}

/// Quotient rounded toward zero, as machine division of signed integers gives it.
pub open spec fn trunc_div(n: int, d: int) -> int {
    if n >= 0 {
        n / d
    } else {
        -((-n) / d)
    }
}

/// An amount of asset A in units of asset B, at `rate` units of B (times
/// `SCALE`) for one unit of A.
pub open spec fn a_to_b(amount: int, rate: int) -> int {
    trunc_div(amount * rate, SCALE as int)
}

/// An amount of asset B in units of asset A, at `rate` units of B (times
/// `SCALE`) for one unit of A.
pub open spec fn b_to_a(amount: int, rate: int) -> int {
    trunc_div(amount * SCALE, rate)
}

/// `rate` percent of `amount`.
pub open spec fn percentage(amount: int, rate: int) -> int {
    trunc_div(amount * rate, 100)
}

/// Whether `a_to_b(amount, rate)` can be computed in `i128`.
pub open spec fn a_to_b_fits(amount: int, rate: int) -> bool {
    fits(amount * rate)
}

/// Whether `b_to_a(amount, rate)` can be computed in `i128`.
pub open spec fn b_to_a_fits(amount: int, rate: int) -> bool {
    rate != 0 && fits(amount * SCALE)
}

/// Whether `percentage(amount, rate)` can be computed in `i128`.
pub open spec fn percentage_fits(amount: int, rate: int) -> bool {
    fits(amount * rate)
}

/// An amount of a participant's own asset in units of the other asset: the
/// side of asset A converts from A to B, the side of asset B from B to A.
pub open spec fn to_counterpart(side_a: bool, amount: int, rate: int) -> int {
    if side_a {
        a_to_b(amount, rate)
    } else {
        b_to_a(amount, rate)
    }
}

/// An amount of the other asset in units of a participant's own asset.
pub open spec fn to_own(side_a: bool, amount: int, rate: int) -> int {
    to_counterpart(!side_a, amount, rate)
}

/// Whether `to_counterpart` can be computed in `i128`.
pub open spec fn to_counterpart_fits(side_a: bool, amount: int, rate: int) -> bool {
    if side_a {
        a_to_b_fits(amount, rate)
    } else {
        b_to_a_fits(amount, rate)
    }
}

/// Whether `to_own` can be computed in `i128`.
pub open spec fn to_own_fits(side_a: bool, amount: int, rate: int) -> bool {
    to_counterpart_fits(!side_a, amount, rate)
}

/// A quotient rounded toward zero is no larger in size than its numerator.
pub proof fn lemma_trunc_div_bounds(n: int, d: int)
    requires
        d != 0,
    ensures
        n >= 0 ==> -n <= trunc_div(n, d) <= n,
        n <= 0 ==> n <= trunc_div(n, d) <= -n,
{
    let m: int = if n >= 0 { n } else { -n };
    lemma_euclid_div_bounds(m, d);
}

/// The quotient of a numerator that is not negative lies between the
/// numerator and its opposite, whatever the sign of the divisor.
pub proof fn lemma_euclid_div_bounds(m: int, d: int)
    requires
        m >= 0,
        d != 0,
    ensures
        -m <= m / d <= m,
        d > 0 ==> 0 <= m / d,
        d < 0 ==> m / d <= 0,
{
    let q: int = m / d;
    let r: int = m % d;
    assert(m == d * q + r) by (nonlinear_arith)
        requires
            d != 0,
            q == m / d,
            r == m % d,
    ;
    assert(0 <= r && (d > 0 ==> r < d) && (d < 0 ==> r < -d)) by (nonlinear_arith)
        requires
            d != 0,
            r == m % d,
    ;
    if d > 0 {
        assert(0 <= q <= m) by (nonlinear_arith)
            requires
                d > 0,
                m >= 0,
                m == d * q + r,
                0 <= r < d,
        ;
    } else {
        assert(-m <= q <= 0) by (nonlinear_arith)
            requires
                d < 0,
                m >= 0,
                m == d * q + r,
                0 <= r < -d,
        ;
    }
}

/// With a positive divisor and a numerator that is not negative, the quotient
/// is the floor: `d * q <= n < d * (q + 1)`.
pub proof fn lemma_floor_div(n: int, d: int)
    requires
        n >= 0,
        d > 0,
    ensures
        trunc_div(n, d) == n / d,
        0 <= n / d <= n,
        d * (n / d) <= n < d * (n / d) + d,
{
    lemma_euclid_div_bounds(n, d);
    vstd::arithmetic::div_mod::lemma_fundamental_div_mod(n, d);
    vstd::arithmetic::div_mod::lemma_mod_bound(n, d);
}

/// Floor division does not decrease when the numerator grows.
pub proof fn lemma_floor_div_monotonic(n1: int, n2: int, d: int)
    requires
        0 <= n1 <= n2,
        d > 0,
    ensures
        n1 / d <= n2 / d,
{
    lemma_floor_div(n1, d);
    lemma_floor_div(n2, d);
    let q1: int = n1 / d;
    let q2: int = n2 / d;
    assert(q1 <= q2) by (nonlinear_arith)
        requires
            d > 0,
            d * q1 <= n1,
            n1 <= n2,
            n2 < d * q2 + d,
    ;
}

/// Floor division does not increase when the divisor grows.
pub proof fn lemma_floor_div_antitonic(n: int, d1: int, d2: int)
    requires
        0 <= n,
        0 < d1 <= d2,
    ensures
        n / d2 <= n / d1,
{
    lemma_floor_div(n, d1);
    lemma_floor_div(n, d2);
    let q1: int = n / d1;
    let q2: int = n / d2;
    assert(q2 <= q1) by (nonlinear_arith)
        requires
            0 < d1 <= d2,
            0 <= q2,
            0 <= q1,
            d2 * q2 <= n,
            n < d1 * q1 + d1,
    ;
}

/// An amount of asset A in units of asset B at `rate`, rounded toward zero.
pub fn convert_amount_token_a_to_b(amount: i128, rate: i128) -> (r: i128)
    requires
        a_to_b_fits(amount as int, rate as int),
    ensures
        r == a_to_b(amount as int, rate as int),
{
    amount * rate / SCALE
}

/// An amount of asset B in units of asset A at `rate`, rounded toward zero.
pub fn convert_amount_token_b_to_a(amount: i128, rate: i128) -> (r: i128)
    requires
        b_to_a_fits(amount as int, rate as int),
    ensures
        r == b_to_a(amount as int, rate as int),
{
    proof {
        lemma_trunc_div_bounds(amount * SCALE, rate as int);
    }
    (amount * SCALE) / rate
}

/// `rate` percent of `amount`, rounded toward zero.
pub fn calculate_percentage(amount: i128, rate: i128) -> (r: i128)
    requires
        percentage_fits(amount as int, rate as int),
    ensures
        r == percentage(amount as int, rate as int),
{
    (amount * rate) / 100
}

/// `convert_amount_token_a_to_b`, or `None` where the product leaves `i128`.
pub fn checked_a_to_b(amount: i128, rate: i128) -> (r: Option<i128>)
    ensures
        r.is_some() == a_to_b_fits(amount as int, rate as int),
        r.is_some() ==> r.unwrap() == a_to_b(amount as int, rate as int),
{
    match amount.checked_mul(rate) {
        Some(product) => Some(product / SCALE),
        None => None,
    }
}

/// `convert_amount_token_b_to_a`, or `None` where the rate is zero or the
/// product leaves `i128`.
pub fn checked_b_to_a(amount: i128, rate: i128) -> (r: Option<i128>)
    ensures
        r.is_some() == b_to_a_fits(amount as int, rate as int),
        r.is_some() ==> r.unwrap() == b_to_a(amount as int, rate as int),
{
    if rate == 0 {
        return None;
    }
    match amount.checked_mul(SCALE) {
        Some(product) => {
            proof {
                lemma_trunc_div_bounds(product as int, rate as int);
            }
            Some(product / rate)
        },
        None => None,
    }
}

/// `calculate_percentage`, or `None` where the product leaves `i128`.
pub fn checked_percentage(amount: i128, rate: i128) -> (r: Option<i128>)
    ensures
        r.is_some() == percentage_fits(amount as int, rate as int),
        r.is_some() ==> r.unwrap() == percentage(amount as int, rate as int),
{
    match amount.checked_mul(rate) {
        Some(product) => Some(product / 100),
        None => None,
    }
}

/// `to_counterpart`, or `None` where it cannot be computed in `i128`.
pub fn checked_to_counterpart(side_a: bool, amount: i128, rate: i128) -> (r: Option<i128>)
    ensures
        r.is_some() == to_counterpart_fits(side_a, amount as int, rate as int),
        r.is_some() ==> r.unwrap() == to_counterpart(side_a, amount as int, rate as int),
{
    if side_a {
        checked_a_to_b(amount, rate)
    } else {
        checked_b_to_a(amount, rate)
    }
}

/// `to_own`, or `None` where it cannot be computed in `i128`.
pub fn checked_to_own(side_a: bool, amount: i128, rate: i128) -> (r: Option<i128>)
    ensures
        r.is_some() == to_own_fits(side_a, amount as int, rate as int),
        r.is_some() ==> r.unwrap() == to_own(side_a, amount as int, rate as int),
{
    checked_to_counterpart(!side_a, amount, rate)
}

/// With a positive rate, an amount that is not negative converts to the
/// floor of the exact quotient, which is not negative either.
pub proof fn lemma_convert_floor(amount: int, rate: int)
    requires
        amount >= 0,
        rate > 0,
    ensures
        amount * rate >= 0,
        amount * SCALE >= 0,
        a_to_b(amount, rate) == (amount * rate) / (SCALE as int),
        b_to_a(amount, rate) == (amount * SCALE) / rate,
        a_to_b(amount, rate) >= 0,
        b_to_a(amount, rate) >= 0,
        forall|side_a: bool| #[trigger] to_counterpart(side_a, amount, rate) >= 0,
        forall|side_a: bool| #[trigger] to_own(side_a, amount, rate) >= 0,
{
    assert(amount * rate >= 0) by (nonlinear_arith)
        requires
            amount >= 0,
            rate > 0,
    ;
    assert(amount * SCALE >= 0) by (nonlinear_arith)
        requires
            amount >= 0,
    ;
    lemma_floor_div(amount * rate, SCALE as int);
    lemma_floor_div(amount * SCALE, rate);
}

/// With a positive rate, a larger amount converts to no less.
pub proof fn lemma_convert_monotonic(x: int, y: int, rate: int)
    requires
        0 <= x <= y,
        rate > 0,
    ensures
        a_to_b(x, rate) <= a_to_b(y, rate),
        b_to_a(x, rate) <= b_to_a(y, rate),
        forall|side_a: bool|
            #[trigger] to_counterpart(side_a, x, rate) <= to_counterpart(side_a, y, rate),
{
    lemma_convert_floor(x, rate);
    lemma_convert_floor(y, rate);
    assert(x * rate <= y * rate) by (nonlinear_arith)
        requires
            x <= y,
            rate > 0,
    ;
    assert(x * SCALE <= y * SCALE) by (nonlinear_arith)
        requires
            x <= y,
    ;
    lemma_floor_div_monotonic(x * rate, y * rate, SCALE as int);
    lemma_floor_div_monotonic(x * SCALE, y * SCALE, rate);
}

/// With a positive rate, converting an amount that is not negative there
/// and back gives no more than the amount.
pub proof fn lemma_round_trip(x: int, rate: int)
    requires
        x >= 0,
        rate > 0,
    ensures
        a_to_b(b_to_a(x, rate), rate) <= x,
        b_to_a(a_to_b(x, rate), rate) <= x,
        forall|side_a: bool|
            #[trigger] to_counterpart(side_a, to_own(side_a, x, rate), rate) <= x,
        forall|side_a: bool|
            #[trigger] to_own(side_a, to_counterpart(side_a, x, rate), rate) <= x,
{
    lemma_convert_floor(x, rate);
    let there: int = b_to_a(x, rate);
    lemma_convert_floor(there, rate);
    lemma_floor_div(x * SCALE, rate);
    assert(there * rate <= x * SCALE) by (nonlinear_arith)
        requires
            rate * there <= x * SCALE,
    ;
    lemma_floor_div_monotonic(there * rate, x * SCALE, SCALE as int);
    assert((x * SCALE) / (SCALE as int) == x) by (nonlinear_arith);
    let over: int = a_to_b(x, rate);
    lemma_convert_floor(over, rate);
    lemma_floor_div(x * rate, SCALE as int);
    assert(over * SCALE <= x * rate) by (nonlinear_arith)
        requires
            (SCALE as int) * over <= x * rate,
    ;
    lemma_floor_div_monotonic(over * SCALE, x * rate, rate);
    assert((x * rate) / rate == x) by (nonlinear_arith)
        requires
            rate > 0,
    ;
}

/// With a positive rate, an amount that is not positive converts to an
/// amount that is not positive.
pub proof fn lemma_convert_negative(x: int, rate: int)
    requires
        x <= 0,
        rate > 0,
    ensures
        a_to_b(x, rate) <= 0,
        b_to_a(x, rate) <= 0,
        forall|side_a: bool| #[trigger] to_counterpart(side_a, x, rate) <= 0,
{
    assert(x * rate <= 0) by (nonlinear_arith)
        requires
            x <= 0,
            rate > 0,
    ;
    assert(x * SCALE <= 0) by (nonlinear_arith)
        requires
            x <= 0,
    ;
    if x * rate < 0 {
        lemma_floor_div(-(x * rate), SCALE as int);
    }
    if x * SCALE < 0 {
        lemma_floor_div(-(x * SCALE), rate);
    }
}

/// A share of an amount that is not negative is the floor of the exact
/// share, and not negative either.
pub proof fn lemma_percentage_floor(amount: int, rate: int)
    requires
        amount >= 0,
        rate >= 0,
    ensures
        amount * rate >= 0,
        percentage(amount, rate) == (amount * rate) / 100,
        percentage(amount, rate) >= 0,
        rate <= 100 ==> percentage(amount, rate) <= amount,
{
    assert(amount * rate >= 0) by (nonlinear_arith)
        requires
            amount >= 0,
            rate >= 0,
    ;
    lemma_floor_div(amount * rate, 100);
    if rate <= 100 {
        assert(amount * rate <= amount * 100) by (nonlinear_arith)
            requires
                amount >= 0,
                rate <= 100,
        ;
        lemma_floor_div_monotonic(amount * rate, amount * 100, 100);
    }
}

} // verus!
