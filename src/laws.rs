//! Properties that hold across several operations on amounts, proved from the
//! operations' own contracts.

use vstd::prelude::*;
use vstd::arithmetic::div_mod::{lemma_div_is_ordered, lemma_div_multiples_vanish};
use crate::amount::{scaled_i32_result, scaled_i64_result, scaled_value, Amount, MAX_SCALE};
use crate::converter::AmountConverterError;
use crate::decimal::{
    equal_scaled, is_difference, nearest_int, round_to, lemma_digits_times, lemma_pow10_positive, is_product, is_quotient, is_sum, max_scale, pow10, product_exact,
    quotient_exact, sum_exact, Decimal, SCALE_BAND, aligned, difference_exact,
    lemma_equal_scaled_shift, lemma_round_to_same_value,
};

verus! {

/// The coefficients of `a` and `b`, aligned at the larger scale, leave room in a
/// `u128` for adding `b` twice: `a + b` and then `(a + b) - b` are both exact.
pub open spec fn add_sub_exact(a: Decimal, b: Decimal) -> bool {
    let m = max_scale(a, b);
    aligned(a, m) + 2 * aligned(b, m) <= u128::MAX
}

/// Adding an amount and then subtracting it again gives back the starting value
/// exactly: `a + b - b == a`.
pub proof fn lemma_add_then_sub<const S: usize>(a: Amount<S>, b: Amount<S>)
    requires
        add_sub_exact(a@, b@),
    ensures
        sum_exact(a@, b@),
        forall|s: Decimal| #[trigger] is_sum(a@, b@, s) ==> difference_exact(s, b@),
        forall|s: Decimal, d: Decimal|
            #[trigger] is_sum(a@, b@, s) && #[trigger] is_difference(s, b@, d) ==> d.same_value(a@),
{
    let m = max_scale(a@, b@);
    let pa = pow10((m - a@.scale) as nat) as int;
    let pb = pow10((m - b@.scale) as nat) as int;
    lemma_pow10_positive((m - a@.scale) as nat);
    lemma_pow10_positive((m - b@.scale) as nat);
    lemma_digits_times(a@, pa);
    lemma_digits_times(b@, pb);
    assert(pow10(0) == 1);
    assert(a@.digits * pa >= 0 && b@.digits * pb >= 0) by (nonlinear_arith)
        requires
            pa >= 1,
            pb >= 1,
    ;
    assert forall|s: Decimal| #[trigger] is_sum(a@, b@, s) implies difference_exact(s, b@) by {
        assert(max_scale(s, b@) == m);
        assert(s.digits * pow10(0) == s.digits);
    }
    assert forall|s: Decimal, d: Decimal|
        #[trigger] is_sum(a@, b@, s) && #[trigger] is_difference(s, b@, d) implies d.same_value(
        a@,
    ) by {
        assert(max_scale(s, b@) == m);
        assert((m - s.scale) as nat == 0);
        assert(s.at_scale(m) == s.signed() * pow10(0));
        assert(s.at_scale(m) == s.signed());
        assert(d.signed() == a@.at_scale(m));
        assert(d.scale == m);
        if m == a@.scale {
            assert((m - a@.scale) as nat == 0);
            assert(a@.at_scale(m) == a@.signed() * pow10(0));
            assert(a@.signed() * pow10(0) == a@.signed());
            assert(a@.at_scale(m) == a@.signed());
            assert(d.signed() * pow10(0) == d.signed());
            assert(equal_scaled(d.signed(), d.scale as int, a@.signed(), a@.scale as int));
        } else {
            assert(equal_scaled(d.signed(), d.scale as int, a@.signed(), a@.scale as int));
        }
    }
}

/// Multiplying by a non-zero amount and dividing by it again gives back the
/// starting value exactly: `(a * b) / b == a`.
pub proof fn lemma_mul_then_div<const S: usize>(a: Amount<S>, b: Amount<S>)
    requires
        product_exact(a@, b@),
        !b@.is_zero_value(),
        b@.in_band(),
        -SCALE_BAND <= a@.scale + b@.scale <= SCALE_BAND,
    ensures
        forall|p: Decimal| #[trigger] is_product(a@, b@, p) ==> p.in_band() && quotient_exact(p, b@),
        forall|p: Decimal, q: Decimal|
            #[trigger] is_product(a@, b@, p) && #[trigger] is_quotient(p, b@, q) ==> q.same_value(a@),
{
    let x = a@.signed();
    let y = b@.signed();
    assert(y != 0);
    assert(pow10(0) == 1);
    assert forall|p: Decimal| #[trigger] is_product(a@, b@, p) implies p.in_band() && quotient_exact(
        p,
        b@,
    ) by {
        assert((x * y) * pow10(0) == x * y);
        assert(is_quotient(p, b@, a@));
    }
    assert forall|p: Decimal, q: Decimal|
        #[trigger] is_product(a@, b@, p) && #[trigger] is_quotient(p, b@, q) implies q.same_value(
        a@,
    ) by {
        let z = q.signed();
        if q.scale <= a@.scale {
            let t = pow10((a@.scale - q.scale) as nat) as int;
            assert((z * y) * t == x * y);
            assert(z * t == x) by (nonlinear_arith)
                requires
                    (z * y) * t == x * y,
                    y != 0,
            ;
        } else {
            let t = pow10((q.scale - a@.scale) as nat) as int;
            assert(z * y == (x * y) * t);
            assert(z == x * t) by (nonlinear_arith)
                requires
                    z * y == (x * y) * t,
                    y != 0,
            ;
        }
    }
}

proof fn lemma_scaled_round_trip(n: int, s: nat, d: Decimal)
    requires
        s <= MAX_SCALE,
        scaled_value(d, n, s),
    ensures
        d.scale - s >= i16::MIN,
        nearest_int(Decimal { scale: (d.scale - s) as i16, ..d }) == n,
{
    lemma_round_to_same_value(d.signed(), d.scale - s, n, 0, 0);
    assert(pow10(0) == 1);
    assert(n * 1 == n);
}

/// A scaled `i32` read into an amount and written back out is the same integer.
pub proof fn lemma_scaled_i32_round_trip<const S: usize>(n: i32, a: Amount<S>)
    requires
        S <= MAX_SCALE,
        scaled_value(a@, n as int, S as nat),
    ensures
        a@.scale - S >= i16::MIN,
        scaled_i32_result(a@, S as int) == Ok::<i32, AmountConverterError>(n),
{
    lemma_scaled_round_trip(n as int, S as nat, a@);
}

/// A scaled `i64` read into an amount and written back out is the same integer.
pub proof fn lemma_scaled_i64_round_trip<const S: usize>(n: i64, a: Amount<S>)
    requires
        S <= MAX_SCALE,
        scaled_value(a@, n as int, S as nat),
    ensures
        a@.scale - S >= i16::MIN,
        scaled_i64_result(a@, S as int) == Ok::<i64, AmountConverterError>(n),
{
    lemma_scaled_round_trip(n as int, S as nat, a@);
}

/// The number `n * 10^(-s)` is at least the integer `k`.
pub open spec fn value_at_least(n: int, s: int, k: int) -> bool {
    if s <= 0 {
        n * pow10((-s) as nat) >= k
    } else {
        n >= k * pow10(s as nat)
    }
}

/// The number `n * 10^(-s)` is at most the integer `k`.
pub open spec fn value_at_most(n: int, s: int, k: int) -> bool {
    value_at_least(-n, s, -k)
}

proof fn lemma_rounded_at_least(n: int, s: int, k: int)
    requires
        k >= 1,
        value_at_least(n, s, k),
    ensures
        round_to(n, s, 0) >= k,
{
    if s > 0 {
        let p = pow10(s as nat) as int;
        lemma_pow10_positive(s as nat);
        assert(n >= 0) by (nonlinear_arith)
            requires
                n >= k * p,
                k >= 1,
                p >= 1,
        ;
        lemma_div_is_ordered(k * p, n, p);
        lemma_div_multiples_vanish(k, p);
        assert(k * p == p * k) by (nonlinear_arith);
    } else {
        assert((0 - s) as nat == (-s) as nat);
    }
}

proof fn lemma_rounded_at_most(n: int, s: int, k: int)
    requires
        k <= -1,
        value_at_most(n, s, k),
    ensures
        round_to(n, s, 0) <= k,
{
    lemma_rounded_at_least(-n, s, -k);
    if s > 0 {
        let p = pow10(s as nat) as int;
        lemma_pow10_positive(s as nat);
        assert(-n >= 1) by (nonlinear_arith)
            requires
                -n >= (-k) * p,
                -k >= 1,
                p >= 1,
        ;
        assert(n < 0);
    } else {
        assert((-n) * pow10((-s) as nat) == -(n * pow10((-s) as nat))) by (nonlinear_arith);
    }
}

/// Narrowing to a scaled `i32` fails whenever the value times `10^S`, before any
/// rounding, lies outside the `i32` range.
pub proof fn lemma_out_of_range_scaled_i32<const S: usize>(a: Amount<S>)
    requires
        a@.scale - S >= i16::MIN,
        value_at_least(a@.signed(), a@.scale - S, i32::MAX + 1) || value_at_most(
            a@.signed(),
            a@.scale - S,
            i32::MIN - 1,
        ),
    ensures
        scaled_i32_result(a@, S as int) == Err::<i32, AmountConverterError>(
            AmountConverterError::OutOfRange,
        ),
{
    if value_at_least(a@.signed(), a@.scale - S, i32::MAX + 1) {
        lemma_rounded_at_least(a@.signed(), a@.scale - S, i32::MAX + 1);
    } else {
        lemma_rounded_at_most(a@.signed(), a@.scale - S, i32::MIN - 1);
    }
}

/// Narrowing to a scaled `i64` fails whenever the value times `10^S`, before any
/// rounding, lies outside the `i64` range.
pub proof fn lemma_out_of_range_scaled_i64<const S: usize>(a: Amount<S>)
    requires
        a@.scale - S >= i16::MIN,
        value_at_least(a@.signed(), a@.scale - S, i64::MAX + 1) || value_at_most(
            a@.signed(),
            a@.scale - S,
            i64::MIN - 1,
        ),
    ensures
        scaled_i64_result(a@, S as int) == Err::<i64, AmountConverterError>(
            AmountConverterError::OutOfRange,
        ),
{
    if value_at_least(a@.signed(), a@.scale - S, i64::MAX + 1) {
        lemma_rounded_at_least(a@.signed(), a@.scale - S, i64::MAX + 1);
    } else {
        lemma_rounded_at_most(a@.signed(), a@.scale - S, i64::MIN - 1);
    }
}

/// Negating zero gives a value equal to zero, though it carries a minus sign.
pub proof fn lemma_negated_zero_equals_zero<const S: usize>(z: Amount<S>)
    requires
        z@.is_zero_value(),
    ensures
        z@.negated().same_value(z@),
        z@.negated().negative != z@.negative,
{
    assert(0int * pow10(0) == 0);
}

} // verus!
