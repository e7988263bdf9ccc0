//! Summing a list of decimal values without rounding.

use vstd::prelude::*;
use crate::backend::dec_add;
use crate::decimal::{
    aligned, lemma_pow10_add, lemma_pow10_positive, max_scale, pow10, sum_exact, Decimal,
};

verus! {

/// The exact sum `a + b`, written at the larger of the two scales.
pub open spec fn exact_sum(a: Decimal, b: Decimal) -> Decimal {
    let m = max_scale(a, b);
    let n = a.at_scale(m) + b.at_scale(m);
    Decimal { negative: n < 0, digits: if n < 0 { (-n) as u128 } else { n as u128 }, scale: m as i16 }
}

/// The exact sum of `s`, added left to right starting from zero.
pub open spec fn exact_total(s: Seq<Decimal>) -> Decimal
    decreases s.len(),
{
    if s.len() == 0 {
        Decimal::of_int(0)
    } else {
        exact_sum(exact_total(s.drop_last()), s.last())
    }
}

/// No running sum of `s` exceeds the precision.
pub open spec fn totals_exact(s: Seq<Decimal>) -> bool {
    forall|i: int| 0 <= i < s.len() ==> sum_exact(#[trigger] exact_total(s.take(i)), s[i])
}

/// Adds up `values` from left to right, starting from zero.
pub fn decimal_total(values: &Vec<Decimal>) -> (r: Decimal)
    requires
        totals_exact(values@),
    ensures
        r.signed() == exact_total(values@).signed(),
        r.scale == exact_total(values@).scale,
{
    let mut acc = Decimal::from_i64(0);
    let mut i: usize = 0;
    while i < values.len()
        invariant
            0 <= i <= values.len(),
            totals_exact(values@),
            acc.signed() == exact_total(values@.take(i as int)).signed(),
            acc.scale == exact_total(values@.take(i as int)).scale,
        decreases values.len() - i,
    {
        let ghost prev = exact_total(values@.take(i as int));
        assert(values@.take(i as int + 1).drop_last() =~= values@.take(i as int));
        assert(sum_exact(prev, values@[i as int]));
        acc = dec_add(acc, values[i]);
        i = i + 1;
    }
    assert(values@.take(values.len() as int) =~= values@);
    acc
}

/// The coefficient of `d` at a scale `m >= d.scale`, or `None` when it does not fit a `u128`.
fn aligned_digits(d: Decimal, m: i16) -> (r: Option<u128>)
    requires
        m >= d.scale,
    ensures
        r matches Some(v) ==> v == aligned(d, m as int),
        r is None ==> aligned(d, m as int) > u128::MAX,
{
    let k: i32 = m as i32 - d.scale as i32;
    if d.digits == 0 {
        assert(0 * pow10(k as nat) == 0);
        return Some(0);
    }
    let mut v: u128 = d.digits;
    let mut i: i32 = 0;
    assert(pow10(0) == 1);
    assert(d.digits * pow10(0) == d.digits);
    while i < k
        invariant
            0 <= i <= k,
            k == m - d.scale,
            d.digits >= 1,
            v == d.digits * pow10(i as nat),
        decreases k - i,
    {
        assert(pow10((i + 1) as nat) == 10 * pow10(i as nat));
        assert(d.digits * pow10((i + 1) as nat) == 10 * v) by (nonlinear_arith)
            requires
                v == d.digits * pow10(i as nat),
                pow10((i + 1) as nat) == 10 * pow10(i as nat),
        ;
        match v.checked_mul(10) {
            Some(w) => {
                v = w;
            },
            None => {
                proof {
                    let a = pow10((i + 1) as nat) as int;
                    let b = pow10((k - i - 1) as nat) as int;
                    lemma_pow10_add((i + 1) as nat, (k - i - 1) as nat);
                    lemma_pow10_positive((k - i - 1) as nat);
                    assert(((i + 1) as nat + (k - i - 1) as nat) as nat == k as nat);
                    assert(d.digits * (a * b) >= d.digits * a) by (nonlinear_arith)
                        requires
                            d.digits >= 1,
                            a >= 0,
                            b >= 1,
                    ;
                }
                return None;
            },
        }
        i = i + 1;
    }
    Some(v)
}

/// Decides whether `a + b` is exact, as `sum_exact` states it.
pub fn sum_is_exact(a: Decimal, b: Decimal) -> (r: bool)
    ensures
        r == sum_exact(a, b),
{
    let m = if a.scale >= b.scale { a.scale } else { b.scale };
    match (aligned_digits(a, m), aligned_digits(b, m)) {
        (Some(x), Some(y)) => a.negative != b.negative || x.checked_add(y).is_some(),
        _ => false,
    }
}

/// Adds up `values` from left to right, starting from zero, when every running sum
/// is exact; `None` when one is not.
pub fn checked_total(values: &Vec<Decimal>) -> (r: Option<Decimal>)
    ensures
        r is Some <==> totals_exact(values@),
        r matches Some(t) ==> t.signed() == exact_total(values@).signed() && t.scale
            == exact_total(values@).scale,
{
    let mut acc = Decimal::from_i64(0);
    let mut i: usize = 0;
    while i < values.len()
        invariant
            0 <= i <= values.len(),
            forall|j: int| 0 <= j < i ==> sum_exact(#[trigger] exact_total(values@.take(j)), values@[j]),
            acc.signed() == exact_total(values@.take(i as int)).signed(),
            acc.scale == exact_total(values@.take(i as int)).scale,
        decreases values.len() - i,
    {
        let ghost prev = exact_total(values@.take(i as int));
        assert(values@.take(i as int + 1).drop_last() =~= values@.take(i as int));
        if !sum_is_exact(acc, values[i]) {
            assert(!sum_exact(prev, values@[i as int]));
            return None;
        }
        assert(sum_exact(prev, values@[i as int]));
        acc = dec_add(acc, values[i]);
        i = i + 1;
    }
    assert(values@.take(values.len() as int) =~= values@);
    Some(acc)
}

} // verus!
