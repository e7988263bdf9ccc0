//! The calls into `fastnum` and `rand`, each behind a contract.
//!
//! Every decimal call converts its operands from [`Decimal`] into `fastnum::D128`
//! with `D128::from_parts` under the default context (division by zero, invalid
//! operations and overflow trap; the calls that round set `RoundingMode::HalfUp`
//! explicitly), makes the one call, and reads the
//! result back through `is_negative`, `digits` and `fractional_digits_count`.
//! The contracts restate the arithmetic rules of the `fastnum` documentation
//! ("Arithmetic rules", "Addition and subtraction", "Multiplication", "Division"):
//! a result whose exact coefficient fits the precision is returned unrounded.

use vstd::prelude::*;
use crate::decimal::{
    closest_scale, difference_exact, fits_i32, fits_i64, is_difference, is_product, is_quotient, is_sum, nearest_int, product_exact,
    quotient_exact, rescale_exact, round_to, sum_exact, Decimal,
};
use fastnum::decimal::{Context, RoundingMode, Sign};
use fastnum::{D128, U128};
use rand::Rng;

verus! {

/// Relies on `D128::add`: an exact sum takes the smaller exponent (the larger
/// scale) and the sum of the aligned coefficients.
#[verifier::external_body]
pub(crate) fn dec_add(a: Decimal, b: Decimal) -> (r: Decimal)
    requires
        sum_exact(a, b),
    ensures
        is_sum(a, b, r),
{
    let ctx = Context::default();
    let x = D128::from_parts(U128::from_u128(a.digits).unwrap(), -(a.scale as i32), if a.negative { Sign::Minus } else { Sign::Plus }, ctx);
    let y = D128::from_parts(U128::from_u128(b.digits).unwrap(), -(b.scale as i32), if b.negative { Sign::Minus } else { Sign::Plus }, ctx);
    let r = x.add(y);
    Decimal { negative: r.is_negative(), digits: r.digits().to_u128().unwrap(), scale: r.fractional_digits_count() }
}

/// Relies on `D128::sub`: as `add`, with the sign of the second operand inverted.
#[verifier::external_body]
pub(crate) fn dec_sub(a: Decimal, b: Decimal) -> (r: Decimal)
    requires
        difference_exact(a, b),
    ensures
        is_difference(a, b, r),
{
    let ctx = Context::default();
    let x = D128::from_parts(U128::from_u128(a.digits).unwrap(), -(a.scale as i32), if a.negative { Sign::Minus } else { Sign::Plus }, ctx);
    let y = D128::from_parts(U128::from_u128(b.digits).unwrap(), -(b.scale as i32), if b.negative { Sign::Minus } else { Sign::Plus }, ctx);
    let r = x.sub(y);
    Decimal { negative: r.is_negative(), digits: r.digits().to_u128().unwrap(), scale: r.fractional_digits_count() }
}

/// Relies on `D128::mul`: coefficients multiply and exponents add; the product
/// is exact when its coefficient fits the precision.
#[verifier::external_body]
pub(crate) fn dec_mul(a: Decimal, b: Decimal) -> (r: Decimal)
    requires
        product_exact(a, b),
    ensures
        is_product(a, b, r),
{
    let ctx = Context::default();
    let x = D128::from_parts(U128::from_u128(a.digits).unwrap(), -(a.scale as i32), if a.negative { Sign::Minus } else { Sign::Plus }, ctx);
    let y = D128::from_parts(U128::from_u128(b.digits).unwrap(), -(b.scale as i32), if b.negative { Sign::Minus } else { Sign::Plus }, ctx);
    let r = x.mul(y);
    Decimal { negative: r.is_negative(), digits: r.digits().to_u128().unwrap(), scale: r.fractional_digits_count() }
}

/// Relies on `D128::div`: with a non-zero divisor the quotient is exact whenever
/// an exact quotient has a 128-bit coefficient, and is then written at the ideal
/// scale (the dividend's minus the divisor's) or with the fewest fractional digits
/// beyond it. A zero dividend comes back with its own scale. The sign is the
/// exclusive or of the signs. Division by zero traps, so it is left out.
#[verifier::external_body]
pub(crate) fn dec_div(a: Decimal, b: Decimal) -> (r: Decimal)
    requires
        b.digits != 0,
        a.in_band(),
        b.in_band(),
    ensures
        quotient_exact(a, b) ==> is_quotient(a, b, r),
        quotient_exact(a, b) && a.digits != 0 ==> closest_scale(r, a.scale - b.scale),
        a.digits == 0 ==> r.digits == 0 && r.scale == a.scale,
        r.negative == (a.negative != b.negative),
{
    let ctx = Context::default();
    let x = D128::from_parts(U128::from_u128(a.digits).unwrap(), -(a.scale as i32), if a.negative { Sign::Minus } else { Sign::Plus }, ctx);
    let y = D128::from_parts(U128::from_u128(b.digits).unwrap(), -(b.scale as i32), if b.negative { Sign::Minus } else { Sign::Plus }, ctx);
    let r = x.div(y);
    Decimal { negative: r.is_negative(), digits: r.digits().to_u128().unwrap(), scale: r.fractional_digits_count() }
}

/// Relies on `PartialEq` for `D128`: numerical comparison, so `1.0 == 1.00`
/// and `-0 == +0`.
#[verifier::external_body]
pub(crate) fn dec_eq(a: Decimal, b: Decimal) -> (r: bool)
    ensures
        r == a.same_value(b),
{
    let ctx = Context::default();
    let x = D128::from_parts(U128::from_u128(a.digits).unwrap(), -(a.scale as i32), if a.negative { Sign::Minus } else { Sign::Plus }, ctx);
    let y = D128::from_parts(U128::from_u128(b.digits).unwrap(), -(b.scale as i32), if b.negative { Sign::Minus } else { Sign::Plus }, ctx);
    x == y
}

/// Relies on `D128::round` (`rescale`): the result has scale `k`; going down it
/// rounds half up, going up it multiplies the coefficient when that fits a `u128`.
/// The sign is kept. When the raised coefficient would not fit, `rescale` raises
/// the scale only as far as it fits, so the value is kept. The scale difference
/// must fit an `i16`, as `rescale` computes it in `i16`.
#[verifier::external_body]
pub(crate) fn dec_round(a: Decimal, k: i16) -> (r: Decimal)
    requires
        i16::MIN <= a.scale - k <= i16::MAX,
    ensures
        rescale_exact(a, k as int) ==> r.scale == k && r.signed() == round_to(
            a.signed(),
            a.scale as int,
            k as int,
        ) && r.negative == a.negative,
        !rescale_exact(a, k as int) ==> r.same_value(a),
{
    let x = D128::from_parts(U128::from_u128(a.digits).unwrap(), -(a.scale as i32), if a.negative { Sign::Minus } else { Sign::Plus }, Context::default().with_rounding_mode(RoundingMode::HalfUp));
    let r = x.round(k);
    Decimal { negative: r.is_negative(), digits: r.digits().to_u128().unwrap(), scale: r.fractional_digits_count() }
}

/// Relies on `D128::to_i32`: the value rescaled to scale zero (rounding half
/// up, set on the context), or an error when that integer lies outside `i32`.
#[verifier::external_body]
pub(crate) fn dec_to_i32(a: Decimal) -> (r: Option<i32>)
    ensures
        r == if fits_i32(nearest_int(a)) { Some(nearest_int(a) as i32) } else { None::<i32> },
{
    let x = D128::from_parts(U128::from_u128(a.digits).unwrap(), -(a.scale as i32), if a.negative { Sign::Minus } else { Sign::Plus }, Context::default().with_rounding_mode(RoundingMode::HalfUp));
    x.to_i32().ok()
}

/// Relies on `D128::to_i64`, as `to_i32` for `i64`.
#[verifier::external_body]
pub(crate) fn dec_to_i64(a: Decimal) -> (r: Option<i64>)
    ensures
        r == if fits_i64(nearest_int(a)) { Some(nearest_int(a) as i64) } else { None::<i64> },
{
    let x = D128::from_parts(U128::from_u128(a.digits).unwrap(), -(a.scale as i32), if a.negative { Sign::Minus } else { Sign::Plus }, Context::default().with_rounding_mode(RoundingMode::HalfUp));
    x.to_i64().ok()
}

/// The text that `Display` for `D128` writes for a finite number with this sign,
/// coefficient and scale.
pub uninterp spec fn decimal_text(negative: bool, digits: u128, scale: i16) -> Seq<char>;

/// Relies on `Display` for `D128`: the text depends on sign, coefficient and scale alone.
#[verifier::external_body]
pub(crate) fn dec_to_string(a: Decimal) -> (r: String)
    ensures
        r@ == decimal_text(a.negative, a.digits, a.scale),
{
    let x = D128::from_parts(U128::from_u128(a.digits).unwrap(), -(a.scale as i32), if a.negative { Sign::Minus } else { Sign::Plus }, Context::default());
    x.to_string()
}

/// Relies on `rand::rng().random_range(lo..=hi)`: a value drawn from the closed
/// range, which is not empty, so the call does not panic on it.
#[verifier::external_body]
pub(crate) fn random_in(lo: u32, hi: u32) -> (r: u32)
    requires
        lo <= hi,
    ensures
        lo <= r <= hi,
{
    rand::rng().random_range(lo..=hi)
}

} // verus!
