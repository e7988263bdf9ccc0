//! `Amount<S>`: a decimal value tagged with a compile-time scale `S`.
//!
//! The scale governs how scaled integers are read and written (`1234` at scale 2
//! is `12.34`); it does not bound the live precision of the value. Arithmetic is
//! exact while coefficients fit 128 bits; rounding happens only in [`Amount::round`].

use vstd::prelude::*;
use crate::backend::{
    dec_add, dec_div, dec_eq, dec_mul, dec_round, dec_sub, dec_to_i32, dec_to_i64,
    dec_to_string, decimal_text,
};
use crate::converter::AmountConverterError;
use crate::decimal::{
    closest_scale, difference_exact, equal_scaled, fits_i32, fits_i64, is_difference, is_product,
    is_quotient, is_sum, lemma_equal_scaled_shift, lemma_pow10_add, lemma_pow10_positive, nearest_int, pow10, product_exact,
    quotient_exact, rescale_exact, round_to, sum_exact, Decimal,
};

verus! {

/// The largest scale for reading scaled integers: within it `10^S` and the
/// quotients by it stay where a division neither overflows nor underflows.
pub const MAX_SCALE: usize = 16000;

/// The most digits of `10^S` that a 128-bit coefficient holds.
pub const COEFFICIENT_DIGITS: usize = 38;

/// Why an arithmetic operation on amounts failed.
#[derive(Clone, Copy, Debug, PartialEq, Eq, Structural)]
pub enum AmountError {
    /// The divisor was zero.
    DivisionByZero,
}

/// A decimal quantity with `S` native fractional digits.
#[derive(Clone, Copy, Debug)]
pub struct Amount<const S: usize> {
    value: Decimal,
}

/// Whole currency units.
pub type Euros = Amount<0>;

/// Hundredths of a currency unit.
pub type Cents = Amount<2>;

/// Ten-thousandths.
pub type Pertenthousand = Amount<4>;

impl<const S: usize> View for Amount<S> {
    type V = Decimal;

    closed spec fn view(&self) -> Decimal {
        self.value
    }
}

/// The scale at which a scaled integer read at scale `s` is ideally written: that
/// of the dividend (0) minus that of the divisor `10^s`, whose coefficient holds at
/// most 38 digits.
pub open spec fn scaled_ideal(s: nat) -> int {
    if s <= COEFFICIENT_DIGITS {
        0
    } else {
        s - COEFFICIENT_DIGITS
    }
}

/// `d` is the scaled integer `n` read at scale `s`: it has the value `n * 10^(-s)`,
/// written at the ideal scale or with the fewest fractional digits beyond it (zero
/// at scale 0), with the sign of `n`.
pub open spec fn scaled_value(d: Decimal, n: int, s: nat) -> bool {
    &&& equal_scaled(d.signed(), d.scale - s, n, 0)
    &&& n != 0 ==> closest_scale(d, scaled_ideal(s))
    &&& n == 0 ==> d.scale == 0
    &&& d.negative == (n < 0)
}

proof fn lemma_pow10_38()
    ensures
        pow10(38) == 100000000000000000000000000000000000000,
{
    reveal_with_fuel(pow10, 39);
}

/// `10^s` as a `u128`.
fn ten_to(s: usize) -> (r: u128)
    requires
        s <= COEFFICIENT_DIGITS,
    ensures
        r == pow10(s as nat),
{
    let mut r: u128 = 1;
    let mut i: usize = 0;
    proof {
        lemma_pow10_38();
    }
    while i < s
        invariant
            i <= s <= COEFFICIENT_DIGITS,
            r == pow10(i as nat),
            pow10(38) == 100000000000000000000000000000000000000,
        decreases s - i,
    {
        proof {
            lemma_pow10_add((i + 1) as nat, (38 - i - 1) as nat);
            lemma_pow10_positive((38 - i - 1) as nat);
            let a = pow10((i + 1) as nat) as int;
            let b = pow10((38 - i - 1) as nat) as int;
            assert(((i + 1) as nat + (38 - i - 1) as nat) as nat == 38);
            assert(a <= a * b) by (nonlinear_arith)
                requires
                    a >= 0,
                    b >= 1,
            ;
            assert(pow10((i + 1) as nat) == 10 * pow10(i as nat));
        }
        r = r * 10;
        i = i + 1;
    }
    r
}

/// Reads `inner` as an integer multiplied by `10^s`: the quotient `inner / 10^s`.
fn read_scaled(inner: i64, s: usize) -> (r: Decimal)
    requires
        s <= MAX_SCALE,
    ensures
        scaled_value(r, inner as int, s as nat),
{
    let n = Decimal::from_i64(inner);
    // `10^s`: all of it in the coefficient while that fits, else `10^38` raised by the rest.
    let shown: usize = if s <= COEFFICIENT_DIGITS { s } else { COEFFICIENT_DIGITS };
    let ten = Decimal { negative: false, digits: ten_to(shown), scale: (shown as i16) - (s as i16) };
    proof {
        lemma_pow10_positive(shown as nat);
        let p = pow10(shown as nat) as int;
        assert(ten.scale + s == shown);
        if inner != 0 {
            let q = Decimal {
                negative: inner < 0,
                digits: if inner < 0 { (-inner) as u128 } else { inner as u128 },
                scale: s as i16,
            };
            assert(q.signed() == inner);
            assert(n.signed() == inner);
            assert(inner * p == p * inner) by (nonlinear_arith);
            if shown == 0 {
                assert(pow10(0) == 1);
                assert(inner * 1 * 1 == inner);
            }
            assert(is_quotient(n, ten, q));
            assert(quotient_exact(n, ten));
        }
    }
    let r = dec_div(n, ten);
    proof {
        if inner == 0 {
            assert(r.signed() == 0);
            assert(0 * pow10((r.scale - s) as nat) == 0);
            assert(0 * pow10((s - r.scale) as nat) == 0);
        } else {
            lemma_equal_scaled_shift(r.signed(), shown as nat, r.scale + ten.scale, inner as int, 0);
        }
    }
    r
}

/// `d` multiplied by `10^s`: the same coefficient at a scale `s` lower.
pub open spec fn shifted(d: Decimal, s: int) -> Decimal {
    Decimal { scale: (d.scale - s) as i16, ..d }
}

/// What converting `d` at scale `s` to an `i32` scaled integer gives.
pub open spec fn scaled_i32_result(d: Decimal, s: int) -> Result<i32, AmountConverterError> {
    let n = nearest_int(shifted(d, s));
    if fits_i32(n) {
        Ok(n as i32)
    } else {
        Err(AmountConverterError::OutOfRange)
    }
}

/// What converting `d` at scale `s` to an `i64` scaled integer gives.
pub open spec fn scaled_i64_result(d: Decimal, s: int) -> Result<i64, AmountConverterError> {
    let n = nearest_int(shifted(d, s));
    if fits_i64(n) {
        Ok(n as i64)
    } else {
        Err(AmountConverterError::OutOfRange)
    }
}

impl<const S: usize> Amount<S> {
    /// Positive zero.
    pub fn zero() -> (r: Self)
        ensures
            r@ == Decimal::of_int(0),
    {
        Amount { value: Decimal { negative: false, digits: 0, scale: 0 } }
    }

    /// Reads `inner` as an integer already multiplied by `10^S` (1234 at scale 2 is
    /// 12.34; 100 at scale 2 is 1, with no fractional digits).
    pub fn new_scaled_i32(inner: i32) -> (r: Self)
        requires
            S <= MAX_SCALE,
        ensures
            scaled_value(r@, inner as int, S as nat),
    {
        Amount { value: read_scaled(inner as i64, S) }
    }

    /// Reads `inner` as an integer already multiplied by `10^S`.
    pub fn new_scaled_i64(inner: i64) -> (r: Self)
        requires
            S <= MAX_SCALE,
        ensures
            scaled_value(r@, inner as int, S as nat),
    {
        Amount { value: read_scaled(inner, S) }
    }

    /// Wraps a decimal value as it is, with no rounding.
    pub fn from_decimal(value: Decimal) -> (r: Self)
        ensures
            r@ == value,
    {
        Amount { value }
    }

    /// The decimal value.
    pub fn raw(&self) -> (r: Decimal)
        ensures
            r == self@,
    {
        self.value
    }

    /// The number of fractional digits the value currently carries.
    pub fn scale(&self) -> (r: i16)
        ensures
            r == self@.scale,
    {
        self.value.scale
    }

    pub fn is_zero(&self) -> (r: bool)
        ensures
            r == self@.is_zero_value(),
    {
        self.value.is_zero()
    }

    pub fn add(self, rhs: Self) -> (r: Self)
        requires
            sum_exact(self@, rhs@),
        ensures
            is_sum(self@, rhs@, r@),
    {
        Amount { value: dec_add(self.value, rhs.value) }
    }

    pub fn sub(self, rhs: Self) -> (r: Self)
        requires
            difference_exact(self@, rhs@),
        ensures
            is_difference(self@, rhs@, r@),
    {
        Amount { value: dec_sub(self.value, rhs.value) }
    }

    pub fn add_assign(&mut self, rhs: Self)
        requires
            sum_exact(old(self)@, rhs@),
        ensures
            is_sum(old(self)@, rhs@, final(self)@),
    {
        self.value = dec_add(self.value, rhs.value);
    }

    pub fn sub_assign(&mut self, rhs: Self)
        requires
            difference_exact(old(self)@, rhs@),
        ensures
            is_difference(old(self)@, rhs@, final(self)@),
    {
        self.value = dec_sub(self.value, rhs.value);
    }

    /// Inverts the sign; zero becomes negative zero, which still equals zero.
    pub fn neg(self) -> (r: Self)
        ensures
            r@ == self@.negated(),
    {
        Amount { value: Decimal { negative: !self.value.negative, ..self.value } }
    }

    pub fn mul(self, rhs: Self) -> (r: Self)
        requires
            product_exact(self@, rhs@),
        ensures
            is_product(self@, rhs@, r@),
    {
        Amount { value: dec_mul(self.value, rhs.value) }
    }

    /// Divides by another amount; a zero divisor is refused.
    pub fn div(self, rhs: Self) -> (r: Result<Self, AmountError>)
        requires
            !rhs@.is_zero_value() ==> self@.in_band() && rhs@.in_band(),
        ensures
            rhs@.is_zero_value() <==> r == Err::<Self, AmountError>(AmountError::DivisionByZero),
            r matches Ok(q) ==> (quotient_exact(self@, rhs@) ==> is_quotient(self@, rhs@, q@)),
    {
        if rhs.value.is_zero() {
            Err(AmountError::DivisionByZero)
        } else {
            Ok(Amount { value: dec_div(self.value, rhs.value) })
        }
    }

    pub fn mul_i32(self, rhs: i32) -> (r: Self)
        requires
            product_exact(self@, Decimal::of_int(rhs as int)),
        ensures
            is_product(self@, Decimal::of_int(rhs as int), r@),
    {
        Amount { value: dec_mul(self.value, Decimal::from_i64(rhs as i64)) }
    }

    /// Divides by an integer; zero is refused.
    pub fn div_i32(self, rhs: i32) -> (r: Result<Self, AmountError>)
        requires
            rhs != 0 ==> self@.in_band(),
        ensures
            rhs == 0 <==> r == Err::<Self, AmountError>(AmountError::DivisionByZero),
            r matches Ok(q) ==> (quotient_exact(self@, Decimal::of_int(rhs as int)) ==> is_quotient(
                self@,
                Decimal::of_int(rhs as int),
                q@,
            )),
    {
        if rhs == 0 {
            Err(AmountError::DivisionByZero)
        } else {
            Ok(Amount { value: dec_div(self.value, Decimal::from_i64(rhs as i64)) })
        }
    }

    /// Rounds to `digits` fractional digits, halves away from zero.
    pub fn round(&self, digits: i16) -> (r: Self)
        requires
            i16::MIN <= self@.scale - digits <= i16::MAX,
        ensures
            rescale_exact(self@, digits as int) ==> r@.scale == digits && r@.signed() == round_to(
                self@.signed(),
                self@.scale as int,
                digits as int,
            ) && r@.negative == self@.negative,
            !rescale_exact(self@, digits as int) ==> r@.same_value(self@),
    {
        Amount { value: dec_round(self.value, digits) }
    }

    /// The value multiplied by `10^S` and rounded to an `i32` (halves away from
    /// zero); an error when it lies outside `i32`.
    pub fn to_i32(&self) -> (r: Result<i32, AmountConverterError>)
        requires
            S <= i16::MAX,
            self@.scale - S >= i16::MIN,
        ensures
            r == scaled_i32_result(self@, S as int),
    {
        let v = self.value;
        match dec_to_i32(Decimal { scale: v.scale - S as i16, ..v }) {
            Some(n) => Ok(n),
            None => Err(AmountConverterError::OutOfRange),
        }
    }

    /// The value multiplied by `10^S` and rounded to an `i64`; an error when it
    /// lies outside `i64`.
    pub fn to_i64(&self) -> (r: Result<i64, AmountConverterError>)
        requires
            S <= i16::MAX,
            self@.scale - S >= i16::MIN,
        ensures
            r == scaled_i64_result(self@, S as int),
    {
        let v = self.value;
        match dec_to_i64(Decimal { scale: v.scale - S as i16, ..v }) {
            Some(n) => Ok(n),
            None => Err(AmountConverterError::OutOfRange),
        }
    }

    /// The decimal's own text: its coefficient at its actual scale, with a sign
    /// for negative values (negative zero included).
    pub fn to_string(&self) -> (r: String)
        ensures
            r@ == decimal_text(self@.negative, self@.digits, self@.scale),
    {
        dec_to_string(self.value)
    }
}

impl<const S: usize> PartialEq for Amount<S> {
    fn eq(&self, other: &Self) -> (r: bool) {
        dec_eq(self.value, other.value)
    }
}

impl<const S: usize> vstd::std_specs::cmp::PartialEqSpecImpl for Amount<S> {
    open spec fn obeys_eq_spec() -> bool {
        true
    }

    open spec fn eq_spec(&self, other: &Self) -> bool {
        self@.same_value(other@)
    }
}

} // verus!
