//! Turning a raw count of minor units (cents) into whole currency units.

use vstd::prelude::*;
use crate::amount::{Amount, Euros};
use crate::backend::{dec_div, dec_round};
use crate::decimal::{
    equal_scaled, fits_coefficient, lemma_equal_scaled_times, lemma_equal_scaled_trans, is_quotient, lemma_digits_times, lemma_pow10_positive,
    lemma_round_to_rescaled, lemma_round_to_same_value, pow10, quotient_exact, rescale_exact,
    round_to, Decimal,
};

verus! {

/// Two values that are equal stay equal when both are multiplied by 100.
proof fn lemma_same_value_times_hundred(x: Decimal, y: Decimal, c: Decimal)
    requires
        x.same_value(y),
        equal_scaled(y.signed() * 100, y.scale as int, c.signed(), c.scale as int),
    ensures
        equal_scaled(x.signed() * 100, x.scale as int, c.signed(), c.scale as int),
{
    lemma_equal_scaled_times(x.signed(), x.scale as int, y.signed(), y.scale as int, 100);
    lemma_equal_scaled_trans(
        x.signed() * 100,
        x.scale as int,
        y.signed() * 100,
        y.scale as int,
        c.signed(),
        c.scale as int,
    );
}

/// Converts raw cent counts into euros rounded to the cent.
pub struct CurrencyFormatter {}

impl CurrencyFormatter {
    pub fn new() -> Self {
        CurrencyFormatter {}
    }

    /// Divides a raw cent count by 100 and rounds the quotient to two fractional
    /// digits, halves away from zero. The raw count may carry many more digits
    /// than that, as one converted from a binary float does. A count too large for
    /// a 128-bit coefficient at scale 2 is returned as the exact quotient, unrounded.
    pub fn format_cents(&self, cents_raw: Decimal) -> (r: Euros)
        requires
            cents_raw.in_band(),
        ensures
            fits_coefficient(round_to(cents_raw.signed(), cents_raw.scale + 2, 2)) ==> r@.scale == 2
                && r@.signed() == round_to(cents_raw.signed(), cents_raw.scale + 2, 2)
                && r@.negative == cents_raw.negative,
            !fits_coefficient(round_to(cents_raw.signed(), cents_raw.scale + 2, 2)) ==> equal_scaled(
                r@.signed() * 100,
                r@.scale as int,
                cents_raw.signed(),
                cents_raw.scale as int,
            ),
    {
        let hundred = Decimal::from_i64(100);
        proof {
            let c = cents_raw;
            assert(pow10(0) == 1);
            assert(pow10(1) == 10);
            assert(pow10(2) == 100);
            let q = Decimal { scale: (c.scale + 2) as i16, ..c };
            assert(is_quotient(c, hundred, q));
            assert(quotient_exact(c, hundred));
        }
        let euros = dec_div(cents_raw, hundred);
        proof {
            let c = cents_raw;
            // euros * 100 has the value of the raw count
            assert(equal_scaled(euros.signed() * 100, euros.scale as int, c.signed(), c.scale as int));
            lemma_round_to_rescaled(euros.signed(), euros.scale as int, 2, 2);
            lemma_round_to_same_value(euros.signed() * 100, euros.scale + 2, c.signed(), c.scale + 2, 2);
            let target = round_to(c.signed(), c.scale + 2, 2);
            assert(round_to(euros.signed(), euros.scale as int, 2) == target);
            if fits_coefficient(target) && euros.scale <= 2 {
                let w = pow10((2 - euros.scale) as nat) as int;
                lemma_pow10_positive((2 - euros.scale) as nat);
                lemma_digits_times(euros, w);
                assert(euros.signed() * w == target);
            }
        }
        let rounded = dec_round(euros, 2);
        proof {
            if !fits_coefficient(round_to(cents_raw.signed(), cents_raw.scale + 2, 2)) {
                // a rounded result at scale 2 would have this coefficient, which cannot be
                assert(!rescale_exact(euros, 2));
                assert(rounded.same_value(euros));
                lemma_same_value_times_hundred(rounded, euros, cents_raw);
            }
        }
        Amount::from_decimal(rounded)
    }
}

} // verus!
