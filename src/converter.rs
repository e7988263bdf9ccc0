//! Explicit, fallible extraction of plain numbers from an [`Amount`].

use vstd::prelude::*;
use crate::amount::Amount;
use crate::backend::dec_to_i32;
use crate::decimal::{fits_i32, nearest_int, Decimal};

verus! {

/// Why an amount could not be turned into a plain number.
#[derive(Clone, Copy, Debug, PartialEq, Eq, Structural)]
pub enum AmountConverterError {
    /// The integer lies outside the target type's range.
    OutOfRange,
}

/// Holds one amount and hands out its value as plain numbers, reporting failure
/// instead of panicking.
pub struct AmountConverter<const S: usize> {
    amount: Amount<S>,
}

impl<const S: usize> View for AmountConverter<S> {
    type V = Decimal;

    closed spec fn view(&self) -> Decimal {
        self.amount@
    }
}

impl<const S: usize> AmountConverter<S> {
    pub fn new(amount: Amount<S>) -> (r: Self)
        ensures
            r@ == amount@,
    {
        AmountConverter { amount }
    }

    pub fn amount(&self) -> (r: Amount<S>)
        ensures
            r@ == self@,
    {
        self.amount
    }

    /// The logical value (not multiplied by `10^S`) rounded to the nearest
    /// integer, halves away from zero; an error when it lies outside `i32`.
    pub fn amount_to_i32(&self) -> (r: Result<i32, AmountConverterError>)
        ensures
            r == if fits_i32(nearest_int(self@)) {
                Ok::<i32, AmountConverterError>(nearest_int(self@) as i32)
            } else {
                Err(AmountConverterError::OutOfRange)
            },
    {
        match dec_to_i32(self.amount.raw()) {
            Some(n) => Ok(n),
            None => Err(AmountConverterError::OutOfRange),
        }
    }
}

} // verus!
