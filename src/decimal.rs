//! The plain-value model of a finite 128-bit decimal: sign, coefficient and scale.
//!
//! A `Decimal` with coefficient `c`, scale `s` and sign `-` stands for the number
//! `-c * 10^(-s)`. Numbers are compared by value: `1.0` and `1.00` are the same
//! value, and so are `+0` and `-0`.

use vstd::prelude::*;
use vstd::arithmetic::div_mod::{
    lemma_div_multiples_vanish, lemma_div_multiples_vanish_quotient, lemma_mod_multiples_basic,
    lemma_truncate_middle,
};

verus! {

/// The largest scale magnitude, either sign, at which a division is carried out.
pub const SCALE_BAND: i16 = 16000;

/// Ten to the power `n`.
pub open spec fn pow10(n: nat) -> nat
    decreases n,
{
    if n == 0 {
        1
    } else {
        10 * pow10((n - 1) as nat)
    }
}

/// `n1 * 10^(-s1) == n2 * 10^(-s2)`, stated over integers.
pub open spec fn equal_scaled(n1: int, s1: int, n2: int, s2: int) -> bool {
    if s1 <= s2 {
        n1 * pow10((s2 - s1) as nat) == n2
    } else {
        n1 == n2 * pow10((s1 - s2) as nat)
    }
}

/// Rounds a non-negative `m` divided by a positive `p` to the nearest integer,
/// halves away from zero.
pub open spec fn half_up(m: int, p: int) -> int {
    m / p + if 2 * (m % p) >= p { 1int } else { 0int }
}

/// The coefficient at scale `k` of the number `n * 10^(-s)`, rounded half away
/// from zero when `k < s`.
pub open spec fn round_to(n: int, s: int, k: int) -> int {
    if s <= k {
        n * pow10((k - s) as nat)
    } else if n >= 0 {
        half_up(n, pow10((s - k) as nat) as int)
    } else {
        -half_up(-n, pow10((s - k) as nat) as int)
    }
}

/// A finite decimal number: `(-1)^negative * digits * 10^(-scale)`.
#[derive(Clone, Copy, Debug)]
pub struct Decimal {
    pub negative: bool,
    pub digits: u128,
    pub scale: i16,
}

impl Decimal {
    /// The signed coefficient.
    pub open spec fn signed(self) -> int {
        if self.negative {
            -(self.digits as int)
        } else {
            self.digits as int
        }
    }

    /// The signed coefficient re-expressed at a scale `s >= self.scale`.
    pub open spec fn at_scale(self, s: int) -> int {
        self.signed() * pow10((s - self.scale) as nat)
    }

    /// Both numbers have the same value.
    pub open spec fn same_value(self, other: Decimal) -> bool {
        equal_scaled(self.signed(), self.scale as int, other.signed(), other.scale as int)
    }

    pub open spec fn is_zero_value(self) -> bool {
        self.digits == 0
    }

    /// The scale lies where a division neither overflows nor underflows.
    pub open spec fn in_band(self) -> bool {
        -SCALE_BAND <= self.scale <= SCALE_BAND
    }

    /// The same coefficient and scale with the sign inverted.
    pub open spec fn negated(self) -> Decimal {
        Decimal { negative: !self.negative, ..self }
    }

    /// The number `n`, with scale zero.
    pub open spec fn of_int(n: int) -> Decimal {
        Decimal { negative: n < 0, digits: if n < 0 { (-n) as u128 } else { n as u128 }, scale: 0 }
    }

    pub fn new(negative: bool, digits: u128, scale: i16) -> (r: Decimal)
        ensures
            r == (Decimal { negative, digits, scale }),
    {
        Decimal { negative, digits, scale }
    }

    /// The integer `n` as a decimal with scale zero.
    pub fn from_i64(n: i64) -> (r: Decimal)
        ensures
            r == Decimal::of_int(n as int),
            r.signed() == n,
            r.scale == 0,
    {
        let digits: u128 = if n < 0 {
            (0i128 - n as i128) as u128
        } else {
            n as u128
        };
        Decimal { negative: n < 0, digits, scale: 0 }
    }

    pub fn is_zero(&self) -> (r: bool)
        ensures
            r == self.is_zero_value(),
    {
        self.digits == 0
    }
}

/// The larger of the two scales.
pub open spec fn max_scale(a: Decimal, b: Decimal) -> int {
    if a.scale >= b.scale {
        a.scale as int
    } else {
        b.scale as int
    }
}

/// The coefficient of `d` re-expressed at a scale `s >= d.scale`.
pub open spec fn aligned(d: Decimal, s: int) -> int {
    d.digits * pow10((s - d.scale) as nat)
}

/// Exact sums: both coefficients, aligned at the larger scale, fit a `u128`, and so
/// does their sum when the signs agree (otherwise the magnitudes are subtracted).
pub open spec fn sum_exact(a: Decimal, b: Decimal) -> bool {
    let m = max_scale(a, b);
    &&& aligned(a, m) <= u128::MAX
    &&& aligned(b, m) <= u128::MAX
    &&& a.negative == b.negative ==> aligned(a, m) + aligned(b, m) <= u128::MAX
}

/// Exact differences: as for sums, with the magnitudes added when the signs differ.
pub open spec fn difference_exact(a: Decimal, b: Decimal) -> bool {
    let m = max_scale(a, b);
    &&& aligned(a, m) <= u128::MAX
    &&& aligned(b, m) <= u128::MAX
    &&& a.negative != b.negative ==> aligned(a, m) + aligned(b, m) <= u128::MAX
}

/// `r` is `a + b`, at the larger of the two scales.
pub open spec fn is_sum(a: Decimal, b: Decimal, r: Decimal) -> bool {
    let m = max_scale(a, b);
    r.scale == m && r.signed() == a.at_scale(m) + b.at_scale(m)
}

/// `r` is `a - b`, at the larger of the two scales.
pub open spec fn is_difference(a: Decimal, b: Decimal, r: Decimal) -> bool {
    let m = max_scale(a, b);
    r.scale == m && r.signed() == a.at_scale(m) - b.at_scale(m)
}

/// Exact products: the coefficient product fits a `u128` and the scales add up to
/// a representable scale.
pub open spec fn product_exact(a: Decimal, b: Decimal) -> bool {
    &&& a.digits * b.digits <= u128::MAX
    &&& i16::MIN <= a.scale + b.scale <= i16::MAX
}

/// `r` is `a * b`: coefficients multiply, scales add.
pub open spec fn is_product(a: Decimal, b: Decimal, r: Decimal) -> bool {
    r.scale == a.scale + b.scale && r.signed() == a.signed() * b.signed()
}

/// `q * b` has the value of `a`.
pub open spec fn is_quotient(a: Decimal, b: Decimal, q: Decimal) -> bool {
    equal_scaled(q.signed() * b.signed(), q.scale + b.scale, a.signed(), a.scale as int)
}

/// `a / b` has an exact representation as a decimal.
pub open spec fn quotient_exact(a: Decimal, b: Decimal) -> bool {
    exists|q: Decimal| #[trigger] is_quotient(a, b, q)
}

/// `q` is written at scale `ideal` or, when the value needs more fractional digits,
/// at the fewest that represent it (its last digit is not zero).
pub open spec fn closest_scale(q: Decimal, ideal: int) -> bool {
    q.scale >= ideal && (q.scale > ideal ==> q.digits % 10 != 0)
}

/// Rescaling `d` to `k` fractional digits either lowers its scale (and rounds) or
/// raises it with a coefficient that still fits the precision.
pub open spec fn rescale_exact(d: Decimal, k: int) -> bool {
    d.scale > k || d.digits * pow10((k - d.scale) as nat) <= u128::MAX
}

/// The integer nearest to the value of `d` (halves away from zero).
pub open spec fn nearest_int(d: Decimal) -> int {
    round_to(d.signed(), d.scale as int, 0)
}

/// `n` is a signed 128-bit coefficient.
pub open spec fn fits_coefficient(n: int) -> bool {
    -(u128::MAX as int) <= n <= u128::MAX
}

pub open spec fn fits_i32(n: int) -> bool {
    i32::MIN <= n <= i32::MAX
}

pub open spec fn fits_i64(n: int) -> bool {
    i64::MIN <= n <= i64::MAX
}

/// The signed coefficient times a non-negative factor.
pub proof fn lemma_digits_times(d: Decimal, p: int)
    requires
        p >= 0,
    ensures
        d.signed() * p == if d.negative { -(d.digits * p) } else { d.digits * p },
{
    if d.negative {
        assert((-(d.digits as int)) * p == -(d.digits * p)) by (nonlinear_arith);
    }
}

pub proof fn lemma_pow10_positive(n: nat)
    ensures
        pow10(n) >= 1,
    decreases n,
{
    if n > 0 {
        lemma_pow10_positive((n - 1) as nat);
    }
}

pub proof fn lemma_pow10_add(a: nat, b: nat)
    ensures
        pow10(a + b) == pow10(a) * pow10(b),
    decreases a,
{
    if a > 0 {
        lemma_pow10_add((a - 1) as nat, b);
        assert(pow10(a + b) == 10 * pow10((a - 1 + b) as nat));
        let x = pow10((a - 1) as nat) as int;
        let y = pow10(b) as int;
        assert(10 * (x * y) == (10 * x) * y) by (nonlinear_arith);
        assert(pow10(a) == 10 * x);
    } else {
        assert(pow10(a) == 1);
        assert(a + b == b);
    }
}

proof fn lemma_half_up_scaled(m: int, p: int, t: int)
    requires
        m >= 0,
        p > 0,
        t > 0,
    ensures
        half_up(m * t, p * t) == half_up(m, p),
{
    lemma_div_multiples_vanish_quotient(t, m, p);
    lemma_truncate_middle(m, t, p);
    assert(m * t == t * m && p * t == t * p) by (nonlinear_arith);
    let r = m % p;
    assert(2 * (t * r) >= t * p <==> 2 * r >= p) by (nonlinear_arith)
        requires
            t > 0,
    ;
}

proof fn lemma_half_up_of_multiple(x: int, p: int)
    requires
        x >= 0,
        p > 0,
    ensures
        half_up(x * p, p) == x,
{
    lemma_div_multiples_vanish(x, p);
    lemma_mod_multiples_basic(x, p);
    assert(x * p == p * x) by (nonlinear_arith);
}

/// Writing a number with `d` more fractional digits does not change how it rounds.
pub proof fn lemma_round_to_rescaled(n: int, s: int, d: nat, k: int)
    ensures
        round_to(n, s, k) == round_to(n * pow10(d), s + d, k),
{
    let t = pow10(d) as int;
    lemma_pow10_positive(d);
    if s + d <= k {
        let u = pow10((k - s - d) as nat) as int;
        lemma_pow10_add(d, (k - s - d) as nat);
        assert((d + (k - s - d) as nat) as nat == (k - s) as nat);
        assert(n * (t * u) == (n * t) * u) by (nonlinear_arith);
    } else if s <= k {
        let l = n * pow10((k - s) as nat);
        let p = pow10((s + d - k) as nat) as int;
        lemma_pow10_positive((s + d - k) as nat);
        lemma_pow10_add((k - s) as nat, (s + d - k) as nat);
        assert(((k - s) as nat + (s + d - k) as nat) as nat == d);
        let w = pow10((k - s) as nat) as int;
        lemma_pow10_positive((k - s) as nat);
        assert(n * (w * p) == (n * w) * p) by (nonlinear_arith);
        if n >= 0 {
            assert(l >= 0) by (nonlinear_arith)
                requires
                    n >= 0,
                    w >= 0,
                    l == n * w,
            ;
            lemma_half_up_of_multiple(l, p);
        } else {
            assert(-l >= 0 && -(l * p) == (-l) * p && n * t < 0) by (nonlinear_arith)
                requires
                    n < 0,
                    w >= 1,
                    p >= 1,
                    l == n * w,
                    t == w * p,
            ;
            lemma_half_up_of_multiple(-l, p);
        }
    } else {
        let p = pow10((s - k) as nat) as int;
        lemma_pow10_positive((s - k) as nat);
        lemma_pow10_add((s - k) as nat, d);
        assert(((s - k) as nat + d) as nat == (s + d - k) as nat);
        if n >= 0 {
            assert(n * t >= 0) by (nonlinear_arith)
                requires
                    n >= 0,
                    t >= 1,
            ;
            lemma_half_up_scaled(n, p, t);
        } else {
            assert(n * t < 0 && -(n * t) == (-n) * t) by (nonlinear_arith)
                requires
                    n < 0,
                    t >= 1,
            ;
            lemma_half_up_scaled(-n, p, t);
        }
    }
}

/// Multiplying a coefficient by `10^d` is the same as lowering its scale by `d`.
pub proof fn lemma_equal_scaled_shift(x: int, d: nat, s: int, y: int, t: int)
    requires
        equal_scaled(x * pow10(d), s, y, t),
    ensures
        equal_scaled(x, s - d, y, t),
{
    let pd = pow10(d) as int;
    lemma_pow10_positive(d);
    if s <= t {
        let p = pow10((t - s) as nat) as int;
        lemma_pow10_add(d, (t - s) as nat);
        assert((d + (t - s) as nat) as nat == (t - (s - d)) as nat);
        assert((x * pd) * p == x * (pd * p)) by (nonlinear_arith);
    } else if s - d <= t {
        let p = pow10((s - t) as nat) as int;
        let u = pow10((t - (s - d)) as nat) as int;
        lemma_pow10_positive((s - t) as nat);
        lemma_pow10_add((t - (s - d)) as nat, (s - t) as nat);
        assert(((t - (s - d)) as nat + (s - t) as nat) as nat == d);
        assert(x * u == y) by (nonlinear_arith)
            requires
                x * pd == y * p,
                pd == u * p,
                p >= 1,
        ;
    } else {
        let p = pow10((s - t) as nat) as int;
        let u = pow10((s - d - t) as nat) as int;
        lemma_pow10_add(d, (s - d - t) as nat);
        assert((d + (s - d - t) as nat) as nat == (s - t) as nat);
        assert(x == y * u) by (nonlinear_arith)
            requires
                x * pd == y * p,
                p == pd * u,
                pd >= 1,
        ;
    }
}

/// Two numbers are equal exactly when their coefficients agree at a common scale `m`.
pub proof fn lemma_equal_scaled_at(n1: int, s1: int, n2: int, s2: int, m: int)
    requires
        m >= s1,
        m >= s2,
    ensures
        equal_scaled(n1, s1, n2, s2) <==> n1 * pow10((m - s1) as nat) == n2 * pow10((m - s2) as nat),
{
    if s1 <= s2 {
        let d = pow10((s2 - s1) as nat) as int;
        let u = pow10((m - s2) as nat) as int;
        lemma_pow10_positive((m - s2) as nat);
        lemma_pow10_add((s2 - s1) as nat, (m - s2) as nat);
        assert(((s2 - s1) as nat + (m - s2) as nat) as nat == (m - s1) as nat);
        assert(n1 * (d * u) == n2 * u <==> n1 * d == n2) by (nonlinear_arith)
            requires
                u >= 1,
        ;
    } else {
        let d = pow10((s1 - s2) as nat) as int;
        let u = pow10((m - s1) as nat) as int;
        lemma_pow10_positive((m - s1) as nat);
        lemma_pow10_add((s1 - s2) as nat, (m - s1) as nat);
        assert(((s1 - s2) as nat + (m - s1) as nat) as nat == (m - s2) as nat);
        assert(n1 * u == n2 * (d * u) <==> n1 == n2 * d) by (nonlinear_arith)
            requires
                u >= 1,
        ;
    }
}

/// Equality of values is transitive.
pub proof fn lemma_equal_scaled_trans(n1: int, s1: int, n2: int, s2: int, n3: int, s3: int)
    requires
        equal_scaled(n1, s1, n2, s2),
        equal_scaled(n2, s2, n3, s3),
    ensures
        equal_scaled(n1, s1, n3, s3),
{
    let m = if s1 >= s2 && s1 >= s3 { s1 } else if s2 >= s3 { s2 } else { s3 };
    lemma_equal_scaled_at(n1, s1, n2, s2, m);
    lemma_equal_scaled_at(n2, s2, n3, s3, m);
    lemma_equal_scaled_at(n1, s1, n3, s3, m);
}

/// Multiplying both sides by the same integer keeps values equal.
pub proof fn lemma_equal_scaled_times(n1: int, s1: int, n2: int, s2: int, k: int)
    requires
        equal_scaled(n1, s1, n2, s2),
    ensures
        equal_scaled(n1 * k, s1, n2 * k, s2),
{
    if s1 <= s2 {
        let d = pow10((s2 - s1) as nat) as int;
        assert((n1 * k) * d == (n1 * d) * k) by (nonlinear_arith);
    } else {
        let d = pow10((s1 - s2) as nat) as int;
        assert((n2 * k) * d == (n2 * d) * k) by (nonlinear_arith);
    }
}

/// Rounding depends on the value alone, not on how it is written (`1.25` and
/// `1.250` round alike).
pub proof fn lemma_round_to_same_value(n1: int, s1: int, n2: int, s2: int, k: int)
    requires
        equal_scaled(n1, s1, n2, s2),
    ensures
        round_to(n1, s1, k) == round_to(n2, s2, k),
{
    if s1 <= s2 {
        lemma_round_to_rescaled(n1, s1, (s2 - s1) as nat, k);
    } else {
        lemma_round_to_rescaled(n2, s2, (s1 - s2) as nat, k);
    }
}

} // verus!
