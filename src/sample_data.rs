//! Random monetary values as text, for exercising the library on sample data.

use vstd::prelude::*;
use vstd::string::StringExecFns;
use crate::backend::random_in;

verus! {

/// The decimal digit character for `d` in `0..10`.
pub open spec fn digit_char(d: int) -> char {
    seq!['0', '1', '2', '3', '4', '5', '6', '7', '8', '9'][d]
}

/// The decimal numeral of `n`, without leading zeros.
pub open spec fn nat_text(n: nat) -> Seq<char>
    decreases n,
{
    if n < 10 {
        seq![digit_char(n as int)]
    } else {
        nat_text(n / 10) + seq![digit_char((n % 10) as int)]
    }
}

/// `c` cents written as units with exactly two fractional digits ("12.02").
pub open spec fn cents_text(c: nat) -> Seq<char> {
    nat_text(c / 100) + seq!['.', digit_char(((c / 10) % 10) as int), digit_char((c % 10) as int)]
}

/// `t` is the text of some amount between 1.00 and 1000.00 written with two fractional digits.
pub open spec fn is_sample_text(t: Seq<char>) -> bool {
    exists|c: nat| 100 <= c <= 100_000 && t == cents_text(c)
}

fn digit_str(d: u32) -> (r: &'static str)
    requires
        d < 10,
    ensures
        r@ == seq![digit_char(d as int)],
{
    proof {
        reveal_strlit("0");
        reveal_strlit("1");
        reveal_strlit("2");
        reveal_strlit("3");
        reveal_strlit("4");
        reveal_strlit("5");
        reveal_strlit("6");
        reveal_strlit("7");
        reveal_strlit("8");
        reveal_strlit("9");
    }
    let r = if d == 0 {
        "0"
    } else if d == 1 {
        "1"
    } else if d == 2 {
        "2"
    } else if d == 3 {
        "3"
    } else if d == 4 {
        "4"
    } else if d == 5 {
        "5"
    } else if d == 6 {
        "6"
    } else if d == 7 {
        "7"
    } else if d == 8 {
        "8"
    } else {
        "9"
    };
    assert(r@ =~= seq![digit_char(d as int)]);
    r
}

fn push_numeral(s: &mut String, n: u32)
    ensures
        final(s)@ == old(s)@ + nat_text(n as nat),
    decreases n,
{
    if n >= 10 {
        push_numeral(s, n / 10);
    }
    s.append(digit_str(n % 10));
    assert(final(s)@ =~= old(s)@ + nat_text(n as nat)) by {
        if n >= 10 {
            assert(nat_text(n as nat) == nat_text((n / 10) as nat) + seq![digit_char((n % 10) as int)]);
        }
    }
}

/// Writes `c` cents as units with two fractional digits.
pub fn cents_to_text(c: u32) -> (r: String)
    ensures
        r@ == cents_text(c as nat),
{
    let mut s = String::new();
    push_numeral(&mut s, c / 100);
    s.append(".");
    s.append(digit_str((c / 10) % 10));
    s.append(digit_str(c % 10));
    proof {
        reveal_strlit(".");
    }
    assert(s@ =~= cents_text(c as nat));
    s
}

/// `count` random values between 1.00 and 1000.00, each with two fractional digits.
pub fn generate_fake_monetary_values(count: usize) -> (r: Vec<String>)
    ensures
        r.len() == count,
        forall|i: int| 0 <= i < count ==> is_sample_text(#[trigger] r[i]@),
{
    let mut values: Vec<String> = Vec::new();
    let mut i: usize = 0;
    while i < count
        invariant
            i <= count,
            values.len() == i,
            forall|j: int| 0 <= j < i ==> is_sample_text(#[trigger] values[j]@),
        decreases count - i,
    {
        let cents = random_in(100, 100_000);
        let text = cents_to_text(cents);
        values.push(text);
        assert(values[i as int]@ == cents_text(cents as nat));
        i = i + 1;
    }
    values
}

} // verus!
