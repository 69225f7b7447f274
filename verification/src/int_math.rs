//! Integer arithmetic as machine integers do it, and decimal text.
use vstd::prelude::*;

verus! {

/// Integer division rounding toward zero (the division of machine integers).
pub open spec fn div_trunc(a: int, b: int) -> int {
    if a >= 0 {
        a / b
    } else {
        -((-a) / b)
    }
}

/// The remainder that goes with `div_trunc` (it takes the sign of `a`).
pub open spec fn rem_trunc(a: int, b: int) -> int {
    a - b * div_trunc(a, b)
}

/// The decimal digits of `n`, as ASCII, without leading zeros.
pub open spec fn digits_of(n: nat) -> Seq<u8>
    decreases n,
{
    if n < 10 {
        seq![(48 + n) as u8]
    } else {
        digits_of(n / 10).push((48 + n % 10) as u8)
    }
}

/// The decimal text of `n`, as ASCII: a minus sign for a negative number,
/// then the digits of its magnitude.
pub open spec fn decimal_text(n: int) -> Seq<u8> {
    if n < 0 {
        seq![45u8] + digits_of((-n) as nat)
    } else {
        digits_of(n as nat)
    }
}

/// The decimal text of `n` (see `decimal_text`).
pub fn decimal(n: i32) -> (r: Vec<u8>)
    ensures
        r@ == decimal_text(n as int),
{
    let mag: u32 = if n < 0 {
        (-(n as i64)) as u32
    } else {
        n as u32
    };
    let mut m: u32 = mag;
    let mut digits: Vec<u8> = Vec::new();
    digits.push((48 + m % 10) as u8);
    m = m / 10;
    while m > 0
        invariant
            m > 0 ==> digits_of(mag as nat) == digits_of(m as nat) + digits@,
            m == 0 ==> digits_of(mag as nat) == digits@,
        decreases m,
    {
        let ghost old_digits = digits@;
        digits.insert(0, (48 + m % 10) as u8);
        proof {
            if m >= 10 {
                assert(digits_of(m as nat) == digits_of((m / 10) as nat).push((48 + m % 10) as u8));
                assert(digits_of(m as nat) + old_digits =~= digits_of((m / 10) as nat) + digits@);
            } else {
                assert(digits_of(m as nat) + old_digits =~= digits@);
            }
        }
        m = m / 10;
    }
    if n < 0 {
        digits.insert(0, 45u8);
        assert(digits@ =~= seq![45u8] + digits_of(mag as nat));
    }
    digits
}

} // verus!
