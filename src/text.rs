//! Decimal text of fixed-point amounts.

use vstd::prelude::*;

verus! {

/// The ASCII digit of `d`.
pub open spec fn digit_char(d: nat) -> u8 {
    (48 + d % 10) as u8
}

/// The decimal digits of `n`, without leading zeros.
pub open spec fn decimal_digits(n: nat) -> Seq<u8>
    decreases n,
{
    if n < 10 {
        seq![digit_char(n)]
    } else {
        decimal_digits(n / 10).push(digit_char(n % 10))
    }
}

/// `s` without its trailing `0` digits.
pub open spec fn strip_zeros(s: Seq<u8>) -> Seq<u8>
    decreases s.len(),
{
    if s.len() > 0 && s.last() == 48 {
        strip_zeros(s.drop_last())
    } else {
        s
    }
}

/// The four fraction digits of ten-thousandths `f`.
pub open spec fn four_digits(f: nat) -> Seq<u8> {
    seq![digit_char(f / 1000), digit_char(f / 100), digit_char(f / 10), digit_char(f)]
}

/// The size of `a`.
pub open spec fn abs(a: int) -> nat {
    if a < 0 {
        (-a) as nat
    } else {
        a as nat
    }
}

/// The text of the amount `a`, in ten-thousandths: a `-` where negative, the
/// whole units, then, where the fraction is not zero, `.` and its digits
/// without trailing zeros (`15000` is `1.5`, `30000` is `3`).
pub open spec fn amount_text(a: int) -> Seq<u8> {
    let m = abs(a);
    let f = m % 10000;
    (if a < 0 {
        seq![45u8]
    } else {
        Seq::empty()
    }) + decimal_digits(m / 10000) + (if f == 0 {
        Seq::empty()
    } else {
        seq![46u8] + strip_zeros(four_digits(f))
    })
}

/// Appends the decimal digits of `n` to `out`.
fn push_digits(n: u64, out: &mut Vec<u8>)
    ensures
        final(out)@ == old(out)@ + decimal_digits(n as nat),
    decreases n,
{
    if n >= 10 {
        push_digits(n / 10, out);
    }
    out.push(48 + (n % 10) as u8);
    assert(final(out)@ =~= old(out)@ + decimal_digits(n as nat));
}

/// The text of the amount `a`, given in ten-thousandths.
pub fn format_amount(a: i64) -> (r: Vec<u8>)
    ensures
        r@ == amount_text(a as int),
{
    let m: u64 = if a < 0 { (0 - (a as i128)) as u64 } else { a as u64 };
    let mut out: Vec<u8> = Vec::new();
    if a < 0 {
        out.push(45);
    }
    let ghost sign = out@;
    push_digits(m / 10000, &mut out);
    let f = m % 10000;
    if f != 0 {
        let mut frac: Vec<u8> = Vec::new();
        frac.push(48 + (f / 1000) as u8);
        frac.push(48 + (f / 100 % 10) as u8);
        frac.push(48 + (f / 10 % 10) as u8);
        frac.push(48 + (f % 10) as u8);
        assert(frac@ =~= four_digits(f as nat));
        while frac.len() > 0 && frac[frac.len() - 1] == 48
            invariant
                strip_zeros(frac@) == strip_zeros(four_digits(f as nat)),
            decreases frac@.len(),
        {
            frac.pop();
        }
        out.push(46);
        let mut i: usize = 0;
        let ghost before = out@;
        while i < frac.len()
            invariant
                i <= frac@.len(),
                out@ == before + frac@.subrange(0, i as int),
            decreases frac@.len() - i,
        {
            out.push(frac[i]);
            assert(frac@.subrange(0, i + 1) =~= frac@.subrange(0, i as int).push(frac@[i as int]));
            i += 1;
        }
        assert(frac@.subrange(0, i as int) =~= frac@);
    }
    assert(out@ =~= amount_text(a as int));
    out
}

} // verus!
