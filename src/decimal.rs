use vstd::prelude::*;

verus! {

/// The ASCII digit for `d < 10`.
pub open spec fn digit(d: nat) -> u8 {
    (48 + d) as u8
}

/// The decimal digits of `n`, most significant first, without leading zeros.
pub open spec fn decimal(n: nat) -> Seq<u8>
    decreases n,
{
    if n < 10 {
        seq![digit(n)]
    } else {
        decimal(n / 10).push(digit(n % 10))
    }
}

pub open spec fn pow10(d: nat) -> nat
    decreases d,
{
    if d == 0 {
        1
    } else {
        10 * pow10((d - 1) as nat)
    }
}

/// `n` in decimal, padded on the left with zeros to `width` digits; a number
/// with more digits than `width` is written whole.
pub open spec fn zero_padded(n: nat, width: nat) -> Seq<u8> {
    let digits = decimal(n);
    if digits.len() < width {
        Seq::new((width - digits.len()) as nat, |i: int| digit(0)) + digits
    } else {
        digits
    }
}

/// A length in hundredths, written with exactly two decimal places.
pub open spec fn fixed2(hundredths: nat) -> Seq<u8> {
    decimal(hundredths / 100) + seq![46u8, digit((hundredths % 100) / 10), digit(hundredths % 10)]
}

pub proof fn lemma_decimal_len(n: nat, d: nat)
    requires
        1 <= d,
        n < pow10(d),
    ensures
        1 <= decimal(n).len() <= d,
    decreases n,
{
    if n >= 10 {
        assert(d >= 2) by {
            if d == 1 {
                assert(pow10(1) == 10 * pow10(0));
            }
        }
        assert(pow10(d) == 10 * pow10((d - 1) as nat));
        assert(n / 10 < pow10((d - 1) as nat));
        lemma_decimal_len(n / 10, (d - 1) as nat);
    }
}

proof fn lemma_pow10_20()
    ensures
        pow10(20) > u64::MAX,
{
    reveal_with_fuel(pow10, 21);
}

/// Appends the decimal digits of `n`.
pub fn push_decimal(out: &mut Vec<u8>, n: u64)
    ensures
        final(out)@ == old(out)@ + decimal(n as nat),
    decreases n,
{
    if n >= 10 {
        push_decimal(out, n / 10);
    }
    out.push(48 + (n % 10) as u8);
    proof {
        if n >= 10 {
            assert(old(out)@ + decimal(n as nat) =~= old(out)@ + decimal((n / 10) as nat) + seq![
                digit((n % 10) as nat),
            ]);
        }
    }
    assert(final(out)@ =~= old(out)@ + decimal(n as nat));
}

/// The number of decimal digits of `n`.
pub fn decimal_len(n: u64) -> (r: usize)
    ensures
        r == decimal(n as nat).len(),
        1 <= r <= 20,
    decreases n,
{
    if n < 10 {
        1
    } else {
        proof {
            lemma_pow10_20();
            lemma_decimal_len(n as nat, 20);
        }
        decimal_len(n / 10) + 1
    }
}

/// Appends `n` zero-padded to `width` digits.
pub fn push_zero_padded(out: &mut Vec<u8>, n: u64, width: usize)
    ensures
        final(out)@ == old(out)@ + zero_padded(n as nat, width as nat),
{
    let len = decimal_len(n);
    let mut k: usize = len;
    while k < width
        invariant
            len == decimal(n as nat).len(),
            len <= k <= width || (k == len && len >= width),
            out@ == old(out)@ + Seq::new((k - len) as nat, |i: int| digit(0)),
        decreases width - k,
    {
        out.push(48);
        k = k + 1;
        assert(out@ =~= old(out)@ + Seq::new((k - len) as nat, |i: int| digit(0)));
    }
    push_decimal(out, n);
    assert(final(out)@ =~= old(out)@ + zero_padded(n as nat, width as nat));
}

/// Appends a length in hundredths with two decimal places.
pub fn push_fixed2(out: &mut Vec<u8>, hundredths: u64)
    ensures
        final(out)@ == old(out)@ + fixed2(hundredths as nat),
{
    push_decimal(out, hundredths / 100);
    out.push(46);
    out.push(48 + ((hundredths % 100) / 10) as u8);
    out.push(48 + (hundredths % 10) as u8);
    assert(final(out)@ =~= old(out)@ + fixed2(hundredths as nat));
}

} // verus!
