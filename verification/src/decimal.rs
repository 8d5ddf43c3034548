//! Numbers in decimal, as the bytes of their text.

use vstd::prelude::*;

verus! {

/// The decimal digits of a number.
pub open spec fn decimal_digits(n: nat) -> Seq<u8>
    decreases n,
{
    if n < 10 {
        seq![(0x30 + n) as u8]
    } else {
        decimal_digits(n / 10).push((0x30 + n % 10) as u8)
    }
}

/// A number in decimal, with `-` in front where it is negative.
pub open spec fn decimal_text(n: int) -> Seq<u8> {
    if n < 0 {
        seq![0x2du8] + decimal_digits((-n) as nat)
    } else {
        decimal_digits(n as nat)
    }
}

/// The decimal digits of a number are bytes below 128.
pub proof fn lemma_decimal_digits_ascii(n: nat)
    ensures
        forall|i: int| 0 <= i < decimal_digits(n).len() ==> #[trigger] decimal_digits(n)[i] < 0x80,
    decreases n,
{
    let digits = decimal_digits(n);
    if n >= 10 {
        lemma_decimal_digits_ascii(n / 10);
        let front = decimal_digits(n / 10);
        assert forall|i: int| 0 <= i < digits.len() implies #[trigger] digits[i] < 0x80 by {
            if i < front.len() {
                assert(digits[i] == front[i]);
            } else {
                assert(digits[i] == (0x30 + n % 10) as u8);
            }
        }
    } else {
        assert forall|i: int| 0 <= i < digits.len() implies #[trigger] digits[i] < 0x80 by {
            assert(digits[i] == (0x30 + n) as u8);
        }
    }
}

/// Appends the decimal digits of a number.
pub fn push_decimal_digits(out: &mut Vec<u8>, n: u64)
    ensures
        final(out)@ == old(out)@ + decimal_digits(n as nat),
    decreases n,
{
    if n < 10 {
        out.push(0x30 + n as u8);
        assert(out@ =~= old(out)@ + decimal_digits(n as nat));
    } else {
        push_decimal_digits(out, n / 10);
        out.push(0x30 + (n % 10) as u8);
        assert(out@ =~= old(out)@ + decimal_digits(n as nat));
    }
}

/// Appends a number in decimal.
pub fn push_decimal(out: &mut Vec<u8>, n: i64)
    ensures
        final(out)@ == old(out)@ + decimal_text(n as int),
{
    if n < 0 {
        out.push(0x2d);
        let magnitude: u64 = (-(n + 1)) as u64 + 1;
        push_decimal_digits(out, magnitude);
        assert(out@ =~= old(out)@ + decimal_text(n as int));
    } else {
        push_decimal_digits(out, n as u64);
    }
}

/// A number in decimal is made of bytes below 128.
pub proof fn lemma_decimal_text_ascii(n: int)
    ensures
        forall|i: int| 0 <= i < decimal_text(n).len() ==> #[trigger] decimal_text(n)[i] < 0x80,
{
    let text = decimal_text(n);
    if n < 0 {
        lemma_decimal_digits_ascii((-n) as nat);
        let digits = decimal_digits((-n) as nat);
        assert forall|i: int| 0 <= i < text.len() implies #[trigger] text[i] < 0x80 by {
            if i > 0 {
                assert(text[i] == digits[i - 1]);
            }
        }
    } else {
        lemma_decimal_digits_ascii(n as nat);
    }
}

} // verus!
