//! Canonical decimal text of unsigned integers: the digits of the number, most
//! significant first, with no sign and no leading zero.

use vstd::prelude::*;

verus! {

/// The byte `0`.
pub const DIGIT_ZERO: u8 = 48;

/// The byte `9`.
pub const DIGIT_NINE: u8 = 57;

/// Whether `b` is one of the bytes `0` to `9`.
pub open spec fn is_digit(b: u8) -> bool {
    DIGIT_ZERO <= b <= DIGIT_NINE
}

/// The decimal text of `n`.
pub open spec fn decimal_text(n: nat) -> Seq<u8>
    decreases n,
{
    if n < 10 {
        seq![(DIGIT_ZERO + n) as u8]
    } else {
        decimal_text(n / 10).push((DIGIT_ZERO + n % 10) as u8)
    }
}

/// The number that a sequence of digits denotes.
pub open spec fn digits_value(digits: Seq<u8>) -> nat
    decreases digits.len(),
{
    if digits.len() == 0 {
        0
    } else {
        digits_value(digits.drop_last()) * 10 + (digits.last() - DIGIT_ZERO) as nat
    }
}

/// The length of the longest prefix of `s` made of digits.
pub open spec fn digit_run(s: Seq<u8>) -> nat
    decreases s.len(),
{
    if s.len() > 0 && is_digit(s[0]) {
        1 + digit_run(s.skip(1))
    } else {
        0
    }
}

/// Reads a canonical decimal number of at most `max` at the start of `s`: the
/// number and how many bytes it takes. The number is the whole run of digits
/// that `s` starts with; an empty run, a run of several digits that starts
/// with zero, or a number above `max` gives `None`.
pub open spec fn parse_decimal(s: Seq<u8>, max: nat) -> Option<(nat, nat)> {
    let run = digit_run(s);
    let value = digits_value(s.take(run as int));
    if run == 0 || (run > 1 && s[0] == DIGIT_ZERO) || value > max {
        None
    } else {
        Some((value, run))
    }
}

/// The run of digits at the start of `s` lies inside `s`, holds digits only,
/// and ends where `s` ends or at a byte that is no digit.
pub proof fn lemma_digit_run_bounds(s: Seq<u8>)
    ensures
        digit_run(s) <= s.len(),
        forall|i: int| 0 <= i < digit_run(s) ==> is_digit(#[trigger] s[i]),
        digit_run(s) < s.len() ==> !is_digit(s[digit_run(s) as int]),
    decreases s.len(),
{
    if s.len() > 0 && is_digit(s[0]) {
        let tail = s.skip(1);
        lemma_digit_run_bounds(tail);
        assert forall|i: int| 0 <= i < digit_run(s) implies is_digit(#[trigger] s[i]) by {
            if i > 0 {
                assert(s[i] == tail[i - 1]);
            }
        }
        if digit_run(s) < s.len() {
            assert(s[digit_run(s) as int] == tail[digit_run(tail) as int]);
        }
    }
}

/// A prefix of `n` digits that ends where `s` ends, or at a byte that is no
/// digit, is the run of digits at the start of `s`.
pub proof fn lemma_digit_run_is(s: Seq<u8>, n: nat)
    requires
        n <= s.len(),
        forall|i: int| 0 <= i < n ==> is_digit(#[trigger] s[i]),
        n < s.len() ==> !is_digit(s[n as int]),
    ensures
        digit_run(s) == n,
    decreases n,
{
    if n > 0 {
        let tail = s.skip(1);
        assert forall|i: int| 0 <= i < n - 1 implies is_digit(#[trigger] tail[i]) by {
            assert(tail[i] == s[i + 1]);
        }
        if n - 1 < tail.len() {
            assert(tail[n - 1] == s[n as int]);
        }
        lemma_digit_run_is(tail, (n - 1) as nat);
    }
}

/// The decimal text of a number is a non-empty sequence of digits that
/// denotes the number, and starts with zero only for the number zero.
pub proof fn lemma_decimal_text(n: nat)
    ensures
        decimal_text(n).len() >= 1,
        forall|i: int| 0 <= i < decimal_text(n).len() ==> is_digit(#[trigger] decimal_text(n)[i]),
        n < 10 ==> decimal_text(n).len() == 1,
        n >= 10 ==> decimal_text(n).len() > 1,
        n > 0 ==> decimal_text(n)[0] != DIGIT_ZERO,
        digits_value(decimal_text(n)) == n,
    decreases n,
{
    let text = decimal_text(n);
    if n < 10 {
        assert(text.drop_last() == Seq::<u8>::empty());
        assert(digits_value(text.drop_last()) == 0);
    } else {
        let upper = decimal_text(n / 10);
        lemma_decimal_text(n / 10);
        assert(text.drop_last() == upper);
        assert(text[0] == upper[0]);
        assert forall|i: int| 0 <= i < text.len() implies is_digit(#[trigger] text[i]) by {
            if i < upper.len() {
                assert(text[i] == upper[i]);
            }
        }
    }
}

/// A canonical sequence of digits is the decimal text of the number that it
/// denotes.
pub proof fn lemma_decimal_text_of_value(digits: Seq<u8>)
    requires
        digits.len() >= 1,
        forall|i: int| 0 <= i < digits.len() ==> is_digit(#[trigger] digits[i]),
        digits.len() > 1 ==> digits[0] != DIGIT_ZERO,
    ensures
        decimal_text(digits_value(digits)) == digits,
        digits[0] != DIGIT_ZERO ==> digits_value(digits) >= 1,
    decreases digits.len(),
{
    let upper = digits.drop_last();
    let last = digits.last();
    assert(is_digit(digits[digits.len() - 1]));
    if digits.len() == 1 {
        assert(upper == Seq::<u8>::empty());
        assert(digits_value(upper) == 0);
        assert(decimal_text(digits_value(digits)) == digits);
    } else {
        assert forall|i: int| 0 <= i < upper.len() implies is_digit(#[trigger] upper[i]) by {
            assert(upper[i] == digits[i]);
        }
        assert(upper[0] == digits[0]);
        lemma_decimal_text_of_value(upper);
        let value = digits_value(digits);
        assert(value == digits_value(upper) * 10 + (last - DIGIT_ZERO));
        assert(value / 10 == digits_value(upper));
        assert(value % 10 == last - DIGIT_ZERO);
        assert(decimal_text(value) == upper.push(last));
        assert(upper.push(last) == digits);
    }
}

/// Reading the decimal text of `n`, followed by anything that does not start
/// with a digit, gives `n` and the length of the text.
pub proof fn lemma_parse_decimal_of_text(n: nat, max: nat, rest: Seq<u8>)
    requires
        n <= max,
        rest.len() > 0 ==> !is_digit(rest[0]),
    ensures
        parse_decimal(decimal_text(n) + rest, max) == Some((n, decimal_text(n).len())),
{
    let text = decimal_text(n);
    let s = text + rest;
    lemma_decimal_text(n);
    assert forall|i: int| 0 <= i < text.len() implies is_digit(#[trigger] s[i]) by {
        assert(s[i] == text[i]);
    }
    if text.len() < s.len() {
        assert(s[text.len() as int] == rest[0]);
    }
    lemma_digit_run_is(s, text.len());
    assert(s.take(text.len() as int) == text);
    assert(s[0] == text[0]);
}

/// What `parse_decimal` accepts is the decimal text of the number it gives.
pub proof fn lemma_parse_decimal_canonical(s: Seq<u8>, max: nat)
    requires
        parse_decimal(s, max) is Some,
    ensures
        ({
            let (value, taken) = parse_decimal(s, max)->0;
            &&& 1 <= taken <= s.len()
            &&& value <= max
            &&& s.take(taken as int) == decimal_text(value)
            &&& taken < s.len() ==> !is_digit(s[taken as int])
        }),
{
    let run = digit_run(s);
    lemma_digit_run_bounds(s);
    let digits = s.take(run as int);
    assert forall|i: int| 0 <= i < digits.len() implies is_digit(#[trigger] digits[i]) by {
        assert(digits[i] == s[i]);
    }
    assert(digits[0] == s[0]);
    lemma_decimal_text_of_value(digits);
}

/// Whether `b` is a digit.
pub fn byte_is_digit(b: u8) -> (r: bool)
    ensures
        r == is_digit(b),
{
    DIGIT_ZERO <= b && b <= DIGIT_NINE
}

/// Appends the decimal text of `n` to `out`.
pub fn append_decimal(out: &mut Vec<u8>, n: u64)
    ensures
        final(out)@ == old(out)@ + decimal_text(n as nat),
    decreases n,
{
    if n >= 10 {
        append_decimal(out, n / 10);
    }
    let digit: u8 = (n % 10) as u8;
    out.push(DIGIT_ZERO + digit);
    proof {
        if n >= 10 {
            assert(out@ == old(out)@ + decimal_text(n as nat / 10).push((DIGIT_ZERO + n % 10) as u8));
        } else {
            assert(out@ == old(out)@ + seq![(DIGIT_ZERO + n) as u8]);
        }
    }
}

/// Reads a canonical decimal number of at most `max` that starts at `pos`:
/// the number and the position behind it. A position behind the end of
/// `bytes` gives `None`.
pub fn read_decimal(bytes: &[u8], pos: usize, max: u64) -> (r: Option<(u64, usize)>)
    ensures
        match r {
            Some((value, next)) => {
                &&& pos < next <= bytes@.len()
                &&& parse_decimal(bytes@.skip(pos as int), max as nat) == Some(
                    (value as nat, (next - pos) as nat),
                )
            },
            None => pos > bytes@.len() || parse_decimal(bytes@.skip(pos as int), max as nat)
                is None,
        },
{
    let ghost s = bytes@.skip(pos as int);
    let len: usize = bytes.len();
    if pos >= len || !byte_is_digit(bytes[pos]) {
        return None;
    }
    assert(s[0] == bytes@[pos as int]);
    let mut value: u64 = (bytes[pos] - DIGIT_ZERO) as u64;
    let mut next: usize = pos + 1;
    proof {
        assert(s.take(1).drop_last() == Seq::<u8>::empty());
        assert(digits_value(s.take(1).drop_last()) == 0);
        assert(s.take(1).last() == s[0]);
    }
    let mut over: bool = false;
    while next < len && byte_is_digit(bytes[next])
        invariant
            len == bytes@.len(),
            s == bytes@.skip(pos as int),
            pos < next <= len,
            forall|i: int| 0 <= i < next - pos ==> is_digit(#[trigger] s[i]),
            !over ==> value == digits_value(s.take(next - pos)),
            over ==> digits_value(s.take(next - pos)) > u64::MAX,
        decreases len - next,
    {
        let digit: u64 = (bytes[next] - DIGIT_ZERO) as u64;
        proof {
            let longer = s.take(next - pos + 1);
            assert(s[next - pos] == bytes@[next as int]);
            assert(longer.drop_last() == s.take(next - pos));
            assert(longer.last() == s[next - pos]);
            assert(digits_value(longer) == digits_value(s.take(next - pos)) * 10 + digit);
        }
        if !over {
            if value > (u64::MAX - digit) / 10 {
                over = true;
            } else {
                value = value * 10 + digit;
            }
        }
        next = next + 1;
    }
    proof {
        if next < len {
            assert(s[next - pos] == bytes@[next as int]);
        }
        lemma_digit_run_is(s, (next - pos) as nat);
    }
    if next - pos > 1 && bytes[pos] == DIGIT_ZERO {
        return None;
    }
    if over || value > max {
        return None;
    }
    Some((value, next))
}

} // verus!
