//! Quoted text on the wire: bytes between double quotes, where the quote, the
//! backslash and the control bytes below `0x20` are written as escapes and
//! every other byte stands for itself.

use vstd::prelude::*;

verus! {

/// The byte `"`.
pub const QUOTE: u8 = 0x22;

/// The byte `\`.
pub const BACKSLASH: u8 = 0x5c;

/// The byte `u`, which opens a four-digit escape.
pub const LETTER_U: u8 = 0x75;

/// The first byte that is no control byte.
pub const FIRST_PLAIN: u8 = 0x20;

/// The letter that stands behind a backslash for `b`, where `b` has a
/// two-byte escape.
pub open spec fn short_escape(b: u8) -> Option<u8> {
    if b == QUOTE {
        Some(QUOTE)
    } else if b == BACKSLASH {
        Some(BACKSLASH)
    } else if b == 0x08 {
        Some(0x62u8)
    } else if b == 0x09 {
        Some(0x74u8)
    } else if b == 0x0a {
        Some(0x6eu8)
    } else if b == 0x0c {
        Some(0x66u8)
    } else if b == 0x0d {
        Some(0x72u8)
    } else {
        None
    }
}

/// The byte that a two-byte escape with this letter stands for.
pub open spec fn short_escaped(letter: u8) -> Option<u8> {
    if letter == QUOTE {
        Some(QUOTE)
    } else if letter == BACKSLASH {
        Some(BACKSLASH)
    } else if letter == 0x62 {
        Some(0x08u8)
    } else if letter == 0x74 {
        Some(0x09u8)
    } else if letter == 0x6e {
        Some(0x0au8)
    } else if letter == 0x66 {
        Some(0x0cu8)
    } else if letter == 0x72 {
        Some(0x0du8)
    } else {
        None
    }
}

/// The lower-case hexadecimal digit for `n`, where `n` is below 16.
pub open spec fn hex_digit(n: int) -> u8 {
    if n < 10 {
        (0x30 + n) as u8
    } else {
        (0x57 + n) as u8
    }
}

/// The number that a lower-case hexadecimal digit denotes.
pub open spec fn hex_value(digit: u8) -> Option<int> {
    if 0x30 <= digit <= 0x39 {
        Some(digit - 0x30)
    } else if 0x61 <= digit <= 0x66 {
        Some(digit - 0x57)
    } else {
        None
    }
}

/// How one byte of text is written between the quotes.
pub open spec fn escape_byte(b: u8) -> Seq<u8> {
    match short_escape(b) {
        Some(letter) => seq![BACKSLASH, letter],
        None => if b < FIRST_PLAIN {
            seq![BACKSLASH, LETTER_U, 0x30u8, 0x30u8, hex_digit(b as int / 16), hex_digit(b as int % 16)]
        } else {
            seq![b]
        },
    }
}

/// How a text is written between the quotes: its bytes, each escaped.
pub open spec fn escaped(text: Seq<u8>) -> Seq<u8>
    decreases text.len(),
{
    if text.len() == 0 {
        Seq::empty()
    } else {
        escape_byte(text[0]) + escaped(text.skip(1))
    }
}

/// Reads one byte of text, escaped or plain, at the start of `s`: the byte
/// and how many bytes of `s` it takes. Only the escapes that `escape_byte`
/// writes are accepted.
pub open spec fn unescape_one(s: Seq<u8>) -> Option<(u8, nat)> {
    if s.len() == 0 {
        None
    } else if s[0] == BACKSLASH {
        if s.len() < 2 {
            None
        } else if s[1] == LETTER_U {
            if s.len() >= 6 && s[2] == 0x30 && s[3] == 0x30 && hex_value(s[4]) is Some && hex_value(
                s[5],
            ) is Some {
                let value = hex_value(s[4])->0 * 16 + hex_value(s[5])->0;
                if value < FIRST_PLAIN && short_escape(value as u8) is None {
                    Some((value as u8, 6nat))
                } else {
                    None
                }
            } else {
                None
            }
        } else {
            match short_escaped(s[1]) {
                Some(b) => Some((b, 2nat)),
                None => None,
            }
        }
    } else if s[0] < FIRST_PLAIN || s[0] == QUOTE {
        None
    } else {
        Some((s[0], 1nat))
    }
}

/// Puts what was read so far in front of what the rest of a text gives.
pub open spec fn prepend(head: Seq<u8>, taken: nat, rest: Option<(Seq<u8>, nat)>) -> Option<
    (Seq<u8>, nat),
> {
    match rest {
        Some((tail, more)) => Some((head + tail, taken + more)),
        None => None,
    }
}

/// Putting nothing in front changes nothing.
pub proof fn lemma_prepend_nothing(rest: Option<(Seq<u8>, nat)>)
    ensures
        prepend(Seq::empty(), 0, rest) == rest,
{
    if rest is Some {
        let (tail, more) = rest->0;
        assert(Seq::<u8>::empty() + tail == tail);
    }
}

/// Putting one byte in front, and then more, is putting both in front at
/// once.
pub proof fn lemma_prepend_one(head: Seq<u8>, taken: nat, b: u8, one: nat, rest: Option<(Seq<u8>, nat)>)
    ensures
        prepend(head, taken, prepend(seq![b], one, rest)) == prepend(head.push(b), taken + one, rest),
{
    if rest is Some {
        let (tail, more) = rest->0;
        assert(head + (seq![b] + tail) == head.push(b) + tail);
    }
}

/// Reads a text up to its closing quote at the start of `s`: the text, and how
/// many bytes of `s` it takes, the closing quote included.
pub open spec fn unescape(s: Seq<u8>) -> Option<(Seq<u8>, nat)>
    decreases s.len(),
{
    if s.len() == 0 {
        None
    } else if s[0] == QUOTE {
        Some((Seq::empty(), 1nat))
    } else {
        match unescape_one(s) {
            Some((b, taken)) => prepend(seq![b], taken, unescape(s.skip(taken as int))),
            None => None,
        }
    }
}

/// An escaped byte is read back as the byte, whatever follows it, and does
/// not start with a quote.
pub proof fn lemma_unescape_one_of_escape(b: u8, rest: Seq<u8>)
    ensures
        unescape_one(escape_byte(b) + rest) == Some((b, escape_byte(b).len())),
        escape_byte(b).len() >= 1,
        escape_byte(b)[0] != QUOTE,
{
    let written = escape_byte(b);
    let s = written + rest;
    assert forall|i: int| 0 <= i < written.len() implies s[i] == written[i] by {}
    if short_escape(b) is None && b < FIRST_PLAIN {
        let high = b as int / 16;
        let low = b as int % 16;
        assert(s[4] == hex_digit(high));
        assert(s[5] == hex_digit(low));
        assert(hex_value(hex_digit(high)) == Some(high));
        assert(hex_value(hex_digit(low)) == Some(low));
        assert(high * 16 + low == b);
    } else if short_escape(b) is Some {
        assert(s[1] == short_escape(b)->0);
    } else {
        assert(s[0] == b);
    }
}

/// An escaped text with its closing quote is read back as the text, whatever
/// follows the quote.
pub proof fn lemma_unescape_of_escaped(text: Seq<u8>, rest: Seq<u8>)
    ensures
        unescape(escaped(text).push(QUOTE) + rest) == Some((text, escaped(text).len() + 1)),
    decreases text.len(),
{
    let s = escaped(text).push(QUOTE) + rest;
    if text.len() == 0 {
        assert(s[0] == QUOTE);
    } else {
        let first = escape_byte(text[0]);
        let tail = text.skip(1);
        let after = escaped(tail).push(QUOTE) + rest;
        lemma_unescape_one_of_escape(text[0], after);
        lemma_unescape_of_escaped(tail, rest);
        assert(s == first + after);
        assert(s[0] == first[0]);
        assert(s.skip(first.len() as int) == after);
        assert(seq![text[0]] + tail == text);
    }
}

/// What `unescape_one` accepts is the escape of the byte that it gives.
pub proof fn lemma_unescape_one_canonical(s: Seq<u8>)
    requires
        unescape_one(s) is Some,
    ensures
        ({
            let (b, taken) = unescape_one(s)->0;
            &&& 1 <= taken <= s.len()
            &&& s.take(taken as int) == escape_byte(b)
        }),
{
    let (b, taken) = unescape_one(s)->0;
    let head = s.take(taken as int);
    assert forall|i: int| 0 <= i < taken implies head[i] == s[i] by {}
    if s[0] == BACKSLASH {
        if s[1] == LETTER_U {
            let high = hex_value(s[4])->0;
            let low = hex_value(s[5])->0;
            assert(b as int / 16 == high);
            assert(b as int % 16 == low);
            assert(hex_digit(high) == s[4]);
            assert(hex_digit(low) == s[5]);
            assert(head == escape_byte(b));
        } else {
            assert(short_escape(b) == Some(s[1]));
            assert(head == escape_byte(b));
        }
    } else {
        assert(short_escape(b) is None);
        assert(head == escape_byte(b));
    }
}

/// What `unescape` accepts is the escaped form of the text that it gives,
/// with its closing quote.
pub proof fn lemma_unescape_canonical(s: Seq<u8>)
    requires
        unescape(s) is Some,
    ensures
        ({
            let (text, taken) = unescape(s)->0;
            &&& 1 <= taken <= s.len()
            &&& s.take(taken as int) == escaped(text).push(QUOTE)
        }),
    decreases s.len(),
{
    let (text, taken) = unescape(s)->0;
    if s[0] == QUOTE {
        assert(s.take(1) == Seq::<u8>::empty().push(QUOTE));
    } else {
        let (b, one) = unescape_one(s)->0;
        lemma_unescape_one_canonical(s);
        let after = s.skip(one as int);
        lemma_unescape_canonical(after);
        let (tail, more) = unescape(after)->0;
        assert(text == seq![b] + tail);
        assert(text[0] == b);
        assert(text.skip(1) == tail);
        assert(s.take(taken as int) == s.take(one as int) + after.take(more as int));
        assert(escaped(text) == escape_byte(b) + escaped(tail));
        assert(escaped(text).push(QUOTE) == escape_byte(b) + escaped(tail).push(QUOTE));
    }
}

/// The hexadecimal digit for a number below 16.
fn hex_digit_of(n: u8) -> (digit: u8)
    requires
        n < 16,
    ensures
        digit == hex_digit(n as int),
{
    if n < 10 {
        0x30 + n
    } else {
        0x57 + n
    }
}

/// The number that a lower-case hexadecimal digit denotes.
fn hex_value_of(digit: u8) -> (value: Option<u8>)
    ensures
        match value {
            Some(v) => hex_value(digit) == Some(v as int),
            None => hex_value(digit) is None,
        },
{
    if 0x30 <= digit && digit <= 0x39 {
        Some(digit - 0x30)
    } else if 0x61 <= digit && digit <= 0x66 {
        Some(digit - 0x57)
    } else {
        None
    }
}

/// The letter of the two-byte escape for `b`, if it has one.
fn short_escape_of(b: u8) -> (letter: Option<u8>)
    ensures
        letter == short_escape(b),
{
    if b == QUOTE {
        Some(QUOTE)
    } else if b == BACKSLASH {
        Some(BACKSLASH)
    } else if b == 0x08 {
        Some(0x62)
    } else if b == 0x09 {
        Some(0x74)
    } else if b == 0x0a {
        Some(0x6e)
    } else if b == 0x0c {
        Some(0x66)
    } else if b == 0x0d {
        Some(0x72)
    } else {
        None
    }
}

/// The byte that the two-byte escape with this letter stands for.
fn short_escaped_of(letter: u8) -> (b: Option<u8>)
    ensures
        b == short_escaped(letter),
{
    if letter == QUOTE {
        Some(QUOTE)
    } else if letter == BACKSLASH {
        Some(BACKSLASH)
    } else if letter == 0x62 {
        Some(0x08)
    } else if letter == 0x74 {
        Some(0x09)
    } else if letter == 0x6e {
        Some(0x0a)
    } else if letter == 0x66 {
        Some(0x0c)
    } else if letter == 0x72 {
        Some(0x0d)
    } else {
        None
    }
}

/// Appends the escaped form of one byte to `out`.
pub fn append_escaped_byte(out: &mut Vec<u8>, b: u8)
    ensures
        final(out)@ == old(out)@ + escape_byte(b),
{
    match short_escape_of(b) {
        Some(letter) => {
            out.push(BACKSLASH);
            out.push(letter);
            assert(out@ == old(out)@ + seq![BACKSLASH, letter]);
        },
        None => {
            if b < FIRST_PLAIN {
                let high: u8 = hex_digit_of(b / 16);
                let low: u8 = hex_digit_of(b % 16);
                out.push(BACKSLASH);
                out.push(LETTER_U);
                out.push(0x30);
                out.push(0x30);
                out.push(high);
                out.push(low);
                assert(out@ == old(out)@ + seq![BACKSLASH, LETTER_U, 0x30u8, 0x30u8, high, low]);
            } else {
                out.push(b);
                assert(out@ == old(out)@ + seq![b]);
            }
        },
    }
}

/// Appends the escaped form of `text` to `out`.
pub fn append_escaped(out: &mut Vec<u8>, text: &[u8])
    ensures
        final(out)@ == old(out)@ + escaped(text@),
{
    let mut i: usize = 0;
    assert(text@.skip(0) == text@);
    while i < text.len()
        invariant
            i <= text@.len(),
            out@ + escaped(text@.skip(i as int)) == old(out)@ + escaped(text@),
        decreases text@.len() - i,
    {
        let ghost before = out@;
        let ghost suffix = text@.skip(i as int);
        append_escaped_byte(out, text[i]);
        proof {
            assert(suffix[0] == text@[i as int]);
            assert(suffix.skip(1) == text@.skip(i + 1));
            assert(escaped(suffix) == escape_byte(text@[i as int]) + escaped(text@.skip(i + 1)));
            assert(out@ + escaped(text@.skip(i + 1)) == before + escaped(suffix));
        }
        i = i + 1;
    }
    assert(out@ + escaped(text@.skip(i as int)) == out@);
}

/// Reads one byte of text, escaped or plain, that starts at `pos`: the byte
/// and the position behind it. A position behind the end of `bytes` gives
/// `None`.
pub fn read_escaped_byte(bytes: &[u8], pos: usize) -> (r: Option<(u8, usize)>)
    ensures
        match r {
            Some((b, next)) => {
                &&& pos < next <= bytes@.len()
                &&& unescape_one(bytes@.skip(pos as int)) == Some((b, (next - pos) as nat))
            },
            None => pos > bytes@.len() || unescape_one(bytes@.skip(pos as int)) is None,
        },
{
    let ghost s = bytes@.skip(pos as int);
    let len: usize = bytes.len();
    if pos >= len {
        return None;
    }
    let first: u8 = bytes[pos];
    assert(s[0] == first);
    if first == BACKSLASH {
        if len - pos < 2 {
            return None;
        }
        let letter: u8 = bytes[pos + 1];
        assert(s[1] == letter);
        if letter == LETTER_U {
            if len - pos < 6 {
                return None;
            }
            assert(s[2] == bytes@[pos + 2]);
            assert(s[3] == bytes@[pos + 3]);
            assert(s[4] == bytes@[pos + 4]);
            assert(s[5] == bytes@[pos + 5]);
            if bytes[pos + 2] != 0x30 || bytes[pos + 3] != 0x30 {
                return None;
            }
            match (hex_value_of(bytes[pos + 4]), hex_value_of(bytes[pos + 5])) {
                (Some(high), Some(low)) => {
                    if high >= 2 {
                        return None;
                    }
                    let value: u8 = high * 16 + low;
                    if short_escape_of(value).is_some() {
                        return None;
                    }
                    Some((value, pos + 6))
                },
                _ => None,
            }
        } else {
            match short_escaped_of(letter) {
                Some(b) => Some((b, pos + 2)),
                None => None,
            }
        }
    } else if first < FIRST_PLAIN || first == QUOTE {
        None
    } else {
        Some((first, pos + 1))
    }
}

/// Reads a text up to its closing quote, starting at `pos`: the text and the
/// position behind the closing quote. A position behind the end of `bytes`
/// gives `None`.
pub fn read_escaped(bytes: &[u8], pos: usize) -> (r: Option<(Vec<u8>, usize)>)
    ensures
        match r {
            Some((text, next)) => {
                &&& pos < next <= bytes@.len()
                &&& unescape(bytes@.skip(pos as int)) == Some((text@, (next - pos) as nat))
            },
            None => pos > bytes@.len() || unescape(bytes@.skip(pos as int)) is None,
        },
{
    let ghost start = bytes@.skip(pos as int);
    let len: usize = bytes.len();
    if pos > len {
        return None;
    }
    let mut text: Vec<u8> = Vec::new();
    let mut at: usize = pos;
    proof {
        if unescape(start) is Some {
            let (whole, taken) = unescape(start)->0;
            assert(Seq::<u8>::empty() + whole == whole);
        }
    }
    loop
        invariant
            len == bytes@.len(),
            start == bytes@.skip(pos as int),
            pos <= at <= len,
            unescape(start) == prepend(text@, (at - pos) as nat, unescape(bytes@.skip(at as int))),
        decreases len - at,
    {
        let ghost s = bytes@.skip(at as int);
        if at >= len {
            return None;
        }
        assert(s[0] == bytes@[at as int]);
        if bytes[at] == QUOTE {
            proof {
                assert(text@ + Seq::<u8>::empty() == text@);
            }
            return Some((text, at + 1));
        }
        match read_escaped_byte(bytes, at) {
            None => {
                return None;
            },
            Some((b, next)) => {
                proof {
                    let after = bytes@.skip(next as int);
                    assert(s.skip(next - at) == after);
                    if unescape(after) is Some {
                        let (tail, more) = unescape(after)->0;
                        assert(text@ + (seq![b] + tail) == text@.push(b) + tail);
                    }
                }
                text.push(b);
                at = next;
            },
        }
    }
}

} // verus!
