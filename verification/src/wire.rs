//! The wire form of an outbound message: one object in compact text, its keys
//! in a fixed order.
//!
//! ```text
//! {"pubkey":"<text>","slot":<number>,"token_account_owner":"<text>","account_data":[<byte>,...],"write_version":<number>}
//! ```
//!
//! The keys `token_account_owner` and `account_data` stand only for the fields
//! that the message holds. Numbers are canonical decimals, texts are quoted
//! and escaped, and nothing separates the parts but what is shown.

use crate::decimal::{append_decimal, decimal_text, parse_decimal, read_decimal};
use crate::escape::{
    append_escaped, escaped, lemma_prepend_nothing, lemma_prepend_one, prepend, read_escaped,
    unescape, QUOTE,
};
use crate::message::{bytes_view, text_view, OutboundMessage, OutboundMessageView};
use vstd::prelude::*;
use vstd::string::*;
use vstd::utf8::*;

verus! {

/// The byte `,`.
pub const COMMA: u8 = 0x2c;

/// The byte `]`.
pub const BRACKET_CLOSE: u8 = 0x5d;

/// The largest number that a byte holds.
pub const BYTE_MAX: u64 = 255;

/// The bytes of a text of ASCII characters.
pub open spec fn ascii_bytes(text: Seq<char>) -> Seq<u8> {
    Seq::new(text.len(), |i: int| text[i] as u8)
}

/// What opens a message, up to the opening quote of the account's identifier.
pub open spec fn pubkey_key() -> Seq<u8> {
    ascii_bytes("{\"pubkey\":\""@)
}

/// The key of the slot, with the comma before it.
pub open spec fn slot_key() -> Seq<u8> {
    ascii_bytes(",\"slot\":"@)
}

/// The key of the token account's owner, up to the opening quote of the text.
pub open spec fn owner_key() -> Seq<u8> {
    ascii_bytes(",\"token_account_owner\":\""@)
}

/// The key of the account's bytes, up to the opening bracket of the list.
pub open spec fn data_key() -> Seq<u8> {
    ascii_bytes(",\"account_data\":["@)
}

/// The key of the write version, with the comma before it.
pub open spec fn version_key() -> Seq<u8> {
    ascii_bytes(",\"write_version\":"@)
}

/// What closes a message.
pub open spec fn close_key() -> Seq<u8> {
    ascii_bytes("}"@)
}

/// A text between quotes, from behind the opening quote: its UTF-8 bytes,
/// escaped, and the closing quote.
pub open spec fn quoted_text(text: Seq<char>) -> Seq<u8> {
    escaped(encode_utf8(text)).push(QUOTE)
}

/// The items of a non-empty list of bytes, separated by commas, and the
/// closing bracket.
pub open spec fn byte_items(data: Seq<u8>) -> Seq<u8>
    decreases data.len(),
{
    if data.len() <= 1 {
        decimal_text(data[0] as nat).push(BRACKET_CLOSE)
    } else {
        decimal_text(data[0] as nat).push(COMMA) + byte_items(data.skip(1))
    }
}

/// A list of bytes, from behind the opening bracket: the items and the
/// closing bracket.
pub open spec fn byte_list(data: Seq<u8>) -> Seq<u8> {
    if data.len() == 0 {
        seq![BRACKET_CLOSE]
    } else {
        byte_items(data)
    }
}

/// The end of a message: the write version and the closing brace.
pub open spec fn version_part(write_version: u64) -> Seq<u8> {
    version_key() + decimal_text(write_version as nat) + close_key()
}

/// A message from behind the owner: the account's bytes, if the message holds
/// them, and the rest.
pub open spec fn data_part(account_data: Option<Seq<u8>>, write_version: u64) -> Seq<u8> {
    match account_data {
        Some(data) => data_key() + byte_list(data) + version_part(write_version),
        None => version_part(write_version),
    }
}

/// A message from behind the slot: the token account's owner, if the message
/// holds it, and the rest.
pub open spec fn owner_part(
    token_account_owner: Option<Seq<char>>,
    account_data: Option<Seq<u8>>,
    write_version: u64,
) -> Seq<u8> {
    match token_account_owner {
        Some(owner) => owner_key() + quoted_text(owner) + data_part(account_data, write_version),
        None => data_part(account_data, write_version),
    }
}

/// The wire form of a message.
pub open spec fn wire_encoding(message: OutboundMessageView) -> Seq<u8> {
    pubkey_key() + quoted_text(message.pubkey) + slot_key() + decimal_text(message.slot as nat)
        + owner_part(message.token_account_owner, message.account_data, message.write_version)
}

/// Reads a quoted text from behind its opening quote: the text, and how many
/// bytes it takes with its closing quote. The bytes between the quotes must
/// be escaped as `escaped` writes them and be UTF-8.
#[verifier::opaque]
pub open spec fn parse_text(s: Seq<u8>) -> Option<(Seq<char>, nat)> {
    match unescape(s) {
        Some((raw, taken)) => if valid_utf8(raw) {
            Some((decode_utf8(raw), taken))
        } else {
            None
        },
        None => None,
    }
}

/// Reads the items of a non-empty list of bytes and the closing bracket: the
/// bytes and how many bytes of `s` they take.
pub open spec fn parse_byte_items(s: Seq<u8>) -> Option<(Seq<u8>, nat)>
    decreases s.len(),
{
    match parse_decimal(s, BYTE_MAX as nat) {
        Some((value, taken)) => if taken < s.len() && s[taken as int] == BRACKET_CLOSE {
            Some((seq![value as u8], taken + 1))
        } else if taken < s.len() && s[taken as int] == COMMA {
            prepend(seq![value as u8], taken + 1, parse_byte_items(s.skip((taken + 1) as int)))
        } else {
            None
        },
        None => None,
    }
}

/// Reads a list of bytes from behind its opening bracket: the bytes and how
/// many bytes of `s` they take with the closing bracket.
pub open spec fn parse_byte_list(s: Seq<u8>) -> Option<(Seq<u8>, nat)> {
    if s.len() > 0 && s[0] == BRACKET_CLOSE {
        Some((Seq::empty(), 1nat))
    } else {
        parse_byte_items(s)
    }
}

/// Reads the end of a message: the write version, if `s` is exactly the key,
/// a number and the closing brace.
pub open spec fn decode_version(s: Seq<u8>) -> Option<u64> {
    if version_key().is_prefix_of(s) {
        let at = version_key().len() as int;
        match parse_decimal(s.skip(at), u64::MAX as nat) {
            Some((value, taken)) => if s.skip(at + taken) == close_key() {
                Some(value as u64)
            } else {
                None
            },
            None => None,
        }
    } else {
        None
    }
}

/// Reads a message from behind the owner: the account's bytes, where their
/// key stands, and the write version.
pub open spec fn decode_data(s: Seq<u8>) -> Option<(Option<Seq<u8>>, u64)> {
    if data_key().is_prefix_of(s) {
        let at = data_key().len() as int;
        match parse_byte_list(s.skip(at)) {
            Some((data, taken)) => match decode_version(s.skip(at + taken)) {
                Some(write_version) => Some((Some(data), write_version)),
                None => None,
            },
            None => None,
        }
    } else {
        match decode_version(s) {
            Some(write_version) => Some((None, write_version)),
            None => None,
        }
    }
}

/// Reads a message from behind the slot: the token account's owner, where its
/// key stands, the account's bytes and the write version.
pub open spec fn decode_owner(s: Seq<u8>) -> Option<(Option<Seq<char>>, Option<Seq<u8>>, u64)> {
    if owner_key().is_prefix_of(s) {
        let at = owner_key().len() as int;
        match parse_text(s.skip(at)) {
            Some((owner, taken)) => match decode_data(s.skip(at + taken)) {
                Some((data, write_version)) => Some((Some(owner), data, write_version)),
                None => None,
            },
            None => None,
        }
    } else {
        match decode_data(s) {
            Some((data, write_version)) => Some((None, data, write_version)),
            None => None,
        }
    }
}

/// Reads a message from behind the account's identifier: the slot and what
/// follows it.
pub open spec fn decode_slot(s: Seq<u8>) -> Option<
    (u64, Option<Seq<char>>, Option<Seq<u8>>, u64),
> {
    if slot_key().is_prefix_of(s) {
        let at = slot_key().len() as int;
        match parse_decimal(s.skip(at), u64::MAX as nat) {
            Some((slot, taken)) => match decode_owner(s.skip(at + taken)) {
                Some((owner, data, write_version)) => Some(
                    (slot as u64, owner, data, write_version),
                ),
                None => None,
            },
            None => None,
        }
    } else {
        None
    }
}

/// The message that `s` is the wire form of, if it is one.
pub open spec fn wire_decoding(s: Seq<u8>) -> Option<OutboundMessageView> {
    if pubkey_key().is_prefix_of(s) {
        let at = pubkey_key().len() as int;
        match parse_text(s.skip(at)) {
            Some((pubkey, taken)) => match decode_slot(s.skip(at + taken)) {
                Some((slot, token_account_owner, account_data, write_version)) => Some(
                    OutboundMessageView {
                        pubkey,
                        slot,
                        token_account_owner,
                        account_data,
                        write_version,
                    },
                ),
                None => None,
            },
            None => None,
        }
    } else {
        None
    }
}

/// Skipping twice is skipping once by the sum.
pub proof fn lemma_skip_skip(s: Seq<u8>, a: int, b: int)
    requires
        0 <= a,
        0 <= b,
        a + b <= s.len(),
    ensures
        s.skip(a).skip(b) == s.skip(a + b),
{
    assert(s.skip(a).skip(b) =~= s.skip(a + b));
}

/// Calls `String::from_utf8`. Trusted: the call succeeds exactly on
/// well-formed UTF-8, and the string then holds the characters that the
/// bytes encode.
#[verifier::external_body]
fn string_from_utf8(bytes: Vec<u8>) -> (r: Option<String>)
    ensures
        match r {
            Some(text) => valid_utf8(bytes@) && text@ == decode_utf8(bytes@),
            None => !valid_utf8(bytes@),
        },
{
    String::from_utf8(bytes).ok()
}

/// The bytes of a key.
fn key_bytes(key: &str) -> (bytes: &[u8])
    requires
        is_ascii(key),
    ensures
        bytes@ == ascii_bytes(key@),
{
    broadcast use is_ascii_spec_bytes;

    key.as_bytes()
}

/// What opens a message, as text.
fn pubkey_key_text() -> (key: &'static str)
    ensures
        is_ascii(key),
        ascii_bytes(key@) == pubkey_key(),
{
    proof {
        reveal_strlit("{\"pubkey\":\"");
    }
    "{\"pubkey\":\""
}

/// The key of the slot, as text.
fn slot_key_text() -> (key: &'static str)
    ensures
        is_ascii(key),
        ascii_bytes(key@) == slot_key(),
{
    proof {
        reveal_strlit(",\"slot\":");
    }
    ",\"slot\":"
}

/// The key of the token account's owner, as text.
fn owner_key_text() -> (key: &'static str)
    ensures
        is_ascii(key),
        ascii_bytes(key@) == owner_key(),
{
    proof {
        reveal_strlit(",\"token_account_owner\":\"");
    }
    ",\"token_account_owner\":\""
}

/// The key of the account's bytes, as text.
fn data_key_text() -> (key: &'static str)
    ensures
        is_ascii(key),
        ascii_bytes(key@) == data_key(),
{
    proof {
        reveal_strlit(",\"account_data\":[");
    }
    ",\"account_data\":["
}

/// The key of the write version, as text.
fn version_key_text() -> (key: &'static str)
    ensures
        is_ascii(key),
        ascii_bytes(key@) == version_key(),
{
    proof {
        reveal_strlit(",\"write_version\":");
    }
    ",\"write_version\":"
}

/// What closes a message, as text.
fn close_key_text() -> (key: &'static str)
    ensures
        is_ascii(key),
        ascii_bytes(key@) == close_key(),
{
    proof {
        reveal_strlit("}");
    }
    "}"
}

/// Appends `bytes` to `out`.
fn append_bytes(out: &mut Vec<u8>, bytes: &[u8])
    ensures
        final(out)@ == old(out)@ + bytes@,
{
    let mut i: usize = 0;
    while i < bytes.len()
        invariant
            i <= bytes@.len(),
            out@ == old(out)@ + bytes@.take(i as int),
        decreases bytes@.len() - i,
    {
        out.push(bytes[i]);
        assert(bytes@.take(i + 1) == bytes@.take(i as int).push(bytes@[i as int]));
        i = i + 1;
    }
    assert(bytes@.take(i as int) == bytes@);
}

/// Appends a text and its closing quote to `out`.
fn append_quoted_text(out: &mut Vec<u8>, text: &str)
    ensures
        final(out)@ == old(out)@ + quoted_text(text@),
{
    append_escaped(out, text.as_bytes());
    out.push(QUOTE);
    assert(out@ == old(out)@ + escaped(encode_utf8(text@)).push(QUOTE));
}

/// Appends the items of a list of bytes and the closing bracket to `out`.
fn append_byte_list(out: &mut Vec<u8>, data: &[u8])
    ensures
        final(out)@ == old(out)@ + byte_list(data@),
{
    let len: usize = data.len();
    if len == 0 {
        out.push(BRACKET_CLOSE);
        assert(out@ == old(out)@ + seq![BRACKET_CLOSE]);
        return ;
    }
    let mut i: usize = 0;
    assert(data@.skip(0) == data@);
    while i < len
        invariant
            len == data@.len(),
            i <= len,
            i < len ==> out@ + byte_items(data@.skip(i as int)) == old(out)@ + byte_items(data@),
            i == len ==> out@ == old(out)@ + byte_items(data@),
        decreases len - i,
    {
        let ghost before = out@;
        let ghost suffix = data@.skip(i as int);
        let value: u8 = data[i];
        append_decimal(out, value as u64);
        assert(suffix[0] == value);
        if i + 1 == len {
            out.push(BRACKET_CLOSE);
            assert(out@ == before + decimal_text(value as nat).push(BRACKET_CLOSE));
        } else {
            out.push(COMMA);
            proof {
                assert(suffix.skip(1) == data@.skip(i + 1));
                assert(out@ + byte_items(data@.skip(i + 1)) == before + (decimal_text(
                    value as nat,
                ).push(COMMA) + byte_items(data@.skip(i + 1))));
            }
        }
        i = i + 1;
    }
}

/// Appends the end of a message to `out`.
fn append_version_part(out: &mut Vec<u8>, write_version: u64)
    ensures
        final(out)@ == old(out)@ + version_part(write_version),
{
    append_bytes(out, key_bytes(version_key_text()));
    append_decimal(out, write_version);
    append_bytes(out, key_bytes(close_key_text()));
    assert(out@ == old(out)@ + (version_key() + decimal_text(write_version as nat) + close_key()));
}

/// Appends a message from behind the owner to `out`.
fn append_data_part(out: &mut Vec<u8>, account_data: &Option<Vec<u8>>, write_version: u64)
    ensures
        final(out)@ == old(out)@ + data_part(bytes_view(*account_data), write_version),
{
    match account_data {
        Some(data) => {
            append_bytes(out, key_bytes(data_key_text()));
            append_byte_list(out, data.as_slice());
            append_version_part(out, write_version);
            assert(out@ == old(out)@ + (data_key() + byte_list(data@) + version_part(
                write_version,
            )));
        },
        None => {
            append_version_part(out, write_version);
        },
    }
}

/// Appends a message from behind the slot to `out`.
fn append_owner_part(
    out: &mut Vec<u8>,
    token_account_owner: &Option<String>,
    account_data: &Option<Vec<u8>>,
    write_version: u64,
)
    ensures
        final(out)@ == old(out)@ + owner_part(
            text_view(*token_account_owner),
            bytes_view(*account_data),
            write_version,
        ),
{
    match token_account_owner {
        Some(owner) => {
            let ghost data_view = bytes_view(*account_data);
            append_bytes(out, key_bytes(owner_key_text()));
            append_quoted_text(out, owner.as_str());
            append_data_part(out, account_data, write_version);
            assert(out@ == old(out)@ + (owner_key() + quoted_text(owner@) + data_part(
                data_view,
                write_version,
            )));
        },
        None => {
            append_data_part(out, account_data, write_version);
        },
    }
}

/// Whether `key` stands in `bytes` at `pos`: if so, the position behind it.
fn read_key(bytes: &[u8], pos: usize, key: &[u8]) -> (r: Option<usize>)
    requires
        pos <= bytes@.len(),
    ensures
        match r {
            Some(next) => key@.is_prefix_of(bytes@.skip(pos as int)) && next == pos + key@.len(),
            None => !key@.is_prefix_of(bytes@.skip(pos as int)),
        },
{
    let ghost s = bytes@.skip(pos as int);
    if bytes.len() - pos < key.len() {
        return None;
    }
    let mut i: usize = 0;
    while i < key.len()
        invariant
            s == bytes@.skip(pos as int),
            pos + key@.len() <= bytes@.len() <= usize::MAX,
            i <= key@.len(),
            forall|j: int| 0 <= j < i ==> key@[j] == s[j],
        decreases key@.len() - i,
    {
        assert(s[i as int] == bytes@[pos + i]);
        if bytes[pos + i] != key[i] {
            assert(s.subrange(0, key@.len() as int)[i as int] != key@[i as int]);
            return None;
        }
        i = i + 1;
    }
    assert(key@ =~= s.subrange(0, key@.len() as int));
    Some(pos + key.len())
}

/// Reads a quoted text from behind its opening quote at `pos`: the text and
/// the position behind its closing quote.
fn read_text(bytes: &[u8], pos: usize) -> (r: Option<(String, usize)>)
    requires
        pos <= bytes@.len(),
    ensures
        match r {
            Some((text, next)) => {
                &&& pos < next <= bytes@.len()
                &&& parse_text(bytes@.skip(pos as int)) == Some((text@, (next - pos) as nat))
            },
            None => parse_text(bytes@.skip(pos as int)) is None,
        },
{
    reveal(parse_text);
    match read_escaped(bytes, pos) {
        Some((raw, next)) => match string_from_utf8(raw) {
            Some(text) => Some((text, next)),
            None => None,
        },
        None => None,
    }
}

/// Reads a list of bytes from behind its opening bracket at `pos`: the bytes
/// and the position behind the closing bracket.
fn read_byte_list(bytes: &[u8], pos: usize) -> (r: Option<(Vec<u8>, usize)>)
    requires
        pos <= bytes@.len(),
    ensures
        match r {
            Some((data, next)) => {
                &&& pos < next <= bytes@.len()
                &&& parse_byte_list(bytes@.skip(pos as int)) == Some(
                    (data@, (next - pos) as nat),
                )
            },
            None => parse_byte_list(bytes@.skip(pos as int)) is None,
        },
{
    let ghost start = bytes@.skip(pos as int);
    let len: usize = bytes.len();
    let mut data: Vec<u8> = Vec::new();
    if pos < len && bytes[pos] == BRACKET_CLOSE {
        assert(start[0] == bytes@[pos as int]);
        return Some((data, pos + 1));
    }
    if pos < len {
        assert(start[0] == bytes@[pos as int]);
    }
    let mut at: usize = pos;
    proof {
        lemma_prepend_nothing(parse_byte_items(start));
    }
    loop
        invariant
            len == bytes@.len(),
            start == bytes@.skip(pos as int),
            pos <= at <= len,
            parse_byte_list(start) == parse_byte_items(start),
            parse_byte_items(start) == prepend(
                data@,
                (at - pos) as nat,
                parse_byte_items(bytes@.skip(at as int)),
            ),
        decreases len - at,
    {
        let ghost s = bytes@.skip(at as int);
        match read_decimal(bytes, at, BYTE_MAX) {
            None => {
                return None;
            },
            Some((value, next)) => {
                if next >= len {
                    return None;
                }
                let separator: u8 = bytes[next];
                assert(s[next - at] == separator);
                let item: u8 = value as u8;
                if separator == BRACKET_CLOSE {
                    let ghost before = data@;
                    data.push(item);
                    assert(before + seq![item] == before.push(item));
                    return Some((data, next + 1));
                } else if separator == COMMA {
                    proof {
                        lemma_skip_skip(bytes@, at as int, next - at + 1);
                        lemma_prepend_one(
                            data@,
                            (at - pos) as nat,
                            item,
                            (next - at + 1) as nat,
                            parse_byte_items(bytes@.skip(next + 1)),
                        );
                    }
                    data.push(item);
                    at = next + 1;
                } else {
                    return None;
                }
            },
        }
    }
}

/// Reads the end of a message at `pos`.
fn read_version(bytes: &[u8], pos: usize) -> (r: Option<u64>)
    requires
        pos <= bytes@.len(),
    ensures
        r == decode_version(bytes@.skip(pos as int)),
{
    let ghost s = bytes@.skip(pos as int);
    let at: usize = match read_key(bytes, pos, key_bytes(version_key_text())) {
        Some(at) => at,
        None => {
            return None;
        },
    };
    proof {
        lemma_skip_skip(bytes@, pos as int, at - pos);
    }
    let (value, next) = match read_decimal(bytes, at, u64::MAX) {
        Some(found) => found,
        None => {
            return None;
        },
    };
    proof {
        lemma_skip_skip(bytes@, pos as int, next - pos);
    }
    let ghost rest = bytes@.skip(next as int);
    match read_key(bytes, next, key_bytes(close_key_text())) {
        Some(end) => {
            if end == bytes.len() {
                assert(rest =~= close_key());
                Some(value)
            } else {
                None
            }
        },
        None => {
            assert(close_key().is_prefix_of(close_key())) by {
                assert(close_key() =~= close_key().subrange(0, close_key().len() as int));
            }
            None
        },
    }
}

/// Reads a message from behind the owner at `pos`.
fn read_data(bytes: &[u8], pos: usize) -> (r: Option<(Option<Vec<u8>>, u64)>)
    requires
        pos <= bytes@.len(),
    ensures
        match r {
            Some((data, write_version)) => decode_data(bytes@.skip(pos as int)) == Some(
                (bytes_view(data), write_version),
            ),
            None => decode_data(bytes@.skip(pos as int)) is None,
        },
{
    match read_key(bytes, pos, key_bytes(data_key_text())) {
        Some(at) => {
            proof {
                lemma_skip_skip(bytes@, pos as int, at - pos);
            }
            match read_byte_list(bytes, at) {
                Some((data, next)) => {
                    proof {
                        lemma_skip_skip(bytes@, pos as int, next - pos);
                    }
                    match read_version(bytes, next) {
                        Some(write_version) => Some((Some(data), write_version)),
                        None => None,
                    }
                },
                None => None,
            }
        },
        None => match read_version(bytes, pos) {
            Some(write_version) => Some((None, write_version)),
            None => None,
        },
    }
}

/// What `read_owner` hands back: the owner, the account's bytes and the
/// write version.
struct Tail {
    token_account_owner: Option<String>,
    account_data: Option<Vec<u8>>,
    write_version: u64,
}

/// Reads a message from behind the slot at `pos`.
fn read_owner(bytes: &[u8], pos: usize) -> (r: Option<Tail>)
    requires
        pos <= bytes@.len(),
    ensures
        match r {
            Some(tail) => decode_owner(bytes@.skip(pos as int)) == Some(
                (
                    text_view(tail.token_account_owner),
                    bytes_view(tail.account_data),
                    tail.write_version,
                ),
            ),
            None => decode_owner(bytes@.skip(pos as int)) is None,
        },
{
    match read_key(bytes, pos, key_bytes(owner_key_text())) {
        Some(at) => {
            proof {
                lemma_skip_skip(bytes@, pos as int, at - pos);
            }
            match read_text(bytes, at) {
                Some((owner, next)) => {
                    proof {
                        lemma_skip_skip(bytes@, pos as int, next - pos);
                    }
                    match read_data(bytes, next) {
                        Some((account_data, write_version)) => Some(
                            Tail { token_account_owner: Some(owner), account_data, write_version },
                        ),
                        None => None,
                    }
                },
                None => None,
            }
        },
        None => match read_data(bytes, pos) {
            Some((account_data, write_version)) => Some(
                Tail { token_account_owner: None, account_data, write_version },
            ),
            None => None,
        },
    }
}

/// Reads a message from behind the account's identifier at `pos`.
fn read_slot(bytes: &[u8], pos: usize) -> (r: Option<(u64, Tail)>)
    requires
        pos <= bytes@.len(),
    ensures
        match r {
            Some((slot, tail)) => decode_slot(bytes@.skip(pos as int)) == Some(
                (
                    slot,
                    text_view(tail.token_account_owner),
                    bytes_view(tail.account_data),
                    tail.write_version,
                ),
            ),
            None => decode_slot(bytes@.skip(pos as int)) is None,
        },
{
    let at: usize = match read_key(bytes, pos, key_bytes(slot_key_text())) {
        Some(at) => at,
        None => {
            return None;
        },
    };
    proof {
        lemma_skip_skip(bytes@, pos as int, at - pos);
    }
    let (slot, next) = match read_decimal(bytes, at, u64::MAX) {
        Some(found) => found,
        None => {
            return None;
        },
    };
    proof {
        lemma_skip_skip(bytes@, pos as int, next - pos);
    }
    match read_owner(bytes, next) {
        Some(tail) => Some((slot, tail)),
        None => None,
    }
}

impl OutboundMessage {
    /// The wire form of the message.
    pub fn to_wire(&self) -> (bytes: Vec<u8>)
        ensures
            bytes@ == wire_encoding(self@),
    {
        let mut out: Vec<u8> = Vec::new();
        append_bytes(&mut out, key_bytes(pubkey_key_text()));
        append_quoted_text(&mut out, self.pubkey.as_str());
        append_bytes(&mut out, key_bytes(slot_key_text()));
        append_decimal(&mut out, self.slot);
        append_owner_part(
            &mut out,
            &self.token_account_owner,
            &self.account_data,
            self.write_version,
        );
        assert(out@ =~= wire_encoding(self@));
        out
    }

    /// Reads a message from its wire form. Only the exact form that `to_wire`
    /// writes is accepted.
    pub fn from_wire(bytes: &[u8]) -> (r: Option<OutboundMessage>)
        ensures
            match r {
                Some(message) => wire_decoding(bytes@) == Some(message@),
                None => wire_decoding(bytes@) is None,
            },
    {
        assert(bytes@.skip(0) == bytes@);
        let at: usize = match read_key(bytes, 0, key_bytes(pubkey_key_text())) {
            Some(at) => at,
            None => {
                return None;
            },
        };
        let (pubkey, next) = match read_text(bytes, at) {
            Some(found) => found,
            None => {
                return None;
            },
        };
        match read_slot(bytes, next) {
            Some((slot, tail)) => Some(
                OutboundMessage {
                    pubkey,
                    slot,
                    token_account_owner: tail.token_account_owner,
                    account_data: tail.account_data,
                    write_version: tail.write_version,
                },
            ),
            None => None,
        }
    }
}

} // verus!
