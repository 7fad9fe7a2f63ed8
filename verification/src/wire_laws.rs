//! What holds of the wire form: a message that is written and read back is
//! the same message, and nothing but what is written is read.

use crate::decimal::{
    decimal_text, is_digit, lemma_parse_decimal_canonical, lemma_parse_decimal_of_text,
    parse_decimal,
};
use crate::escape::{lemma_unescape_canonical, lemma_unescape_of_escaped, unescape};
use crate::message::OutboundMessageView;
use crate::wire::{
    byte_items, byte_list, close_key, data_key, data_part, decode_data, decode_owner, decode_slot,
    decode_version, owner_key, owner_part, parse_byte_items, parse_byte_list, parse_text,
    pubkey_key, quoted_text, slot_key, version_key, version_part, wire_decoding, wire_encoding,
    BRACKET_CLOSE, BYTE_MAX, COMMA,
};
use vstd::prelude::*;
use vstd::utf8::{
    decode_utf8, decode_utf8_encode_utf8, encode_utf8, encode_utf8_decode_utf8,
    encode_utf8_valid_utf8, valid_utf8,
};

verus! {

/// A key stands at the start of whatever it is put in front of, and skipping
/// it leaves what follows.
pub proof fn lemma_key_in_front(key: Seq<u8>, rest: Seq<u8>)
    ensures
        key.is_prefix_of(key + rest),
        (key + rest).skip(key.len() as int) == rest,
{
    assert((key + rest).subrange(0, key.len() as int) =~= key);
    assert((key + rest).skip(key.len() as int) =~= rest);
}

/// A key does not stand at the start of a sequence that differs from it at
/// one place, or ends before that place.
pub proof fn lemma_key_differs(key: Seq<u8>, s: Seq<u8>, i: int)
    requires
        0 <= i < key.len(),
        i >= s.len() || s[i] != key[i],
    ensures
        !key.is_prefix_of(s),
{
    if key.is_prefix_of(s) {
        assert(s.subrange(0, key.len() as int)[i] == s[i]);
    }
}

/// A sequence that a key stands at the start of is the key and what follows.
pub proof fn lemma_key_split(key: Seq<u8>, s: Seq<u8>)
    requires
        key.is_prefix_of(s),
    ensures
        s == key + s.skip(key.len() as int),
{
    assert(s =~= s.subrange(0, key.len() as int) + s.skip(key.len() as int));
}

/// The bytes by which the keys are told apart.
pub proof fn lemma_key_bytes()
    ensures
        pubkey_key().len() > 2,
        slot_key().len() > 2,
        slot_key()[0] == COMMA,
        owner_key().len() > 2,
        owner_key()[0] == COMMA,
        owner_key()[2] == 0x74,
        data_key().len() > 2,
        data_key()[0] == COMMA,
        data_key()[2] == 0x61,
        version_key().len() > 2,
        version_key()[0] == COMMA,
        version_key()[2] == 0x77,
        close_key().len() == 1,
        close_key()[0] == 0x7d,
{
    reveal_strlit("{\"pubkey\":\"");
    reveal_strlit(",\"slot\":");
    reveal_strlit(",\"token_account_owner\":\"");
    reveal_strlit(",\"account_data\":[");
    reveal_strlit(",\"write_version\":");
    reveal_strlit("}");
}

/// How the parts of a message start.
pub proof fn lemma_part_starts(
    token_account_owner: Option<Seq<char>>,
    account_data: Option<Seq<u8>>,
    write_version: u64,
)
    ensures
        version_part(write_version).len() > 2,
        version_part(write_version)[0] == COMMA,
        version_part(write_version)[2] == 0x77,
        data_part(account_data, write_version).len() > 2,
        data_part(account_data, write_version)[0] == COMMA,
        data_part(account_data, write_version)[2] == (if account_data is Some {
            0x61u8
        } else {
            0x77u8
        }),
        owner_part(token_account_owner, account_data, write_version).len() > 2,
        owner_part(token_account_owner, account_data, write_version)[0] == COMMA,
        token_account_owner is None ==> owner_part(
            token_account_owner,
            account_data,
            write_version,
        ) == data_part(account_data, write_version),
        token_account_owner is Some ==> owner_part(
            token_account_owner,
            account_data,
            write_version,
        )[2] == 0x74,
{
    lemma_key_bytes();
    let tail = version_part(write_version);
    assert(tail[0] == version_key()[0]);
    assert(tail[2] == version_key()[2]);
    let middle = data_part(account_data, write_version);
    if account_data is Some {
        assert(middle[0] == data_key()[0]);
        assert(middle[2] == data_key()[2]);
    }
    let whole = owner_part(token_account_owner, account_data, write_version);
    if token_account_owner is Some {
        assert(whole[0] == owner_key()[0]);
        assert(whole[2] == owner_key()[2]);
    }
}

/// A quoted text is read back as the text, whatever follows it.
pub proof fn lemma_parse_text_of_quoted(text: Seq<char>, rest: Seq<u8>)
    ensures
        parse_text(quoted_text(text) + rest) == Some((text, quoted_text(text).len())),
{
    reveal(parse_text);
    lemma_unescape_of_escaped(encode_utf8(text), rest);
    encode_utf8_valid_utf8(text);
    encode_utf8_decode_utf8(text);
}

/// What `parse_text` accepts is the quoted form of the text that it gives.
pub proof fn lemma_parse_text_canonical(s: Seq<u8>)
    requires
        parse_text(s) is Some,
    ensures
        ({
            let (text, taken) = parse_text(s)->0;
            &&& 1 <= taken <= s.len()
            &&& s.take(taken as int) == quoted_text(text)
        }),
{
    reveal(parse_text);
    let (raw, taken) = unescape(s)->0;
    lemma_unescape_canonical(s);
    decode_utf8_encode_utf8(raw);
}

/// The items of a list of bytes are read back as the bytes, whatever follows
/// the closing bracket.
pub proof fn lemma_parse_byte_items_of_items(data: Seq<u8>, rest: Seq<u8>)
    requires
        data.len() > 0,
    ensures
        parse_byte_items(byte_items(data) + rest) == Some((data, byte_items(data).len())),
    decreases data.len(),
{
    let first = decimal_text(data[0] as nat);
    let s = byte_items(data) + rest;
    if data.len() == 1 {
        let after = seq![BRACKET_CLOSE] + rest;
        assert(s =~= first + after);
        lemma_parse_decimal_of_text(data[0] as nat, BYTE_MAX as nat, after);
        assert(s[first.len() as int] == BRACKET_CLOSE);
        assert(seq![data[0]] =~= data);
    } else {
        let tail = data.skip(1);
        let after = seq![COMMA] + (byte_items(tail) + rest);
        assert(s =~= first + after);
        lemma_parse_decimal_of_text(data[0] as nat, BYTE_MAX as nat, after);
        lemma_parse_byte_items_of_items(tail, rest);
        assert(s[first.len() as int] == COMMA);
        assert(s.skip((first.len() + 1) as int) =~= byte_items(tail) + rest);
        assert(seq![data[0]] + tail =~= data);
    }
}

/// A list of bytes is read back as the bytes, whatever follows it.
pub proof fn lemma_parse_byte_list_of_list(data: Seq<u8>, rest: Seq<u8>)
    ensures
        parse_byte_list(byte_list(data) + rest) == Some((data, byte_list(data).len())),
{
    let s = byte_list(data) + rest;
    if data.len() == 0 {
        assert(s[0] == BRACKET_CLOSE);
        assert(data =~= Seq::<u8>::empty());
    } else {
        crate::decimal::lemma_decimal_text(data[0] as nat);
        let first = decimal_text(data[0] as nat);
        assert(byte_items(data)[0] == first[0]);
        assert(s[0] == first[0]);
        assert(is_digit(first[0]));
        lemma_parse_byte_items_of_items(data, rest);
    }
}

/// What `parse_byte_items` accepts is the written form of the bytes that it
/// gives, of which there is at least one.
pub proof fn lemma_parse_byte_items_canonical(s: Seq<u8>)
    requires
        parse_byte_items(s) is Some,
    ensures
        ({
            let (data, taken) = parse_byte_items(s)->0;
            &&& 1 <= taken <= s.len()
            &&& data.len() > 0
            &&& s.take(taken as int) == byte_items(data)
        }),
    decreases s.len(),
{
    let (data, taken) = parse_byte_items(s)->0;
    let (value, digits) = parse_decimal(s, BYTE_MAX as nat)->0;
    lemma_parse_decimal_canonical(s, BYTE_MAX as nat);
    let first = decimal_text(value);
    if s[digits as int] == BRACKET_CLOSE {
        assert(data[0] as nat == value);
        assert(s.take(taken as int) =~= first.push(BRACKET_CLOSE));
    } else {
        let after = s.skip((digits + 1) as int);
        lemma_parse_byte_items_canonical(after);
        let (tail, more) = parse_byte_items(after)->0;
        assert(data == seq![value as u8] + tail);
        assert(data[0] as nat == value);
        assert(data.skip(1) =~= tail);
        assert(s.take(taken as int) =~= first.push(COMMA) + after.take(more as int));
    }
}

/// What `parse_byte_list` accepts is the written form of the bytes that it
/// gives.
pub proof fn lemma_parse_byte_list_canonical(s: Seq<u8>)
    requires
        parse_byte_list(s) is Some,
    ensures
        ({
            let (data, taken) = parse_byte_list(s)->0;
            &&& 1 <= taken <= s.len()
            &&& s.take(taken as int) == byte_list(data)
        }),
{
    if s.len() > 0 && s[0] == BRACKET_CLOSE {
        assert(s.take(1) =~= seq![BRACKET_CLOSE]);
    } else {
        lemma_parse_byte_items_canonical(s);
    }
}

/// The end of a message is read back as its write version.
pub proof fn lemma_decode_version_of_part(write_version: u64)
    ensures
        decode_version(version_part(write_version)) == Some(write_version),
{
    lemma_key_bytes();
    let s = version_part(write_version);
    let number = decimal_text(write_version as nat);
    let rest = number + close_key();
    assert(s =~= version_key() + rest);
    lemma_key_in_front(version_key(), rest);
    lemma_parse_decimal_of_text(write_version as nat, u64::MAX as nat, close_key());
    assert(s.skip((version_key().len() + number.len()) as int) =~= close_key());
}

/// What `decode_version` accepts is the end of a message with the write
/// version that it gives.
pub proof fn lemma_decode_version_canonical(s: Seq<u8>)
    requires
        decode_version(s) is Some,
    ensures
        s == version_part(decode_version(s)->0),
{
    let at = version_key().len() as int;
    lemma_key_split(version_key(), s);
    let after = s.skip(at);
    lemma_parse_decimal_canonical(after, u64::MAX as nat);
    let (value, taken) = parse_decimal(after, u64::MAX as nat)->0;
    assert(after =~= after.take(taken as int) + s.skip(at + taken));
    assert(s =~= version_key() + decimal_text(value) + close_key());
}

/// A message from behind the owner is read back as its fields.
pub proof fn lemma_decode_data_of_part(account_data: Option<Seq<u8>>, write_version: u64)
    ensures
        decode_data(data_part(account_data, write_version)) == Some((account_data, write_version)),
{
    lemma_key_bytes();
    lemma_decode_version_of_part(write_version);
    let s = data_part(account_data, write_version);
    let tail = version_part(write_version);
    match account_data {
        Some(data) => {
            let rest = byte_list(data) + tail;
            assert(s =~= data_key() + rest);
            lemma_key_in_front(data_key(), rest);
            lemma_parse_byte_list_of_list(data, tail);
            assert(s.skip((data_key().len() + byte_list(data).len()) as int) =~= tail);
        },
        None => {
            lemma_part_starts(None, account_data, write_version);
            lemma_key_differs(data_key(), s, 2);
        },
    }
}

/// What `decode_data` accepts is a message from behind the owner, with the
/// fields that it gives.
pub proof fn lemma_decode_data_canonical(s: Seq<u8>)
    requires
        decode_data(s) is Some,
    ensures
        ({
            let (account_data, write_version) = decode_data(s)->0;
            s == data_part(account_data, write_version)
        }),
{
    if data_key().is_prefix_of(s) {
        let at = data_key().len() as int;
        lemma_key_split(data_key(), s);
        let after = s.skip(at);
        lemma_parse_byte_list_canonical(after);
        let (data, taken) = parse_byte_list(after)->0;
        lemma_decode_version_canonical(s.skip(at + taken));
        assert(after =~= after.take(taken as int) + s.skip(at + taken));
        let write_version = decode_version(s.skip(at + taken))->0;
        assert(s =~= data_key() + byte_list(data) + version_part(write_version));
    } else {
        lemma_decode_version_canonical(s);
    }
}

/// A message from behind the slot is read back as its fields.
pub proof fn lemma_decode_owner_of_part(
    token_account_owner: Option<Seq<char>>,
    account_data: Option<Seq<u8>>,
    write_version: u64,
)
    ensures
        decode_owner(owner_part(token_account_owner, account_data, write_version)) == Some(
            (token_account_owner, account_data, write_version),
        ),
{
    lemma_key_bytes();
    lemma_decode_data_of_part(account_data, write_version);
    let s = owner_part(token_account_owner, account_data, write_version);
    let tail = data_part(account_data, write_version);
    match token_account_owner {
        Some(owner) => {
            let rest = quoted_text(owner) + tail;
            assert(s =~= owner_key() + rest);
            lemma_key_in_front(owner_key(), rest);
            lemma_parse_text_of_quoted(owner, tail);
            assert(s.skip((owner_key().len() + quoted_text(owner).len()) as int) =~= tail);
        },
        None => {
            lemma_part_starts(token_account_owner, account_data, write_version);
            lemma_key_differs(owner_key(), s, 2);
        },
    }
}

/// What `decode_owner` accepts is a message from behind the slot, with the
/// fields that it gives.
pub proof fn lemma_decode_owner_canonical(s: Seq<u8>)
    requires
        decode_owner(s) is Some,
    ensures
        ({
            let (token_account_owner, account_data, write_version) = decode_owner(s)->0;
            s == owner_part(token_account_owner, account_data, write_version)
        }),
{
    if owner_key().is_prefix_of(s) {
        let at = owner_key().len() as int;
        lemma_key_split(owner_key(), s);
        let after = s.skip(at);
        lemma_parse_text_canonical(after);
        let (owner, taken) = parse_text(after)->0;
        lemma_decode_data_canonical(s.skip(at + taken));
        assert(after =~= after.take(taken as int) + s.skip(at + taken));
        let (account_data, write_version) = decode_data(s.skip(at + taken))->0;
        assert(s =~= owner_key() + quoted_text(owner) + data_part(account_data, write_version));
    } else {
        lemma_decode_data_canonical(s);
    }
}

/// A message from behind the account's identifier is read back as its fields.
pub proof fn lemma_decode_slot_of_part(
    slot: u64,
    token_account_owner: Option<Seq<char>>,
    account_data: Option<Seq<u8>>,
    write_version: u64,
)
    ensures
        decode_slot(
            slot_key() + decimal_text(slot as nat) + owner_part(
                token_account_owner,
                account_data,
                write_version,
            ),
        ) == Some((slot, token_account_owner, account_data, write_version)),
{
    lemma_part_starts(token_account_owner, account_data, write_version);
    lemma_decode_owner_of_part(token_account_owner, account_data, write_version);
    let tail = owner_part(token_account_owner, account_data, write_version);
    let number = decimal_text(slot as nat);
    let s = slot_key() + number + tail;
    let rest = number + tail;
    assert(s =~= slot_key() + rest);
    lemma_key_in_front(slot_key(), rest);
    lemma_parse_decimal_of_text(slot as nat, u64::MAX as nat, tail);
    assert(s.skip((slot_key().len() + number.len()) as int) =~= tail);
}

/// What `decode_slot` accepts is a message from behind the account's
/// identifier, with the fields that it gives.
pub proof fn lemma_decode_slot_canonical(s: Seq<u8>)
    requires
        decode_slot(s) is Some,
    ensures
        ({
            let (slot, token_account_owner, account_data, write_version) = decode_slot(s)->0;
            s == slot_key() + decimal_text(slot as nat) + owner_part(
                token_account_owner,
                account_data,
                write_version,
            )
        }),
{
    let at = slot_key().len() as int;
    lemma_key_split(slot_key(), s);
    let after = s.skip(at);
    lemma_parse_decimal_canonical(after, u64::MAX as nat);
    let (slot, taken) = parse_decimal(after, u64::MAX as nat)->0;
    lemma_decode_owner_canonical(s.skip(at + taken));
    assert(after =~= after.take(taken as int) + s.skip(at + taken));
    let (token_account_owner, account_data, write_version) = decode_owner(s.skip(at + taken))->0;
    assert(s =~= slot_key() + decimal_text(slot) + owner_part(
        token_account_owner,
        account_data,
        write_version,
    ));
}

/// Writing a message and reading it back gives the same message: the same
/// account identifier, slot and write version, and the same owner and account
/// bytes where the message holds them.
pub proof fn lemma_wire_round_trip(message: OutboundMessageView)
    ensures
        wire_decoding(wire_encoding(message)) == Some(message),
{
    let tail = slot_key() + decimal_text(message.slot as nat) + owner_part(
        message.token_account_owner,
        message.account_data,
        message.write_version,
    );
    let s = wire_encoding(message);
    let rest = quoted_text(message.pubkey) + tail;
    assert(s =~= pubkey_key() + rest);
    lemma_key_in_front(pubkey_key(), rest);
    lemma_parse_text_of_quoted(message.pubkey, tail);
    assert(s.skip((pubkey_key().len() + quoted_text(message.pubkey).len()) as int) =~= tail);
    lemma_decode_slot_of_part(
        message.slot,
        message.token_account_owner,
        message.account_data,
        message.write_version,
    );
}

/// Only wire forms are read: bytes that are read as a message are the wire
/// form of that message.
pub proof fn lemma_wire_decoding_canonical(bytes: Seq<u8>)
    requires
        wire_decoding(bytes) is Some,
    ensures
        wire_encoding(wire_decoding(bytes)->0) == bytes,
{
    let at = pubkey_key().len() as int;
    lemma_key_split(pubkey_key(), bytes);
    let after = bytes.skip(at);
    lemma_parse_text_canonical(after);
    let (pubkey, taken) = parse_text(after)->0;
    let tail = bytes.skip(at + taken);
    lemma_decode_slot_canonical(tail);
    assert(after =~= after.take(taken as int) + tail);
    let message = wire_decoding(bytes)->0;
    assert(bytes =~= pubkey_key() + quoted_text(pubkey) + tail);
    assert(wire_encoding(message) =~= pubkey_key() + quoted_text(pubkey) + tail);
}

} // verus!
