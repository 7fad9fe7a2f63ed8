//! Account and program identifiers: 32 bytes, written in text as base58.

use solana_program::pubkey::{ParsePubkeyError, Pubkey};
use std::str::FromStr;
use vstd::prelude::*;

verus! {

/// Number of bytes in an identifier.
pub const IDENTIFIER_LEN: usize = 32;

/// Why a text is not the base58 form of an identifier.
#[derive(Clone, Copy, Debug, PartialEq, Eq, Structural)]
pub enum IdentifierError {
    /// The text is too long, or denotes more or fewer than 32 bytes.
    WrongSize,
    /// The text holds a character outside the base58 alphabet.
    Invalid,
}

/// The identifier of an account or a program.
#[derive(Clone, Copy, Debug, PartialEq, Eq)]
pub struct Identifier {
    pub bytes: [u8; 32],
}

impl View for Identifier {
    type V = Seq<u8>;

    open spec fn view(&self) -> Seq<u8> {
        self.bytes@
    }
}

/// The base58 text of 32 bytes, as `solana_program::pubkey::Pubkey` displays
/// them.
pub uninterp spec fn base58_text(bytes: Seq<u8>) -> Seq<char>;

/// What `solana_program::pubkey::Pubkey::from_str` makes of a text: the 32
/// bytes that it denotes, or why it denotes none.
pub uninterp spec fn base58_decoding(text: Seq<char>) -> Result<Seq<u8>, IdentifierError>;

/// Calls `Pubkey::from_str` and hands back the key's bytes, or the kind of
/// its error. Trusted: the result is what `base58_decoding` names for this
/// text. Nothing more is claimed of which texts are accepted.
#[verifier::external_body]
fn pubkey_from_str(text: &str) -> (r: Result<[u8; 32], IdentifierError>)
    ensures
        match r {
            Ok(bytes) => base58_decoding(text@) == Ok::<Seq<u8>, IdentifierError>(bytes@),
            Err(e) => base58_decoding(text@) == Err::<Seq<u8>, IdentifierError>(e),
        },
{
    match Pubkey::from_str(text) {
        Ok(key) => Ok(key.to_bytes()),
        Err(ParsePubkeyError::WrongSize) => Err(IdentifierError::WrongSize),
        Err(ParsePubkeyError::Invalid) => Err(IdentifierError::Invalid),
    }
}

/// Calls `Pubkey::to_string` on the key with these bytes. Trusted: the result
/// is what `base58_text` names for these bytes.
#[verifier::external_body]
fn pubkey_to_string(bytes: &[u8; 32]) -> (text: String)
    ensures
        text@ == base58_text(bytes@),
{
    Pubkey::new_from_array(*bytes).to_string()
}

/// Whether two byte strings are equal.
pub fn bytes_equal(a: &[u8], b: &[u8]) -> (r: bool)
    ensures
        r == (a@ == b@),
{
    if a.len() != b.len() {
        return false;
    }
    let mut i: usize = 0;
    while i < a.len()
        invariant
            a@.len() == b@.len(),
            i <= a@.len(),
            forall|j: int| 0 <= j < i ==> a@[j] == b@[j],
        decreases a@.len() - i,
    {
        if a[i] != b[i] {
            return false;
        }
        i = i + 1;
    }
    assert(a@ =~= b@);
    true
}

impl Identifier {
    /// The identifier with these bytes.
    pub fn new(bytes: [u8; 32]) -> (id: Identifier)
        ensures
            id@ == bytes@,
    {
        Identifier { bytes }
    }

    /// The bytes of the identifier.
    pub fn to_bytes(&self) -> (bytes: [u8; 32])
        ensures
            bytes@ == self@,
    {
        self.bytes
    }

    /// Reads the identifier that `data` holds at `offset`, if `data` reaches
    /// that far.
    pub fn read_at(data: &[u8], offset: usize) -> (r: Option<Identifier>)
        ensures
            r is Some <==> offset + IDENTIFIER_LEN <= data@.len(),
            r matches Some(id) ==> id@ == data@.subrange(
                offset as int,
                offset + IDENTIFIER_LEN as int,
            ),
    {
        if data.len() < IDENTIFIER_LEN || offset > data.len() - IDENTIFIER_LEN {
            return None;
        }
        let mut bytes: [u8; 32] = [0u8; 32];
        let mut i: usize = 0;
        while i < IDENTIFIER_LEN
            invariant
                i <= IDENTIFIER_LEN,
                offset + IDENTIFIER_LEN <= data@.len() <= usize::MAX,
                forall|j: int| 0 <= j < i ==> bytes@[j] == data@[offset + j],
            decreases IDENTIFIER_LEN - i,
        {
            bytes[i] = data[offset + i];
            i = i + 1;
        }
        assert(bytes@ =~= data@.subrange(offset as int, offset + IDENTIFIER_LEN as int));
        Some(Identifier { bytes })
    }

    /// The identifier that `bytes` holds, if there are exactly 32 of them.
    pub fn from_slice(bytes: &[u8]) -> (r: Option<Identifier>)
        ensures
            r is Some <==> bytes@.len() == IDENTIFIER_LEN,
            r matches Some(id) ==> id@ == bytes@,
    {
        if bytes.len() != IDENTIFIER_LEN {
            return None;
        }
        assert(bytes@.subrange(0, IDENTIFIER_LEN as int) == bytes@);
        Identifier::read_at(bytes, 0)
    }

    /// Whether the identifier has exactly these bytes.
    pub fn matches(&self, bytes: &[u8]) -> (r: bool)
        ensures
            r == (self@ == bytes@),
    {
        bytes_equal(self.bytes.as_slice(), bytes)
    }

    /// Reads an identifier from its base58 text.
    pub fn from_base58(text: &str) -> (r: Result<Identifier, IdentifierError>)
        ensures
            match r {
                Ok(id) => base58_decoding(text@) == Ok::<Seq<u8>, IdentifierError>(id@),
                Err(e) => base58_decoding(text@) == Err::<Seq<u8>, IdentifierError>(e),
            },
    {
        match pubkey_from_str(text) {
            Ok(bytes) => Ok(Identifier { bytes }),
            Err(e) => Err(e),
        }
    }

    /// The base58 text of the identifier.
    pub fn to_base58(&self) -> (text: String)
        ensures
            text@ == base58_text(self@),
    {
        pubkey_to_string(&self.bytes)
    }
}

} // verus!
