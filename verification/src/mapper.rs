//! The update mapper: from an account update that passed the filter to the
//! message that is published for it.

use crate::filter::TokenAccountFields;
use crate::identifier::{base58_text, Identifier};
use crate::message::{OutboundMessage, OutboundMessageView};
use vstd::prelude::*;
use vstd::slice::slice_to_vec;

verus! {

/// One account update, as the host hands it over: the account's identifier,
/// the owning program's identifier and the account's bytes, all raw, with the
/// slot of the update and its write version.
#[derive(Clone, Copy, Debug, PartialEq, Eq)]
pub struct AccountUpdateEvent<'a> {
    pub pubkey: &'a [u8],
    pub owner: &'a [u8],
    pub data: &'a [u8],
    pub slot: u64,
    pub write_version: u64,
}

/// The message for an update of the account `pubkey`: the identifiers in
/// base58, the slot and the write version as they came. With an owner, the
/// message holds it and the account's bytes; without, neither.
pub open spec fn mapped_message(
    pubkey: Seq<u8>,
    slot: u64,
    write_version: u64,
    token_account_owner: Option<Seq<u8>>,
    data: Seq<u8>,
) -> OutboundMessageView {
    OutboundMessageView {
        pubkey: base58_text(pubkey),
        slot,
        token_account_owner: match token_account_owner {
            Some(owner) => Some(base58_text(owner)),
            None => None,
        },
        account_data: match token_account_owner {
            Some(_) => Some(data),
            None => None,
        },
        write_version,
    }
}

/// The owner among the fields of a token account, if there are any.
pub open spec fn owner_of(fields: Option<TokenAccountFields>) -> Option<Seq<u8>> {
    match fields {
        Some(fields) => Some(fields.owner@),
        None => None,
    }
}

/// Builds the message for an update of the account `pubkey`. `fields` are the
/// fields of the token account in the extended mode, `None` in the minimal
/// mode.
pub fn map_update(
    pubkey: &Identifier,
    slot: u64,
    write_version: u64,
    fields: Option<TokenAccountFields>,
    data: &[u8],
) -> (message: OutboundMessage)
    ensures
        message@ == mapped_message(pubkey@, slot, write_version, owner_of(fields), data@),
{
    let pubkey_text = pubkey.to_base58();
    match fields {
        Some(fields) => {
            let owner_text = fields.owner.to_base58();
            let account_data = slice_to_vec(data);
            OutboundMessage::new(
                pubkey_text,
                slot,
                Some(owner_text),
                Some(account_data),
                write_version,
            )
        },
        None => OutboundMessage::new(pubkey_text, slot, None, None, write_version),
    }
}

} // verus!
