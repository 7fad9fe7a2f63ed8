//! What travels from the host's callback to the publisher: the outbound
//! message of one account update, and the messages of the bridge channel.

use vstd::prelude::*;

verus! {

/// One account update as it is published: the account's identifier in text,
/// the slot and the write version of the update and, where the deployment
/// asks for them, the owner that the token account names and the account's
/// raw bytes.
#[derive(Clone, Debug, PartialEq, Eq)]
pub struct OutboundMessage {
    pub pubkey: String,
    pub slot: u64,
    pub token_account_owner: Option<String>,
    pub account_data: Option<Vec<u8>>,
    pub write_version: u64,
}

/// An outbound message as a mathematical value.
pub struct OutboundMessageView {
    pub pubkey: Seq<char>,
    pub slot: u64,
    pub token_account_owner: Option<Seq<char>>,
    pub account_data: Option<Seq<u8>>,
    pub write_version: u64,
}

/// The characters of a text that may be absent.
pub open spec fn text_view(text: Option<String>) -> Option<Seq<char>> {
    match text {
        Some(text) => Some(text@),
        None => None,
    }
}

/// The bytes of a byte string that may be absent.
pub open spec fn bytes_view(bytes: Option<Vec<u8>>) -> Option<Seq<u8>> {
    match bytes {
        Some(bytes) => Some(bytes@),
        None => None,
    }
}

impl View for OutboundMessage {
    type V = OutboundMessageView;

    open spec fn view(&self) -> OutboundMessageView {
        OutboundMessageView {
            pubkey: self.pubkey@,
            slot: self.slot,
            token_account_owner: text_view(self.token_account_owner),
            account_data: bytes_view(self.account_data),
            write_version: self.write_version,
        }
    }
}

/// A message of the bridge channel.
#[derive(Clone, Debug, PartialEq, Eq)]
pub enum ChannelMessage {
    /// An account update to publish.
    AccountUpdate(OutboundMessage),
    /// The request to stop: the last message that a producer sends.
    Shutdown,
}

/// A channel message as a mathematical value.
pub enum ChannelMessageView {
    AccountUpdate(OutboundMessageView),
    Shutdown,
}

impl View for ChannelMessage {
    type V = ChannelMessageView;

    open spec fn view(&self) -> ChannelMessageView {
        match self {
            ChannelMessage::AccountUpdate(message) => ChannelMessageView::AccountUpdate(message@),
            ChannelMessage::Shutdown => ChannelMessageView::Shutdown,
        }
    }
}

impl OutboundMessage {
    /// The message with these fields.
    pub fn new(
        pubkey: String,
        slot: u64,
        token_account_owner: Option<String>,
        account_data: Option<Vec<u8>>,
        write_version: u64,
    ) -> (message: OutboundMessage)
        ensures
            message.pubkey == pubkey,
            message.slot == slot,
            message.token_account_owner == token_account_owner,
            message.account_data == account_data,
            message.write_version == write_version,
    {
        OutboundMessage { pubkey, slot, token_account_owner, account_data, write_version }
    }
}

impl ChannelMessage {
    /// Whether this is the request to stop.
    pub fn is_shutdown(&self) -> (r: bool)
        ensures
            r == (self@ is Shutdown),
    {
        match self {
            ChannelMessage::Shutdown => true,
            ChannelMessage::AccountUpdate(_) => false,
        }
    }
}

} // verus!
