//! The bridge channel: the queue between the host's callback, which sends,
//! and the publisher, which receives. Messages leave in the order in which
//! they came. Sending never waits: where the message cannot be taken, it is
//! dropped and the sender is told.

use crate::message::{ChannelMessage, ChannelMessageView};
use std::collections::VecDeque;
use vstd::prelude::*;

verus! {

/// Why a message was not taken.
#[derive(Clone, Copy, Debug, PartialEq, Eq, Structural)]
pub enum EnqueueFailure {
    /// The receiving side is gone.
    Disconnected,
    /// The queue cannot hold another message.
    Full,
}

/// The most messages that a channel holds.
pub const CHANNEL_LIMIT: usize = usize::MAX;

/// The queue of messages between one sender and one receiver.
#[derive(Debug)]
pub struct BridgeChannel {
    queue: VecDeque<ChannelMessage>,
    connected: bool,
}

/// The messages of a queue as mathematical values, oldest first.
pub open spec fn message_views(queue: Seq<ChannelMessage>) -> Seq<ChannelMessageView> {
    queue.map_values(|message: ChannelMessage| message@)
}

/// What sending `message` makes of the pending messages.
pub open spec fn after_send(
    pending: Seq<ChannelMessageView>,
    message: ChannelMessageView,
) -> Seq<ChannelMessageView> {
    pending.push(message)
}

/// What receiving hands out of the pending messages: the oldest, if there is
/// one.
pub open spec fn received(pending: Seq<ChannelMessageView>) -> Option<ChannelMessageView> {
    if pending.len() == 0 {
        None
    } else {
        Some(pending[0])
    }
}

/// What receiving leaves of the pending messages: all but the oldest.
pub open spec fn after_recv(pending: Seq<ChannelMessageView>) -> Seq<ChannelMessageView> {
    if pending.len() == 0 {
        pending
    } else {
        pending.skip(1)
    }
}

/// The messages that a receiver sees, in the order in which it sees them, if
/// it receives until nothing is pending.
pub open spec fn observed(pending: Seq<ChannelMessageView>) -> Seq<ChannelMessageView>
    decreases pending.len(),
{
    match received(pending) {
        Some(message) => seq![message] + observed(after_recv(pending)),
        None => Seq::empty(),
    }
}

/// A receiver sees the pending messages, all of them, oldest first.
pub proof fn lemma_observed_is_pending(pending: Seq<ChannelMessageView>)
    ensures
        observed(pending) == pending,
    decreases pending.len(),
{
    if pending.len() > 0 {
        lemma_observed_is_pending(pending.skip(1));
        assert(seq![pending[0]] + pending.skip(1) =~= pending);
    } else {
        assert(pending =~= Seq::empty());
    }
}

/// The channel is first in, first out: of two messages sent one after the
/// other, the receiver sees the first before the second, both after what was
/// pending and with nothing between them.
pub proof fn lemma_channel_is_fifo(
    pending: Seq<ChannelMessageView>,
    first: ChannelMessageView,
    second: ChannelMessageView,
)
    ensures
        observed(after_send(after_send(pending, first), second)) == pending + seq![first, second],
        observed(after_send(after_send(pending, first), second))[pending.len() as int] == first,
        observed(after_send(after_send(pending, first), second))[pending.len() as int + 1] == second,
{
    let sent = after_send(after_send(pending, first), second);
    lemma_observed_is_pending(sent);
    assert(sent =~= pending + seq![first, second]);
}

impl BridgeChannel {
    /// The messages that wait in the channel, oldest first.
    pub closed spec fn pending(&self) -> Seq<ChannelMessageView> {
        message_views(self.queue@)
    }

    /// Whether the receiving side is there.
    pub closed spec fn connected(&self) -> bool {
        self.connected
    }

    /// An empty channel with its receiving side in place.
    pub fn new() -> (channel: BridgeChannel)
        ensures
            channel.pending() == Seq::<ChannelMessageView>::empty(),
            channel.connected(),
    {
        let channel = BridgeChannel { queue: VecDeque::new(), connected: true };
        assert(channel.pending() =~= Seq::<ChannelMessageView>::empty());
        channel
    }

    /// How many messages wait in the channel.
    pub fn len(&self) -> (n: usize)
        ensures
            n == self.pending().len(),
    {
        self.queue.len()
    }

    /// Whether no message waits in the channel.
    pub fn is_empty(&self) -> (r: bool)
        ensures
            r == (self.pending().len() == 0),
    {
        self.queue.len() == 0
    }

    /// Whether the receiving side is there.
    pub fn is_connected(&self) -> (r: bool)
        ensures
            r == self.connected(),
    {
        self.connected
    }

    /// Puts `message` behind the pending ones, without waiting. Where the
    /// receiving side is gone, or the channel is full, the message is
    /// dropped and the channel stays as it was.
    pub fn send(&mut self, message: ChannelMessage) -> (r: Result<(), EnqueueFailure>)
        ensures
            final(self).connected() == old(self).connected(),
            match r {
                Ok(()) => {
                    &&& old(self).connected()
                    &&& old(self).pending().len() < CHANNEL_LIMIT
                    &&& final(self).pending() == after_send(old(self).pending(), message@)
                },
                Err(EnqueueFailure::Disconnected) => {
                    &&& !old(self).connected()
                    &&& final(self).pending() == old(self).pending()
                },
                Err(EnqueueFailure::Full) => {
                    &&& old(self).connected()
                    &&& old(self).pending().len() >= CHANNEL_LIMIT
                    &&& final(self).pending() == old(self).pending()
                },
            },
    {
        if !self.connected {
            return Err(EnqueueFailure::Disconnected);
        }
        if self.queue.len() >= CHANNEL_LIMIT {
            return Err(EnqueueFailure::Full);
        }
        self.queue.push_back(message);
        assert(self.pending() =~= after_send(old(self).pending(), message@));
        Ok(())
    }

    /// Takes the oldest pending message out of the channel, if there is one.
    pub fn recv(&mut self) -> (r: Option<ChannelMessage>)
        ensures
            final(self).connected() == old(self).connected(),
            final(self).pending() == after_recv(old(self).pending()),
            match r {
                Some(message) => received(old(self).pending()) == Some(message@),
                None => received(old(self).pending()) is None,
            },
    {
        let r = self.queue.pop_front();
        assert(self.pending() =~= after_recv(old(self).pending()));
        r
    }

    /// Takes the receiving side away: what is pending is dropped, and nothing
    /// more is taken.
    pub fn disconnect(&mut self)
        ensures
            !final(self).connected(),
            final(self).pending() == Seq::<ChannelMessageView>::empty(),
    {
        self.queue.clear();
        self.connected = false;
        assert(self.pending() =~= Seq::<ChannelMessageView>::empty());
    }
}

} // verus!
