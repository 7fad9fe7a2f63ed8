//! What holds of every instance, whatever the updates: which of them put a
//! message into the channel, and what the publisher has published when it
//! stops.

use crate::channel::after_recv;
use crate::filter::{mint_field, TOKEN_ACCOUNT_WINDOW};
use crate::identifier::IDENTIFIER_LEN;
use crate::mapper::AccountUpdateEvent;
use crate::message::ChannelMessageView;
use crate::plugin::{no_shutdown, served, updates_of, CarrotPlugin};
use vstd::prelude::*;

verus! {

/// An update of an account that the configured token program does not own
/// puts no message into the channel.
pub proof fn lemma_foreign_owner_sends_nothing(plugin: CarrotPlugin, event: AccountUpdateEvent)
    requires
        plugin.filter() matches Some(filter) ==> event.owner@ != filter.token_program@,
    ensures
        !(plugin.outcome_of(event) is Enqueued),
        plugin.pending_after(event) == plugin.pending(),
{
}

/// In the extended mode, an update of an account of the token program whose
/// first 32 bytes are not the configured mint puts no message into the
/// channel.
pub proof fn lemma_foreign_mint_sends_nothing(plugin: CarrotPlugin, event: AccountUpdateEvent)
    requires
        plugin.filter() is Some,
        plugin.filter()->0.mint_address is Some,
        event.owner@ == plugin.filter()->0.token_program@,
        mint_field(event.data@) != plugin.filter()->0.mint_address->0@,
    ensures
        !(plugin.outcome_of(event) is Enqueued),
        plugin.pending_after(event) == plugin.pending(),
{
}

/// An update that passes the filter puts exactly one message into the
/// channel, behind what is pending, and the message has the slot and the
/// write version of the update. The update passes if the token program owns
/// the account and, in the extended mode, the account's bytes hold a whole
/// token account of the configured mint. This is said of an instance that
/// takes messages, and of an account identifier of 32 bytes.
pub proof fn lemma_matching_update_sends_one(plugin: CarrotPlugin, event: AccountUpdateEvent)
    requires
        plugin.takes_messages(),
        event.pubkey@.len() == IDENTIFIER_LEN,
        plugin.filter() is Some,
        event.owner@ == plugin.filter()->0.token_program@,
        plugin.filter()->0.mint_address matches Some(mint) ==> event.data@.len()
            >= TOKEN_ACCOUNT_WINDOW && mint_field(event.data@) == mint@,
    ensures
        plugin.outcome_of(event) is Enqueued,
        plugin.pending_after(event) == plugin.pending().push(
            ChannelMessageView::AccountUpdate(plugin.message_for(event)),
        ),
        plugin.pending_after(event).len() == plugin.pending().len() + 1,
        plugin.message_for(event).slot == event.slot,
        plugin.message_for(event).write_version == event.write_version,
{
}

/// Where no request to stop is pending, the publisher publishes every pending
/// update, in order, and does not stop.
pub proof fn lemma_served_without_shutdown(pending: Seq<ChannelMessageView>)
    requires
        no_shutdown(pending),
    ensures
        served(pending) == (updates_of(pending), false),
        updates_of(pending).len() == pending.len(),
        forall|i: int|
            0 <= i < pending.len() ==> #[trigger] pending[i] == ChannelMessageView::AccountUpdate(
                updates_of(pending)[i],
            ),
    decreases pending.len(),
{
    if pending.len() > 0 {
        let rest = pending.skip(1);
        assert(!(pending[0] is Shutdown));
        assert forall|i: int| 0 <= i < rest.len() implies !(#[trigger] rest[i] is Shutdown) by {
            assert(rest[i] == pending[i + 1]);
        }
        lemma_served_without_shutdown(rest);
        assert forall|i: int| 0 <= i < pending.len() implies #[trigger] pending[i]
            == ChannelMessageView::AccountUpdate(updates_of(pending)[i]) by {
            if i > 0 {
                assert(pending[i] == rest[i - 1]);
            }
        }
    }
}

/// The publisher stops at the request to stop, and only there: it has then
/// published every update that was sent before the request, in order, and
/// nothing that was sent after it.
pub proof fn lemma_served_until_shutdown(
    before: Seq<ChannelMessageView>,
    after: Seq<ChannelMessageView>,
)
    requires
        no_shutdown(before),
    ensures
        served(before.push(ChannelMessageView::Shutdown) + after) == (updates_of(before), true),
        updates_of(before).len() == before.len(),
        forall|i: int|
            0 <= i < before.len() ==> #[trigger] before[i] == ChannelMessageView::AccountUpdate(
                updates_of(before)[i],
            ),
    decreases before.len(),
{
    let pending = before.push(ChannelMessageView::Shutdown) + after;
    lemma_served_without_shutdown(before);
    if before.len() == 0 {
        assert(pending[0] is Shutdown);
    } else {
        let rest = before.skip(1);
        assert(pending[0] == before[0]);
        assert(!(before[0] is Shutdown));
        assert forall|i: int| 0 <= i < rest.len() implies !(#[trigger] rest[i] is Shutdown) by {
            assert(rest[i] == before[i + 1]);
        }
        lemma_served_until_shutdown(rest, after);
        assert(after_recv(pending) =~= rest.push(ChannelMessageView::Shutdown) + after);
    }
}

/// Once an instance unloads, its publisher publishes every update that was
/// pending when the unload was asked for, and then stops.
pub proof fn lemma_unload_drains(plugin: CarrotPlugin)
    requires
        plugin.wf(),
        plugin.state() is Unloading,
    ensures
        served(plugin.pending()) == (updates_of(plugin.pending().drop_last()), true),
        updates_of(plugin.pending().drop_last()).len() == plugin.pending().len() - 1,
{
    plugin.lemma_wf_pending();
    let pending = plugin.pending();
    let before = pending.drop_last();
    lemma_served_until_shutdown(before, Seq::empty());
    assert(pending =~= before.push(ChannelMessageView::Shutdown) + Seq::empty());
}

} // verus!
