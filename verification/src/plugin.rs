//! The plugin instance: the lifecycle controller, the host's callbacks and
//! the publisher's side of the bridge channel.
//!
//! Two parties call into one instance. The host loads and unloads it and
//! hands it account updates; the publisher, started by a load, reports how
//! its start went and then asks for what to publish. The instance decides;
//! whoever drives it does the waiting and the network.

use crate::channel::{after_recv, after_send, received, BridgeChannel, CHANNEL_LIMIT};
use crate::config::{CarrotPluginConfig, PulsarConfig};
use crate::filter::{
    is_filter_of, owner_field, ConfigError, FilterDecision, FilterMode, FilterSpec,
};
use crate::identifier::{Identifier, IDENTIFIER_LEN};
use crate::mapper::{map_update, mapped_message, AccountUpdateEvent};
use crate::message::{ChannelMessage, ChannelMessageView, OutboundMessage, OutboundMessageView};
use vstd::prelude::*;

verus! {

/// Where an instance stands in its life.
#[derive(Clone, Copy, Debug, PartialEq, Eq, Structural)]
pub enum LifecycleState {
    /// Not loaded, or unloaded again: no publisher, nothing pending.
    Unloaded,
    /// Loaded; the publisher has not yet said how its start went.
    Loading,
    /// The publisher serves the channel.
    Running,
    /// The request to stop is in the channel; the publisher has not yet
    /// reached it.
    Unloading,
}

/// Why a load failed.
#[derive(Clone, Copy, Debug, PartialEq, Eq, Structural)]
pub enum PluginError {
    /// The configuration is malformed.
    Config(ConfigError),
    /// The publisher could not reach the broker.
    Connect,
}

/// What became of one account update.
#[derive(Clone, Copy, Debug, PartialEq, Eq, Structural)]
pub enum UpdateOutcome {
    /// A message for the update is in the channel.
    Enqueued,
    /// Skipped: the account belongs to another program.
    OwnerMismatch,
    /// Skipped: the token account is of another mint.
    MintMismatch,
    /// Skipped: the account's bytes are too short to hold a token account.
    MalformedPayload,
    /// Skipped: the account's identifier does not have 32 bytes.
    MalformedPubkey,
    /// Skipped: no filter is loaded.
    NotLoaded,
    /// Dropped: no publisher takes messages, or the channel is full.
    EnqueueFailure,
}

/// What a load hands to the publisher that it starts: by the ticket the
/// instance knows its publisher from those of earlier loads.
#[derive(Clone, Copy, Debug, PartialEq, Eq, Structural)]
pub struct WorkerTicket {
    pub generation: u64,
}

/// What a publisher needs to start.
#[derive(Clone, Debug, PartialEq, Eq)]
pub struct WorkerStartup {
    pub ticket: WorkerTicket,
    pub connection: PulsarConfig,
    pub topic: String,
}

/// What the publisher is to do next.
#[derive(Clone, Debug, PartialEq, Eq)]
pub enum WorkerAction {
    /// Publish this message, then ask again.
    Publish(OutboundMessage),
    /// Nothing is pending: wait for a message, then ask again.
    Wait,
    /// Stop.
    Exit,
}

/// What a publisher takes out of the channel in one go.
#[derive(Clone, Debug, PartialEq, Eq)]
pub struct Drained {
    /// The messages to publish, oldest first.
    pub messages: Vec<OutboundMessage>,
    /// Whether the publisher is to stop once it has published them.
    pub exit: bool,
}

/// One loaded, or loadable, plugin.
#[derive(Debug)]
pub struct CarrotPlugin {
    mode: FilterMode,
    state: LifecycleState,
    filter: Option<FilterSpec>,
    channel: BridgeChannel,
    generation: u64,
}

/// The name under which the host knows the plugin.
pub open spec fn plugin_name() -> Seq<char> {
    "carrot-geyser-plugin"@
}

/// The generation of the load after the one of generation `g`.
pub open spec fn next_generation(g: u64) -> u64 {
    if g == u64::MAX {
        0
    } else {
        (g + 1) as u64
    }
}

/// The generation of a load differs from that of the load before it: the
/// publisher of the earlier load is served no longer.
pub proof fn lemma_next_generation_differs(g: u64)
    ensures
        next_generation(g) != g,
{
}

/// No request to stop is among the messages.
pub open spec fn no_shutdown(pending: Seq<ChannelMessageView>) -> bool {
    forall|i: int| 0 <= i < pending.len() ==> !(#[trigger] pending[i] is Shutdown)
}

/// The last message is a request to stop, and no other is.
pub open spec fn shutdown_is_last(pending: Seq<ChannelMessageView>) -> bool {
    &&& pending.len() > 0
    &&& pending.last() is Shutdown
    &&& no_shutdown(pending.drop_last())
}

/// The account updates among the messages, in their order.
pub open spec fn updates_of(pending: Seq<ChannelMessageView>) -> Seq<OutboundMessageView>
    decreases pending.len(),
{
    if pending.len() == 0 {
        Seq::empty()
    } else {
        match pending[0] {
            ChannelMessageView::AccountUpdate(message) => seq![message] + updates_of(
                pending.skip(1),
            ),
            ChannelMessageView::Shutdown => updates_of(pending.skip(1)),
        }
    }
}

/// What a publisher makes of the pending messages if it serves them until
/// none is left or it is told to stop: the messages that it publishes, in
/// their order, and whether it stops.
pub open spec fn served(pending: Seq<ChannelMessageView>) -> (Seq<OutboundMessageView>, bool)
    decreases pending.len(),
{
    match received(pending) {
        None => (Seq::empty(), false),
        Some(ChannelMessageView::Shutdown) => (Seq::empty(), true),
        Some(ChannelMessageView::AccountUpdate(message)) => {
            let (more, exit) = served(after_recv(pending));
            (seq![message] + more, exit)
        },
    }
}

/// The messages of a list as mathematical values.
pub open spec fn outbound_views(messages: Seq<OutboundMessage>) -> Seq<OutboundMessageView> {
    messages.map_values(|message: OutboundMessage| message@)
}

impl CarrotPlugin {
    /// The deployment mode.
    pub closed spec fn mode(&self) -> FilterMode {
        self.mode
    }

    /// Where the instance stands in its life.
    pub closed spec fn state(&self) -> LifecycleState {
        self.state
    }

    /// The filter of the last load that had one.
    pub closed spec fn filter(&self) -> Option<FilterSpec> {
        self.filter
    }

    /// The messages that wait for the publisher, oldest first.
    pub closed spec fn pending(&self) -> Seq<ChannelMessageView> {
        self.channel.pending()
    }

    /// The generation of the latest load.
    pub closed spec fn generation(&self) -> u64 {
        self.generation
    }

    /// What holds of every instance: the channel is there exactly while the
    /// instance is loaded; a loaded instance has a filter of its mode; and a
    /// request to stop is in the channel exactly while the instance unloads,
    /// as the last message.
    pub closed spec fn wf(&self) -> bool {
        &&& self.channel.connected() <==> !(self.state is Unloaded)
        &&& self.state is Unloaded ==> self.channel.pending().len() == 0
        &&& !(self.state is Unloaded) ==> self.filter is Some
        &&& self.filter matches Some(filter) ==> filter.spec_mode() == self.mode
        &&& (self.state is Loading || self.state is Running) ==> no_shutdown(self.channel.pending())
        &&& self.state is Unloading ==> shutdown_is_last(self.channel.pending())
    }

    /// What `wf` says of the channel of every instance.
    pub proof fn lemma_wf_pending(&self)
        requires
            self.wf(),
        ensures
            self.state() is Unloaded ==> self.pending().len() == 0,
            self.state() is Loading || self.state() is Running ==> no_shutdown(self.pending()),
            self.state() is Unloading ==> shutdown_is_last(self.pending()),
            !(self.state() is Unloaded) ==> self.filter() is Some,
            self.filter() matches Some(filter) ==> filter.spec_mode() == self.mode(),
    {
    }

    /// At most one publisher is served at a time.
    pub proof fn lemma_one_publisher_is_served(&self, first: WorkerTicket, second: WorkerTicket)
        requires
            self.serves(first),
            self.serves(second),
        ensures
            first == second,
    {
    }

    /// Whether a message for an accepted update is taken.
    pub open spec fn takes_messages(&self) -> bool {
        &&& self.state() is Loading || self.state() is Running
        &&& self.pending().len() < CHANNEL_LIMIT
    }

    /// What becomes of an update.
    pub open spec fn outcome_of(&self, event: AccountUpdateEvent) -> UpdateOutcome {
        match self.filter() {
            None => UpdateOutcome::NotLoaded,
            Some(filter) => match filter.decision(event.owner@, event.data@) {
                FilterDecision::OwnerMismatch => UpdateOutcome::OwnerMismatch,
                FilterDecision::MintMismatch => UpdateOutcome::MintMismatch,
                FilterDecision::MalformedPayload => UpdateOutcome::MalformedPayload,
                FilterDecision::Accept => if event.pubkey@.len() != IDENTIFIER_LEN {
                    UpdateOutcome::MalformedPubkey
                } else if !self.takes_messages() {
                    UpdateOutcome::EnqueueFailure
                } else {
                    UpdateOutcome::Enqueued
                },
            },
        }
    }

    /// The message for an update that is enqueued.
    pub open spec fn message_for(&self, event: AccountUpdateEvent) -> OutboundMessageView {
        mapped_message(
            event.pubkey@,
            event.slot,
            event.write_version,
            if self.mode() is Extended {
                Some(owner_field(event.data@))
            } else {
                None
            },
            event.data@,
        )
    }

    /// The pending messages after an update.
    pub open spec fn pending_after(&self, event: AccountUpdateEvent) -> Seq<ChannelMessageView> {
        if self.outcome_of(event) is Enqueued {
            after_send(self.pending(), ChannelMessageView::AccountUpdate(self.message_for(event)))
        } else {
            self.pending()
        }
    }

    /// Whether the publisher with this ticket is served: it is the one of the
    /// latest load, and the instance runs or unloads.
    pub open spec fn serves(&self, ticket: WorkerTicket) -> bool {
        &&& ticket.generation == self.generation()
        &&& self.state() is Running || self.state() is Unloading
    }

    /// What a publisher that is not served is told: to wait while its own
    /// load is under way, to stop otherwise.
    pub open spec fn unserved_waits(&self, ticket: WorkerTicket) -> bool {
        ticket.generation == self.generation() && self.state() is Loading
    }

    /// An instance of this mode, not loaded.
    pub fn new(mode: FilterMode) -> (plugin: CarrotPlugin)
        ensures
            plugin.wf(),
            plugin.mode() == mode,
            plugin.state() is Unloaded,
            plugin.filter() is None,
            plugin.pending() == Seq::<ChannelMessageView>::empty(),
            plugin.generation() == 0,
    {
        let mut channel = BridgeChannel::new();
        channel.disconnect();
        CarrotPlugin {
            mode,
            state: LifecycleState::Unloaded,
            filter: None,
            channel,
            generation: 0,
        }
    }

    /// The name under which the host knows the plugin.
    pub fn name(&self) -> (name: &'static str)
        ensures
            name@ == plugin_name(),
    {
        "carrot-geyser-plugin"
    }

    /// Where the instance stands in its life.
    pub fn lifecycle_state(&self) -> (state: LifecycleState)
        ensures
            state == self.state(),
    {
        self.state
    }

    /// The deployment mode.
    pub fn deployment_mode(&self) -> (mode: FilterMode)
        ensures
            mode == self.mode(),
    {
        self.mode
    }

    /// How many messages wait for the publisher.
    pub fn pending_len(&self) -> (n: usize)
        ensures
            n == self.pending().len(),
    {
        self.channel.len()
    }

    /// The topic of the loaded filter.
    pub fn topic(&self) -> (topic: Option<String>)
        ensures
            match topic {
                Some(topic) => self.filter() is Some && topic@ == self.filter()->0.topic@,
                None => self.filter() is None,
            },
    {
        match &self.filter {
            Some(filter) => Some(filter.topic.clone()),
            None => None,
        }
    }

    /// The host is done with its startup: nothing to do.
    pub fn notify_end_of_startup(&self) -> (r: Result<(), PluginError>)
        ensures
            r is Ok,
    {
        Ok(())
    }

    /// The plugin wants to hear of account updates.
    pub fn account_data_notifications_enabled(&self) -> (r: bool)
        ensures
            r,
    {
        true
    }

    /// The plugin does not want to hear of transactions.
    pub fn transaction_notifications_enabled(&self) -> (r: bool)
        ensures
            !r,
    {
        false
    }

    /// Opens a fresh channel for a new publisher and says what the publisher
    /// needs to start. Whatever was pending for an earlier publisher is
    /// dropped, and that publisher is served no longer.
    fn start_pulsar_client(&mut self, config: PulsarConfig) -> (startup: WorkerStartup)
        requires
            old(self).filter is Some,
            old(self).filter->0.spec_mode() == old(self).mode,
        ensures
            final(self).wf(),
            final(self).mode() == old(self).mode(),
            final(self).filter() == old(self).filter(),
            final(self).state() is Loading,
            final(self).pending() == Seq::<ChannelMessageView>::empty(),
            final(self).generation() == next_generation(old(self).generation()),
            startup.ticket.generation == final(self).generation(),
            startup.connection == config,
            startup.topic@ == old(self).filter->0.topic@,
    {
        let topic = match &self.filter {
            Some(filter) => filter.topic.clone(),
            None => String::new(),
        };
        self.channel = BridgeChannel::new();
        self.generation = if self.generation == u64::MAX {
            0
        } else {
            self.generation + 1
        };
        self.state = LifecycleState::Loading;
        WorkerStartup {
            ticket: WorkerTicket { generation: self.generation },
            connection: config,
            topic,
        }
    }

    /// Drops the channel and the publisher, if there are any: the instance
    /// is unloaded, and no publisher of an earlier load is served.
    fn discard(&mut self)
        requires
            old(self).filter matches Some(filter) ==> filter.spec_mode() == old(self).mode,
        ensures
            final(self).wf(),
            final(self).mode() == old(self).mode(),
            final(self).filter() == old(self).filter(),
            final(self).state() is Unloaded,
            final(self).pending() == Seq::<ChannelMessageView>::empty(),
            final(self).generation() == next_generation(old(self).generation()),
    {
        self.channel.disconnect();
        self.generation = if self.generation == u64::MAX {
            0
        } else {
            self.generation + 1
        };
        self.state = LifecycleState::Unloaded;
    }

    /// Loads the plugin with this configuration. A reload is a load: whatever
    /// ran before is dropped. With a well-formed configuration the instance
    /// is `Loading`, with an empty channel, and the result says what the new
    /// publisher needs to start. With a malformed one the instance is
    /// `Unloaded`.
    pub fn on_load(&mut self, config: CarrotPluginConfig, is_reload: bool) -> (r: Result<
        WorkerStartup,
        PluginError,
    >)
        requires
            old(self).wf(),
        ensures
            final(self).wf(),
            final(self).mode() == old(self).mode(),
            final(self).pending() == Seq::<ChannelMessageView>::empty(),
            final(self).generation() == next_generation(old(self).generation()),
            match r {
                Ok(startup) => {
                    &&& final(self).state() is Loading
                    &&& final(self).filter() is Some
                    &&& is_filter_of(
                        config.token_account_filter,
                        old(self).mode(),
                        Ok(final(self).filter()->0),
                    )
                    &&& startup.ticket.generation == final(self).generation()
                    &&& startup.connection == config.connection()
                    &&& startup.topic@ == config.token_account_filter.topic@
                },
                Err(PluginError::Config(e)) => {
                    &&& final(self).state() is Unloaded
                    &&& final(self).filter() == old(self).filter()
                    &&& is_filter_of(config.token_account_filter, old(self).mode(), Err(e))
                },
                Err(PluginError::Connect) => false,
            },
    {
        let (pulsar_config, token_account_filter) = config.into_parts();
        match FilterSpec::from_config(&token_account_filter, self.mode) {
            Ok(filter) => {
                self.filter = Some(filter);
                Ok(self.start_pulsar_client(pulsar_config))
            },
            Err(e) => {
                self.discard();
                Err(PluginError::Config(e))
            },
        }
    }

    /// The publisher with this ticket reached the broker. The result says
    /// whether it is to serve: it is not if a later load, or an unload, has
    /// dropped it.
    pub fn worker_started(&mut self, ticket: WorkerTicket) -> (serve: bool)
        requires
            old(self).wf(),
        ensures
            final(self).wf(),
            final(self).mode() == old(self).mode(),
            final(self).filter() == old(self).filter(),
            final(self).pending() == old(self).pending(),
            final(self).generation() == old(self).generation(),
            serve == final(self).serves(ticket),
            final(self).state() == if old(self).unserved_waits(ticket) {
                LifecycleState::Running
            } else {
                old(self).state()
            },
    {
        if ticket.generation != self.generation {
            return false;
        }
        match self.state {
            LifecycleState::Loading => {
                self.state = LifecycleState::Running;
                true
            },
            LifecycleState::Running => true,
            LifecycleState::Unloading => true,
            LifecycleState::Unloaded => false,
        }
    }

    /// The publisher with this ticket could not reach the broker, or ended
    /// without being told to. If it is the publisher of the latest load, the
    /// instance is unloaded and what was pending is dropped.
    pub fn worker_failed(&mut self, ticket: WorkerTicket)
        requires
            old(self).wf(),
        ensures
            final(self).wf(),
            final(self).mode() == old(self).mode(),
            final(self).filter() == old(self).filter(),
            final(self).generation() == old(self).generation(),
            ticket.generation == old(self).generation() ==> final(self).state() is Unloaded
                && final(self).pending() == Seq::<ChannelMessageView>::empty(),
            ticket.generation != old(self).generation() ==> final(self).state() == old(
                self,
            ).state() && final(self).pending() == old(self).pending(),
    {
        if ticket.generation == self.generation {
            self.channel.disconnect();
            self.state = LifecycleState::Unloaded;
        }
    }

    /// How the load that started the publisher with this ticket ended, once
    /// that is known: `None` while the publisher has not reported; success
    /// once it has reached the broker; a connect error if it failed, or if
    /// its load is no longer the latest.
    pub fn load_result(&self, ticket: WorkerTicket) -> (r: Option<Result<(), PluginError>>)
        ensures
            r == if ticket.generation != self.generation() || self.state() is Unloaded {
                Some(Err::<(), PluginError>(PluginError::Connect))
            } else if self.state() is Loading {
                None
            } else {
                Some(Ok::<(), PluginError>(()))
            },
    {
        if ticket.generation != self.generation {
            return Some(Err(PluginError::Connect));
        }
        match self.state {
            LifecycleState::Unloaded => Some(Err(PluginError::Connect)),
            LifecycleState::Loading => None,
            LifecycleState::Running => Some(Ok(())),
            LifecycleState::Unloading => Some(Ok(())),
        }
    }

    /// Takes one account update from the host. The update is held against the
    /// filter; for one that passes, a message is built and put into the
    /// channel. Nothing else of the instance changes, and no update makes the
    /// call fail.
    pub fn update_account(&mut self, account: &AccountUpdateEvent<'_>, is_startup: bool) -> (outcome:
        UpdateOutcome)
        requires
            old(self).wf(),
        ensures
            final(self).wf(),
            final(self).mode() == old(self).mode(),
            final(self).state() == old(self).state(),
            final(self).filter() == old(self).filter(),
            final(self).generation() == old(self).generation(),
            outcome == old(self).outcome_of(*account),
            final(self).pending() == old(self).pending_after(*account),
    {
        let evaluation = match &self.filter {
            Some(filter) => filter.evaluate(account.owner, account.data),
            None => {
                return UpdateOutcome::NotLoaded;
            },
        };
        match evaluation.decision {
            FilterDecision::OwnerMismatch => {
                return UpdateOutcome::OwnerMismatch;
            },
            FilterDecision::MintMismatch => {
                return UpdateOutcome::MintMismatch;
            },
            FilterDecision::MalformedPayload => {
                return UpdateOutcome::MalformedPayload;
            },
            FilterDecision::Accept => {},
        }
        let pubkey = match Identifier::from_slice(account.pubkey) {
            Some(pubkey) => pubkey,
            None => {
                return UpdateOutcome::MalformedPubkey;
            },
        };
        match self.state {
            LifecycleState::Loading => {},
            LifecycleState::Running => {},
            LifecycleState::Unloading => {
                return UpdateOutcome::EnqueueFailure;
            },
            LifecycleState::Unloaded => {
                return UpdateOutcome::EnqueueFailure;
            },
        }
        let message = map_update(
            &pubkey,
            account.slot,
            account.write_version,
            evaluation.fields,
            account.data,
        );
        let ghost sent = ChannelMessageView::AccountUpdate(message@);
        match self.channel.send(ChannelMessage::AccountUpdate(message)) {
            Ok(()) => {
                proof {
                    let before = old(self).channel.pending();
                    let now = self.channel.pending();
                    assert forall|i: int| 0 <= i < now.len() implies !(#[trigger] now[i]
                        is Shutdown) by {
                        if i < before.len() {
                            assert(now[i] == before[i]);
                        }
                    }
                }
                UpdateOutcome::Enqueued
            },
            Err(_) => UpdateOutcome::EnqueueFailure,
        }
    }

    /// Unloads the plugin: the request to stop goes into the channel, behind
    /// everything that is pending, and the instance is `Unloading` until the
    /// publisher reaches the request. An instance that is not loaded, or
    /// unloads already, stays as it is. Should the channel be full, the
    /// publisher is dropped with what is pending.
    pub fn on_unload(&mut self)
        requires
            old(self).wf(),
        ensures
            final(self).wf(),
            final(self).mode() == old(self).mode(),
            final(self).filter() == old(self).filter(),
            old(self).takes_messages() ==> {
                &&& final(self).state() is Unloading
                &&& final(self).pending() == after_send(
                    old(self).pending(),
                    ChannelMessageView::Shutdown,
                )
                &&& final(self).generation() == old(self).generation()
            },
            (old(self).state() is Unloaded || old(self).state() is Unloading) ==> {
                &&& final(self).state() == old(self).state()
                &&& final(self).pending() == old(self).pending()
                &&& final(self).generation() == old(self).generation()
            },
            !(old(self).state() is Unloaded || old(self).state() is Unloading) && !old(
                self,
            ).takes_messages() ==> {
                &&& final(self).state() is Unloaded
                &&& final(self).pending() == Seq::<ChannelMessageView>::empty()
                &&& final(self).generation() == next_generation(old(self).generation())
            },
    {
        match self.state {
            LifecycleState::Unloaded => {
                return ;
            },
            LifecycleState::Unloading => {
                return ;
            },
            LifecycleState::Loading => {},
            LifecycleState::Running => {},
        }
        match self.channel.send(ChannelMessage::Shutdown) {
            Ok(()) => {
                self.state = LifecycleState::Unloading;
                proof {
                    let before = old(self).channel.pending();
                    let now = self.channel.pending();
                    assert(now.drop_last() =~= before);
                }
            },
            Err(_) => {
                self.discard();
            },
        }
    }

    /// Says what the publisher with this ticket is to do next. A publisher
    /// that is served gets the oldest pending message to publish; with
    /// nothing pending it is to wait; at the request to stop it is to exit,
    /// and the instance is unloaded. A publisher that is not served is to
    /// wait while its own load is under way, and to exit otherwise.
    pub fn next_action(&mut self, ticket: WorkerTicket) -> (action: WorkerAction)
        requires
            old(self).wf(),
        ensures
            final(self).wf(),
            final(self).mode() == old(self).mode(),
            final(self).filter() == old(self).filter(),
            final(self).generation() == old(self).generation(),
            !old(self).serves(ticket) ==> {
                &&& final(self).state() == old(self).state()
                &&& final(self).pending() == old(self).pending()
                &&& action == if old(self).unserved_waits(ticket) {
                    WorkerAction::Wait
                } else {
                    WorkerAction::Exit
                }
            },
            old(self).serves(ticket) ==> match received(old(self).pending()) {
                None => {
                    &&& action is Wait
                    &&& final(self).state() == old(self).state()
                    &&& final(self).pending() == old(self).pending()
                },
                Some(ChannelMessageView::AccountUpdate(message)) => {
                    &&& action matches WorkerAction::Publish(published)
                    &&& published@ == message
                    &&& final(self).state() == old(self).state()
                    &&& final(self).pending() == after_recv(old(self).pending())
                },
                Some(ChannelMessageView::Shutdown) => {
                    &&& action is Exit
                    &&& final(self).state() is Unloaded
                    &&& final(self).pending() == Seq::<ChannelMessageView>::empty()
                },
            },
    {
        if ticket.generation != self.generation {
            return WorkerAction::Exit;
        }
        match self.state {
            LifecycleState::Unloaded => {
                return WorkerAction::Exit;
            },
            LifecycleState::Loading => {
                return WorkerAction::Wait;
            },
            LifecycleState::Running => {},
            LifecycleState::Unloading => {},
        }
        match self.channel.recv() {
            None => WorkerAction::Wait,
            Some(ChannelMessage::AccountUpdate(message)) => {
                proof {
                    let before = old(self).channel.pending();
                    let now = self.channel.pending();
                    assert forall|i: int| 0 <= i < now.len() implies now[i] == before[i + 1] by {}
                    if self.state is Unloading {
                        assert(before.len() > 1);
                        assert(now.drop_last() =~= before.drop_last().skip(1));
                        assert(now.last() == before.last());
                    }
                }
                WorkerAction::Publish(message)
            },
            Some(ChannelMessage::Shutdown) => {
                self.channel.disconnect();
                self.state = LifecycleState::Unloaded;
                WorkerAction::Exit
            },
        }
    }

    /// Takes out of the channel, in one go, what the publisher with this
    /// ticket is to publish: every pending message up to the request to stop,
    /// or all of them if there is none. A publisher that is not served gets
    /// nothing, and is to exit unless its own load is under way.
    pub fn drain(&mut self, ticket: WorkerTicket) -> (drained: Drained)
        requires
            old(self).wf(),
        ensures
            final(self).wf(),
            final(self).mode() == old(self).mode(),
            final(self).filter() == old(self).filter(),
            final(self).generation() == old(self).generation(),
            !old(self).serves(ticket) ==> {
                &&& final(self).state() == old(self).state()
                &&& final(self).pending() == old(self).pending()
                &&& drained.messages@.len() == 0
                &&& drained.exit == !old(self).unserved_waits(ticket)
            },
            old(self).serves(ticket) ==> {
                &&& (outbound_views(drained.messages@), drained.exit) == served(
                    old(self).pending(),
                )
                &&& final(self).pending() == Seq::<ChannelMessageView>::empty()
                &&& final(self).state() == if drained.exit {
                    LifecycleState::Unloaded
                } else {
                    old(self).state()
                }
            },
    {
        let mut messages: Vec<OutboundMessage> = Vec::new();
        let ghost start = self.pending();
        proof {
            let (all, exit) = served(start);
            assert(outbound_views(messages@) + all =~= all);
        }
        loop
            invariant
                self.wf(),
                self.mode() == old(self).mode(),
                self.filter() == old(self).filter(),
                self.generation() == old(self).generation(),
                start == old(self).pending(),
                !old(self).serves(ticket) ==> {
                    &&& self.state() == old(self).state()
                    &&& self.pending() == old(self).pending()
                    &&& messages@.len() == 0
                },
                old(self).serves(ticket) ==> {
                    &&& self.serves(ticket)
                    &&& self.state() == old(self).state()
                    &&& served(start) == (
                        outbound_views(messages@) + served(self.pending()).0,
                        served(self.pending()).1,
                    )
                },
            decreases self.pending().len(),
        {
            let ghost before = self.pending();
            let ghost published = outbound_views(messages@);
            match self.next_action(ticket) {
                WorkerAction::Publish(message) => {
                    proof {
                        let (more, exit) = served(after_recv(before));
                        assert(published + (seq![message@] + more) =~= published.push(message@)
                            + more);
                        assert(outbound_views(messages@.push(message)) =~= published.push(
                            message@,
                        ));
                    }
                    messages.push(message);
                },
                WorkerAction::Wait => {
                    proof {
                        assert(published + Seq::<OutboundMessageView>::empty() =~= published);
                        if old(self).serves(ticket) {
                            assert(self.pending() =~= Seq::<ChannelMessageView>::empty());
                        }
                    }
                    return Drained { messages, exit: false };
                },
                WorkerAction::Exit => {
                    proof {
                        assert(published + Seq::<OutboundMessageView>::empty() =~= published);
                    }
                    return Drained { messages, exit: true };
                },
            }
        }
    }
}

impl Default for CarrotPlugin {
    /// An instance of the extended mode, not loaded.
    fn default() -> (plugin: CarrotPlugin)
        ensures
            plugin.wf(),
            plugin.mode() is Extended,
            plugin.state() is Unloaded,
            plugin.filter() is None,
            plugin.pending() == Seq::<ChannelMessageView>::empty(),
            plugin.generation() == 0,
    {
        CarrotPlugin::new(FilterMode::Extended)
    }
}

} // verus!
