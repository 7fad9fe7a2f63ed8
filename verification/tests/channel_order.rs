use carrot_geyser_plugin::channel::{BridgeChannel, EnqueueFailure, CHANNEL_LIMIT};
use carrot_geyser_plugin::message::{ChannelMessage, OutboundMessage};

fn update(slot: u64) -> ChannelMessage {
    ChannelMessage::AccountUpdate(OutboundMessage::new(
        format!("account-{}", slot),
        slot,
        None,
        None,
        slot + 1,
    ))
}

#[test]
fn new_channel_is_empty_and_connected() {
    let channel = BridgeChannel::new();
    assert!(channel.is_empty());
    assert_eq!(channel.len(), 0);
    assert!(channel.is_connected());
}

#[test]
fn channel_limit_is_the_largest_length() {
    assert_eq!(CHANNEL_LIMIT, usize::MAX);
}

#[test]
fn receiving_from_an_empty_channel_gives_nothing() {
    let mut channel = BridgeChannel::new();
    assert_eq!(channel.recv(), None);
    assert!(channel.is_empty());
    assert!(channel.is_connected());
}

#[test]
fn two_messages_leave_in_the_order_in_which_they_came() {
    let mut channel = BridgeChannel::new();
    assert_eq!(channel.send(update(1)), Ok(()));
    assert_eq!(channel.send(update(2)), Ok(()));
    assert_eq!(channel.len(), 2);
    assert_eq!(channel.recv(), Some(update(1)));
    assert_eq!(channel.recv(), Some(update(2)));
    assert_eq!(channel.recv(), None);
}

#[test]
fn later_messages_wait_behind_pending_ones() {
    let mut channel = BridgeChannel::new();
    for slot in 0..5 {
        assert_eq!(channel.send(update(slot)), Ok(()));
    }
    assert_eq!(channel.recv(), Some(update(0)));
    assert_eq!(channel.recv(), Some(update(1)));
    assert_eq!(channel.send(update(10)), Ok(()));
    assert_eq!(channel.send(ChannelMessage::Shutdown), Ok(()));
    assert_eq!(channel.len(), 5);
    assert_eq!(channel.recv(), Some(update(2)));
    assert_eq!(channel.recv(), Some(update(3)));
    assert_eq!(channel.recv(), Some(update(4)));
    assert_eq!(channel.recv(), Some(update(10)));
    assert_eq!(channel.recv(), Some(ChannelMessage::Shutdown));
    assert_eq!(channel.recv(), None);
    assert!(channel.is_empty());
}

#[test]
fn many_messages_keep_their_order() {
    let mut channel = BridgeChannel::new();
    for slot in 0..1000 {
        assert_eq!(channel.send(update(slot)), Ok(()));
    }
    assert_eq!(channel.len(), 1000);
    for slot in 0..1000 {
        assert_eq!(channel.recv(), Some(update(slot)));
    }
    assert!(channel.is_empty());
}

#[test]
fn disconnecting_drops_what_is_pending() {
    let mut channel = BridgeChannel::new();
    assert_eq!(channel.send(update(1)), Ok(()));
    assert_eq!(channel.send(update(2)), Ok(()));
    channel.disconnect();
    assert!(!channel.is_connected());
    assert!(channel.is_empty());
    assert_eq!(channel.recv(), None);
}

#[test]
fn sending_to_a_disconnected_channel_fails_and_changes_nothing() {
    let mut channel = BridgeChannel::new();
    channel.disconnect();
    assert_eq!(channel.send(update(1)), Err(EnqueueFailure::Disconnected));
    assert_eq!(
        channel.send(ChannelMessage::Shutdown),
        Err(EnqueueFailure::Disconnected)
    );
    assert_eq!(channel.len(), 0);
    assert_eq!(channel.recv(), None);
    assert!(!channel.is_connected());
}
