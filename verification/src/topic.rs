//! The broadcast topic primitive: a multi-producer, multi-consumer
//! channel of text payloads with a bounded per-subscriber buffer.
//!
//! The engine relies on tokio's broadcast channel for the fan-out
//! itself: each subscriber sees the values in the order they were sent,
//! and a subscriber that falls further behind than the buffer capacity
//! is skipped ahead by the channel. The trusted items here declare that
//! channel's types and the few calls the engine makes; the engine's own
//! contracts state what it hands to the channel and how it reconciles
//! state, not what the channel then delivers.

use vstd::prelude::*;

verus! {

#[verifier::external_type_specification]
#[verifier::external_body]
#[verifier::reject_recursive_types(T)]
pub struct ExSender<T>(tokio::sync::broadcast::Sender<T>);

#[verifier::external_type_specification]
#[verifier::external_body]
#[verifier::reject_recursive_types(T)]
pub struct ExReceiver<T>(tokio::sync::broadcast::Receiver<T>);

/// What became of one frame handed to a topic.
#[derive(Debug, Clone, Copy, PartialEq, Eq, Structural)]
pub enum BroadcastOutcome {
    /// The topic had no subscribers (or none was ever created), so the
    /// frame was not handed to it. Not an error.
    NoSubscribers,
    /// The frame was handed to the topic with this many subscribers at
    /// that moment.
    Delivered(usize),
    /// The topic refused the frame; the session goes on.
    Refused,
}

/// Relies on tokio::sync::broadcast::channel: creates a new broadcast
/// channel with the given per-subscriber capacity and hands back its
/// send half; the initial receive half is dropped, so the topic starts
/// with no subscribers. Panics only for a zero capacity or one above
/// `usize::MAX / 2`.
#[verifier::external_body]
pub(crate) fn new_topic(capacity: usize) -> tokio::sync::broadcast::Sender<String>
    requires
        1 <= capacity <= usize::MAX / 2,
{
    tokio::sync::broadcast::channel(capacity).0
}

/// Relies on tokio broadcast Sender::subscribe: a new receive half that
/// will see the values sent after this call.
#[verifier::external_body]
pub(crate) fn subscribe_topic(tx: &tokio::sync::broadcast::Sender<String>) -> (r:
    tokio::sync::broadcast::Receiver<String>)
{
    tx.subscribe()
}

/// Relies on tokio broadcast Sender::receiver_count: how many receive
/// halves exist at this moment. Other tasks subscribe and drop
/// concurrently, so nothing is promised of the value.
#[verifier::external_body]
pub(crate) fn topic_receiver_count(tx: &tokio::sync::broadcast::Sender<String>) -> (r: usize) {
    tx.receiver_count()
}

/// Relies on tokio broadcast Sender::send: `Ok` with the number of
/// receivers when the value was enqueued for every current subscriber,
/// `Err` when there was none; the error only hands the value back.
#[verifier::external_body]
pub(crate) fn send_to_topic(
    tx: &tokio::sync::broadcast::Sender<String>,
    payload: String,
) -> (r: Option<usize>) {
    match tx.send(payload) {
        Ok(n) => Some(n),
        Err(_) => None,
    }
}

} // verus!
