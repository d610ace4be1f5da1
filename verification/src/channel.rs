//! The broadcast channels of `tokio`, as far as the registry uses them. Nothing
//! here is proved: each item says what it takes on trust.

use crate::models::StoredRequest;
use tokio::sync::broadcast::{Receiver, Sender};
use vstd::prelude::*;

verus! {

/// Sending half of a `tokio::sync::broadcast` channel. Its state is shared with the
/// receivers and hidden from the verifier.
#[verifier::external_type_specification]
#[verifier::external_body]
#[verifier::reject_recursive_types(T)]
pub struct ExSender<T>(tokio::sync::broadcast::Sender<T>);

/// Receiving half of a `tokio::sync::broadcast` channel, equally hidden.
#[verifier::external_type_specification]
#[verifier::external_body]
#[verifier::reject_recursive_types(T)]
pub struct ExReceiver<T>(tokio::sync::broadcast::Receiver<T>);

/// What one poll of a subscription produced.
#[derive(Debug)]
pub enum Delivery {
    /// The next record published after the previous one this subscriber saw.
    Record(StoredRequest),
    /// Nothing is waiting for this subscriber right now.
    Empty,
    /// The subscriber fell behind and this many of the oldest records were dropped for it.
    Lagged(u64),
    /// Every sending half is gone; no record will arrive any more.
    Closed,
}

/// Largest buffer length with which a channel can be opened.
pub open spec fn max_channel_capacity() -> int {
    usize::MAX as int / 2
}

/// Calls `tokio::sync::broadcast::channel` and keeps the sending half only, so the new
/// channel starts without subscribers. The call panics for a capacity of zero or above
/// `usize::MAX / 2`; both are excluded. The buffer is allocated at once. Nothing is
/// claimed of the channel.
#[verifier::external_body]
pub(crate) fn open_channel(capacity: usize) -> (sender: Sender<StoredRequest>)
    requires
        0 < capacity <= max_channel_capacity(),
{
    tokio::sync::broadcast::channel(capacity).0
}

/// Calls `Sender::subscribe`. The receiver sees what is sent after this call; nothing
/// of that is visible to the verifier, so nothing is claimed. The call panics only
/// when the channel already has `usize::MAX / 4` receivers.
#[verifier::external_body]
pub(crate) fn channel_subscribe(sender: &Sender<StoredRequest>) -> (receiver: Receiver<StoredRequest>) {
    sender.subscribe()
}

/// Calls `Sender::send`. `Some(n)` means the record was queued while `n` receivers were
/// subscribed, and then `n` is at least one; `None` means there was no receiver and the
/// record was discarded.
#[verifier::external_body]
pub(crate) fn channel_send(sender: &Sender<StoredRequest>, request: StoredRequest) -> (receivers: Option<usize>)
    ensures
        receivers matches Some(n) ==> n >= 1,
{
    sender.send(request).ok()
}

/// Calls `Sender::receiver_count`. The count changes whenever a receiver is created or
/// dropped anywhere, so nothing is claimed of it.
#[verifier::external_body]
pub(crate) fn channel_receiver_count(sender: &Sender<StoredRequest>) -> (count: usize) {
    sender.receiver_count()
}

/// Calls `Receiver::try_recv` and names each of its four outcomes. Which one comes
/// depends on what was sent meanwhile, so nothing is claimed.
#[verifier::external_body]
pub(crate) fn channel_try_recv(receiver: &mut Receiver<StoredRequest>) -> (delivery: Delivery) {
    match receiver.try_recv() {
        Ok(request) => Delivery::Record(request),
        Err(tokio::sync::broadcast::error::TryRecvError::Empty) => Delivery::Empty,
        Err(tokio::sync::broadcast::error::TryRecvError::Lagged(missed)) => Delivery::Lagged(missed),
        Err(tokio::sync::broadcast::error::TryRecvError::Closed) => Delivery::Closed,
    }
}

} // verus!
