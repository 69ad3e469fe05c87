use async_channel::Receiver as ChannelReceiver;
use async_channel::Sender as ChannelSender;
use vstd::prelude::*;

use crate::deferred::StateCheck;

verus! {

#[verifier::external_type_specification]
#[verifier::external_body]
#[verifier::reject_recursive_types(T)]
pub struct ExChannelSender<T>(ChannelSender<T>);

#[verifier::external_type_specification]
#[verifier::external_body]
#[verifier::reject_recursive_types(T)]
pub struct ExChannelReceiver<T>(ChannelReceiver<T>);

/// What a non-suspending send found.
#[derive(Debug, PartialEq, Eq, Structural)]
pub enum Offer {
    /// The item was queued.
    Delivered,
    /// The queue was full; the item was not queued.
    Full,
    /// Every receiver is gone; the item was not queued.
    Closed,
}

/// Relies on `async_channel::bounded`: a fresh channel that holds at most
/// `cap` items at a time. It panics on a zero capacity, which `requires` rules
/// out.
#[verifier::external_body]
pub(crate) fn bounded_channel<T>(cap: usize) -> (r: (ChannelSender<T>, ChannelReceiver<T>))
    requires
        cap > 0,
{
    async_channel::bounded(cap)
}

/// Relies on `async_channel::Sender::try_send`: queues the item if there is
/// room, else reports a full or a closed channel. Which of the three comes
/// depends on the other ends of the channel.
#[verifier::external_body]
pub(crate) fn try_offer<T>(tx: &ChannelSender<T>, item: T) -> (r: Offer) {
    match tx.try_send(item) {
        Ok(()) => Offer::Delivered,
        Err(async_channel::TrySendError::Full(_)) => Offer::Full,
        Err(async_channel::TrySendError::Closed(_)) => Offer::Closed,
    }
}

/// Relies on `async_channel::Receiver::try_recv`: takes a waiting value
/// without suspending, or reports an empty or a closed and drained channel.
/// Which of the three comes depends on the other ends of the channel.
#[verifier::external_body]
pub(crate) fn try_receive<S>(rx: &ChannelReceiver<S>) -> (r: StateCheck<S>) {
    match rx.try_recv() {
        Ok(s) => StateCheck::Ready(s),
        Err(async_channel::TryRecvError::Empty) => StateCheck::Empty,
        Err(async_channel::TryRecvError::Closed) => StateCheck::Closed,
    }
}

/// Relies on `async_channel::Receiver::len`: the number of values waiting in
/// the channel at the moment of the call.
#[verifier::external_body]
pub(crate) fn waiting<S>(rx: &ChannelReceiver<S>) -> (r: usize) {
    rx.len()
}

} // verus!
