//! The `crossbeam` bounded channel behind the ingestion queue. Its contents
//! are shared by every handle and change under other threads, so nothing is
//! named of them: the wrappers state only what holds of every outcome.
use crossbeam_channel::{bounded, Receiver, Sender, TryRecvError, TrySendError};
use vstd::prelude::*;

verus! {

/// The sending handle of a `crossbeam` channel.
#[verifier::external_type_specification]
#[verifier::external_body]
#[verifier::reject_recursive_types(T)]
pub struct ExSender<T>(Sender<T>);

/// The receiving handle of a `crossbeam` channel.
#[verifier::external_type_specification]
#[verifier::external_body]
#[verifier::reject_recursive_types(T)]
pub struct ExReceiver<T>(Receiver<T>);

/// Why an item was not enqueued; the item is handed back unchanged.
#[derive(Debug, Clone, Copy, PartialEq, Eq)]
pub enum SendRefusal<T> {
    /// The queue holds as many items as its capacity.
    Full(T),
    /// Every receiving handle is gone.
    Disconnected(T),
}

/// Why no item was dequeued.
#[derive(Debug, Clone, Copy, PartialEq, Eq, Structural)]
pub enum ReceiveRefusal {
    /// The queue holds no item.
    Empty,
    /// The queue holds no item and every sending handle is gone.
    Disconnected,
}

/// `crossbeam_channel::bounded`: a channel holding at most `capacity`
/// items. Capacities from a quarter of the `usize` range up are left out:
/// the channel's index arithmetic panics on them.
#[verifier::external_body]
pub(crate) fn channel_bounded<T>(capacity: usize) -> (channel: (Sender<T>, Receiver<T>))
    requires
        capacity < usize::MAX / 4,
{
    bounded(capacity)
}

/// `Sender::try_send`: enqueues without blocking, or hands the item back
/// with the reason it was refused. Whether it is refused depends on the
/// other handles, so that is left open.
#[verifier::external_body]
pub(crate) fn channel_try_send<T>(sender: &Sender<T>, item: T) -> (result: Result<(), SendRefusal<T>>)
    ensures
        result matches Err(SendRefusal::Full(back)) ==> back == item,
        result matches Err(SendRefusal::Disconnected(back)) ==> back == item,
{
    match sender.try_send(item) {
        Ok(()) => Ok(()),
        Err(TrySendError::Full(back)) => Err(SendRefusal::Full(back)),
        Err(TrySendError::Disconnected(back)) => Err(SendRefusal::Disconnected(back)),
    }
}

/// `Receiver::try_recv`: dequeues the oldest item without blocking, or
/// reports why none was available. Which it does depends on the other
/// handles, so nothing is stated of the outcome.
#[verifier::external_body]
pub(crate) fn channel_try_recv<T>(receiver: &Receiver<T>) -> (result: Result<T, ReceiveRefusal>) {
    match receiver.try_recv() {
        Ok(item) => Ok(item),
        Err(TryRecvError::Empty) => Err(ReceiveRefusal::Empty),
        Err(TryRecvError::Disconnected) => Err(ReceiveRefusal::Disconnected),
    }
}

/// `Receiver::len`: the number of queued items at the moment of the call;
/// other handles change it, so nothing is stated of it.
#[verifier::external_body]
pub(crate) fn channel_len<T>(receiver: &Receiver<T>) -> (len: usize) {
    receiver.len()
}

/// `Receiver::is_empty`: whether no item was queued at the moment of the
/// call; other handles change it, so nothing is stated of it.
#[verifier::external_body]
pub(crate) fn channel_is_empty<T>(receiver: &Receiver<T>) -> (empty: bool) {
    receiver.is_empty()
}

} // verus!
