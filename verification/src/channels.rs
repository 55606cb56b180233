use crate::eml_task::{EmlTaskEvent, EmlTaskResult, EventModel};
use tokio::sync::{broadcast, oneshot};
use vstd::prelude::*;

verus! {

/// Declares `tokio::sync::oneshot::Sender`, which is only carried.
#[verifier::external_type_specification]
#[verifier::external_body]
#[verifier::reject_recursive_types(T)]
pub struct ExOneshotSender<T>(oneshot::Sender<T>);

/// Declares `tokio::sync::oneshot::Receiver`, which is only carried.
#[verifier::external_type_specification]
#[verifier::external_body]
#[verifier::reject_recursive_types(T)]
pub struct ExOneshotReceiver<T>(oneshot::Receiver<T>);

/// Declares `tokio::sync::oneshot::error::RecvError`, the error in the receiver's impl
/// of `Future`.
#[verifier::external_type_specification]
#[verifier::external_body]
pub struct ExOneshotRecvError(oneshot::error::RecvError);

/// Declares `tokio::sync::broadcast::Sender`.
#[verifier::external_type_specification]
#[verifier::external_body]
#[verifier::reject_recursive_types(T)]
pub struct ExBroadcastSender<T>(broadcast::Sender<T>);

/// Declares `tokio::sync::broadcast::Receiver`, which is only carried.
#[verifier::external_type_specification]
#[verifier::external_body]
#[verifier::reject_recursive_types(T)]
pub struct ExBroadcastReceiver<T>(broadcast::Receiver<T>);

/// `sender` and `receiver` are the two ends of one channel: what is sent through
/// the one comes out of the other.
pub uninterp spec fn same_channel(
    sender: oneshot::Sender<EmlTaskResult>,
    receiver: oneshot::Receiver<EmlTaskResult>,
) -> bool;

/// `sender` and no other sends to `receiver`.
pub open spec fn is_only_sender(
    sender: oneshot::Sender<EmlTaskResult>,
    receiver: oneshot::Receiver<EmlTaskResult>,
) -> bool {
    &&& same_channel(sender, receiver)
    &&& forall|other: oneshot::Sender<EmlTaskResult>| #[trigger]
        same_channel(other, receiver) ==> other == sender
}

/// Calls `tokio::sync::oneshot::channel`. Trusted: the two ends that it returns
/// belong to one channel, which has no other sending end, since one cannot be cloned.
#[verifier::external_body]
pub(crate) fn reply_channel() -> (ends: (
    oneshot::Sender<EmlTaskResult>,
    oneshot::Receiver<EmlTaskResult>,
))
    ensures
        same_channel(ends.0, ends.1),
        is_only_sender(ends.0, ends.1),
{
    oneshot::channel()
}

/// The events handed to the channel through `sender` so far, oldest first.
pub uninterp spec fn published(sender: broadcast::Sender<EmlTaskEvent>) -> Seq<EventModel>;

/// The capacity with which the channel of `sender` was made: how many events it
/// keeps at least for a receiver that lags behind.
pub uninterp spec fn update_capacity(sender: broadcast::Sender<EmlTaskEvent>) -> nat;

/// How many events had been handed to the channel when `receiver` subscribed to
/// it. Those that come later are the ones that it is there to receive.
pub uninterp spec fn subscribed_after(receiver: broadcast::Receiver<EmlTaskEvent>) -> nat;

/// `receiver` is subscribed to the channel of `sender`.
pub uninterp spec fn feeds(
    sender: broadcast::Sender<EmlTaskEvent>,
    receiver: broadcast::Receiver<EmlTaskEvent>,
) -> bool;

/// Who is subscribed to the channel of `before` is subscribed to that of `after`.
pub open spec fn keeps_receivers(
    before: broadcast::Sender<EmlTaskEvent>,
    after: broadcast::Sender<EmlTaskEvent>,
) -> bool {
    forall|receiver: broadcast::Receiver<EmlTaskEvent>| #[trigger]
        feeds(before, receiver) ==> feeds(after, receiver)
}

/// Calls `tokio::sync::broadcast::channel` and keeps the sending end. Trusted: the
/// channel has the given capacity, and nothing has been sent through it. A capacity
/// of zero, or one above half of `usize::MAX`, makes it panic.
#[verifier::external_body]
pub(crate) fn update_channel(capacity: usize) -> (sender: broadcast::Sender<EmlTaskEvent>)
    requires
        0 < capacity <= usize::MAX / 2,
    ensures
        published(sender) == Seq::<EventModel>::empty(),
        update_capacity(sender) == capacity,
{
    broadcast::channel(capacity).0
}

/// Calls `tokio::sync::broadcast::Sender::send` and ignores whether anyone was
/// there to receive. Trusted: `event`, and nothing else, is added to what was
/// handed to the channel, whose capacity and receivers stay the same. Which receivers
/// see it is not stated: the channel drops it where nobody is subscribed, and a
/// receiver that lags behind loses the oldest.
#[verifier::external_body]
pub(crate) fn publish(sender: &mut broadcast::Sender<EmlTaskEvent>, event: EmlTaskEvent)
    ensures
        published(*final(sender)) == published(*old(sender)).push(event@),
        update_capacity(*final(sender)) == update_capacity(*old(sender)),
        keeps_receivers(*old(sender), *final(sender)),
{
    let _ = sender.send(event);
}

/// Calls `tokio::sync::broadcast::Sender::subscribe`. Trusted: the receiver is
/// subscribed to the channel of `sender`, and stands behind everything that was
/// handed to the channel before. It panics only where a quarter of `usize::MAX`
/// receivers are subscribed already.
#[verifier::external_body]
pub(crate) fn subscribe(sender: &broadcast::Sender<EmlTaskEvent>) -> (receiver:
    broadcast::Receiver<EmlTaskEvent>)
    ensures
        feeds(*sender, receiver),
        subscribed_after(receiver) == published(*sender).len(),
{
    sender.subscribe()
}

} // verus!
