//! The unbounded channel of `tokio` that carries queue tasks to the queue
//! handler's processor: its declarations and the calls made on it.

use tokio::sync::mpsc::UnboundedReceiver;
use tokio::sync::mpsc::UnboundedSender;
use vstd::prelude::*;

use crate::queue_handler::QueueTask;

verus! {

/// The sending half of a `tokio` unbounded channel.
#[verifier::external_type_specification]
#[verifier::external_body]
#[verifier::reject_recursive_types(T)]
pub struct ExUnboundedSender<T>(tokio::sync::mpsc::UnboundedSender<T>);

/// The receiving half of a `tokio` unbounded channel.
#[verifier::external_type_specification]
#[verifier::external_body]
#[verifier::reject_recursive_types(T)]
pub struct ExUnboundedReceiver<T>(tokio::sync::mpsc::UnboundedReceiver<T>);

/// `Clone::clone` on an `UnboundedSender`: another sender into the same
/// channel (the source clones the handle of the shared channel). Nothing is
/// stated of the copy, as the sender is opaque here.
pub assume_specification<T>[<tokio::sync::mpsc::UnboundedSender<T> as std::clone::Clone>::clone](
    sender: &tokio::sync::mpsc::UnboundedSender<T>,
) -> tokio::sync::mpsc::UnboundedSender<T>;

/// `tokio::sync::mpsc::unbounded_channel`: a new channel's two halves.
/// Nothing is stated of them: what they carry is decided by the threads
/// that use them.
#[verifier::external_body]
pub(crate) fn new_task_channel() -> (UnboundedSender<QueueTask>, UnboundedReceiver<QueueTask>) {
    tokio::sync::mpsc::unbounded_channel()
}

/// `UnboundedSender::send`: queues `task` for the receiver. Where the
/// receiver is gone the send fails and hands `task` back unchanged (the
/// error of `send` holds the value passed to it); whether it is gone depends
/// on other threads, so success is not stated.
#[verifier::external_body]
pub(crate) fn send_task(sender: &UnboundedSender<QueueTask>, task: QueueTask) -> (r: Result<
    (),
    QueueTask,
>)
    ensures
        r matches Err(t) ==> t == task,
{
    match sender.send(task) {
        Ok(()) => Ok(()),
        Err(e) => Err(e.0),
    }
}

/// `UnboundedReceiver::try_recv`: the next task in the channel, or none
/// where the channel is empty at the moment (or closed). What comes back
/// depends on the senders, so nothing is stated of it.
#[verifier::external_body]
pub(crate) fn try_receive_task(receiver: &mut UnboundedReceiver<QueueTask>) -> Option<QueueTask> {
    match receiver.try_recv() {
        Ok(task) => Some(task),
        Err(_) => None,
    }
}

} // verus!
