//! The bounded channels that carry tasks.

use crate::types::{Task, TaskView};
use tokio::sync::mpsc::error::TrySendError;
use tokio::sync::mpsc::{Receiver, Sender};
use vstd::prelude::*;

verus! {

/// `tokio::sync::mpsc::Sender`, carried as it is.
#[verifier::external_type_specification]
#[verifier::external_body]
#[verifier::reject_recursive_types(T)]
pub struct ExSender<T>(tokio::sync::mpsc::Sender<T>);

/// `tokio::sync::mpsc::Receiver`, carried as it is.
#[verifier::external_type_specification]
#[verifier::external_body]
#[verifier::reject_recursive_types(T)]
pub struct ExReceiver<T>(tokio::sync::mpsc::Receiver<T>);

/// How many tasks the channel behind `tx` was made to hold.
pub uninterp spec fn channel_limit(tx: Sender<Task>) -> nat;

/// `tx` and `rx` are ends of one channel: what is sent to the first comes out
/// of the second.
pub uninterp spec fn connected(tx: Sender<Task>, rx: Receiver<Task>) -> bool;

/// The channel behind `tx` has shown, when it was asked, that it takes `n` more
/// tasks. It may show another number each time.
pub uninterp spec fn room_shown(tx: Sender<Task>, n: usize) -> bool;

/// The channel behind `tx` has answered an offer of `task` with `outcome`. It
/// may answer otherwise the next time.
pub uninterp spec fn offer_met(tx: Sender<Task>, task: TaskView, outcome: Offer) -> bool;

/// What a channel made of a task that was offered to it.
#[derive(Debug, Clone, Copy, PartialEq, Eq, Structural)]
pub enum Offer {
    Sent,
    Full,
    Closed,
}

/// `tokio::sync::mpsc::channel`: a channel that holds up to `limit` tasks.
/// Trusted: the two are ends of one channel, which is made to hold that many.
/// The call panics on a limit of zero and on one above `usize::MAX / 8`.
#[verifier::external_body]
pub(crate) fn task_channel(limit: usize) -> (ends: (Sender<Task>, Receiver<Task>))
    requires
        0 < limit <= usize::MAX / 8,
    ensures
        channel_limit(ends.0) == limit,
        connected(ends.0, ends.1),
{
    tokio::sync::mpsc::channel(limit)
}

/// `Sender::capacity`: how many more tasks the channel takes at this moment.
/// Trusted: it is the channel behind `tx` that has shown the number, and the
/// number is no greater than what the channel was made to hold. Which number it
/// is rests on what the receiver has taken out so far; nothing is said of that.
#[verifier::external_body]
pub(crate) fn free_slots(tx: &Sender<Task>) -> (n: usize)
    ensures
        room_shown(*tx, n),
        n <= channel_limit(*tx),
{
    tx.capacity()
}

/// `Sender::max_capacity`: how many tasks the channel was made to hold.
/// Trusted: that number.
#[verifier::external_body]
pub(crate) fn slot_limit(tx: &Sender<Task>) -> (n: usize)
    ensures
        n == channel_limit(*tx),
{
    tx.max_capacity()
}

/// `Sender::try_send`: offers `task` to the channel without waiting. Trusted:
/// the outcome is what the channel behind `tx` answered to `task`. Which one it
/// is rests on what the receiver has taken out so far and on whether it is
/// still there; nothing is said of that.
#[verifier::external_body]
pub(crate) fn offer(tx: &Sender<Task>, task: Task) -> (outcome: Offer)
    ensures
        offer_met(*tx, task@, outcome),
{
    match tx.try_send(task) {
        Ok(()) => Offer::Sent,
        Err(TrySendError::Full(_)) => Offer::Full,
        Err(TrySendError::Closed(_)) => Offer::Closed,
    }
}

/// `Sender::clone`: another sender for the same channel. Trusted: its limit is
/// the same, and what is sent comes out at the same receiver.
#[verifier::external_body]
pub(crate) fn another_sender(tx: &Sender<Task>) -> (copy: Sender<Task>)
    ensures
        channel_limit(copy) == channel_limit(*tx),
        forall|rx: Receiver<Task>| #[trigger] connected(copy, rx) == connected(*tx, rx),
{
    tx.clone()
}

} // verus!
