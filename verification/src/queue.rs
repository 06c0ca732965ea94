//! Bounded FIFO queue of control messages, backed by embassy-sync's channel.
//!
//! The queue is the only state shared between the control side and the audio
//! side. Sends and receives are non-blocking: a send onto a full queue drops
//! the new message (audio never stalls on control input), a receive from an
//! empty queue reports emptiness.

use vstd::prelude::*;

use crate::config::MESSAGE_QUEUE_SIZE;
use crate::message::Message;
use embassy_sync::blocking_mutex::raw::NoopRawMutex;
use embassy_sync::channel::Channel;

verus! {

/// A bounded multi-producer FIFO of control messages with capacity
/// MESSAGE_QUEUE_SIZE.
#[verifier::external_body]
pub struct MessageQueue {
    channel: Channel<NoopRawMutex, Message, MESSAGE_QUEUE_SIZE>,
}

/// The messages currently queued, oldest first.
pub uninterp spec fn queue_messages(q: MessageQueue) -> Seq<Message>;

impl MessageQueue {
    /// Relies on embassy_sync::channel::Channel::new: a fresh channel holds
    /// no messages.
    #[verifier::external_body]
    pub(crate) fn new() -> (q: MessageQueue)
        ensures
            queue_messages(q) == Seq::<Message>::empty(),
    {
        MessageQueue { channel: Channel::new() }
    }

    /// Relies on embassy_sync::channel::Channel::try_send: appends the
    /// message at the back of the FIFO when fewer than MESSAGE_QUEUE_SIZE
    /// messages are queued, and otherwise fails without changing the queue.
    #[verifier::external_body]
    pub(crate) fn try_send(&mut self, message: Message) -> (accepted: bool)
        ensures
            queue_messages(*old(self)).len() < MESSAGE_QUEUE_SIZE ==> accepted
                && queue_messages(*final(self)) == queue_messages(*old(self)).push(message),
            queue_messages(*old(self)).len() >= MESSAGE_QUEUE_SIZE ==> !accepted
                && queue_messages(*final(self)) == queue_messages(*old(self)),
    {
        self.channel.try_send(message).is_ok()
    }

    /// Relies on embassy_sync::channel::Channel::try_receive: removes and
    /// returns the oldest queued message, or returns nothing when the queue
    /// is empty.
    #[verifier::external_body]
    pub(crate) fn try_receive(&mut self) -> (received: Option<Message>)
        ensures
            queue_messages(*old(self)).len() == 0 ==> received == Option::<Message>::None
                && queue_messages(*final(self)) == queue_messages(*old(self)),
            queue_messages(*old(self)).len() > 0 ==> received == Some(
                queue_messages(*old(self))[0],
            ) && queue_messages(*final(self)) == queue_messages(*old(self)).drop_first(),
    {
        match self.channel.try_receive() {
            Ok(m) => Some(m),
            Err(_) => None,
        }
    }

    /// Relies on embassy_sync::channel::Channel::len: the number of queued
    /// messages.
    #[verifier::external_body]
    pub(crate) fn len(&self) -> (n: usize)
        ensures
            n == queue_messages(*self).len(),
    {
        self.channel.len()
    }
}

} // verus!
