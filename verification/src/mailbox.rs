//! The event mailbox: a bounded first-in-first-out queue of lifecycle
//! messages from the runner to its consumers.  A full mailbox refuses the
//! message, which is the system's only flow-control point: the pump then
//! waits, and through it the file reads and deletions pace themselves to
//! the slowest consumer.

use std::collections::VecDeque;

use vstd::prelude::*;

use crate::runner::Message;

verus! {

/// How many messages the runner's mailbox buffers.
pub const MAILBOX_CAPACITY: usize = 64;

/// A bounded queue of messages: first in, first out, never more than its
/// capacity.
#[derive(Debug)]
pub struct Mailbox {
    items: VecDeque<Message>,
    capacity: usize,
}

impl View for Mailbox {
    type V = Seq<Message>;

    closed spec fn view(&self) -> Seq<Message> {
        self.items@
    }
}

impl Mailbox {
    /// The queue's fixed bound.
    pub closed spec fn cap(&self) -> usize {
        self.capacity
    }

    /// The queue never holds more than its bound.
    pub open spec fn wf(&self) -> bool {
        self@.len() <= self.cap()
    }

    /// An empty mailbox with the given bound.
    pub fn new(capacity: usize) -> (r: Mailbox)
        ensures
            r@ == Seq::<Message>::empty(),
            r.cap() == capacity,
            r.wf(),
    {
        Mailbox { items: VecDeque::new(), capacity }
    }

    /// How many messages wait.
    pub fn len(&self) -> (r: usize)
        ensures
            r == self@.len(),
    {
        self.items.len()
    }

    /// Accepts the message at the back — unless the queue is full, in
    /// which case the message is refused and the sender must wait.
    pub fn try_send(&mut self, m: Message) -> (r: bool)
        requires
            old(self).wf(),
        ensures
            final(self).cap() == old(self).cap(),
            final(self).wf(),
            r == (old(self)@.len() < old(self).cap()),
            r ==> final(self)@ == old(self)@.push(m),
            !r ==> final(self)@ == old(self)@,
    {
        if self.items.len() < self.capacity {
            self.items.push_back(m);
            true
        } else {
            false
        }
    }

    /// Hands out the message that has waited longest, if any.
    pub fn recv(&mut self) -> (r: Option<Message>)
        ensures
            final(self).cap() == old(self).cap(),
            old(self)@.len() == 0 ==> r is None && final(self)@ == old(self)@,
            old(self)@.len() > 0 ==> r == Some(old(self)@.first()) && final(self)@ == old(
                self,
            )@.drop_first(),
    {
        let r = self.items.pop_front();
        proof {
            if old(self)@.len() > 0 {
                assert(old(self)@.subrange(1, old(self)@.len() as int) =~= old(
                    self,
                )@.drop_first());
            }
        }
        r
    }
}

} // verus!
