//! A bounded FIFO mailbox: the cross-thread delivery model for commands
//! and translated events. A full mailbox refuses the item, which is how a
//! producer observes backpressure; the consumer drains in arrival order.

use vstd::prelude::*;

verus! {

/// Bounded FIFO queue with a fixed capacity.
#[derive(Debug, PartialEq)]
pub struct Mailbox<T> {
    pub items: Vec<T>,
    pub capacity: usize,
}

impl<T> Mailbox<T> {
    /// The items in arrival order, oldest first.
    pub open spec fn view(self) -> Seq<T> {
        self.items@
    }

    /// Never more items than the capacity.
    pub open spec fn wf(self) -> bool {
        self.items@.len() <= self.capacity
    }

    /// An empty mailbox of the given capacity.
    pub fn new(capacity: usize) -> (r: Self)
        ensures
            r.wf(),
            r@ =~= Seq::<T>::empty(),
            r.capacity == capacity,
    {
        Mailbox { items: Vec::new(), capacity }
    }

    pub fn len(&self) -> (r: usize)
        ensures
            r == self@.len(),
    {
        self.items.len()
    }

    pub fn is_empty(&self) -> (r: bool)
        ensures
            r == (self@.len() == 0),
    {
        self.items.is_empty()
    }

    /// Appends the item if the mailbox has room; a full mailbox refuses it
    /// unchanged, and the producer must wait.
    pub fn try_send(&mut self, item: T) -> (accepted: bool)
        requires
            old(self).wf(),
        ensures
            final(self).wf(),
            final(self).capacity == old(self).capacity,
            accepted == (old(self)@.len() < old(self).capacity),
            accepted ==> final(self)@ == old(self)@.push(item),
            !accepted ==> final(self)@ == old(self)@,
    {
        if self.items.len() < self.capacity {
            self.items.push(item);
            true
        } else {
            false
        }
    }

    /// Takes the oldest item, if any.
    pub fn recv(&mut self) -> (r: Option<T>)
        requires
            old(self).wf(),
        ensures
            final(self).wf(),
            final(self).capacity == old(self).capacity,
            old(self)@.len() == 0 ==> r is None && final(self)@ == old(self)@,
            old(self)@.len() > 0 ==> (r matches Some(item) && item == old(self)@[0] && final(self)@ == old(self)@.drop_first()),
    {
        if self.items.len() > 0 {
            let item = self.items.remove(0);
            proof {
                assert(final(self).items@ =~= old(self).items@.drop_first());
            }
            Some(item)
        } else {
            None
        }
    }
}

/// Sending and then draining preserves arrival order: after an accepted
/// send, the receiver sees every older item first and the new item last.
pub proof fn lemma_mailbox_fifo<T>(m0: Mailbox<T>, m1: Mailbox<T>, item: T)
    requires
        m0.wf(),
        m0@.len() < m0.capacity,
        m1@ == m0@.push(item),
    ensures
        m1@.len() == m0@.len() + 1,
        m1@.last() == item,
        forall|i: int| 0 <= i < m0@.len() ==> m1@[i] == m0@[i],
{
}

} // verus!
