//! An unbounded, order-preserving FIFO of text messages.
//!
//! Two instances exist per session: the outgoing queue (game layer
//! produces, worker consumes) and the incoming queue (worker produces, game
//! layer consumes). The view of a queue is the sequence of pending message
//! contents, oldest first; the contracts pin strict FIFO order.

use vstd::prelude::*;

verus! {

/// A single-direction channel of pending messages, oldest at the front.
pub struct MessageQueue {
    items: Vec<String>,
}

impl View for MessageQueue {
    type V = Seq<Seq<char>>;

    closed spec fn view(&self) -> Seq<Seq<char>> {
        self.items@.map_values(|m: String| m@)
    }
}

impl MessageQueue {
    /// An empty queue.
    pub fn new() -> (q: MessageQueue)
        ensures
            q@ == Seq::<Seq<char>>::empty(),
    {
        let q = MessageQueue { items: Vec::new() };
        proof {
            assert(q@ =~= Seq::<Seq<char>>::empty());
        }
        q
    }

    /// How many messages are pending.
    pub fn len(&self) -> (n: usize)
        ensures
            n == self@.len(),
    {
        self.items.len()
    }

    /// Whether no message is pending.
    pub fn is_empty(&self) -> (b: bool)
        ensures
            b == (self@.len() == 0),
    {
        self.items.len() == 0
    }

    /// Enqueues a message at the back.
    pub fn push_back(&mut self, m: String)
        ensures
            final(self)@ == old(self)@.push(m@),
    {
        let ghost prev = self@;
        self.items.push(m);
        proof {
            assert(final(self)@ =~= prev.push(final(self).items@.last()@));
        }
    }

    /// Puts a message back at the front, ahead of everything pending; used
    /// to requeue a message whose delivery failed so that order is kept.
    pub fn push_front(&mut self, m: String)
        ensures
            final(self)@ == seq![m@] + old(self)@,
    {
        let ghost prev = self@;
        self.items.insert(0, m);
        proof {
            assert(final(self)@ =~= seq![final(self).items@[0]@] + prev);
        }
    }

    /// Dequeues the oldest message, if any; never blocks.
    pub fn pop_front(&mut self) -> (r: Option<String>)
        ensures
            match r {
                Some(m) => old(self)@.len() > 0 && m@ == old(self)@[0] && final(self)@ == old(
                    self,
                )@.drop_first(),
                None => old(self)@.len() == 0 && *final(self) == *old(self),
            },
    {
        let ghost prev = self@;
        if self.items.len() == 0 {
            None
        } else {
            let m = self.items.remove(0);
            proof {
                assert(final(self)@ =~= prev.drop_first());
            }
            Some(m)
        }
    }
}

} // verus!
