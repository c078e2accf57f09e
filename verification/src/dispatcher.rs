//! The change dispatcher: a single-producer single-consumer FIFO queue of
//! change events.
//!
//! The queue decouples polling cadence from reconciliation latency: a slow
//! reconciliation only queues further events, it never stalls the poller and
//! no event is dropped. Delivery order is exactly emission order.

use vstd::prelude::*;

use crate::poller::ChangeEvent;

verus! {

/// An ordered queue of change events. `send` appends, `recv` removes from
/// the front, so events come out in the order they went in.
pub struct ChangeQueue {
    events: Vec<ChangeEvent>,
}

impl ChangeQueue {
    /// The queued events, oldest first.
    pub closed spec fn view(&self) -> Seq<ChangeEvent> {
        self.events@
    }

    /// An empty queue.
    pub fn new() -> (q: ChangeQueue)
        ensures
            q@ == Seq::<ChangeEvent>::empty(),
    {
        ChangeQueue { events: Vec::new() }
    }

    /// How many events are queued.
    pub fn len(&self) -> (n: usize)
        ensures
            n == self@.len(),
    {
        self.events.len()
    }

    /// Appends one event at the back. Never drops or reorders anything.
    pub fn send(&mut self, ev: ChangeEvent)
        ensures
            final(self)@ == old(self)@.push(ev),
    {
        self.events.push(ev);
    }

    /// Removes and returns the oldest queued event; `None` on an empty
    /// queue, which it leaves unchanged.
    pub fn recv(&mut self) -> (r: Option<ChangeEvent>)
        ensures
            old(self)@.len() == 0 ==> r is None && final(self)@ == old(self)@,
            old(self)@.len() > 0 ==> r == Option::Some(old(self)@[0]) && final(self)@ == old(
                self,
            )@.drop_first(),
    {
        if self.events.len() == 0 {
            Option::None
        } else {
            let ev = self.events.remove(0);
            Option::Some(ev)
        }
    }
}

} // verus!
