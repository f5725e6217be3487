//! The queue event handlers push their deferred responses onto, drained by
//! the game loop after dispatch.

use vstd::prelude::*;

verus! {

/// Deferred responses queued during one event dispatch, oldest first.
pub struct ResponseQueue<T> {
    items: Vec<T>,
}

impl<T> ResponseQueue<T> {
    /// The responses queued so far, oldest first.
    pub closed spec fn queued(&self) -> Seq<T> {
        self.items@
    }

    /// An empty queue.
    pub fn new() -> (r: ResponseQueue<T>)
        ensures
            r.queued() == Seq::<T>::empty(),
    {
        ResponseQueue { items: Vec::new() }
    }

    /// Queues a response behind those already queued.
    pub fn push(&mut self, response: T)
        ensures
            final(self).queued() == old(self).queued().push(response),
    {
        self.items.push(response);
    }

    /// Takes every queued response, oldest first, leaving the queue empty.
    pub fn drain(&mut self) -> (r: Vec<T>)
        ensures
            r@ == old(self).queued(),
            final(self).queued() == Seq::<T>::empty(),
    {
        let mut out: Vec<T> = Vec::new();
        std::mem::swap(&mut out, &mut self.items);
        out
    }

    /// Number of queued responses.
    pub fn len(&self) -> (r: usize)
        ensures
            r == self.queued().len(),
    {
        self.items.len()
    }

    /// Whether nothing is queued.
    pub fn is_empty(&self) -> (r: bool)
        ensures
            r == (self.queued().len() == 0),
    {
        self.items.len() == 0
    }
}

impl<T> Default for ResponseQueue<T> {
    fn default() -> (r: Self)
        ensures
            r.queued() == Seq::<T>::empty(),
    {
        ResponseQueue::new()
    }
}

} // verus!
