//! The bounded queue of preload requests.
//!
//! Whoever walks the gallery puts the indices of nearby entries in; a worker
//! takes them out, oldest first, and resolves each entry. The queue never
//! holds more than `CAPACITY` requests: a request that finds it full is
//! handed back, and its sender waits until the worker has made room.

use std::collections::VecDeque;
use vstd::prelude::*;

verus! {

/// The number of requests that may wait at one time.
pub const CAPACITY: usize = 16;

/// Requests for entries to be resolved ahead of need, in the order in which
/// they were made.
#[derive(Debug)]
pub struct PreloadQueue {
    pending: VecDeque<usize>,
}

impl View for PreloadQueue {
    type V = Seq<usize>;

    /// The waiting requests, oldest first.
    closed spec fn view(&self) -> Seq<usize> {
        self.pending@
    }
}

impl PreloadQueue {
    #[verifier::type_invariant]
    spec fn inv(self) -> bool {
        self.pending@.len() <= CAPACITY
    }

    /// An empty queue.
    pub fn new() -> (queue: PreloadQueue)
        ensures
            queue@ == Seq::<usize>::empty(),
    {
        PreloadQueue { pending: VecDeque::new() }
    }

    /// The number of waiting requests.
    pub fn len(&self) -> (len: usize)
        ensures
            len == self@.len(),
            len <= CAPACITY,
    {
        proof {
            use_type_invariant(self);
        }
        self.pending.len()
    }

    /// Whether no request waits.
    pub fn is_empty(&self) -> (empty: bool)
        ensures
            empty == (self@.len() == 0),
    {
        self.pending.len() == 0
    }

    /// Whether the queue has no room for another request.
    pub fn is_full(&self) -> (full: bool)
        ensures
            full == (self@.len() == CAPACITY),
            self@.len() <= CAPACITY,
    {
        proof {
            use_type_invariant(self);
        }
        self.pending.len() == CAPACITY
    }

    /// Puts a request at the end of the queue, if there is room. A full
    /// queue stays as it is and the request comes back to the sender.
    pub fn try_enqueue(&mut self, index: usize) -> (refused: Result<(), usize>)
        ensures
            final(self)@.len() <= CAPACITY,
            match refused {
                Ok(()) => old(self)@.len() < CAPACITY && final(self)@ == old(self)@.push(index),
                Err(back) => {
                    &&& old(self)@.len() == CAPACITY
                    &&& final(self)@ == old(self)@
                    &&& back == index
                },
            },
    {
        proof {
            use_type_invariant(&*self);
        }
        if self.pending.len() >= CAPACITY {
            Err(index)
        } else {
            let mut pending = self.take_pending();
            pending.push_back(index);
            *self = PreloadQueue { pending };
            Ok(())
        }
    }

    /// Takes the oldest request out of the queue, if there is one.
    pub fn dequeue(&mut self) -> (request: Option<usize>)
        ensures
            final(self)@.len() <= CAPACITY,
            match request {
                Some(index) => {
                    &&& old(self)@.len() > 0
                    &&& index == old(self)@[0]
                    &&& final(self)@ == old(self)@.drop_first()
                },
                None => old(self)@.len() == 0 && final(self)@ == old(self)@,
            },
    {
        proof {
            use_type_invariant(&*self);
        }
        let mut pending = self.take_pending();
        let request = pending.pop_front();
        *self = PreloadQueue { pending };
        request
    }

    /// Moves the requests out, leaving the queue empty for the moment.
    fn take_pending(&mut self) -> (pending: VecDeque<usize>)
        ensures
            pending@ == old(self)@,
            final(self)@ == Seq::<usize>::empty(),
    {
        let mut taken = PreloadQueue::new();
        core::mem::swap(self, &mut taken);
        taken.pending
    }
}

} // verus!
