use vstd::prelude::*;
use crossbeam::queue::ArrayQueue;
use std::sync::Arc;

verus! {

/// crossbeam's bounded multi-producer multi-consumer queue, carried opaquely.
#[verifier::external_type_specification]
#[verifier::external_body]
#[verifier::reject_recursive_types(T)]
pub struct ExArrayQueue<T>(ArrayQueue<T>);

/// The capacity a message queue was created with (what
/// `ArrayQueue::capacity` reports; it never changes).
pub uninterp spec fn queue_capacity(q: ArrayQueue<Vec<u8>>) -> nat;

/// Calls `ArrayQueue::new`, which asserts a non-zero capacity and panics when
/// the capacity plus one has no power of two in its index type (`u64` where
/// the target has 64-bit atomics, else `usize`); the bound below keeps clear
/// of both.  The queue reports the capacity it was given.
#[verifier::external_body]
fn new_array_queue(cap: usize) -> (q: ArrayQueue<Vec<u8>>)
    requires
        0 < cap,
        cap < 0x8000_0000 || (usize::BITS == 64 && cap < 0x8000_0000_0000_0000),
    ensures
        queue_capacity(q) == cap,
{
    ArrayQueue::new(cap)
}

/// Calls `ArrayQueue::push`: when the queue is full the message comes back
/// unchanged as the error.  Whether it is full depends on the other threads
/// that share the queue, so nothing more is stated.
#[verifier::external_body]
fn array_queue_push(q: &ArrayQueue<Vec<u8>>, data: Vec<u8>) -> (r: Result<(), Vec<u8>>)
    ensures
        r matches Err(v) ==> v == data,
{
    q.push(data)
}

/// Calls `ArrayQueue::pop`.  What comes out depends on the other threads that
/// share the queue: nothing is stated.
#[verifier::external_body]
fn array_queue_pop(q: &ArrayQueue<Vec<u8>>) -> Option<Vec<u8>> {
    q.pop()
}

/// Calls `ArrayQueue::is_empty`, a snapshot of a queue shared between
/// threads: nothing is stated.
#[verifier::external_body]
fn array_queue_is_empty(q: &ArrayQueue<Vec<u8>>) -> bool {
    q.is_empty()
}

/// Lock-free ring buffer of messages shared between plugins; clones share
/// the same queue.
#[derive(Clone)]
pub struct LockFreeBuffer {
    pub queue: Arc<ArrayQueue<Vec<u8>>>,
}

impl LockFreeBuffer {
    /// A buffer holding up to `capacity` messages.
    pub fn new(capacity: usize) -> (b: Self)
        requires
            0 < capacity,
            capacity < 0x8000_0000 || (usize::BITS == 64 && capacity < 0x8000_0000_0000_0000),
        ensures
            queue_capacity(*b.queue) == capacity,
    {
        LockFreeBuffer { queue: Arc::new(new_array_queue(capacity)) }
    }

    /// Offers a message; a full buffer hands it back unchanged.
    pub fn push(&self, data: Vec<u8>) -> (r: Result<(), Vec<u8>>)
        ensures
            r matches Err(v) ==> v == data,
    {
        array_queue_push(&self.queue, data)
    }

    /// Takes the oldest message, if there is one.
    pub fn pop(&self) -> Option<Vec<u8>> {
        array_queue_pop(&self.queue)
    }

    /// Whether the buffer held no message when looked at.
    pub fn is_empty(&self) -> bool {
        array_queue_is_empty(&self.queue)
    }
}

} // verus!
