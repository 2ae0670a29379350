//! The lock-free ring buffer between threads: `ArrayQueue` of crossbeam-queue, and the ports
//! through which the library uses it.
use crossbeam_queue::ArrayQueue;
use std::sync::Arc;
use vstd::prelude::*;

verus! {

/// A bounded queue that threads share. What it holds is other threads' doing as much as the
/// caller's, so nothing is said of its contents.
#[verifier::external_type_specification]
#[verifier::external_body]
#[verifier::reject_recursive_types(T)]
pub struct ExArrayQueue<T>(ArrayQueue<T>);

/// One call on a queue, and what came of it.
pub enum Call<T> {
    /// `value` was pushed, and `taken` if there was room for it.
    Push { value: T, taken: bool },
    /// A value was asked for, and `got` came out.
    Pop { got: Option<T> },
    /// The queue was asked whether it is empty.
    IsEmpty { answer: bool },
}

/// One thread's way to a shared queue. It keeps, for contracts only, a log of every call that
/// was made through it. All calls on a queue go through a port, and a port is made only from
/// the queue itself, never from another port.
#[verifier::reject_recursive_types(T)]
pub struct Port<T> {
    queue: Arc<ArrayQueue<T>>,
    log: Ghost<Seq<Call<T>>>,
}

impl<T> Port<T> {
    /// The queue that this port leads to.
    pub closed spec fn queue(self) -> ArrayQueue<T> {
        *self.queue
    }

    /// Every call that was made through this port, in order.
    pub closed spec fn calls(self) -> Seq<Call<T>> {
        self.log@
    }

    /// Whether this port has become `after` by the one call `call`.
    pub open spec fn called(self, call: Call<T>, after: Port<T>) -> bool {
        &&& after.queue() == self.queue()
        &&& after.calls() == self.calls().push(call)
    }

    /// A port to `queue`, through which no call was made yet.
    pub fn new(queue: Arc<ArrayQueue<T>>) -> (port: Self)
        ensures
            port.queue() == *queue,
            port.calls() == Seq::<Call<T>>::empty(),
    {
        Port { queue, log: Ghost(Seq::empty()) }
    }

    /// Two ports to `queue`, for two threads, through which no call was made yet.
    pub fn pair(queue: Arc<ArrayQueue<T>>) -> (ports: (Self, Self))
        ensures
            ports.0.queue() == *queue,
            ports.1.queue() == *queue,
            ports.0.calls() == Seq::<Call<T>>::empty(),
            ports.1.calls() == Seq::<Call<T>>::empty(),
    {
        let shared = Arc::clone(&queue);
        (Port::new(queue), Port::new(shared))
    }

    /// `ArrayQueue::push` of crossbeam-queue, called once: an element that found no room is
    /// handed back as it was. Whether there is room depends on the other threads. The log
    /// gains this call.
    #[verifier::external_body]
    pub(crate) fn push(&mut self, value: T) -> (r: Result<(), T>)
        ensures
            old(self).called(Call::Push { value, taken: r is Ok }, *final(self)),
            r matches Err(back) ==> back == value,
    {
        self.queue.push(value)
    }

    /// `ArrayQueue::pop` of crossbeam-queue, called once: takes the oldest element out, if
    /// there is one. Which one that is depends on the other threads, so nothing is claimed of
    /// it. The log gains this call.
    #[verifier::external_body]
    pub(crate) fn pop(&mut self) -> (r: Option<T>)
        ensures
            old(self).called(Call::Pop { got: r }, *final(self)),
    {
        self.queue.pop()
    }

    /// `ArrayQueue::is_empty` of crossbeam-queue, called once. What it answers depends on the
    /// other threads, so nothing is claimed of it. The log gains this call.
    #[verifier::external_body]
    pub(crate) fn is_empty(&mut self) -> (r: bool)
        ensures
            old(self).called(Call::IsEmpty { answer: r }, *final(self)),
    {
        self.queue.is_empty()
    }
}

} // verus!
