//! Connections that are checked out, connections that lie idle, and the queue of the idle ones.
//!
//! The queue is `crossbeam_queue::ArrayQueue`. A connection itself never enters the library: `raw`
//! is the number by which its owner finds it again. Points in time are nanoseconds since an
//! arbitrary origin that all of them share.

use crossbeam_queue::ArrayQueue;
use vstd::prelude::*;

verus! {

/// An open connection.
#[derive(Clone, Copy, Debug, PartialEq, Eq, Structural)]
pub struct Live {
    pub raw: u64,
    pub created_at: u128,
}

/// An open connection that nobody uses.
#[derive(Clone, Copy, Debug, PartialEq, Eq, Structural)]
pub struct Idle {
    pub live: Live,
    pub idle_since: u128,
}

/// How long a connection has existed, and how long it has lain idle.
#[derive(Clone, Copy, Debug, PartialEq, Eq, Structural)]
pub struct PoolConnectionMetadata {
    pub age: u128,
    pub idle_for: u128,
}

/// The time that has passed since `then`, and nothing if `then` lies ahead.
pub open spec fn elapsed_since(then: u128, now: u128) -> u128 {
    if then <= now {
        (now - then) as u128
    } else {
        0
    }
}

/// The time that has passed since `then`, and nothing if `then` lies ahead.
pub fn elapsed(then: u128, now: u128) -> (passed: u128)
    ensures
        passed == elapsed_since(then, now),
{
    if then <= now {
        now - then
    } else {
        0
    }
}

impl Live {
    /// The connection starts to lie idle at `now`.
    pub fn into_idle(self, now: u128) -> (idle: Idle)
        ensures
            idle == (Idle { live: self, idle_since: now }),
    {
        Idle { live: self, idle_since: now }
    }
}

impl Idle {
    pub open spec fn metadata_at(self, now: u128) -> PoolConnectionMetadata {
        PoolConnectionMetadata {
            age: elapsed_since(self.live.created_at, now),
            idle_for: elapsed_since(self.idle_since, now),
        }
    }

    /// The age of the connection and the time it has lain idle, both measured at `now`.
    pub fn metadata(&self, now: u128) -> (meta: PoolConnectionMetadata)
        ensures
            meta == self.metadata_at(now),
    {
        PoolConnectionMetadata {
            age: elapsed(self.live.created_at, now),
            idle_for: elapsed(self.idle_since, now),
        }
    }
}

/// `crossbeam_queue::ArrayQueue`, a bounded queue.
#[verifier::external_type_specification]
#[verifier::external_body]
#[verifier::reject_recursive_types(T)]
pub struct ExArrayQueue<T>(ArrayQueue<T>);

/// The elements of a queue, the next one to be popped first.
pub uninterp spec fn queue_items(queue: ArrayQueue<(u64, u128, u128)>) -> Seq<(u64, u128, u128)>;

/// How many elements a queue can hold.
pub uninterp spec fn queue_capacity(queue: ArrayQueue<(u64, u128, u128)>) -> nat;

/// Calls `ArrayQueue::new`. The queue is empty and has room for `capacity` elements.
///
/// `ArrayQueue::new` panics on a capacity of zero and on a buffer that no allocation can hold; a
/// slot of this queue takes at most 64 bytes.
#[verifier::external_body]
fn new_queue(capacity: usize) -> (queue: ArrayQueue<(u64, u128, u128)>)
    requires
        0 < capacity,
        capacity * 64 <= isize::MAX,
    ensures
        queue_items(queue) == Seq::<(u64, u128, u128)>::empty(),
        queue_capacity(queue) == capacity,
{
    ArrayQueue::new(capacity)
}

/// Calls `ArrayQueue::push`. The element becomes the last one, or comes back where the queue is
/// full. The exclusive borrow keeps every other user of the queue out during the call.
#[verifier::external_body]
fn push_queue(queue: &mut ArrayQueue<(u64, u128, u128)>, item: (u64, u128, u128)) -> (pushed: Result<
    (),
    (u64, u128, u128),
>)
    ensures
        queue_capacity(*final(queue)) == queue_capacity(*old(queue)),
        pushed is Ok <==> queue_items(*old(queue)).len() < queue_capacity(*old(queue)),
        pushed is Ok ==> queue_items(*final(queue)) == queue_items(*old(queue)).push(item),
        pushed is Err ==> queue_items(*final(queue)) == queue_items(*old(queue)) && pushed->Err_0
            == item,
{
    queue.push(item)
}

/// Calls `ArrayQueue::pop`. The first element leaves the queue, if there is one. The exclusive
/// borrow keeps every other user of the queue out during the call.
#[verifier::external_body]
fn pop_queue(queue: &mut ArrayQueue<(u64, u128, u128)>) -> (popped: Option<(u64, u128, u128)>)
    ensures
        queue_capacity(*final(queue)) == queue_capacity(*old(queue)),
        popped is Some <==> queue_items(*old(queue)).len() > 0,
        popped is Some ==> popped->0 == queue_items(*old(queue))[0] && queue_items(*final(queue))
            == queue_items(*old(queue)).drop_first(),
        popped is None ==> queue_items(*final(queue)) == queue_items(*old(queue)),
{
    queue.pop()
}

/// The connection that a queue element stands for.
pub open spec fn idle_of(item: (u64, u128, u128)) -> Idle {
    Idle { live: Live { raw: item.0, created_at: item.1 }, idle_since: item.2 }
}

/// The idle connections of a pool, the one that went idle first at the front.
pub struct IdleQueue {
    queue: ArrayQueue<(u64, u128, u128)>,
}

impl View for IdleQueue {
    type V = Seq<Idle>;

    closed spec fn view(&self) -> Seq<Idle> {
        queue_items(self.queue).map_values(|item: (u64, u128, u128)| idle_of(item))
    }
}

impl IdleQueue {
    pub closed spec fn capacity(self) -> nat {
        queue_capacity(self.queue)
    }

    /// An empty queue for `capacity` connections.
    pub fn new(capacity: usize) -> (idle: IdleQueue)
        requires
            0 < capacity,
            capacity * 64 <= isize::MAX,
        ensures
            idle@ == Seq::<Idle>::empty(),
            idle.capacity() == capacity,
    {
        let idle = IdleQueue { queue: new_queue(capacity) };
        assert(idle@ =~= Seq::<Idle>::empty());
        idle
    }

    /// Appends a connection, or gives it back where the queue is full.
    pub fn push(&mut self, idle: Idle) -> (pushed: Result<(), Idle>)
        ensures
            final(self).capacity() == old(self).capacity(),
            pushed is Ok <==> old(self)@.len() < old(self).capacity(),
            pushed is Ok ==> final(self)@ == old(self)@.push(idle),
            pushed is Err ==> final(self)@ == old(self)@ && pushed->Err_0 == idle,
    {
        let item: (u64, u128, u128) = (idle.live.raw, idle.live.created_at, idle.idle_since);
        let pushed = push_queue(&mut self.queue, item);
        match pushed {
            Ok(()) => {
                assert(self@ =~= old(self)@.push(idle));
                Ok(())
            },
            Err(_) => Err(idle),
        }
    }

    /// Removes the connection at the front, if there is one.
    pub fn pop(&mut self) -> (popped: Option<Idle>)
        ensures
            final(self).capacity() == old(self).capacity(),
            popped is Some <==> old(self)@.len() > 0,
            popped is Some ==> popped->0 == old(self)@[0] && final(self)@ == old(self)@.drop_first(),
            popped is None ==> final(self)@ == old(self)@,
    {
        match pop_queue(&mut self.queue) {
            Some((raw, created_at, idle_since)) => {
                assert(self@ =~= old(self)@.drop_first());
                Some(Idle { live: Live { raw, created_at }, idle_since })
            },
            None => None,
        }
    }
}

} // verus!
