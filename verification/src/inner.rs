//! A pool: its permits, its idle connections, and whether it is closed.

use crate::idle::{Idle, IdleQueue, Live};
use crate::options::PoolOptions;
use crate::semaphore::{Acquire, AsyncSemaphore, AsyncSemaphoreReleaser};
use crate::state::PoolState;
use vstd::prelude::*;

verus! {

/// A claim to one connection of a pool and to the permit that goes with it.
///
/// Whoever is done with it hands it back with [`PoolInner::drop_guard`], so that the pool does not
/// think it has more connections than it does.
#[derive(Debug)]
pub struct DecrementSizeGuard {
    cancelled: bool,
}

impl DecrementSizeGuard {
    pub closed spec fn is_cancelled(self) -> bool {
        self.cancelled
    }

    /// A guard that stands for a permit which is already out of the semaphore.
    pub fn new_permit() -> (guard: DecrementSizeGuard)
        ensures
            !guard.is_cancelled(),
    {
        DecrementSizeGuard { cancelled: false }
    }

    /// A guard that takes ownership of `permit`.
    pub fn from_permit(permit: AsyncSemaphoreReleaser) -> (guard: DecrementSizeGuard)
        ensures
            !guard.is_cancelled(),
    {
        let _ = permit.disarm();
        Self::new_permit()
    }

    /// Releases the semaphore permit without decreasing the pool size.
    ///
    /// If the permit was stolen from the pool's parent, it is returned to this pool's semaphore.
    fn release_permit(self, pool: &mut PoolInner)
        requires
            old(pool)@.semaphore.wf(),
            old(pool)@.semaphore.available < usize::MAX,
        ensures
            final(pool)@ == old(pool)@.give_back(1),
            final(pool).queue_fits() == old(pool).queue_fits(),
    {
        pool.semaphore.release(1);
        let _ = self.cancel();
    }

    /// Ends the claim without giving the connection or the permit back.
    pub fn cancel(self) -> (guard: DecrementSizeGuard)
        ensures
            guard.is_cancelled(),
    {
        DecrementSizeGuard { cancelled: true }
    }
}

/// A connection outside the pool, with its claim.
#[derive(Debug)]
pub struct Floating<C> {
    pub inner: C,
    pub guard: DecrementSizeGuard,
}

impl Floating<Idle> {
    /// Takes an idle connection into use.
    pub fn from_idle(idle: Idle, permit: AsyncSemaphoreReleaser) -> (floating: Floating<Idle>)
        ensures
            floating.inner == idle,
            !floating.guard.is_cancelled(),
    {
        Floating { inner: idle, guard: DecrementSizeGuard::from_permit(permit) }
    }

    pub fn into_live(self) -> (floating: Floating<Live>)
        ensures
            floating.inner == self.inner.live,
            floating.guard == self.guard,
    {
        Floating { inner: self.inner.live, guard: self.guard }
    }
}

impl Floating<Live> {
    /// A connection that has just been opened.
    pub fn new_live(raw: u64, now: u128, guard: DecrementSizeGuard) -> (floating: Floating<Live>)
        ensures
            floating.inner == (Live { raw, created_at: now }),
            floating.guard == guard,
    {
        Floating { inner: Live { raw, created_at: now }, guard }
    }

    pub fn into_idle(self, now: u128) -> (floating: Floating<Idle>)
        ensures
            floating.inner == (Idle { live: self.inner, idle_since: now }),
            floating.guard == self.guard,
    {
        Floating { inner: self.inner.into_idle(now), guard: self.guard }
    }
}

/// The pool. Its users share it behind a lock; every method here is one critical section.
pub struct PoolInner {
    options: PoolOptions,
    has_parent: bool,
    idle_conns: IdleQueue,
    semaphore: AsyncSemaphore,
    // The permits owned by this pool, neither its live connections nor its available permits. A
    // child keeps a borrowed permit when a connection closes. A permit that is donated to a child
    // leaves this count in the critical section in which it enters the child's. Once the pool is
    // closed the count can rise, when a child is dropped, but it can no longer fall.
    num_permits: u32,
    size: u32,
    num_idle: usize,
    is_closed: bool,
}

impl View for PoolInner {
    type V = PoolState;

    closed spec fn view(&self) -> PoolState {
        PoolState {
            options: self.options,
            has_parent: self.has_parent,
            idle: self.idle_conns@,
            semaphore: self.semaphore@,
            num_permits: self.num_permits as nat,
            size: self.size as nat,
            num_idle: self.num_idle as nat,
            closed: self.is_closed,
        }
    }
}

impl PoolState {
    /// The pool once a claim to one of its connections has been dropped.
    pub open spec fn dropped(self, guard: DecrementSizeGuard) -> PoolState {
        if guard.is_cancelled() {
            self
        } else {
            self.drop_guard()
        }
    }
}

/// Whether a pool with these options may have a parent with those.
pub open spec fn fits_parent(options: PoolOptions, parent: PoolOptions) -> bool {
    &&& options.max_connections <= parent.max_connections
    &&& options.fair == parent.fair
}

impl PoolInner {
    /// Whether the idle queue has room for every connection the pool may open.
    pub closed spec fn queue_fits(&self) -> bool {
        self.idle_conns.capacity() == self.options.max_connections
    }

    pub open spec fn wf(&self) -> bool {
        self@.wf() && self.queue_fits()
    }

    /// An open pool without connections. It borrows from `parent` if there is one, and owns a
    /// permit for each of its connections otherwise.
    pub fn new(options: PoolOptions, parent: Option<&PoolInner>) -> (pool: PoolInner)
        requires
            0 < options.max_connections,
            options.max_connections * 64 <= isize::MAX,
            parent matches Some(p) ==> fits_parent(options, p@.options),
        ensures
            pool.wf(),
            pool@ == PoolState::opened(options, parent is Some),
    {
        let capacity: usize = options.max_connections as usize;
        let has_parent: bool = parent.is_some();
        let semaphore_capacity: usize = if has_parent {
            // The child pool must steal permits from the parent.
            0
        } else {
            capacity
        };
        let pool = PoolInner {
            options,
            has_parent,
            idle_conns: IdleQueue::new(capacity),
            semaphore: AsyncSemaphore::new(semaphore_capacity),
            num_permits: semaphore_capacity as u32,
            size: 0,
            num_idle: 0,
            is_closed: false,
        };
        pool
    }

    pub fn options(&self) -> (options: PoolOptions)
        ensures
            options == self@.options,
    {
        self.options
    }

    /// Whether the pool borrows its permits from another one.
    pub fn has_parent(&self) -> (has_parent: bool)
        ensures
            has_parent == self@.has_parent,
    {
        self.has_parent
    }

    /// The connections that are open or being opened.
    pub fn size(&self) -> (size: u32)
        ensures
            size == self@.size,
    {
        self.size
    }

    /// The connections that lie idle.
    pub fn num_idle(&self) -> (num_idle: usize)
        ensures
            num_idle == self@.num_idle,
    {
        self.num_idle
    }

    pub fn is_closed(&self) -> (is_closed: bool)
        ensures
            is_closed == self@.closed,
    {
        self.is_closed
    }

    /// The permits that the pool owns, in its semaphore or out of it.
    pub fn num_permits(&self) -> (num_permits: u32)
        ensures
            num_permits == self@.num_permits,
    {
        self.num_permits
    }

    /// The permits that are in the semaphore and that nobody has asked for.
    pub fn available_permits(&self) -> (available: usize)
        ensures
            available == self@.semaphore.available,
    {
        self.semaphore.permits()
    }

    /// Whether there is a ticket for one more request for permits.
    pub fn has_free_ticket(&self) -> (free: bool)
        ensures
            free == self@.semaphore.has_free_ticket(),
    {
        self.semaphore.has_free_ticket()
    }

    /// Closes the pool for good. Whoever waits for the close has to be woken afterwards, outside
    /// the critical section.
    pub fn mark_closed(&mut self)
        ensures
            final(self)@ == old(self)@.mark_closed(),
            old(self).wf() ==> final(self).wf(),
    {
        self.is_closed = true;
    }

    /// Puts permits back that were taken out and never used.
    pub fn release_permit(&mut self, permit: AsyncSemaphoreReleaser)
        requires
            old(self).wf(),
            permit.count() <= old(self)@.spare(),
        ensures
            final(self)@ == old(self)@.give_back(permit.count()),
            final(self).wf(),
    {
        proof {
            self@.lemma_give_back(permit.count());
        }
        let n: u32 = permit.disarm();
        self.semaphore.release(n as usize);
    }

    /// Takes a permit if that needs no waiting.
    pub fn try_acquire_permit(&mut self) -> (permit: Option<AsyncSemaphoreReleaser>)
        requires
            old(self).wf(),
        ensures
            final(self).wf(),
            permit is Some <==> old(self)@.semaphore.available >= 1,
            permit matches Some(p) ==> {
                &&& p.count() == 1
                &&& final(self)@ == old(self)@.take(1)
                &&& final(self)@.spare() == old(self)@.spare() + 1
            },
            permit is None ==> final(self)@ == old(self)@,
    {
        proof {
            if self@.semaphore.available >= 1 {
                self@.lemma_take(1);
            }
        }
        self.semaphore.try_acquire(1)
    }

    /// Polls a request for permits of this pool.
    pub fn poll_permit(&mut self, acquire: &mut Acquire) -> (permit: Option<AsyncSemaphoreReleaser>)
        requires
            old(self).wf(),
            old(self)@.semaphore.has_free_ticket(),
        ensures
            final(self)@ == old(self)@.polled(*old(acquire)),
            final(self).wf(),
            *final(acquire) == old(self)@.semaphore.polled_acquire(*old(acquire)),
            permit is Some <==> old(self)@.semaphore.grants(*old(acquire)),
            permit matches Some(p) ==> p.count() == old(acquire).needed && final(self)@.spare()
                == old(self)@.spare() + p.count(),
    {
        proof {
            self@.lemma_polled(*acquire);
        }
        self.semaphore.poll_acquire(acquire)
    }

    /// Whether a queued request has all the permits it asked for.
    pub fn is_ready(&self, ticket: u64) -> (ready: bool)
        requires
            self.wf(),
        ensures
            ready == (self@.semaphore.has_ticket(ticket) && {
                let w = self@.semaphore.waiters[self@.semaphore.place(ticket)];
                w.assigned == w.needed
            }),
    {
        self.semaphore.is_ready(ticket)
    }

    /// Abandons a request for permits of this pool.
    pub fn cancel_permit(&mut self, acquire: &mut Acquire)
        requires
            old(self).wf(),
        ensures
            final(self)@ == old(self)@.cancelled(*old(acquire)),
            final(self).wf(),
            *final(acquire) == (Acquire {
                stage: crate::semaphore::AcquireStage::Terminated,
                ..*old(acquire)
            }),
    {
        proof {
            self@.lemma_cancelled(*acquire);
        }
        self.semaphore.cancel_acquire(acquire)
    }

    /// Takes an idle connection out of the queue to close it. The counters keep counting it until
    /// [`PoolInner::drained`].
    pub(crate) fn drain_one(&mut self) -> (drained: Option<Idle>)
        ensures
            final(self).queue_fits() == old(self).queue_fits(),
            drained is Some <==> old(self)@.idle.len() > 0,
            drained is Some ==> final(self)@ == old(self)@.drain_one() && drained->0 == old(
                self,
            )@.idle[0],
            drained is None ==> final(self)@ == old(self)@,
    {
        self.idle_conns.pop()
    }

    /// Every connection of the pool has been closed.
    pub(crate) fn drained(&mut self)
        ensures
            final(self)@ == old(self)@.drained(),
            final(self).queue_fits() == old(self).queue_fits(),
    {
        self.num_idle = 0;
        self.size = 0;
    }

    /// Takes an idle connection into use, unless there is none or the pool is closed.
    pub fn pop_idle(&mut self, permit: AsyncSemaphoreReleaser) -> (popped: Result<
        Floating<Idle>,
        AsyncSemaphoreReleaser,
    >)
        requires
            old(self).wf(),
            permit.count() == 1,
            1 <= old(self)@.spare(),
        ensures
            final(self).wf(),
            popped is Ok <==> old(self)@.can_pop_idle(),
            popped matches Ok(floating) ==> {
                &&& final(self)@ == old(self)@.pop_idle()
                &&& floating.inner == old(self)@.idle[0]
                &&& !floating.guard.is_cancelled()
            },
            popped matches Err(returned) ==> {
                &&& final(self)@ == old(self)@
                &&& returned == permit
            },
    {
        if self.is_closed {
            return Err(permit);
        }
        match self.idle_conns.pop() {
            Some(idle) => {
                // Saturating: the counter never wraps, whatever it held.
                self.num_idle = self.num_idle.saturating_sub(1);
                Ok(Floating::from_idle(idle, permit))
            },
            None => Err(permit),
        }
    }

    /// Hands out an idle connection if that needs no waiting.
    pub fn try_acquire(&mut self) -> (acquired: Option<Floating<Idle>>)
        requires
            old(self).wf(),
        ensures
            final(self).wf(),
            acquired is Some <==> old(self)@.can_pop_idle() && old(self)@.semaphore.available >= 1,
            acquired matches Some(floating) ==> {
                &&& final(self)@ == old(self)@.take(1).pop_idle()
                &&& floating.inner == old(self)@.idle[0]
                &&& !floating.guard.is_cancelled()
            },
            acquired is None ==> final(self)@ == old(self)@,
    {
        if self.is_closed {
            return None;
        }
        match self.try_acquire_permit() {
            None => None,
            Some(permit) => match self.pop_idle(permit) {
                Ok(floating) => Some(floating),
                Err(permit) => {
                    proof {
                        old(self)@.lemma_take_give_back(1);
                    }
                    self.release_permit(permit);
                    None
                },
            },
        }
    }

    /// Puts a connection into the idle queue and its permit back into the semaphore. The pool keeps
    /// its size.
    pub fn release(&mut self, floating: Floating<Live>, now: u128)
        requires
            old(self).queue_fits(),
            old(self)@.idle.len() < old(self)@.options.max_connections,
            old(self)@.num_idle < usize::MAX,
            old(self)@.semaphore.wf(),
            old(self)@.semaphore.available < usize::MAX,
        ensures
            final(self).queue_fits(),
            final(self)@ == old(self)@.released(floating.inner, now),
            old(self).wf() && old(self)@.has_checkout() && old(self)@.has_room()
                ==> final(self).wf(),
    {
        let Floating { inner: idle, guard } = floating.into_idle(now);
        // The counter goes up before the connection can be acquired, so that nobody pops a
        // connection that has not been counted.
        self.num_idle = self.num_idle + 1;
        let pushed = self.idle_conns.push(idle);
        assert(pushed is Ok);
        // The permit comes back after the connection is in the queue.
        proof {
            self@.semaphore.lemma_release(1);
        }
        guard.release_permit(self);
    }

    /// Counts one more connection, which the caller is about to open.
    ///
    /// Returns `Err` if the pool is at max capacity already or is closed.
    pub fn try_increment_size(&mut self, permit: AsyncSemaphoreReleaser) -> (grown: Result<
        DecrementSizeGuard,
        AsyncSemaphoreReleaser,
    >)
        requires
            old(self).wf(),
            permit.count() == 1,
            1 <= old(self)@.spare(),
        ensures
            final(self).wf(),
            grown is Ok <==> old(self)@.can_grow(),
            grown matches Ok(guard) ==> final(self)@ == old(self)@.grow() && !guard.is_cancelled(),
            grown matches Err(returned) ==> final(self)@ == old(self)@ && returned == permit,
    {
        if self.is_closed {
            return Err(permit);
        }
        match self.size.checked_add(1) {
            Some(size) => {
                if size <= self.options.max_connections {
                    self.size = size;
                    Ok(DecrementSizeGuard::from_permit(permit))
                } else {
                    Err(permit)
                }
            },
            None => Err(permit),
        }
    }

    /// The pool is about to disappear. Returns the permits that its parent gets back: those that
    /// are in the semaphore, not those that were once donated, which may be more.
    pub fn drop_pool(&mut self) -> (returned: u32)
        ensures
            final(self)@ == old(self)@.mark_closed(),
            old(self).wf() ==> final(self).wf(),
            returned == old(self)@.returned(),
    {
        self.mark_closed();
        if self.has_parent {
            let available: usize = self.semaphore.permits();
            if available <= u32::MAX as usize {
                available as u32
            } else {
                u32::MAX
            }
        } else {
            0
        }
    }

    /// Takes back the permits of a child that is gone. As many enter the semaphore as are counted,
    /// unless the count is at its limit.
    pub fn credit(&mut self, returned: u32)
        requires
            old(self)@.semaphore.wf(),
            old(self)@.semaphore.available + returned <= usize::MAX,
        ensures
            final(self)@ == old(self)@.credit(returned as nat),
            old(self).wf() && old(self)@.num_permits + returned <= u32::MAX ==> final(self).wf(),
    {
        proof {
            self@.semaphore.lemma_release(returned as nat);
        }
        self.num_permits = self.num_permits.saturating_add(returned);
        self.semaphore.release(returned as usize);
    }

    /// Gives up a permit that is out, for a child to adopt.
    pub(crate) fn donate(&mut self, permit: AsyncSemaphoreReleaser)
        requires
            old(self).wf(),
            permit.count() == 1,
            1 <= old(self)@.spare(),
        ensures
            final(self).wf(),
            final(self)@ == old(self)@.donate(),
    {
        self.num_permits = self.num_permits - 1;
        let _ = permit.disarm();
    }

    /// Takes over a permit that the parent gave up. It is out.
    pub(crate) fn adopt(&mut self) -> (permit: AsyncSemaphoreReleaser)
        requires
            old(self).wf(),
            old(self)@.num_permits < u32::MAX,
        ensures
            final(self).wf(),
            final(self)@ == old(self)@.adopt(),
            permit.count() == 1,
    {
        self.num_permits = self.num_permits + 1;
        AsyncSemaphoreReleaser::new(1)
    }

    /// Ends a claim to a connection that is gone. Nothing happens if the claim was cancelled.
    pub fn drop_guard(&mut self, guard: DecrementSizeGuard)
        requires
            old(self)@.semaphore.wf(),
            old(self)@.semaphore.available < usize::MAX,
        ensures
            final(self)@ == old(self)@.dropped(guard),
            old(self).wf() && (!guard.is_cancelled() ==> old(self)@.has_checkout())
                ==> final(self).wf(),
    {
        if !guard.cancelled {
            // Saturating: a pool that was closed and emptied meanwhile counts no connections.
            self.size = self.size.saturating_sub(1);
            proof {
                self@.semaphore.lemma_release(1);
            }
            self.semaphore.release(1);
        }
    }
}

} // verus!
