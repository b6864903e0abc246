//! The mathematical model of a pool: what it holds, and what each operation does to it.

use crate::idle::{Idle, Live};
use crate::options::PoolOptions;
use crate::semaphore::{Acquire, SemaphoreState, Waiter};
use vstd::prelude::*;

verus! {

/// What a pool holds.
///
/// A permit of a pool is in one of three places: in the pool's semaphore, out with somebody who
/// uses a connection, or out with somebody who does not (yet) have a connection. The pool counts
/// its permits in `num_permits`, wherever they are.
#[verifier::ext_equal]
pub struct PoolState {
    pub options: PoolOptions,
    pub has_parent: bool,
    /// The idle connections, the one that went idle first at the front.
    pub idle: Seq<Idle>,
    pub semaphore: SemaphoreState,
    /// The permits that this pool owns: those that its own semaphore holds or will hold again.
    pub num_permits: nat,
    /// The connections that are open or being opened.
    pub size: nat,
    /// The connections counted as idle.
    pub num_idle: nat,
    pub closed: bool,
}

impl PoolState {
    /// The connections in use or being opened, as far as they are counted.
    pub open spec fn in_use(self) -> nat {
        if self.num_idle <= self.size {
            (self.size - self.num_idle) as nat
        } else {
            0
        }
    }

    /// Whether the pool is closed and counts no connection. Some may still be out all the same: a
    /// close that passed on the permits of a child does not wait for them. Those that come back are
    /// counted as idle.
    pub open spec fn emptied(self) -> bool {
        self.closed && self.size == 0
    }

    /// Whether a connection may be out. It has a permit, and is counted unless the pool is emptied.
    pub open spec fn has_checkout(self) -> bool {
        1 <= self.in_use() || (self.emptied() && 1 <= self.spare())
    }

    /// Whether one more connection can go idle.
    pub open spec fn has_room(self) -> bool {
        self.num_idle < self.options.max_connections
    }

    /// The permits that are out of the semaphore.
    pub open spec fn outstanding(self) -> int {
        self.num_permits - self.semaphore.total()
    }

    /// The permits that are out of the semaphore without a connection in use to show for it.
    pub open spec fn spare(self) -> int {
        self.outstanding() - self.in_use()
    }

    pub open spec fn wf(self) -> bool {
        &&& self.semaphore.wf()
        &&& self.num_permits <= u32::MAX
        &&& self.idle.len() <= self.num_idle <= self.options.max_connections
        &&& self.size <= self.options.max_connections
        &&& self.num_idle <= self.size || self.emptied()
        // Every permit in the semaphore is owned, and every connection in use has a permit.
        &&& self.spare() >= 0
    }

    /// A new pool. A child starts without permits: it has to borrow each of them.
    pub open spec fn opened(options: PoolOptions, has_parent: bool) -> PoolState {
        let permits: nat = if has_parent {
            0
        } else {
            options.max_connections as nat
        };
        PoolState {
            options,
            has_parent,
            idle: Seq::empty(),
            semaphore: SemaphoreState {
                available: permits,
                waiters: Seq::<Waiter>::empty(),
                next_ticket: 0,
            },
            num_permits: permits,
            size: 0,
            num_idle: 0,
            closed: false,
        }
    }

    pub open spec fn mark_closed(self) -> PoolState {
        PoolState { closed: true, ..self }
    }

    /// `n` available permits leave the semaphore.
    pub open spec fn take(self, n: nat) -> PoolState {
        PoolState { semaphore: self.semaphore.take(n), ..self }
    }

    /// `n` permits that were out come back to the semaphore.
    pub open spec fn give_back(self, n: nat) -> PoolState {
        PoolState { semaphore: self.semaphore.release(n), ..self }
    }

    /// A request for permits is polled.
    pub open spec fn polled(self, acquire: Acquire) -> PoolState {
        PoolState { semaphore: self.semaphore.polled(acquire), ..self }
    }

    /// A request for permits is abandoned.
    pub open spec fn cancelled(self, acquire: Acquire) -> PoolState {
        PoolState { semaphore: self.semaphore.cancelled(acquire), ..self }
    }

    /// The idle connection at the front is taken into use.
    pub open spec fn pop_idle(self) -> PoolState {
        PoolState {
            idle: self.idle.drop_first(),
            num_idle: if self.num_idle > 0 {
                (self.num_idle - 1) as nat
            } else {
                0
            },
            ..self
        }
    }

    /// Whether an idle connection can be taken into use.
    pub open spec fn can_pop_idle(self) -> bool {
        !self.closed && self.idle.len() > 0
    }

    /// A connection in use goes idle.
    pub open spec fn push_idle(self, idle: Idle) -> PoolState {
        PoolState { idle: self.idle.push(idle), num_idle: self.num_idle + 1, ..self }
    }

    /// The pool once a connection is back in it.
    pub open spec fn released(self, live: Live, now: u128) -> PoolState {
        self.push_idle(Idle { live, idle_since: now }).give_back(1)
    }

    /// Whether a new connection may be opened.
    pub open spec fn can_grow(self) -> bool {
        !self.closed && self.size < self.options.max_connections
    }

    /// A connection is about to be opened.
    pub open spec fn grow(self) -> PoolState {
        PoolState { size: self.size + 1, ..self }
    }

    /// Whether one more connection is opened on the way to `min_connections`. Nobody waits for a
    /// permit for that.
    pub open spec fn wants_connection(self) -> bool {
        &&& self.size < self.options.min_connections
        &&& self.semaphore.available >= 1
        &&& self.can_grow()
    }

    /// A connection that was in use is gone, and its permit is back. A pool that does not count the
    /// connection any more has nothing to subtract.
    pub open spec fn drop_guard(self) -> PoolState {
        PoolState {
            size: if self.size > 0 {
                (self.size - 1) as nat
            } else {
                0
            },
            ..self
        }.give_back(1)
    }

    /// A permit that is out leaves this pool for another one.
    pub open spec fn donate(self) -> PoolState {
        PoolState { num_permits: (self.num_permits - 1) as nat, ..self }
    }

    /// A permit of another pool becomes one of this pool. It is out.
    pub open spec fn adopt(self) -> PoolState {
        PoolState { num_permits: self.num_permits + 1, ..self }
    }

    /// The permits that a parent gets back when this pool disappears.
    pub open spec fn returned(self) -> nat {
        if !self.has_parent {
            0
        } else if self.semaphore.available <= u32::MAX {
            self.semaphore.available
        } else {
            u32::MAX as nat
        }
    }

    /// `n` permits of a pool that is gone become permits of this pool and enter its semaphore.
    pub open spec fn credit(self, n: nat) -> PoolState {
        PoolState {
            num_permits: if self.num_permits + n <= u32::MAX {
                self.num_permits + n
            } else {
                u32::MAX as nat
            },
            ..self
        }.give_back(n)
    }

    /// The idle connection at the front is taken out to be closed. It stays counted for now.
    pub open spec fn drain_one(self) -> PoolState {
        PoolState { idle: self.idle.drop_first(), ..self }
    }

    /// Every connection is closed.
    pub open spec fn drained(self) -> PoolState {
        PoolState { size: 0, num_idle: 0, ..self }
    }

    pub proof fn lemma_give_back(self, n: nat)
        requires
            self.wf(),
            n <= self.spare(),
        ensures
            self.give_back(n).wf(),
            self.give_back(n).outstanding() == self.outstanding() - n,
            self.give_back(n).spare() == self.spare() - n,
    {
        self.semaphore.lemma_release(n);
    }

    pub proof fn lemma_take(self, n: nat)
        requires
            self.wf(),
            n <= self.semaphore.available,
        ensures
            self.take(n).wf(),
            self.take(n).spare() == self.spare() + n,
    {
        self.semaphore.lemma_take(n);
    }

    pub proof fn lemma_polled(self, acquire: Acquire)
        requires
            self.wf(),
            self.semaphore.has_free_ticket(),
        ensures
            self.polled(acquire).wf(),
            self.semaphore.grants(acquire) ==> self.polled(acquire).spare() == self.spare()
                + acquire.needed,
            !self.semaphore.grants(acquire) ==> self.polled(acquire).spare() == self.spare(),
    {
        self.semaphore.lemma_polled(acquire);
    }

    pub proof fn lemma_cancelled(self, acquire: Acquire)
        requires
            self.wf(),
        ensures
            self.cancelled(acquire).wf(),
            self.cancelled(acquire).spare() == self.spare(),
    {
        self.semaphore.lemma_cancelled(acquire);
    }

    /// A permit that is taken and put straight back changes nothing.
    pub proof fn lemma_take_give_back(self, n: nat)
        requires
            self.wf(),
            n <= self.semaphore.available,
        ensures
            self.take(n).give_back(n) == self,
    {
        self.semaphore.lemma_take_release(n);
    }
}

} // verus!
