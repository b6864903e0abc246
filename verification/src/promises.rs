//! What the operations do, told by what goes in and what comes out.
//!
//! Each law here speaks of a call: whatever a function of the library returns, and however it leaves
//! what it was given, the law holds of it. The laws use plain facts only: counters, queues, flags and
//! points in time.

use crate::acquire::{AcquireAction, AcquireEvent, Error, IdleCheck, IdleEvent};
use crate::close::{Close, CloseEvent, ClosePoll, CloseStage, OnClosed};
use crate::connect::{Connect, ConnectAction, ConnectError, ConnectEvent, ConnectStep};
use crate::donation_barrier::DonationBarrierSlot;
use crate::idle::{Idle, IdleQueue, Live, PoolConnectionMetadata};
use crate::inner::{DecrementSizeGuard, Floating, PoolInner};
use crate::maintenance::{
    MaintenanceLog, MaintenancePlan, MaintenanceStep, MinConnectionsEvent, MinConnectionsStep,
    Sweep, SweepStep,
};
use crate::migration::{Migration, MigrationType};
use crate::options::{AcquireLog, PoolOptions};
use crate::permit::{AcquirePermit, PermitPoll, Transfer, TransferOutcome};
use crate::semaphore::{
    Acquire, AcquireStage, AsyncSemaphore, AsyncSemaphoreReleaser, SemaphoreState, Waiter,
};
use crate::state::PoolState;
use std::borrow::Cow;
use std::cmp::Ordering;
use std::sync::Arc;
use vstd::prelude::*;

verus! {

// The semaphore.

/// The permits set aside for requests add up: none for an empty queue, and one more request adds what
/// was set aside for it.
pub proof fn law_assigned_permits_add_up(waiters: Seq<Waiter>, waiter: Waiter)
    ensures
        crate::semaphore::assigned_sum(Seq::<Waiter>::empty()) == 0,
        crate::semaphore::assigned_sum(waiters.push(waiter)) == crate::semaphore::assigned_sum(
            waiters,
        ) + waiter.assigned,
    decreases waiters.len(),
{
    if waiters.len() == 0 {
        assert(waiters.push(waiter).drop_first() =~= waiters);
    } else {
        law_assigned_permits_add_up(waiters.drop_first(), waiter);
        assert(waiters.push(waiter).drop_first() =~= waiters.drop_first().push(waiter));
    }
}

/// Whether `after` is `before` with `n` permits more: they have gone to the oldest requests that were
/// short, and only what none of them lacked is available.
pub open spec fn gained(before: SemaphoreState, after: SemaphoreState, n: nat) -> bool {
    &&& after.next_ticket == before.next_ticket
    &&& after.waiters.len() == before.waiters.len()
    &&& forall|i: int|
        0 <= i < before.waiters.len() ==> {
            &&& (#[trigger] after.waiters[i]).ticket == before.waiters[i].ticket
            &&& after.waiters[i].needed == before.waiters[i].needed
            &&& before.waiters[i].assigned <= after.waiters[i].assigned <= before.waiters[i].needed
        }
    // Nobody gets a permit behind a request that is still short.
    &&& forall|i: int, j: int|
        0 <= i < j < before.waiters.len() && (#[trigger] after.waiters[i]).assigned
            < after.waiters[i].needed ==> (#[trigger] after.waiters[j]).assigned
            == before.waiters[j].assigned
    &&& forall|i: int|
        0 <= i < before.waiters.len() && (#[trigger] after.waiters[i]).assigned
            < after.waiters[i].needed ==> after.available == before.available
    &&& before.available <= after.available
    &&& after.available + crate::semaphore::assigned_sum(after.waiters) == before.available
        + crate::semaphore::assigned_sum(before.waiters) + n
}

proof fn lemma_gained(semaphore: SemaphoreState, n: nat)
    requires
        semaphore.wf(),
    ensures
        gained(semaphore, semaphore.release(n), n),
{
    semaphore.lemma_release(n);
    let after = semaphore.release(n);
    assert forall|i: int| 0 <= i < semaphore.waiters.len() implies {
        &&& (#[trigger] after.waiters[i]).assigned <= after.waiters[i].needed
        &&& after.waiters[i].assigned < after.waiters[i].needed ==> after.available
            == semaphore.available
    } by {
        assert(semaphore.waiters[i].assigned <= semaphore.waiters[i].needed);
    }
    assert forall|i: int, j: int|
        0 <= i < j < semaphore.waiters.len() && (#[trigger] after.waiters[i]).assigned
            < after.waiters[i].needed implies (#[trigger] after.waiters[j]).assigned
        == semaphore.waiters[j].assigned by {
        assert(semaphore.waiters[i].assigned < semaphore.waiters[i].needed);
        assert(semaphore.waiters[j].assigned == 0);
    }
}

/// Whether a request that stood as `request` stands as `later` after it was polled, with the semaphore
/// going from `before` to `after`, and whether it was `granted`.
///
/// A new request is granted if enough permits are available, and otherwise queued behind all others
/// with what is available. A queued one is granted once it has all it asked for, and leaves the queue.
pub open spec fn asked(
    before: SemaphoreState,
    request: Acquire,
    after: SemaphoreState,
    later: Acquire,
    granted: bool,
) -> bool {
    &&& later.needed == request.needed
    &&& match request.stage {
        AcquireStage::Unpolled => {
            &&& granted <==> request.needed <= before.available
            &&& granted ==> {
                &&& after.available + request.needed == before.available
                &&& after.waiters == before.waiters
                &&& after.next_ticket == before.next_ticket
                &&& later.stage == AcquireStage::Terminated
            }
            &&& !granted ==> {
                &&& after.available == 0
                &&& after.waiters.len() == before.waiters.len() + 1
                &&& after.waiters.drop_last() == before.waiters
                &&& after.waiters.last().needed == request.needed
                &&& after.waiters.last().assigned == before.available
                &&& after.waiters.last().ticket == before.next_ticket
                &&& after.next_ticket == before.next_ticket + 1
                &&& later.stage == AcquireStage::Queued(after.waiters.last().ticket)
            }
        },
        AcquireStage::Queued(ticket) => {
            &&& after.available == before.available
            &&& after.next_ticket == before.next_ticket
            &&& granted <==> exists|i: int|
                0 <= i < before.waiters.len() && (#[trigger] before.waiters[i]).ticket == ticket
                    && before.waiters[i].assigned == before.waiters[i].needed
                    && before.waiters[i].needed == request.needed
            &&& granted ==> later.stage == AcquireStage::Terminated && forall|i: int|
                0 <= i < before.waiters.len() && (#[trigger] before.waiters[i]).ticket == ticket
                    ==> after.waiters == before.waiters.remove(i)
            &&& !granted ==> after.waiters == before.waiters && later == request
        },
        AcquireStage::Terminated => !granted && after == before && later == request,
    }
}

proof fn lemma_asked(semaphore: SemaphoreState, request: Acquire)
    requires
        semaphore.wf(),
        semaphore.has_free_ticket(),
        semaphore.available <= u32::MAX || request.needed <= semaphore.available,
    ensures
        asked(
            semaphore,
            request,
            semaphore.polled(request),
            semaphore.polled_acquire(request),
            semaphore.grants(request),
        ),
{
    match request.stage {
        AcquireStage::Unpolled => {
            if request.needed > semaphore.available {
                assert(semaphore.polled(request).waiters.drop_last() =~= semaphore.waiters);
            }
        },
        AcquireStage::Queued(ticket) => {
            assert forall|i: int|
                0 <= i < semaphore.waiters.len() && (#[trigger] semaphore.waiters[i]).ticket
                    == ticket implies semaphore.place(ticket) == i && semaphore.has_ticket(
                ticket,
            ) by {
                semaphore.lemma_place(i);
            }
            if semaphore.has_ticket(ticket) {
                assert(semaphore.waiters[semaphore.place(ticket)].ticket == ticket);
            }
        },
        AcquireStage::Terminated => {},
    }
}

/// Whether a request was withdrawn: where it stood in the queue it is gone, and what had been set
/// aside for it has gone to the others.
pub open spec fn withdrawn(
    before: SemaphoreState,
    request: Acquire,
    after: SemaphoreState,
) -> bool {
    match request.stage {
        AcquireStage::Queued(ticket) => {
            &&& forall|i: int|
                0 <= i < before.waiters.len() && (#[trigger] before.waiters[i]).ticket == ticket
                    ==> gained(
                    SemaphoreState { waiters: before.waiters.remove(i), ..before },
                    after,
                    before.waiters[i].assigned as nat,
                )
            &&& (forall|i: int|
                0 <= i < before.waiters.len() ==> (#[trigger] before.waiters[i]).ticket != ticket)
                ==> after == before
        },
        _ => after == before,
    }
}

proof fn lemma_withdrawn(semaphore: SemaphoreState, request: Acquire)
    requires
        semaphore.wf(),
    ensures
        withdrawn(semaphore, request, semaphore.cancelled(request)),
{
    if let AcquireStage::Queued(ticket) = request.stage {
        assert forall|i: int|
            0 <= i < semaphore.waiters.len() && (#[trigger] semaphore.waiters[i]).ticket
                == ticket implies gained(
            SemaphoreState { waiters: semaphore.waiters.remove(i), ..semaphore },
            semaphore.cancelled(request),
            semaphore.waiters[i].assigned as nat,
        ) by {
            semaphore.lemma_place(i);
            semaphore.lemma_removed(i);
            lemma_gained(
                SemaphoreState { waiters: semaphore.waiters.remove(i), ..semaphore },
                semaphore.waiters[i].assigned as nat,
            );
        }
    }
}

/// A semaphore is in order if no request has more than it asked for, tickets tell requests apart, older
/// requests are served first, and no permit lies idle while a request is short.
pub proof fn law_semaphore_in_order(semaphore: SemaphoreState)
    requires
        semaphore.next_ticket <= u64::MAX,
        forall|i: int|
            0 <= i < semaphore.waiters.len() ==> {
                &&& (#[trigger] semaphore.waiters[i]).assigned <= semaphore.waiters[i].needed
                &&& semaphore.waiters[i].ticket < semaphore.next_ticket
                &&& semaphore.waiters[i].assigned < semaphore.waiters[i].needed
                    ==> semaphore.available == 0
            },
        forall|i: int, j: int|
            0 <= i < j < semaphore.waiters.len() ==> {
                &&& (#[trigger] semaphore.waiters[i]).ticket != (
                #[trigger] semaphore.waiters[j]).ticket
                &&& semaphore.waiters[i].assigned < semaphore.waiters[i].needed
                    ==> semaphore.waiters[j].assigned == 0
            },
    ensures
        semaphore.wf(),
        semaphore.has_free_ticket() <==> semaphore.next_ticket < u64::MAX,
        semaphore.total() == semaphore.available + crate::semaphore::assigned_sum(semaphore.waiters),
{
}

/// A request that has not been made asks for what it says. Permits in hand are as many as they say.
pub proof fn law_requests_and_permits(
    needed: u32,
    request: Acquire,
    permit: AsyncSemaphoreReleaser,
    counted: u32,
    given_up: u32,
)
    requires
        call_ensures(Acquire::new, (needed,), request),
        call_ensures(AsyncSemaphoreReleaser::permits, (&permit,), counted),
        call_ensures(AsyncSemaphoreReleaser::disarm, (permit,), given_up),
    ensures
        request.needed == needed && request.stage == AcquireStage::Unpolled,
        counted == permit.count() && given_up == permit.count(),
{
}

/// A new semaphore has the permits it was given, and no requests.
pub proof fn law_new_semaphore(permits: usize, semaphore: AsyncSemaphore)
    requires
        call_ensures(AsyncSemaphore::new, (permits,), semaphore),
    ensures
        semaphore@.available == permits,
        semaphore@.waiters.len() == 0,
        semaphore@.next_ticket == 0,
        semaphore@.wf(),
        call_requires(AsyncSemaphore::new, (permits,)),
{
}

/// Permits that are released go to the oldest requests first.
pub proof fn law_semaphore_release(semaphore: &mut AsyncSemaphore, n: usize)
    requires
        old(semaphore)@.wf(),
        call_ensures(AsyncSemaphore::release, (semaphore, n), ()),
    ensures
        gained(old(semaphore)@, final(semaphore)@, n as nat),
        old(semaphore)@.available + n <= usize::MAX ==> call_requires(
            AsyncSemaphore::release,
            (semaphore, n),
        ),
{
    lemma_gained(old(semaphore)@, n as nat);
}

/// Permits are taken without waiting exactly if enough of them are available.
pub proof fn law_semaphore_try_acquire(
    semaphore: &mut AsyncSemaphore,
    n: u32,
    permit: Option<AsyncSemaphoreReleaser>,
)
    requires
        old(semaphore)@.wf(),
        call_ensures(AsyncSemaphore::try_acquire, (semaphore, n), permit),
    ensures
        permit is Some <==> n <= old(semaphore)@.available,
        permit matches Some(p) ==> {
            &&& p.count() == n
            &&& final(semaphore)@.available + n == old(semaphore)@.available
            &&& final(semaphore)@.waiters == old(semaphore)@.waiters
            &&& final(semaphore)@.next_ticket == old(semaphore)@.next_ticket
        },
        permit is None ==> final(semaphore)@ == old(semaphore)@,
        call_requires(AsyncSemaphore::try_acquire, (semaphore, n)),
{
}

/// A request that is polled is granted, queued or left waiting.
pub proof fn law_semaphore_poll(
    semaphore: &mut AsyncSemaphore,
    acquire: &mut Acquire,
    permit: Option<AsyncSemaphoreReleaser>,
)
    requires
        old(semaphore)@.wf(),
        old(semaphore)@.next_ticket < u64::MAX,
        call_ensures(AsyncSemaphore::poll_acquire, (semaphore, acquire), permit),
    ensures
        asked(
            old(semaphore)@,
            *old(acquire),
            final(semaphore)@,
            *final(acquire),
            permit is Some,
        ),
        permit matches Some(p) ==> p.count() == old(acquire).needed,
        call_requires(AsyncSemaphore::poll_acquire, (semaphore, acquire)),
{
    lemma_asked(old(semaphore)@, *old(acquire));
}

/// A request that is cancelled leaves the queue, and its permits go to the others.
pub proof fn law_semaphore_cancel(semaphore: &mut AsyncSemaphore, acquire: &mut Acquire)
    requires
        old(semaphore)@.wf(),
        call_ensures(AsyncSemaphore::cancel_acquire, (semaphore, acquire), ()),
    ensures
        withdrawn(old(semaphore)@, *old(acquire), final(semaphore)@),
        final(acquire).stage == AcquireStage::Terminated,
        final(acquire).needed == old(acquire).needed,
{
    lemma_withdrawn(old(semaphore)@, *old(acquire));
}

/// What the semaphore tells of itself is so.
pub proof fn law_semaphore_tells_the_truth(
    semaphore: AsyncSemaphore,
    place: int,
    permits: usize,
    ready: bool,
    free: bool,
)
    requires
        semaphore@.wf(),
        0 <= place < semaphore@.waiters.len(),
        call_ensures(AsyncSemaphore::permits, (&semaphore,), permits),
        call_ensures(
            AsyncSemaphore::is_ready,
            (&semaphore, semaphore@.waiters[place].ticket),
            ready,
        ),
        call_ensures(AsyncSemaphore::has_free_ticket, (&semaphore,), free),
    ensures
        permits == semaphore@.available,
        ready <==> semaphore@.waiters[place].assigned == semaphore@.waiters[place].needed,
        free <==> semaphore@.next_ticket < u64::MAX,
{
    semaphore@.lemma_place(place);
}

// The time, and what the options say of it.

/// The time that has passed, added to the start, is now. Nothing has passed since a time to come.
pub proof fn law_elapsed(then: u128, now: u128, passed: u128)
    requires
        call_ensures(crate::idle::elapsed, (then, now), passed),
    ensures
        then <= now ==> then + passed == now,
        now <= then ==> passed == 0,
        call_requires(crate::idle::elapsed, (then, now)),
{
}

/// The metadata of an idle connection count from when it was opened and from when it went idle.
pub proof fn law_metadata(idle: Idle, now: u128, metadata: PoolConnectionMetadata)
    requires
        idle.live.created_at <= now,
        idle.idle_since <= now,
        call_ensures(Idle::metadata, (&idle, now), metadata),
    ensures
        idle.live.created_at + metadata.age == now,
        idle.idle_since + metadata.idle_for == now,
{
}

/// A connection goes idle at the time it is told, and is otherwise the same.
pub proof fn law_into_idle(live: Live, now: u128, idle: Idle)
    requires
        call_ensures(Live::into_idle, (live, now), idle),
    ensures
        idle.live == live,
        idle.idle_since == now,
{
}

/// A connection is beyond its lifetime exactly if there is a limit and now is later than the limit
/// after it was opened. No other option matters.
pub proof fn law_beyond_max_lifetime(live: Live, options: PoolOptions, now: u128, beyond: bool)
    requires
        call_ensures(crate::options::is_beyond_max_lifetime, (&live, &options, now), beyond),
    ensures
        options.max_lifetime is None ==> !beyond,
        options.max_lifetime matches Some(limit) ==> (beyond <==> live.created_at + limit < now),
        call_requires(crate::options::is_beyond_max_lifetime, (&live, &options, now)),
{
}

/// A connection is beyond its idle time exactly if there is a limit and now is later than the limit
/// after it went idle. No other option matters.
pub proof fn law_beyond_idle_timeout(idle: Idle, options: PoolOptions, now: u128, beyond: bool)
    requires
        call_ensures(crate::options::is_beyond_idle_timeout, (&idle, &options, now), beyond),
    ensures
        options.idle_timeout is None ==> !beyond,
        options.idle_timeout matches Some(limit) ==> (beyond <==> idle.idle_since + limit < now),
        call_requires(crate::options::is_beyond_idle_timeout, (&idle, &options, now)),
{
}

/// An acquisition is reported as slow exactly if slow ones are reported and it took longer than the
/// threshold, and else as an ordinary one exactly if those are reported.
pub proof fn law_acquire_log(options: PoolOptions, took: u128, log: AcquireLog)
    requires
        call_ensures(PoolOptions::acquire_log, (&options, took), log),
    ensures
        log matches AcquireLog::Slow(level) ==> options.acquire_slow_level == Some(level) && took
            > options.acquire_slow_threshold,
        log matches AcquireLog::Acquired(level) ==> options.acquire_time_level == Some(level),
        options.acquire_slow_level is Some && took > options.acquire_slow_threshold ==> log is Slow,
        !(log is Slow) && options.acquire_time_level is Some ==> log is Acquired,
        log is Silent ==> options.acquire_time_level is None,
        call_requires(PoolOptions::acquire_log, (&options, took)),
{
}

/// A caller may take as long as the options allow, from the moment it asks.
pub proof fn law_acquire_deadline(options: PoolOptions, started_at: u128, deadline: u128)
    requires
        call_ensures(PoolOptions::acquire_deadline, (&options, started_at), deadline),
    ensures
        deadline == started_at + options.acquire_timeout,
        started_at + options.acquire_timeout <= u128::MAX ==> call_requires(
            PoolOptions::acquire_deadline,
            (&options, started_at),
        ),
{
}

// The idle queue.

/// A connection enters the queue behind the others, exactly if there is room.
pub proof fn law_idle_push(queue: &mut IdleQueue, idle: Idle, pushed: Result<(), Idle>)
    requires
        call_ensures(IdleQueue::push, (queue, idle), pushed),
    ensures
        pushed is Ok <==> old(queue)@.len() < old(queue).capacity(),
        pushed is Ok ==> final(queue)@.drop_last() == old(queue)@ && final(queue)@.last() == idle,
        pushed matches Err(back) ==> final(queue)@ == old(queue)@ && back == idle,
        final(queue).capacity() == old(queue).capacity(),
{
    if pushed is Ok {
        assert(final(queue)@.drop_last() =~= old(queue)@);
    }
}

/// The connection at the front leaves the queue, if there is one.
pub proof fn law_idle_pop(queue: &mut IdleQueue, popped: Option<Idle>)
    requires
        call_ensures(IdleQueue::pop, (queue,), popped),
    ensures
        popped is Some <==> old(queue)@.len() > 0,
        popped matches Some(idle) ==> old(queue)@ == seq![idle] + final(queue)@,
        popped is None ==> final(queue)@ == old(queue)@,
        final(queue).capacity() == old(queue).capacity(),
{
    if popped is Some {
        assert(old(queue)@ =~= seq![popped->0] + final(queue)@);
    }
}

/// A new queue is empty and has the room it was asked for.
pub proof fn law_idle_new(capacity: usize, queue: IdleQueue)
    requires
        call_ensures(IdleQueue::new, (capacity,), queue),
    ensures
        queue@.len() == 0,
        queue.capacity() == capacity,
{
}

// The pool.

/// The permits that are out are those that the pool owns and that its semaphore does not hold. A
/// connection in use is one that is counted and not idle. What is out beyond that is spare.
pub proof fn law_what_is_out(pool: PoolState)
    ensures
        pool.outstanding() + pool.semaphore.available + crate::semaphore::assigned_sum(
            pool.semaphore.waiters,
        ) == pool.num_permits,
        pool.num_idle <= pool.size ==> pool.in_use() + pool.num_idle == pool.size,
        pool.size < pool.num_idle ==> pool.in_use() == 0,
        pool.spare() + pool.in_use() == pool.outstanding(),
        pool.has_room() <==> pool.num_idle < pool.options.max_connections,
        pool.size > pool.num_idle ==> pool.has_checkout(),
        pool.closed && pool.size == 0 && 1 <= pool.spare() ==> pool.has_checkout(),
{
}

/// The books of a pool are in order if its semaphore is, if it counts as idle at least those in the
/// queue and no more than it has, if it has no more than it may have, and if each connection in use
/// has a permit.
pub proof fn law_books_in_order(pool: PoolState)
    requires
        pool.semaphore.wf(),
        pool.num_permits <= u32::MAX,
        pool.idle.len() <= pool.num_idle <= pool.size <= pool.options.max_connections,
        pool.semaphore.available + crate::semaphore::assigned_sum(pool.semaphore.waiters) + (
        pool.size - pool.num_idle) <= pool.num_permits,
    ensures
        pool.wf(),
{
}

/// So are those of a pool that is closed and counts no connections, whatever is still out.
pub proof fn law_books_of_an_emptied_pool(pool: PoolState)
    requires
        pool.semaphore.wf(),
        pool.num_permits <= u32::MAX,
        pool.closed,
        pool.size == 0,
        pool.idle.len() <= pool.num_idle <= pool.options.max_connections,
        pool.semaphore.available + crate::semaphore::assigned_sum(pool.semaphore.waiters)
            <= pool.num_permits,
    ensures
        pool.wf(),
{
}

/// A new pool is open and has no connections. Without a parent it owns a permit for each connection it
/// may have, with a parent none.
pub proof fn law_new_pool(options: PoolOptions, parent: Option<&PoolInner>, pool: PoolInner)
    requires
        call_ensures(PoolInner::new, (options, parent), pool),
    ensures
        pool.wf(),
        pool@.options == options,
        pool@.has_parent == (parent is Some),
        !pool@.closed,
        pool@.size == 0,
        pool@.num_idle == 0,
        pool@.idle.len() == 0,
        pool@.semaphore.waiters.len() == 0,
        pool@.semaphore.next_ticket == 0,
        pool@.semaphore.available == pool@.num_permits,
        parent is None ==> pool@.num_permits == options.max_connections,
        parent is Some ==> pool@.num_permits == 0,
{
}

/// A pool can be made with any options that allow a connection and that fit in memory, and as a child
/// of any pool that allows as many connections and agrees on fairness.
pub proof fn law_any_pool_can_be_made(options: PoolOptions, parent: PoolInner)
    requires
        0 < options.max_connections,
        options.max_connections * 64 <= isize::MAX,
    ensures
        call_requires(PoolInner::new, (options, None::<&PoolInner>)),
        options.max_connections <= parent@.options.max_connections && options.fair
            == parent@.options.fair ==> call_requires(PoolInner::new, (options, Some(&parent))),
{
}

/// What a pool tells of itself is so.
pub proof fn law_pool_tells_the_truth(
    pool: PoolInner,
    options: PoolOptions,
    has_parent: bool,
    size: u32,
    num_idle: usize,
    closed: bool,
    num_permits: u32,
    available: usize,
)
    requires
        call_ensures(PoolInner::options, (&pool,), options),
        call_ensures(PoolInner::has_parent, (&pool,), has_parent),
        call_ensures(PoolInner::size, (&pool,), size),
        call_ensures(PoolInner::num_idle, (&pool,), num_idle),
        call_ensures(PoolInner::is_closed, (&pool,), closed),
        call_ensures(PoolInner::num_permits, (&pool,), num_permits),
        call_ensures(PoolInner::available_permits, (&pool,), available),
    ensures
        options == pool@.options,
        has_parent == pool@.has_parent,
        size == pool@.size,
        num_idle == pool@.num_idle,
        closed == pool@.closed,
        num_permits == pool@.num_permits,
        available == pool@.semaphore.available,
{
}

/// What a pool tells of its requests is so.
pub proof fn law_pool_tells_of_requests(pool: PoolInner, place: int, ready: bool, free: bool)
    requires
        pool@.wf(),
        0 <= place < pool@.semaphore.waiters.len(),
        call_ensures(
            PoolInner::is_ready,
            (&pool, pool@.semaphore.waiters[place].ticket),
            ready,
        ),
        call_ensures(PoolInner::has_free_ticket, (&pool,), free),
    ensures
        ready <==> pool@.semaphore.waiters[place].assigned == pool@.semaphore.waiters[place].needed,
        free <==> pool@.semaphore.next_ticket < u64::MAX,
{
    pool@.semaphore.lemma_place(place);
}

/// Marking a pool closed closes it and changes nothing else.
pub proof fn law_mark_closed(pool: &mut PoolInner)
    requires
        call_ensures(PoolInner::mark_closed, (pool,), ()),
    ensures
        final(pool)@ == (PoolState { closed: true, ..old(pool)@ }),
        old(pool).wf() ==> final(pool).wf(),
        call_requires(PoolInner::mark_closed, (pool,)),
{
}

/// A permit that goes back serves those who wait, the oldest first, and nothing else changes.
pub proof fn law_release_permit(pool: &mut PoolInner, permit: AsyncSemaphoreReleaser)
    requires
        old(pool)@.wf(),
        call_ensures(PoolInner::release_permit, (pool, permit), ()),
    ensures
        gained(old(pool)@.semaphore, final(pool)@.semaphore, permit.count()),
        final(pool)@ == (PoolState { semaphore: final(pool)@.semaphore, ..old(pool)@ }),
        old(pool).wf() && permit.count() <= old(pool)@.spare() ==> call_requires(
            PoolInner::release_permit,
            (pool, permit),
        ),
{
    lemma_gained(old(pool)@.semaphore, permit.count());
}

/// A permit is had without waiting exactly if one is available.
pub proof fn law_try_acquire_permit(pool: &mut PoolInner, permit: Option<AsyncSemaphoreReleaser>)
    requires
        old(pool)@.wf(),
        call_ensures(PoolInner::try_acquire_permit, (pool,), permit),
    ensures
        permit is Some <==> old(pool)@.semaphore.available > 0,
        permit matches Some(p) ==> {
            &&& p.count() == 1
            &&& final(pool)@.semaphore.available + 1 == old(pool)@.semaphore.available
            &&& final(pool)@.semaphore.waiters == old(pool)@.semaphore.waiters
            &&& final(pool)@ == (PoolState { semaphore: final(pool)@.semaphore, ..old(pool)@ })
        },
        permit is None ==> final(pool)@ == old(pool)@,
        old(pool).wf() ==> call_requires(PoolInner::try_acquire_permit, (pool,)),
{
}

/// A request for permits is granted or queued by the semaphore, and nothing else changes.
pub proof fn law_poll_permit(
    pool: &mut PoolInner,
    acquire: &mut Acquire,
    permit: Option<AsyncSemaphoreReleaser>,
)
    requires
        old(pool)@.wf(),
        old(pool)@.semaphore.next_ticket < u64::MAX,
        call_ensures(PoolInner::poll_permit, (pool, acquire), permit),
    ensures
        asked(
            old(pool)@.semaphore,
            *old(acquire),
            final(pool)@.semaphore,
            *final(acquire),
            permit is Some,
        ),
        final(pool)@ == (PoolState { semaphore: final(pool)@.semaphore, ..old(pool)@ }),
        permit matches Some(p) ==> p.count() == old(acquire).needed,
        old(pool).wf() ==> call_requires(PoolInner::poll_permit, (pool, acquire)),
{
    lemma_asked(old(pool)@.semaphore, *old(acquire));
}

/// A request that is withdrawn leaves the queue, and nothing but the semaphore changes.
pub proof fn law_cancel_permit(pool: &mut PoolInner, acquire: &mut Acquire)
    requires
        old(pool)@.wf(),
        call_ensures(PoolInner::cancel_permit, (pool, acquire), ()),
    ensures
        withdrawn(old(pool)@.semaphore, *old(acquire), final(pool)@.semaphore),
        final(pool)@ == (PoolState { semaphore: final(pool)@.semaphore, ..old(pool)@ }),
        final(acquire).stage == AcquireStage::Terminated,
        final(acquire).needed == old(acquire).needed,
        old(pool).wf() ==> call_requires(PoolInner::cancel_permit, (pool, acquire)),
{
    lemma_withdrawn(old(pool)@.semaphore, *old(acquire));
}

/// In an open pool with idle connections, and only there, a permit is worth the one at the front,
/// whatever the size, the limits and the connections in use.
pub proof fn law_idle_connection_is_reused(
    pool: &mut PoolInner,
    permit: AsyncSemaphoreReleaser,
    popped: Result<Floating<Idle>, AsyncSemaphoreReleaser>,
)
    requires
        old(pool)@.wf(),
        call_ensures(PoolInner::pop_idle, (pool, permit), popped),
    ensures
        old(pool)@.can_pop_idle() <==> !old(pool)@.closed && old(pool)@.idle.len() > 0,
        popped is Ok <==> !old(pool)@.closed && old(pool)@.idle.len() > 0,
        popped matches Ok(floating) ==> {
            &&& !floating.guard.is_cancelled()
            &&& old(pool)@.idle == seq![floating.inner] + final(pool)@.idle
            &&& final(pool)@.num_idle + 1 == old(pool)@.num_idle
            &&& final(pool)@ == (PoolState {
                idle: final(pool)@.idle,
                num_idle: final(pool)@.num_idle,
                ..old(pool)@
            })
        },
        popped matches Err(back) ==> final(pool)@ == old(pool)@ && back == permit,
        old(pool).wf() && permit.count() == 1 && 1 <= old(pool)@.spare() ==> call_requires(
            PoolInner::pop_idle,
            (pool, permit),
        ),
{
    if popped is Ok {
        assert(old(pool)@.idle =~= seq![popped->Ok_0.inner] + final(pool)@.idle);
    }
}

/// An idle connection is had without waiting exactly if the pool is open, one lies idle, and a permit
/// is available.
pub proof fn law_try_acquire(pool: &mut PoolInner, acquired: Option<Floating<Idle>>)
    requires
        old(pool)@.wf(),
        call_ensures(PoolInner::try_acquire, (pool,), acquired),
    ensures
        acquired is Some <==> !old(pool)@.closed && old(pool)@.idle.len() > 0
            && old(pool)@.semaphore.available > 0,
        acquired matches Some(floating) ==> {
            &&& !floating.guard.is_cancelled()
            &&& old(pool)@.idle == seq![floating.inner] + final(pool)@.idle
            &&& final(pool)@.num_idle + 1 == old(pool)@.num_idle
            &&& final(pool)@.size == old(pool)@.size
            &&& final(pool)@.semaphore.available + 1 == old(pool)@.semaphore.available
            &&& final(pool)@.semaphore.waiters == old(pool)@.semaphore.waiters
            &&& final(pool)@.num_permits == old(pool)@.num_permits
            &&& !final(pool)@.closed
        },
        acquired is None ==> final(pool)@ == old(pool)@,
        old(pool).wf() ==> call_requires(PoolInner::try_acquire, (pool,)),
{
    if acquired is Some {
        assert(old(pool)@.idle =~= seq![acquired->0.inner] + final(pool)@.idle);
    }
}

/// A connection that is released is the last in the queue, counted as idle, and its permit serves
/// those who wait. The pool keeps its size.
pub proof fn law_release(pool: &mut PoolInner, floating: Floating<Live>, now: u128)
    requires
        old(pool)@.wf(),
        call_ensures(PoolInner::release, (pool, floating, now), ()),
    ensures
        final(pool)@.idle.drop_last() == old(pool)@.idle,
        final(pool)@.idle.last().live == floating.inner,
        final(pool)@.idle.last().idle_since == now,
        final(pool)@.num_idle == old(pool)@.num_idle + 1,
        gained(old(pool)@.semaphore, final(pool)@.semaphore, 1),
        final(pool)@ == (PoolState {
            idle: final(pool)@.idle,
            num_idle: final(pool)@.num_idle,
            semaphore: final(pool)@.semaphore,
            ..old(pool)@
        }),
        old(pool).wf() && old(pool)@.size > old(pool)@.num_idle ==> final(pool).wf(),
        old(pool).wf() && old(pool)@.closed && old(pool)@.size == 0 && 1 <= old(pool)@.spare()
            && old(pool)@.num_idle < old(pool)@.options.max_connections ==> final(pool).wf(),
        old(pool).wf() && old(pool)@.num_idle < old(pool)@.options.max_connections && old(
            pool,
        )@.semaphore.available < usize::MAX ==> call_requires(
            PoolInner::release,
            (pool, floating, now),
        ),
{
    lemma_gained(old(pool)@.semaphore, 1);
    assert(final(pool)@.idle.drop_last() =~= old(pool)@.idle);
}

/// A connection may be opened exactly if the pool is open and has fewer than it may have. It is counted
/// from then on.
pub proof fn law_try_increment_size(
    pool: &mut PoolInner,
    permit: AsyncSemaphoreReleaser,
    grown: Result<DecrementSizeGuard, AsyncSemaphoreReleaser>,
)
    requires
        call_ensures(PoolInner::try_increment_size, (pool, permit), grown),
    ensures
        old(pool)@.can_grow() <==> !old(pool)@.closed && old(pool)@.size
            < old(pool)@.options.max_connections,
        grown is Ok <==> !old(pool)@.closed && old(pool)@.size < old(pool)@.options.max_connections,
        grown matches Ok(guard) ==> {
            &&& !guard.is_cancelled()
            &&& final(pool)@ == (PoolState { size: old(pool)@.size + 1, ..old(pool)@ })
        },
        grown matches Err(back) ==> final(pool)@ == old(pool)@ && back == permit,
        old(pool).wf() && permit.count() == 1 && 1 <= old(pool)@.spare() ==> call_requires(
            PoolInner::try_increment_size,
            (pool, permit),
        ),
{
}

/// A claim that is dropped takes one connection off the count and gives its permit back. One that was
/// cancelled does nothing.
pub proof fn law_drop_guard(pool: &mut PoolInner, guard: DecrementSizeGuard)
    requires
        old(pool)@.wf(),
        call_ensures(PoolInner::drop_guard, (pool, guard), ()),
    ensures
        guard.is_cancelled() ==> final(pool)@ == old(pool)@,
        !guard.is_cancelled() ==> {
            &&& old(pool)@.size > 0 ==> final(pool)@.size + 1 == old(pool)@.size
            &&& old(pool)@.size == 0 ==> final(pool)@.size == 0
            &&& gained(old(pool)@.semaphore, final(pool)@.semaphore, 1)
            &&& final(pool)@ == (PoolState {
                size: final(pool)@.size,
                semaphore: final(pool)@.semaphore,
                ..old(pool)@
            })
        },
        old(pool).wf() && old(pool)@.size > old(pool)@.num_idle ==> final(pool).wf(),
        old(pool).wf() && old(pool)@.closed && old(pool)@.size == 0 && 1 <= old(pool)@.spare()
            ==> final(pool).wf(),
        old(pool)@.semaphore.available < usize::MAX ==> call_requires(
            PoolInner::drop_guard,
            (pool, guard),
        ),
{
    lemma_gained(old(pool)@.semaphore, 1);
}

/// A claim counts until it is cancelled, and a connection keeps its claim as it goes idle or is taken
/// into use.
pub proof fn law_claims(
    permit: AsyncSemaphoreReleaser,
    raw: u64,
    now: u128,
    idle: Floating<Idle>,
    live: Floating<Live>,
    new: DecrementSizeGuard,
    taken: DecrementSizeGuard,
    cancelled: DecrementSizeGuard,
    into_live: Floating<Live>,
    into_idle: Floating<Idle>,
    opened: Floating<Live>,
    reused: Floating<Idle>,
)
    requires
        call_ensures(DecrementSizeGuard::new_permit, (), new),
        call_ensures(DecrementSizeGuard::from_permit, (permit,), taken),
        call_ensures(DecrementSizeGuard::cancel, (new,), cancelled),
        call_ensures(Floating::<Idle>::into_live, (idle,), into_live),
        call_ensures(Floating::<Live>::into_idle, (live, now), into_idle),
        call_ensures(Floating::<Live>::new_live, (raw, now, new), opened),
        call_ensures(Floating::<Idle>::from_idle, (idle.inner, permit), reused),
    ensures
        !new.is_cancelled() && !taken.is_cancelled() && cancelled.is_cancelled(),
        into_live.inner == idle.inner.live && into_live.guard == idle.guard,
        into_idle.inner.live == live.inner && into_idle.inner.idle_since == now,
        into_idle.guard == live.guard,
        opened.inner.raw == raw && opened.inner.created_at == now && opened.guard == new,
        reused.inner == idle.inner && !reused.guard.is_cancelled(),
{
}

/// A child that is dropped is closed and returns what is available in its semaphore. A pool without a
/// parent returns nothing.
pub proof fn law_drop_pool(pool: &mut PoolInner, returned: u32)
    requires
        old(pool)@.wf(),
        call_ensures(PoolInner::drop_pool, (pool,), returned),
    ensures
        final(pool)@ == (PoolState { closed: true, ..old(pool)@ }),
        old(pool)@.has_parent ==> returned == old(pool)@.semaphore.available,
        !old(pool)@.has_parent ==> returned == 0,
        call_requires(PoolInner::drop_pool, (pool,)),
{
}

/// Permits that come back from a child are owned and released, all of them.
pub proof fn law_credit(pool: &mut PoolInner, returned: u32)
    requires
        old(pool)@.wf(),
        old(pool)@.num_permits + returned <= u32::MAX,
        call_ensures(PoolInner::credit, (pool, returned), ()),
    ensures
        final(pool)@.num_permits == old(pool)@.num_permits + returned,
        gained(old(pool)@.semaphore, final(pool)@.semaphore, returned as nat),
        final(pool)@ == (PoolState {
            num_permits: final(pool)@.num_permits,
            semaphore: final(pool)@.semaphore,
            ..old(pool)@
        }),
        old(pool).wf() ==> final(pool).wf(),
        call_requires(PoolInner::credit, (pool, returned)),
{
    lemma_gained(old(pool)@.semaphore, returned as nat);
}

// Borrowing.

/// A caller that is about to wait asks for one permit of its own pool. It also asks the parent for one
/// exactly if there is a parent and the pool has fewer connections than it may have.
pub proof fn law_acquire_permit(pool: PoolInner, caller: AcquirePermit)
    requires
        call_ensures(PoolInner::acquire_permit, (&pool,), caller),
    ensures
        caller.wf(),
        caller.acquire_self.needed == 1 && caller.acquire_self.stage == AcquireStage::Unpolled,
        caller.acquire_parent is Some <==> pool@.has_parent && pool@.size
            < pool@.options.max_connections,
        caller.acquire_parent matches Some(request) ==> request.needed == 1 && request.stage
            == AcquireStage::Unpolled,
        !caller.poll_parent,
        call_requires(PoolInner::acquire_permit, (&pool,)),
{
}

/// A permit that is offered is transferred exactly if both pools are open and the child owns fewer
/// permits than it may have connections, whatever else the options of either pool say. Then the child
/// owns one more and the parent one fewer. In all other cases neither changes, and the permit is handed
/// back.
pub proof fn law_offered_permit_is_transferred(
    child: &mut PoolInner,
    parent: &mut PoolInner,
    permit: Option<AsyncSemaphoreReleaser>,
    transfer: Transfer,
)
    requires
        permit is Some ==> 1 <= old(parent)@.num_permits,
        call_ensures(crate::permit::transfer, (child, parent, permit), transfer),
    ensures
        permit is Some && !old(child)@.closed && !old(parent)@.closed && old(child)@.num_permits
            < old(child)@.options.max_connections <==> transfer.outcome is Transferred,
        transfer.outcome matches TransferOutcome::Transferred(moved) ==> {
            &&& moved.count() == 1
            &&& transfer.parent_permit is None
            &&& final(child)@ == (PoolState {
                num_permits: old(child)@.num_permits + 1,
                ..old(child)@
            })
            &&& final(parent)@.num_permits + 1 == old(parent)@.num_permits
            &&& final(parent)@ == (PoolState {
                num_permits: final(parent)@.num_permits,
                ..old(parent)@
            })
        },
        !(transfer.outcome is Transferred) ==> {
            &&& final(child)@ == old(child)@
            &&& final(parent)@ == old(parent)@
            &&& transfer.parent_permit is Some <==> permit is Some
            &&& transfer.parent_permit matches Some(back) ==> back.count() == 1
        },
        transfer.outcome is ChildClosed <==> old(child)@.closed,
        transfer.outcome is ParentClosed <==> permit is Some && !old(child)@.closed
            && old(parent)@.closed && old(child)@.num_permits < old(child)@.options.max_connections,
        transfer.at_capacity <==> final(child)@.num_permits
            == old(child)@.options.max_connections,
{
}

/// A transfer can be tried whenever the books of both pools are in order and the permit is one of the
/// parent's.
pub proof fn law_any_permit_can_be_offered(
    child: &mut PoolInner,
    parent: &mut PoolInner,
    permit: Option<AsyncSemaphoreReleaser>,
)
    requires
        old(child).wf(),
        old(parent).wf(),
        permit matches Some(p) ==> p.count() == 1 && 1 <= old(parent)@.spare(),
    ensures
        call_requires(crate::permit::transfer, (child, parent, permit)),
{
}

/// A caller is turned away if its pool or the parent is closed. Otherwise its own pool is asked. If that
/// has nothing, a caller that may borrow goes on to the parent, but not on its first poll.
pub proof fn law_begin(
    caller: &mut AcquirePermit,
    child: &mut PoolInner,
    closed: bool,
    parent_closed: bool,
    poll: PermitPoll,
)
    requires
        old(child)@.wf(),
        old(child)@.semaphore.next_ticket < u64::MAX,
        call_ensures(AcquirePermit::begin, (caller, child, closed, parent_closed), poll),
    ensures
        poll is Closed <==> closed || (old(child)@.has_parent && parent_closed),
        closed ==> final(child)@ == old(child)@,
        !closed && old(child)@.has_parent && parent_closed ==> final(child)@ == (PoolState {
            closed: true,
            ..old(child)@
        }),
        poll is Closed ==> *final(caller) == *old(caller),
        !(poll is Closed) ==> {
            &&& asked(
                old(child)@.semaphore,
                old(caller).acquire_self,
                final(child)@.semaphore,
                final(caller).acquire_self,
                poll is Ready,
            )
            &&& final(child)@ == (PoolState { semaphore: final(child)@.semaphore, ..old(child)@ })
            &&& final(caller).acquire_parent == old(caller).acquire_parent
        },
        poll matches PermitPoll::Ready(permit) ==> permit.count() == 1,
        poll is Borrow ==> old(caller).acquire_parent is Some && old(caller).poll_parent,
        poll matches PermitPoll::Pending { wake } ==> {
            &&& wake <==> old(caller).acquire_parent is Some
            &&& wake ==> !old(caller).poll_parent && final(caller).poll_parent
        },
        old(caller).poll_parent ==> final(caller).poll_parent,
        old(child).wf() && old(caller).wf() ==> call_requires(
            AcquirePermit::begin,
            (caller, child, closed, parent_closed),
        ),
{
    lemma_asked(old(child)@.semaphore, old(caller).acquire_self);
}

/// The parent is asked like any other pool. A caller that does not borrow asks nobody.
pub proof fn law_reserve(
    caller: &mut AcquirePermit,
    parent: &mut PoolInner,
    permit: Option<AsyncSemaphoreReleaser>,
)
    requires
        old(parent)@.wf(),
        old(parent)@.semaphore.next_ticket < u64::MAX,
        call_ensures(AcquirePermit::reserve, (caller, parent), permit),
    ensures
        old(caller).acquire_parent is None ==> permit is None && final(parent)@ == old(parent)@,
        old(caller).acquire_parent matches Some(request) ==> {
            &&& final(caller).acquire_parent matches Some(later)
            &&& asked(
                old(parent)@.semaphore,
                request,
                final(parent)@.semaphore,
                later,
                permit is Some,
            )
            &&& final(parent)@ == (PoolState {
                semaphore: final(parent)@.semaphore,
                ..old(parent)@
            })
        },
        final(caller).acquire_self == old(caller).acquire_self,
        final(caller).poll_parent == old(caller).poll_parent,
        permit matches Some(p) ==> p.count() == 1,
        old(parent).wf() && old(caller).wf() ==> call_requires(
            AcquirePermit::reserve,
            (caller, parent),
        ),
{
    lemma_asked(old(parent)@.semaphore, old(caller).parent_request());
}

/// After a transfer that was refused, the caller is turned away; if the parent was the reason, the
/// child is closed. Otherwise a permit that was transferred enters the child's semaphore, and the
/// caller asks its own pool again. Where that grants nothing, it is woken, and asks the parent anew,
/// exactly if there was a transfer and the child may own more.
pub proof fn law_settle_child(
    caller: &mut AcquirePermit,
    child: &mut PoolInner,
    parent: &mut PoolInner,
    transfer: Transfer,
    poll: PermitPoll,
)
    requires
        old(child)@.wf(),
        old(child)@.semaphore.next_ticket < u64::MAX,
        call_ensures(AcquirePermit::settle, (caller, child, parent, transfer), poll),
    ensures
        poll is Closed <==> transfer.outcome is ChildClosed || transfer.outcome is ParentClosed,
        poll is Closed ==> *final(caller) == *old(caller),
        transfer.outcome is ChildClosed ==> final(child)@ == old(child)@,
        transfer.outcome is ParentClosed ==> final(child)@ == (PoolState {
            closed: true,
            ..old(child)@
        }),
        gained(old(child)@.semaphore, old(child)@.semaphore.release(1), 1),
        transfer.outcome is Transferred ==> asked(
            old(child)@.semaphore.release(1),
            old(caller).acquire_self,
            final(child)@.semaphore,
            final(caller).acquire_self,
            poll is Ready,
        ),
        transfer.outcome is Nothing ==> asked(
            old(child)@.semaphore,
            old(caller).acquire_self,
            final(child)@.semaphore,
            final(caller).acquire_self,
            poll is Ready,
        ),
        !(poll is Closed) ==> final(child)@ == (PoolState {
            semaphore: final(child)@.semaphore,
            ..old(child)@
        }),
        !(poll is Borrow),
        poll matches PermitPoll::Ready(permit) ==> permit.count() == 1,
        poll matches PermitPoll::Pending { wake } ==> {
            &&& wake <==> transfer.outcome is Transferred && !transfer.at_capacity
            &&& wake ==> (final(caller).acquire_parent matches Some(request) && request.needed == 1
                && request.stage == AcquireStage::Unpolled)
        },
        final(caller).poll_parent == old(caller).poll_parent,
{
    let semaphore = old(child)@.semaphore;
    lemma_gained(semaphore, 1);
    semaphore.lemma_release(1);
    lemma_asked(semaphore, old(caller).acquire_self);
    lemma_asked(semaphore.release(1), old(caller).acquire_self);
}

/// A permit that was not transferred goes back to the parent. The parent is asked no more exactly if the
/// child owns all it may have, and then what it had set aside goes to others.
pub proof fn law_settle_parent(
    caller: &mut AcquirePermit,
    child: &mut PoolInner,
    parent: &mut PoolInner,
    transfer: Transfer,
    poll: PermitPoll,
)
    requires
        old(parent)@.wf(),
        call_ensures(AcquirePermit::settle, (caller, child, parent, transfer), poll),
    ensures
        ({
            let before = old(parent)@.semaphore;
            let kept = if transfer.parent_permit is Some {
                before.release(1)
            } else {
                before
            };
            &&& gained(before, before.release(1), 1)
            &&& final(parent)@ == (PoolState {
                semaphore: final(parent)@.semaphore,
                ..old(parent)@
            })
            &&& poll is Closed || !transfer.at_capacity || old(caller).acquire_parent is None
                ==> final(parent)@.semaphore == kept
            &&& !(poll is Closed) && transfer.at_capacity ==> (old(
                caller,
            ).acquire_parent matches Some(request) ==> {
                &&& withdrawn(kept, request, final(parent)@.semaphore)
                &&& final(caller).acquire_parent matches Some(later)
                &&& later.stage == AcquireStage::Terminated
            })
            &&& (poll is Ready || poll == (PermitPoll::Pending { wake: false }))
                && !transfer.at_capacity ==> final(caller).acquire_parent == old(
                caller,
            ).acquire_parent
        }),
{
    let before = old(parent)@.semaphore;
    lemma_gained(before, 1);
    before.lemma_release(1);
    let kept = if transfer.parent_permit is Some {
        before.release(1)
    } else {
        before
    };
    lemma_withdrawn(kept, old(caller).parent_request());
}

/// The outcome of a transfer can always be acted on.
pub proof fn law_any_transfer_can_be_settled(
    caller: &mut AcquirePermit,
    child: &mut PoolInner,
    parent: &mut PoolInner,
    transfer: Transfer,
)
    requires
        old(caller).wf(),
        old(child).wf(),
        old(parent).wf(),
        old(child)@.semaphore.next_ticket < u64::MAX,
        transfer.outcome matches TransferOutcome::Transferred(permit) ==> permit.count() == 1
            && 1 <= old(child)@.spare(),
        transfer.parent_permit matches Some(permit) ==> permit.count() == 1 && 1 <= old(
            parent,
        )@.spare(),
    ensures
        call_requires(AcquirePermit::settle, (caller, child, parent, transfer)),
{
}

/// A caller that is first in its open pool, and may borrow, gets a permit of its open parent as soon as
/// one is free there: the child owns one more, the parent one fewer, whatever else their options say.
pub proof fn law_free_permit_of_the_parent_is_borrowed(
    caller: &mut AcquirePermit,
    child: &mut PoolInner,
    parent: &mut PoolInner,
    poll: PermitPoll,
)
    requires
        old(child)@.wf(),
        old(parent)@.wf(),
        !old(child)@.closed,
        !old(parent)@.closed,
        old(child)@.num_permits < old(child)@.options.max_connections,
        old(child)@.semaphore.next_ticket + 1 < u64::MAX,
        old(parent)@.semaphore.next_ticket < u64::MAX,
        old(parent)@.semaphore.available > 0,
        old(child)@.semaphore.waiters.len() > 0,
        old(child)@.semaphore.waiters[0].needed == 1,
        old(child)@.semaphore.waiters[0].assigned == 0,
        old(caller).acquire_self == (Acquire {
            needed: 1,
            stage: AcquireStage::Queued(old(child)@.semaphore.waiters[0].ticket),
        }),
        old(caller).acquire_parent == Some(Acquire { needed: 1, stage: AcquireStage::Unpolled }),
        old(caller).poll_parent,
        call_ensures(AcquirePermit::poll, (caller, child, parent, false, false), poll),
    ensures
        poll is Ready,
        final(child)@.num_permits == old(child)@.num_permits + 1,
        final(parent)@.num_permits + 1 == old(parent)@.num_permits,
        final(parent)@.semaphore.available + 1 == old(parent)@.semaphore.available,
{
    let semaphore = old(child)@.semaphore;
    semaphore.lemma_place(0);
    semaphore.lemma_release_serves(0);
    semaphore.lemma_release(1);
    assert(semaphore.release(1).waiters[0].ticket == semaphore.waiters[0].ticket);
    semaphore.release(1).lemma_place(0);
    lemma_asked(old(parent)@.semaphore, old(caller).acquire_parent->0);
    old(parent)@.semaphore.lemma_polled(old(caller).acquire_parent->0);
}

/// A whole poll goes to the parent only if the caller has waited once, may borrow, and gets nothing from
/// its own pool. Short of that the parent is left alone, and the outcome is that of the own pool.
pub proof fn law_poll_stays_at_home(
    caller: &mut AcquirePermit,
    child: &mut PoolInner,
    parent: &mut PoolInner,
    closed: bool,
    parent_closed: bool,
    poll: PermitPoll,
)
    requires
        old(child)@.wf(),
        old(child)@.semaphore.next_ticket < u64::MAX,
        call_ensures(
            AcquirePermit::poll,
            (caller, child, parent, closed, parent_closed),
            poll,
        ),
    ensures
        closed || (old(child)@.has_parent && parent_closed) ==> {
            &&& poll is Closed
            &&& final(parent)@ == old(parent)@
            &&& *final(caller) == *old(caller)
            &&& closed ==> final(child)@ == old(child)@
            &&& !closed ==> final(child)@ == (PoolState { closed: true, ..old(child)@ })
        },
        !closed && !(old(child)@.has_parent && parent_closed) && (old(child)@.semaphore.grants(
            old(caller).acquire_self,
        ) || old(caller).acquire_parent is None || !old(caller).poll_parent) ==> {
            &&& asked(
                old(child)@.semaphore,
                old(caller).acquire_self,
                final(child)@.semaphore,
                final(caller).acquire_self,
                poll is Ready,
            )
            &&& final(child)@ == (PoolState { semaphore: final(child)@.semaphore, ..old(child)@ })
            &&& final(parent)@ == old(parent)@
            &&& !(poll is Ready) ==> poll == (PermitPoll::Pending {
                wake: old(caller).acquire_parent is Some,
            })
        },
        poll matches PermitPoll::Ready(permit) ==> permit.count() == 1,
        !(poll is Borrow),
{
    lemma_asked(old(child)@.semaphore, old(caller).acquire_self);
}

/// A poll can be made whenever the books of both pools are in order and tickets are left.
pub proof fn law_any_caller_can_be_polled(
    caller: &mut AcquirePermit,
    child: &mut PoolInner,
    parent: &mut PoolInner,
    closed: bool,
    parent_closed: bool,
)
    requires
        old(child).wf(),
        old(parent).wf(),
        old(child)@.semaphore.next_ticket + 1 < u64::MAX,
        old(parent)@.semaphore.next_ticket < u64::MAX,
        old(caller).acquire_self.needed == 1,
        old(caller).acquire_parent matches Some(request) ==> request.needed == 1,
    ensures
        old(caller).wf(),
        call_requires(AcquirePermit::poll, (caller, child, parent, closed, parent_closed)),
        call_requires(AcquirePermit::cancel_self, (caller, child)),
        call_requires(AcquirePermit::cancel_parent, (caller, parent)),
{
}

/// A caller that goes away leaves both queues.
pub proof fn law_caller_goes_away(
    caller: &mut AcquirePermit,
    later: &mut AcquirePermit,
    child: &mut PoolInner,
    parent: &mut PoolInner,
)
    requires
        old(child)@.wf(),
        old(parent)@.wf(),
        call_ensures(AcquirePermit::cancel_self, (caller, child), ()),
        call_ensures(AcquirePermit::cancel_parent, (later, parent), ()),
    ensures
        withdrawn(old(child)@.semaphore, old(caller).acquire_self, final(child)@.semaphore),
        final(child)@ == (PoolState { semaphore: final(child)@.semaphore, ..old(child)@ }),
        final(caller).acquire_self.stage == AcquireStage::Terminated,
        final(caller).acquire_parent == old(caller).acquire_parent,
        old(later).acquire_parent is None ==> final(parent)@ == old(parent)@,
        old(later).acquire_parent matches Some(request) ==> withdrawn(
            old(parent)@.semaphore,
            request,
            final(parent)@.semaphore,
        ),
        final(parent)@ == (PoolState { semaphore: final(parent)@.semaphore, ..old(parent)@ }),
        final(later).acquire_parent is None,
        final(later).acquire_self == old(later).acquire_self,
{
    lemma_withdrawn(old(child)@.semaphore, old(caller).acquire_self);
    lemma_withdrawn(old(parent)@.semaphore, old(later).parent_request());
}

// Closing.

/// Closing a pool takes effect at once, and changes nothing else yet.
pub proof fn law_close(pool: &mut PoolInner, close: Close)
    requires
        call_ensures(PoolInner::close, (pool,), close),
    ensures
        final(pool)@ == (PoolState { closed: true, ..old(pool)@ }),
        close.stage is Unpolled,
        call_requires(PoolInner::close, (pool,)),
{
}

/// What a close asks the semaphore for: when it is first polled, every permit that the pool owns.
pub open spec fn close_request(stage: CloseStage, pool: PoolState) -> Acquire {
    match stage {
        CloseStage::Waiting(request) => request,
        _ => Acquire { needed: pool.num_permits as u32, stage: AcquireStage::Unpolled },
    }
}

/// A close that still waits asks the semaphore. If it is not granted all it asks for, it goes on
/// waiting and nothing else changes.
pub proof fn law_close_waits(close: &mut Close, pool: &mut PoolInner, poll: ClosePoll)
    requires
        old(pool)@.wf(),
        old(pool)@.semaphore.next_ticket < u64::MAX,
        old(close).stage is Unpolled || old(close).stage is Waiting,
        call_ensures(Close::poll, (close, pool), poll),
    ensures
        ({
            let request = close_request(old(close).stage, old(pool)@);
            let before = old(pool)@.semaphore;
            let granted = before.grants(request);
            &&& asked(
                before,
                request,
                before.polled(request),
                before.polled_acquire(request),
                granted,
            )
            &&& poll is Pending <==> !granted
            &&& !granted ==> {
                &&& final(close).stage == CloseStage::Waiting(before.polled_acquire(request))
                &&& final(pool)@ == (PoolState { semaphore: before.polled(request), ..old(pool)@ })
            }
            &&& granted && old(pool)@.idle.len() > 0 ==> {
                &&& poll == ClosePoll::CloseConnection(old(pool)@.idle[0])
                &&& final(close).stage matches CloseStage::Draining(permits)
                &&& permits.count() == request.needed
                &&& final(pool)@ == (PoolState {
                    idle: old(pool)@.idle.subrange(1, old(pool)@.idle.len() as int),
                    semaphore: before.polled(request),
                    ..old(pool)@
                })
            }
            &&& granted && old(pool)@.idle.len() == 0 ==> {
                &&& poll is Done
                &&& final(close).stage is Done
                &&& gained(
                    before.polled(request),
                    final(pool)@.semaphore,
                    request.needed as nat,
                )
                &&& final(pool)@ == (PoolState {
                    size: 0,
                    num_idle: 0,
                    semaphore: final(pool)@.semaphore,
                    ..old(pool)@
                })
            }
        }),
{
    let request = close_request(old(close).stage, old(pool)@);
    let before = old(pool)@.semaphore;
    lemma_asked(before, request);
    before.lemma_polled(request);
    lemma_gained(before.polled(request), request.needed as nat);
    if old(pool)@.idle.len() > 0 {
        assert(old(pool)@.idle.drop_first() =~= old(pool)@.idle.subrange(
            1,
            old(pool)@.idle.len() as int,
        ));
    }
}

/// A close that holds its permits takes one idle connection out at each poll, the oldest first. Once none
/// is left it is done: the pool counts no connections, and the permits are back.
pub proof fn law_close_drains(
    close: &mut Close,
    pool: &mut PoolInner,
    poll: ClosePoll,
    held: AsyncSemaphoreReleaser,
)
    requires
        old(pool)@.wf(),
        old(close).stage == CloseStage::Draining(held),
        call_ensures(Close::poll, (close, pool), poll),
    ensures
        old(pool)@.idle.len() > 0 ==> {
            &&& poll == ClosePoll::CloseConnection(old(pool)@.idle[0])
            &&& final(close).stage matches CloseStage::Draining(permits)
            &&& permits.count() == held.count()
            &&& final(pool)@ == (PoolState {
                idle: old(pool)@.idle.subrange(1, old(pool)@.idle.len() as int),
                ..old(pool)@
            })
        },
        old(pool)@.idle.len() == 0 ==> {
            &&& poll is Done
            &&& final(close).stage is Done
            &&& gained(old(pool)@.semaphore, final(pool)@.semaphore, held.count())
            &&& final(pool)@ == (PoolState {
                size: 0,
                num_idle: 0,
                semaphore: final(pool)@.semaphore,
                ..old(pool)@
            })
        },
{
    lemma_gained(old(pool)@.semaphore, held.count());
    if old(pool)@.idle.len() > 0 {
        assert(old(pool)@.idle.drop_first() =~= old(pool)@.idle.subrange(
            1,
            old(pool)@.idle.len() as int,
        ));
    }
}

/// A close that is done stays done and changes nothing. One that is given up puts back what it held or
/// had been promised.
pub proof fn law_close_ends(
    close: &mut Close,
    pool: &mut PoolInner,
    poll: ClosePoll,
    abandoned: Close,
    other: &mut PoolInner,
)
    requires
        old(close).stage is Done,
        call_ensures(Close::poll, (close, pool), poll),
        old(other)@.wf(),
        call_ensures(Close::cancel, (abandoned, other), ()),
    ensures
        poll is Done && final(close).stage is Done,
        final(pool)@ == old(pool)@,
        final(other)@ == (PoolState { semaphore: final(other)@.semaphore, ..old(other)@ }),
        abandoned.stage matches CloseStage::Waiting(request) ==> withdrawn(
            old(other)@.semaphore,
            request,
            final(other)@.semaphore,
        ),
        abandoned.stage matches CloseStage::Draining(held) ==> gained(
            old(other)@.semaphore,
            final(other)@.semaphore,
            held.count(),
        ),
        abandoned.stage is Unpolled || abandoned.stage is Done ==> final(other)@ == old(other)@,
{
    match abandoned.stage {
        CloseStage::Waiting(request) => lemma_withdrawn(old(other)@.semaphore, request),
        CloseStage::Draining(held) => lemma_gained(old(other)@.semaphore, held.count()),
        _ => {},
    }
}

/// A close of any pool whose books are in order can be polled and given up.
pub proof fn law_any_close_can_be_polled(close: &mut Close, pool: &mut PoolInner)
    requires
        old(pool).wf(),
        old(pool)@.semaphore.next_ticket < u64::MAX,
        old(close).stage matches CloseStage::Draining(held) ==> held.count() <= old(pool)@.spare(),
    ensures
        call_requires(Close::poll, (close, pool)),
        call_requires(Close::cancel, (*old(close), pool)),
{
}

/// Whoever wants to know of the close of an open pool listens to what is notified at the close. Of a
/// closed one there is nothing to wait for.
pub proof fn law_close_event(pool: PoolInner, on_closed: OnClosed, event: CloseEvent, told: usize)
    requires
        call_ensures(PoolInner::close_event, (&pool, &on_closed), event),
        call_ensures(OnClosed::notify, (&on_closed,), told),
    ensures
        event.listener is None <==> pool@.closed,
        event.listener matches Some(listener) ==> on_closed.heard_by(listener),
        on_closed.told_all(told),
{
}

// Acquiring.

/// A caller with a permit takes the idle connection at the front if the pool is open and there is one.
/// Only if the queue is empty, and the pool may grow, a connection is opened. Otherwise the caller keeps
/// the permit and lets others have their turn.
pub proof fn law_permit_is_used<E>(
    pool: &mut PoolInner,
    permit: AsyncSemaphoreReleaser,
    action: AcquireAction<E>,
)
    requires
        old(pool)@.wf(),
        call_ensures(PoolInner::acquire::<E>, (pool, AcquireEvent::Permit(permit)), action),
    ensures
        action is CheckIdle <==> !old(pool)@.closed && old(pool)@.idle.len() > 0,
        action is Connect <==> !old(pool)@.closed && old(pool)@.idle.len() == 0 && old(pool)@.size
            < old(pool)@.options.max_connections,
        action matches AcquireAction::CheckIdle(floating) ==> {
            &&& !floating.guard.is_cancelled()
            &&& old(pool)@.idle == seq![floating.inner] + final(pool)@.idle
            &&& final(pool)@.num_idle + 1 == old(pool)@.num_idle
            &&& final(pool)@ == (PoolState {
                idle: final(pool)@.idle,
                num_idle: final(pool)@.num_idle,
                ..old(pool)@
            })
        },
        action matches AcquireAction::Connect(guard) ==> {
            &&& !guard.is_cancelled()
            &&& final(pool)@ == (PoolState { size: old(pool)@.size + 1, ..old(pool)@ })
        },
        !(action is CheckIdle) && !(action is Connect) ==> {
            &&& action == AcquireAction::<E>::Yield(permit)
            &&& final(pool)@ == old(pool)@
        },
{
    if action is CheckIdle {
        assert(old(pool)@.idle =~= seq![action->CheckIdle_0.inner] + final(pool)@.idle);
    }
}

/// A caller that asks a closed pool fails. In an open one it waits for a permit of its own, as it does
/// again after others have had their turn, when it has given the one it could not use back.
pub proof fn law_acquire_starts<E>(
    pool: &mut PoolInner,
    action: AcquireAction<E>,
    later: &mut PoolInner,
    permit: AsyncSemaphoreReleaser,
    again: AcquireAction<E>,
)
    requires
        call_ensures(PoolInner::acquire::<E>, (pool, AcquireEvent::Started), action),
        old(later)@.wf(),
        call_ensures(PoolInner::acquire::<E>, (later, AcquireEvent::Yielded(permit)), again),
    ensures
        final(pool)@ == old(pool)@,
        old(pool)@.closed ==> action == AcquireAction::Failed(Error::<E>::PoolClosed),
        !old(pool)@.closed ==> (action matches AcquireAction::AwaitPermit(caller)
            && caller.acquire_self.needed == 1 && caller.acquire_self.stage
            == AcquireStage::Unpolled && !caller.poll_parent && (caller.acquire_parent is Some
            <==> old(pool)@.has_parent && old(pool)@.size < old(pool)@.options.max_connections)),
        gained(old(later)@.semaphore, final(later)@.semaphore, permit.count()),
        final(later)@ == (PoolState { semaphore: final(later)@.semaphore, ..old(later)@ }),
        again matches AcquireAction::AwaitPermit(caller) && caller.acquire_self.needed == 1
            && caller.acquire_self.stage == AcquireStage::Unpolled && (caller.acquire_parent is Some
            <==> old(later)@.has_parent && old(later)@.size < old(later)@.options.max_connections),
{
    lemma_gained(old(later)@.semaphore, permit.count());
}

/// What else happens to a caller leaves the pool alone, and decides what it gets.
pub proof fn law_acquire_ends<E>(
    pool: &mut PoolInner,
    event: AcquireEvent<E>,
    action: AcquireAction<E>,
)
    requires
        !(event is Started),
        !(event is Permit),
        !(event is Yielded),
        call_ensures(PoolInner::acquire::<E>, (pool, event), action),
    ensures
        final(pool)@ == old(pool)@,
        event is PermitClosed ==> action == AcquireAction::Failed(Error::<E>::PoolClosed),
        event is TimedOut ==> action == AcquireAction::Failed(Error::<E>::PoolTimedOut),
        event matches AcquireEvent::ConnectFailed(error) ==> action == AcquireAction::Failed(error),
        event matches AcquireEvent::IdleUsable(live) ==> action == AcquireAction::<E>::Acquired(
            live,
        ),
        event matches AcquireEvent::Opened(live) ==> action == AcquireAction::<E>::Acquired(live),
        event matches AcquireEvent::IdleUnusable(guard) ==> action == AcquireAction::<E>::Connect(
            guard,
        ),
{
}

/// A caller can take any step in a pool whose books are in order, with permits of that pool.
pub proof fn law_any_acquisition_can_go_on<E>(pool: &mut PoolInner, event: AcquireEvent<E>)
    requires
        old(pool).wf(),
        event matches AcquireEvent::Permit(permit) ==> permit.count() == 1 && 1 <= old(
            pool,
        )@.spare(),
        event matches AcquireEvent::Yielded(permit) ==> permit.count() <= old(pool)@.spare(),
    ensures
        call_requires(PoolInner::acquire::<E>, (pool, event)),
{
}

/// An idle connection is pinged first, exactly if the options say so. A broken one is closed hard, one
/// that the hook rejects is closed nicely, and one that nothing speaks against is used. The hook is asked
/// exactly if there is one, after the ping, and is told how old the connection is.
pub proof fn law_check_idle_conn(
    idle: Idle,
    options: PoolOptions,
    event: IdleEvent,
    now: u128,
    check: IdleCheck,
)
    requires
        call_ensures(crate::acquire::check_idle_conn, (&idle, &options, event, now), check),
    ensures
        check is Ping <==> event is Popped && options.test_before_acquire,
        check is CloseHard <==> event is PingFailed || event is HookFailed,
        check is Close <==> event is Rejected,
        check is BeforeAcquire <==> options.before_acquire && (event is PingSucceeded || (
        event is Popped && !options.test_before_acquire)),
        check is Use <==> event is Accepted || (!options.before_acquire && (event is PingSucceeded
            || (event is Popped && !options.test_before_acquire))),
        check matches IdleCheck::BeforeAcquire(metadata) ==> {
            &&& idle.live.created_at <= now ==> idle.live.created_at + metadata.age == now
            &&& idle.idle_since <= now ==> idle.idle_since + metadata.idle_for == now
        },
        call_requires(crate::acquire::check_idle_conn, (&idle, &options, event, now)),
{
}

// Opening connections.

/// The time until a deadline, added to now, is the deadline. One that has passed is an error.
pub proof fn law_deadline_as_timeout<E>(
    deadline: u128,
    now: u128,
    timeout: Result<u128, Error<E>>,
)
    requires
        call_ensures(crate::connect::deadline_as_timeout::<E>, (deadline, now), timeout),
    ensures
        timeout is Ok <==> now <= deadline,
        timeout matches Ok(left) ==> now + left == deadline,
        timeout matches Err(error) ==> error is PoolTimedOut,
        call_requires(crate::connect::deadline_as_timeout::<E>, (deadline, now)),
{
}

/// Opening a connection begins exactly if the pool is open and the deadline has not passed. The first
/// wait is ten milliseconds, and no later one is longer than a fifth of the time that is left.
/// Otherwise the claim is dropped.
pub proof fn law_connect_begins<E>(
    pool: &mut PoolInner,
    deadline: u128,
    guard: DecrementSizeGuard,
    now: u128,
    connect: Result<Connect, Error<E>>,
)
    requires
        old(pool)@.wf(),
        call_ensures(PoolInner::connect::<E>, (pool, deadline, guard, now), connect),
    ensures
        connect is Ok <==> !old(pool)@.closed && now <= deadline,
        connect matches Ok(c) ==> {
            &&& c.wf()
            &&& c.guard() == guard
            &&& c.deadline() == deadline
            &&& c.backoff() == 10_000_000
            &&& 5 * c.max_backoff() <= deadline - now < 5 * c.max_backoff() + 5
            &&& final(pool)@ == old(pool)@
        },
        connect matches Err(error) ==> {
            &&& error is PoolClosed <==> old(pool)@.closed
            &&& error is PoolTimedOut <==> !old(pool)@.closed
            &&& claim_dropped(old(pool)@, guard, final(pool)@)
        },
        old(pool)@.semaphore.available < usize::MAX ==> call_requires(
            PoolInner::connect::<E>,
            (pool, deadline, guard, now),
        ),
{
    lemma_gained(old(pool)@.semaphore, 1);
}

/// What became of a claim that was dropped.
pub open spec fn claim_dropped(
    before: PoolState,
    guard: DecrementSizeGuard,
    after: PoolState,
) -> bool {
    &&& guard.is_cancelled() ==> after == before
    &&& !guard.is_cancelled() ==> {
        &&& before.size > 0 ==> after.size + 1 == before.size
        &&& before.size == 0 ==> after.size == 0
        &&& gained(before.semaphore, after.semaphore, 1)
        &&& after == (PoolState { size: after.size, semaphore: after.semaphore, ..before })
    }
}

/// An error that may pass never ends an attempt, however late it is: the caller waits for the time that
/// was due, and the next wait is twice as long, up to the limit. The claim is kept.
pub proof fn law_transient_error_is_retried<E>(
    connect: Connect,
    pool: &mut PoolInner,
    event: ConnectEvent<E>,
    now: u128,
    step: ConnectStep<E>,
)
    requires
        call_ensures(Connect::step::<E>, (connect, pool, event, now), step),
    ensures
        (match event {
            ConnectEvent::ClosedHard => true,
            ConnectEvent::Refused(ConnectError::Io { connection_refused, .. }) => connection_refused,
            ConnectEvent::Refused(ConnectError::Database { transient_in_connect_phase, .. }) =>
                transient_in_connect_phase,
            _ => false,
        }) ==> {
            &&& final(pool)@ == old(pool)@
            &&& step matches ConnectStep::Continue(next, action)
            &&& action == (ConnectAction::Sleep { duration: connect.backoff() })
            &&& next.guard() == connect.guard()
            &&& next.deadline() == connect.deadline()
            &&& next.max_backoff() == connect.max_backoff()
            &&& 2 * connect.backoff() <= connect.max_backoff() ==> next.backoff() == 2
                * connect.backoff()
            &&& 2 * connect.backoff() > connect.max_backoff() ==> next.backoff()
                == connect.max_backoff()
        },
{
}

/// The same of the relation that describes a step.
pub proof fn law_transient_error_never_ends_it<E>(
    connect: Connect,
    error: ConnectError<E>,
    after_connect: bool,
    now: u128,
    step: ConnectStep<E>,
)
    requires
        connect.continues(ConnectEvent::Refused(error), after_connect, now, step),
    ensures
        error matches ConnectError::Io { connection_refused, .. } ==> error.is_transient()
            == connection_refused,
        error matches ConnectError::Database { transient_in_connect_phase, .. }
            ==> error.is_transient() == transient_in_connect_phase,
        error is Other ==> !error.is_transient(),
        error.is_transient() ==> step is Continue,
        !error.is_transient() ==> step is Failed,
{
}

/// An attempt fails exactly for a deadline that has passed, for time that has run out, or for an error
/// that will not pass. The claim is dropped, and the caller is told which it was.
pub proof fn law_connect_fails<E>(
    connect: Connect,
    pool: &mut PoolInner,
    event: ConnectEvent<E>,
    now: u128,
    step: ConnectStep<E>,
)
    requires
        old(pool)@.wf(),
        call_ensures(Connect::step::<E>, (connect, pool, event, now), step),
    ensures
        step is Failed <==> match event {
            ConnectEvent::Due => connect.deadline() < now,
            ConnectEvent::TimedOut => true,
            ConnectEvent::Refused(ConnectError::Io { connection_refused, .. }) => !connection_refused,
            ConnectEvent::Refused(ConnectError::Database { transient_in_connect_phase, .. }) =>
                !transient_in_connect_phase,
            ConnectEvent::Refused(ConnectError::Other(_)) => true,
            _ => false,
        },
        step matches ConnectStep::Failed(error) ==> {
            &&& claim_dropped(old(pool)@, connect.guard(), final(pool)@)
            &&& event is Due || event is TimedOut ==> error is PoolTimedOut
            &&& event matches ConnectEvent::Refused(cause) ==> error == Error::Other(
                match cause {
                    ConnectError::Io { error, .. } => error,
                    ConnectError::Database { error, .. } => error,
                    ConnectError::Other(error) => error,
                },
            )
        },
        !(step is Failed) ==> final(pool)@ == old(pool)@,
{
    lemma_gained(old(pool)@.semaphore, 1);
}

/// An attempt that is due has the time until the deadline. A new connection is shown to the hook if there
/// is one, with no age, and is open once the hook is content. A connection that the hook fails on is
/// closed hard.
pub proof fn law_connect_goes_on<E>(
    connect: Connect,
    pool: &mut PoolInner,
    event: ConnectEvent<E>,
    now: u128,
    step: ConnectStep<E>,
)
    requires
        call_ensures(Connect::step::<E>, (connect, pool, event, now), step),
    ensures
        event is Due && now <= connect.deadline() ==> {
            &&& step matches ConnectStep::Continue(next, ConnectAction::Attempt { timeout })
            &&& now + timeout == connect.deadline()
            &&& next == connect
        },
        event matches ConnectEvent::Connected { raw } ==> {
            &&& old(pool)@.options.after_connect ==> {
                &&& step matches ConnectStep::Continue(
                    next,
                    ConnectAction::AfterConnect { raw: shown, metadata },
                )
                &&& shown == raw && metadata.age == 0 && metadata.idle_for == 0
                &&& next == connect
            }
            &&& !old(pool)@.options.after_connect ==> {
                &&& step matches ConnectStep::Opened(live)
                &&& live.inner.raw == raw && live.inner.created_at == now
                &&& live.guard == connect.guard()
            }
        },
        event matches ConnectEvent::HookSucceeded { raw } ==> {
            &&& step matches ConnectStep::Opened(live)
            &&& live.inner.raw == raw && live.inner.created_at == now
            &&& live.guard == connect.guard()
        },
        event matches ConnectEvent::HookFailed { raw } ==> {
            &&& step matches ConnectStep::Continue(next, ConnectAction::CloseHard { raw: closed })
            &&& closed == raw && next == connect
        },
        step is Opened ==> final(pool)@ == old(pool)@,
        connect.wf() && old(pool)@.semaphore.wf() && old(pool)@.semaphore.available < usize::MAX
            ==> call_requires(Connect::step::<E>, (connect, pool, event, now)),
{
}

/// A connection that is given up is dropped with its claim.
pub proof fn law_connect_given_up(connect: Connect, pool: &mut PoolInner)
    requires
        old(pool)@.wf(),
        call_ensures(Connect::cancel, (connect, pool), ()),
    ensures
        claim_dropped(old(pool)@, connect.guard(), final(pool)@),
{
    lemma_gained(old(pool)@.semaphore, 1);
}

// Maintenance.

/// A connection is opened for the minimum exactly if the pool is open, has fewer than the minimum and
/// fewer than the maximum, and a permit is available. It takes that permit and is counted.
pub proof fn law_minimum_is_opened<E>(
    pool: &mut PoolInner,
    now: u128,
    step: Result<MinConnectionsStep, Error<E>>,
)
    requires
        old(pool)@.wf(),
        call_ensures(
            PoolInner::try_min_connections::<E>,
            (pool, MinConnectionsEvent::Started, now),
            step,
        ),
    ensures
        step is Ok,
        step->Ok_0 is Connect <==> !old(pool)@.closed && old(pool)@.size
            < old(pool)@.options.min_connections && old(pool)@.size
            < old(pool)@.options.max_connections && old(pool)@.semaphore.available > 0,
        step->Ok_0 matches MinConnectionsStep::Connect(guard) ==> {
            &&& !guard.is_cancelled()
            &&& final(pool)@.size == old(pool)@.size + 1
            &&& final(pool)@.semaphore.available + 1 == old(pool)@.semaphore.available
            &&& final(pool)@.semaphore.waiters == old(pool)@.semaphore.waiters
            &&& final(pool)@ == (PoolState {
                size: final(pool)@.size,
                semaphore: final(pool)@.semaphore,
                ..old(pool)@
            })
        },
        step->Ok_0 is Done ==> final(pool)@ == old(pool)@,
{
}

/// A connection that was opened for the minimum lies idle from then on, and then it goes on as from the
/// start. An error is passed on.
pub proof fn law_minimum_goes_on<E>(
    pool: &mut PoolInner,
    live: Floating<Live>,
    now: u128,
    step: Result<MinConnectionsStep, Error<E>>,
    failed: &mut PoolInner,
    error: Error<E>,
    ended: Result<MinConnectionsStep, Error<E>>,
)
    requires
        old(pool)@.wf(),
        call_ensures(
            PoolInner::try_min_connections::<E>,
            (pool, MinConnectionsEvent::Opened(live), now),
            step,
        ),
        call_ensures(
            PoolInner::try_min_connections::<E>,
            (failed, MinConnectionsEvent::Failed(error), now),
            ended,
        ),
    ensures
        ended == Err::<MinConnectionsStep, Error<E>>(error) && final(failed)@ == old(failed)@,
        step is Ok,
        final(pool)@.idle.drop_last() == old(pool)@.idle,
        final(pool)@.idle.last().live == live.inner,
        final(pool)@.idle.last().idle_since == now,
        final(pool)@.num_idle == old(pool)@.num_idle + 1,
        ({
            let back = old(pool)@.semaphore.release(1);
            &&& gained(old(pool)@.semaphore, back, 1)
            &&& step->Ok_0 is Connect <==> !old(pool)@.closed && old(pool)@.size
                < old(pool)@.options.min_connections && old(pool)@.size
                < old(pool)@.options.max_connections && back.available > 0
            &&& step->Ok_0 is Connect ==> final(pool)@.size == old(pool)@.size + 1
                && final(pool)@.semaphore.available + 1 == back.available
                && final(pool)@.semaphore.waiters == back.waiters
            &&& step->Ok_0 is Done ==> final(pool)@.size == old(pool)@.size
                && final(pool)@.semaphore == back
        }),
{
    lemma_gained(old(pool)@.semaphore, 1);
    assert(final(pool)@.idle.drop_last() =~= old(pool)@.idle);
}

/// Getting to the minimum in the background opens a connection on the same terms, and has nothing to
/// report where none is opened.
pub proof fn law_maintenance_opens_the_minimum<E>(
    pool: &mut PoolInner,
    now: u128,
    step: MaintenanceStep<E>,
)
    requires
        old(pool)@.wf(),
        call_ensures(
            PoolInner::min_connections_maintenance::<E>,
            (pool, MinConnectionsEvent::Started, now),
            step,
        ),
    ensures
        step is Connect <==> !old(pool)@.closed && old(pool)@.size
            < old(pool)@.options.min_connections && old(pool)@.size
            < old(pool)@.options.max_connections && old(pool)@.semaphore.available > 0,
        step matches MaintenanceStep::Connect(guard) ==> {
            &&& !guard.is_cancelled()
            &&& final(pool)@.size == old(pool)@.size + 1
            &&& final(pool)@.semaphore.available + 1 == old(pool)@.semaphore.available
            &&& final(pool)@.semaphore.waiters == old(pool)@.semaphore.waiters
            &&& final(pool)@ == (PoolState {
                size: final(pool)@.size,
                semaphore: final(pool)@.semaphore,
                ..old(pool)@
            })
        },
        !(step is Connect) ==> {
            &&& step == MaintenanceStep::<E>::Done(MaintenanceLog::Nothing, None)
            &&& final(pool)@ == old(pool)@
        },
        old(pool).wf() ==> final(pool).wf(),
{
}

/// In the background, too, a connection that was opened lies idle from then on, and it goes on as from
/// the start.
pub proof fn law_maintenance_goes_on<E>(
    pool: &mut PoolInner,
    live: Floating<Live>,
    now: u128,
    step: MaintenanceStep<E>,
)
    requires
        old(pool)@.wf(),
        call_ensures(
            PoolInner::min_connections_maintenance::<E>,
            (pool, MinConnectionsEvent::Opened(live), now),
            step,
        ),
    ensures
        final(pool)@.idle.drop_last() == old(pool)@.idle,
        final(pool)@.idle.last().live == live.inner,
        final(pool)@.idle.last().idle_since == now,
        final(pool)@.num_idle == old(pool)@.num_idle + 1,
        ({
            let back = old(pool)@.semaphore.release(1);
            &&& gained(old(pool)@.semaphore, back, 1)
            &&& step is Connect <==> !old(pool)@.closed && old(pool)@.size
                < old(pool)@.options.min_connections && old(pool)@.size
                < old(pool)@.options.max_connections && back.available > 0
            &&& step is Connect ==> final(pool)@.size == old(pool)@.size + 1
                && final(pool)@.semaphore.available + 1 == back.available
                && final(pool)@.semaphore.waiters == back.waiters
            &&& !(step is Connect) ==> step == MaintenanceStep::<E>::Done(
                MaintenanceLog::Nothing,
                None,
            ) && final(pool)@.size == old(pool)@.size && final(pool)@.semaphore == back
        }),
        final(pool)@.options == old(pool)@.options,
        final(pool)@.closed == old(pool)@.closed,
        final(pool)@.num_permits == old(pool)@.num_permits,
{
    lemma_gained(old(pool)@.semaphore, 1);
    assert(final(pool)@.idle.drop_last() =~= old(pool)@.idle);
}

/// An error in the background changes nothing. It is reported, unless the pool was closed.
pub proof fn law_maintenance_reports<E>(
    pool: &mut PoolInner,
    error: Error<E>,
    now: u128,
    step: MaintenanceStep<E>,
)
    requires
        call_ensures(
            PoolInner::min_connections_maintenance::<E>,
            (pool, MinConnectionsEvent::Failed(error), now),
            step,
        ),
    ensures
        final(pool)@ == old(pool)@,
        error is PoolClosed ==> step == MaintenanceStep::<E>::Done(MaintenanceLog::Nothing, None),
        error is PoolTimedOut ==> step == MaintenanceStep::<E>::Done(
            MaintenanceLog::DeadlineMissed,
            None,
        ),
        error matches Error::Other(cause) ==> step == MaintenanceStep::Done(
            MaintenanceLog::Error,
            Some(cause),
        ),
{
}

/// The minimum can be looked after in any pool whose books are in order.
pub proof fn law_any_pool_can_be_maintained<E>(
    pool: &mut PoolInner,
    event: MinConnectionsEvent<E>,
    now: u128,
)
    requires
        old(pool).wf(),
        event is Opened ==> old(pool)@.size > old(pool)@.num_idle || (old(pool)@.closed && old(
            pool,
        )@.size == 0 && 1 <= old(pool)@.spare() && old(pool)@.num_idle < old(
            pool,
        )@.options.max_connections),
    ensures
        call_requires(PoolInner::min_connections_maintenance::<E>, (pool, event, now)),
        call_requires(PoolInner::try_min_connections::<E>, (pool, event, now)),
{
}

/// The deadline is the caller's, or else five minutes from now.
pub proof fn law_maintenance_deadline(deadline: Option<u128>, now: u128, chosen: u128)
    requires
        call_ensures(crate::maintenance::maintenance_deadline, (deadline, now), chosen),
    ensures
        deadline matches Some(given) ==> chosen == given,
        deadline is None ==> chosen == now + 300_000_000_000,
        now + 300_000_000_000 <= u128::MAX ==> call_requires(
            crate::maintenance::maintenance_deadline,
            (deadline, now),
        ),
{
}

/// Connections are looked at again and again exactly if one of the two limits is set, as often as the
/// shorter one says. Without limits the minimum is reached once, if there is one.
pub proof fn law_maintenance_plan(pool: PoolInner, plan: MaintenancePlan)
    requires
        call_ensures(crate::maintenance::spawn_maintenance_tasks, (&pool,), plan),
    ensures
        plan is Every <==> pool@.options.max_lifetime is Some || pool@.options.idle_timeout is Some,
        plan matches MaintenancePlan::Every { period } ==> {
            &&& pool@.options.max_lifetime matches Some(limit) ==> period <= limit
            &&& pool@.options.idle_timeout matches Some(limit) ==> period <= limit
            &&& pool@.options.max_lifetime == Some(period) || pool@.options.idle_timeout == Some(
                period,
            )
        },
        plan is Once <==> pool@.options.max_lifetime is None && pool@.options.idle_timeout is None
            && pool@.options.min_connections > 0,
        call_requires(crate::maintenance::spawn_maintenance_tasks, (&pool,)),
{
}

/// An open pool is swept, with one check for each idle connection, and never more than it may have. The
/// next sweep is due one period from now.
pub proof fn law_begin_sweep(pool: PoolInner, period: u128, now: u128, sweep: Option<Sweep>)
    requires
        call_ensures(PoolInner::begin_sweep, (&pool, period, now), sweep),
    ensures
        sweep is Some <==> !pool@.closed,
        sweep matches Some(begun) ==> {
            &&& begun.next_run == now + period
            &&& begun.checks <= pool@.num_idle
            &&& begun.checks <= pool@.options.max_connections
            &&& begun.checks == pool@.num_idle || begun.checks == pool@.options.max_connections
        },
        now + period <= u128::MAX ==> call_requires(PoolInner::begin_sweep, (&pool, period, now)),
{
}

/// A sweep closes the idle connection at the front exactly if it has lain idle for longer than the idle
/// limit or been open for longer than the lifetime limit, where they are set. No other option matters,
/// nor how many connections there are.
pub proof fn law_sweep_closes_the_expired(
    sweep: &mut Sweep,
    pool: &mut PoolInner,
    now: u128,
    step: SweepStep,
)
    requires
        old(pool)@.wf(),
        old(sweep).checks > 0,
        !old(pool)@.closed,
        old(pool)@.idle.len() > 0,
        old(pool)@.semaphore.available > 0,
        call_ensures(Sweep::check, (sweep, pool, now), step),
    ensures
        ({
            let front = old(pool)@.idle[0];
            let options = old(pool)@.options;
            let expired = (options.idle_timeout is Some && front.idle_since + options.idle_timeout->0
                < now) || (options.max_lifetime is Some && front.live.created_at
                + options.max_lifetime->0 < now);
            let rest = old(pool)@.idle.subrange(1, old(pool)@.idle.len() as int);
            &&& step is Close <==> expired
            &&& step is Continue <==> !expired
            &&& step matches SweepStep::Close(closed) ==> {
                &&& closed.inner == front
                &&& !closed.guard.is_cancelled()
                &&& final(pool)@.idle == rest
                &&& final(pool)@.num_idle + 1 == old(pool)@.num_idle
                &&& final(pool)@.semaphore.available + 1 == old(pool)@.semaphore.available
            }
            // One that is kept lies idle anew, at the end of the queue.
            &&& step is Continue ==> {
                &&& final(pool)@.idle == rest.push(Idle { live: front.live, idle_since: now })
                &&& final(pool)@.num_idle == old(pool)@.num_idle
                &&& final(pool)@.semaphore == old(pool)@.semaphore
            }
        }),
        final(pool)@.size == old(pool)@.size,
        final(pool)@.num_permits == old(pool)@.num_permits,
        final(pool)@.options == old(pool)@.options,
        !final(pool)@.closed,
        final(sweep).checks + 1 == old(sweep).checks,
        final(sweep).next_run == old(sweep).next_run,
{
    old(pool)@.lemma_take_give_back(1);
    assert(old(pool)@.idle.drop_first() =~= old(pool)@.idle.subrange(
        1,
        old(pool)@.idle.len() as int,
    ));
}

/// A check that finds nothing to look at changes nothing. After the last one the sweep rests until the
/// next is due, and no longer than that.
pub proof fn law_sweep_goes_on(sweep: &mut Sweep, pool: &mut PoolInner, now: u128, step: SweepStep)
    requires
        old(sweep).checks == 0 || old(pool)@.closed || old(pool)@.idle.len() == 0
            || old(pool)@.semaphore.available == 0,
        call_ensures(Sweep::check, (sweep, pool, now), step),
    ensures
        final(pool)@ == old(pool)@,
        final(sweep).next_run == old(sweep).next_run,
        old(sweep).checks > 0 ==> step is Continue && final(sweep).checks + 1 == old(sweep).checks,
        old(sweep).checks == 0 ==> {
            &&& final(sweep).checks == 0
            &&& step is Yield <==> old(sweep).next_run < now
            &&& step is Sleep <==> now <= old(sweep).next_run
            &&& step matches SweepStep::Sleep { duration } ==> now + duration == old(sweep).next_run
        },
        old(pool).wf() ==> call_requires(Sweep::check, (sweep, pool, now)),
{
}

// The donation barrier.

/// A slot holds what was installed last, and nothing at first. Entering the window runs what it is given,
/// and says whether that was anything.
pub proof fn law_barrier_slot<B: Fn()>(
    slot: &mut DonationBarrierSlot<B>,
    barrier: Option<Arc<B>>,
    fresh: DonationBarrierSlot<B>,
    held: DonationBarrierSlot<B>,
    got: Option<Arc<B>>,
    entered: bool,
)
    requires
        call_ensures(crate::donation_barrier::set_donation_barrier::<B>, (slot, barrier), ()),
        call_ensures(DonationBarrierSlot::<B>::new, (), fresh),
        call_ensures(DonationBarrierSlot::<B>::barrier, (&held,), got),
        call_ensures(crate::donation_barrier::enter_donation_window::<B>, (got,), entered),
    ensures
        final(slot)@ == barrier,
        fresh@ is None,
        got == held@,
        entered == (held@ is Some),
        held@ matches Some(b) ==> call_ensures(*b, (), ()),
{
}

// Migrations.

/// A migration with a lower version comes first, whatever the versions are. Of those with the same
/// version the simple one comes first, then the one that goes up, then the one that goes down.
pub proof fn law_migration_order(a: Migration, b: Migration, order: Ordering)
    requires
        call_ensures(Migration::cmp, (&a, &b), order),
    ensures
        a.version < b.version ==> order is Less,
        a.version > b.version ==> order is Greater,
        a.version == b.version ==> {
            &&& order is Equal <==> a.migration_type == b.migration_type
            &&& a.migration_type is Simple && !(b.migration_type is Simple) ==> order is Less
            &&& a.migration_type is ReversibleUp && b.migration_type is Simple ==> order is Greater
            &&& a.migration_type is ReversibleUp && b.migration_type is ReversibleDown
                ==> order is Less
            &&& a.migration_type is ReversibleDown && !(b.migration_type is ReversibleDown)
                ==> order is Greater
        },
        a.order(b) == order,
        call_requires(Migration::cmp, (&a, &b)),
{
}

/// Two migrations are the same exactly if version and kind are: a difference in either tells them apart,
/// and nothing else does. One precedes another exactly if it comes first in the order.
pub proof fn law_migration_identity(a: Migration, b: Migration)
    ensures
        a.same(b) <==> a.version == b.version && a.migration_type == b.migration_type,
        a.version < b.version ==> a.order(b) is Less && a.precedes(b),
        a.version > b.version ==> a.order(b) is Greater && !a.precedes(b),
        a.precedes(b) <==> a.order(b) is Less,
{
}

/// The operators on migrations go by the same order and the same identity.
pub proof fn law_migration_operators(
    a: Migration,
    b: Migration,
    equal: bool,
    order: Option<Ordering>,
    copy: Migration,
)
    requires
        call_ensures(Migration::eq, (&a, &b), equal),
        call_ensures(Migration::partial_cmp, (&a, &b), order),
        call_ensures(Migration::clone, (&a,), copy),
    ensures
        equal <==> a.version == b.version && a.migration_type == b.migration_type,
        order is Some,
        a.version < b.version ==> order->0 is Less,
        a.version > b.version ==> order->0 is Greater,
        equal <==> order->0 is Equal,
        copy.version == a.version && copy.migration_type == a.migration_type,
        copy.description@ == a.description@ && copy.sql@ == a.sql@,
        copy.checksum@ == a.checksum@ && copy.no_tx == a.no_tx,
{
}

/// A migration keeps what it was made of, and its checksum is the digest of the bytes of its SQL.
pub proof fn law_new_migration(
    version: i64,
    description: Cow<'static, str>,
    migration_type: MigrationType,
    sql: Cow<'static, str>,
    checksum: Vec<u8>,
    no_tx: bool,
    new: Migration,
    known: Migration,
)
    requires
        call_ensures(Migration::new, (version, description, migration_type, sql, no_tx), new),
        call_ensures(
            Migration::with_checksum,
            (version, description, migration_type, sql, checksum, no_tx),
            known,
        ),
    ensures
        new.version == version && known.version == version,
        new.description == description && known.description == description,
        new.migration_type == migration_type && known.migration_type == migration_type,
        new.sql == sql && known.sql == sql,
        new.no_tx == no_tx && known.no_tx == no_tx,
        new.checksum@ == crate::migration::sha384(vstd::utf8::encode_utf8(sql@)),
        new.checksum@.len() == 48,
        known.checksum@ == checksum@,
{
}

} // verus!
