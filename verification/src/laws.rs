//! What holds of pools whatever is done to them.
//!
//! The methods of a pool say what each of them does. Here stands what follows for any number of
//! them, in any order, on one pool or on a family of pools.

use crate::close::{Close, ClosePoll, CloseStage};
use crate::idle::Idle;
use crate::migration::Migration;
use crate::permit::{AcquirePermit, OutcomeKind, PollKind, TransferEnd};
use crate::semaphore::{Acquire, AcquireStage, SemaphoreState, Waiter};
use crate::state::PoolState;
use std::sync::Arc;
use vstd::prelude::*;

verus! {

/// A change to a pool. Every method of a pool that changes it makes one or more of these.
pub enum Step {
    MarkClosed,
    TakePermit,
    GiveBack(nat),
    Poll(Acquire),
    Cancel(Acquire),
    PopIdle,
    Release(Idle),
    Grow,
    DropGuard,
    Donate,
    Adopt,
    Credit(nat),
    DrainOne,
    Drained,
}

impl Step {
    /// Whether the pool can undergo this change. Connections are handed out and permits change
    /// hands only while it is open, and only a closed pool is drained. Whatever comes back has been
    /// out.
    pub open spec fn allowed(self, pool: PoolState) -> bool {
        match self {
            Step::MarkClosed => true,
            Step::TakePermit => pool.semaphore.available >= 1,
            Step::GiveBack(n) => n <= pool.spare(),
            Step::Poll(_) => pool.semaphore.has_free_ticket(),
            Step::Cancel(_) => true,
            Step::PopIdle => pool.can_pop_idle() && 1 <= pool.spare(),
            Step::Release(_) => pool.has_checkout() && pool.has_room(),
            Step::Grow => pool.can_grow() && 1 <= pool.spare(),
            Step::DropGuard => pool.has_checkout(),
            Step::Donate => !pool.closed && 1 <= pool.spare(),
            Step::Adopt => !pool.closed && pool.num_permits < pool.options.max_connections,
            Step::Credit(n) => pool.num_permits + n <= u32::MAX,
            Step::DrainOne => pool.closed && pool.idle.len() > 0,
            Step::Drained => pool.closed && pool.idle.len() == 0,
        }
    }

    pub open spec fn apply(self, pool: PoolState) -> PoolState {
        match self {
            Step::MarkClosed => pool.mark_closed(),
            Step::TakePermit => pool.take(1),
            Step::GiveBack(n) => pool.give_back(n),
            Step::Poll(acquire) => pool.polled(acquire),
            Step::Cancel(acquire) => pool.cancelled(acquire),
            Step::PopIdle => pool.pop_idle(),
            Step::Release(idle) => pool.push_idle(idle).give_back(1),
            Step::Grow => pool.grow(),
            Step::DropGuard => pool.drop_guard(),
            Step::Donate => pool.donate(),
            Step::Adopt => pool.adopt(),
            Step::Credit(n) => pool.credit(n),
            Step::DrainOne => pool.drain_one(),
            Step::Drained => pool.drained(),
        }
    }
}

/// Whether the pool can undergo these changes one after the other.
pub open spec fn allowed_run(pool: PoolState, steps: Seq<Step>) -> bool
    decreases steps.len(),
{
    steps.len() == 0 || {
        &&& steps[0].allowed(pool)
        &&& allowed_run(steps[0].apply(pool), steps.drop_first())
    }
}

/// The pool after these changes.
pub open spec fn run(pool: PoolState, steps: Seq<Step>) -> PoolState
    decreases steps.len(),
{
    if steps.len() == 0 {
        pool
    } else {
        run(steps[0].apply(pool), steps.drop_first())
    }
}

/// A pool stays well-formed: it never has more connections than it may have, no counter wraps, every
/// connection in use has a permit, and unless it is emptied it has no more idle ones than it counts.
pub proof fn law_stays_well_formed(pool: PoolState, step: Step)
    requires
        pool.wf(),
        step.allowed(pool),
    ensures
        step.apply(pool).wf(),
{
    match step {
        Step::TakePermit => pool.lemma_take(1),
        Step::GiveBack(n) => pool.lemma_give_back(n),
        Step::Poll(acquire) => pool.lemma_polled(acquire),
        Step::Cancel(acquire) => pool.lemma_cancelled(acquire),
        Step::Release(idle) => pool.push_idle(idle).semaphore.lemma_release(1),
        Step::DropGuard => pool.semaphore.lemma_release(1),
        Step::Credit(n) => pool.semaphore.lemma_release(n),
        _ => {},
    }
}

/// A closed pool never reopens. Its permits never become fewer, its connections and those in use
/// never more.
pub proof fn law_closing_freezes(pool: PoolState, step: Step)
    requires
        pool.wf(),
        pool.closed,
        step.allowed(pool),
    ensures
        step.apply(pool).closed,
        step.apply(pool).num_permits >= pool.num_permits,
        step.apply(pool).size <= pool.size,
        step.apply(pool).in_use() <= pool.in_use(),
{
}

/// The same, over any number of changes.
pub proof fn law_closed_for_good(pool: PoolState, steps: Seq<Step>)
    requires
        pool.wf(),
        pool.closed,
        allowed_run(pool, steps),
    ensures
        run(pool, steps).wf(),
        run(pool, steps).closed,
        run(pool, steps).num_permits >= pool.num_permits,
        run(pool, steps).size <= pool.size,
        run(pool, steps).in_use() <= pool.in_use(),
    decreases steps.len(),
{
    if steps.len() > 0 {
        law_stays_well_formed(pool, steps[0]);
        law_closing_freezes(pool, steps[0]);
        law_closed_for_good(steps[0].apply(pool), steps.drop_first());
    }
}

/// Closing a pool changes nothing but that it is closed, closing it again changes nothing at all, and
/// nothing that happens later opens it.
pub proof fn law_closing_changes_nothing_else(pool: PoolState, steps: Seq<Step>)
    requires
        pool.wf(),
        allowed_run(pool.mark_closed(), steps),
    ensures
        pool.mark_closed() == (PoolState { closed: true, ..pool }),
        pool.mark_closed().mark_closed() == pool.mark_closed(),
        run(pool.mark_closed(), steps).closed,
{
    law_closed_for_good(pool.mark_closed(), steps);
}

/// From the day it is made, a pool has at most as many connections as its options allow.
pub proof fn law_never_too_many_connections(
    options: crate::options::PoolOptions,
    has_parent: bool,
    steps: Seq<Step>,
)
    requires
        allowed_run(PoolState::opened(options, has_parent), steps),
    ensures
        run(PoolState::opened(options, has_parent), steps).wf(),
        run(PoolState::opened(options, has_parent), steps).options == options,
        run(PoolState::opened(options, has_parent), steps).size <= options.max_connections,
{
    lemma_run_keeps_wf(PoolState::opened(options, has_parent), steps);
}

proof fn lemma_run_keeps_wf(pool: PoolState, steps: Seq<Step>)
    requires
        pool.wf(),
        allowed_run(pool, steps),
    ensures
        run(pool, steps).wf(),
        run(pool, steps).options == pool.options,
    decreases steps.len(),
{
    if steps.len() > 0 {
        law_stays_well_formed(pool, steps[0]);
        lemma_run_keeps_wf(steps[0].apply(pool), steps.drop_first());
    }
}

/// Permits are neither made nor lost within a pool: it owns as many after a change as before, but
/// for those that it donates, adopts or is credited with.
pub proof fn law_pool_makes_no_permits(pool: PoolState, step: Step)
    requires
        pool.wf(),
        step.allowed(pool),
    ensures
        step.apply(pool).num_permits == match step {
            Step::Donate => pool.num_permits - 1,
            Step::Adopt => (pool.num_permits + 1) as int,
            Step::Credit(n) => (pool.num_permits + n) as int,
            _ => pool.num_permits as int,
        },
{
}

/// As long as a pool is open, it counts as idle just the connections in its queue.
pub proof fn law_idle_counter_is_exact(
    options: crate::options::PoolOptions,
    has_parent: bool,
    steps: Seq<Step>,
)
    requires
        allowed_run(PoolState::opened(options, has_parent), steps),
        !run(PoolState::opened(options, has_parent), steps).closed,
    ensures
        run(PoolState::opened(options, has_parent), steps).num_idle == run(
            PoolState::opened(options, has_parent),
            steps,
        ).idle.len(),
{
    lemma_run_keeps_idle_counter(PoolState::opened(options, has_parent), steps);
}

proof fn lemma_run_keeps_idle_counter(pool: PoolState, steps: Seq<Step>)
    requires
        pool.wf(),
        !pool.closed ==> pool.num_idle == pool.idle.len(),
        allowed_run(pool, steps),
    ensures
        !run(pool, steps).closed ==> run(pool, steps).num_idle == run(pool, steps).idle.len(),
    decreases steps.len(),
{
    if steps.len() > 0 {
        law_stays_well_formed(pool, steps[0]);
        lemma_run_keeps_idle_counter(steps[0].apply(pool), steps.drop_first());
    }
}

/// In an open pool that owns no more permits than it may have connections, whoever has a permit
/// gets a connection: an idle one, or else a new one.
pub proof fn law_permit_means_connection(pool: PoolState)
    requires
        pool.wf(),
        !pool.closed,
        pool.num_idle == pool.idle.len(),
        pool.num_permits <= pool.options.max_connections,
        1 <= pool.spare(),
    ensures
        pool.can_pop_idle() || pool.can_grow(),
{
}

/// The pool hands nothing out once it is closed, whatever permit a caller brings.
pub proof fn law_closed_pool_hands_out_nothing(pool: PoolState)
    requires
        pool.closed,
    ensures
        !pool.can_pop_idle(),
        !pool.can_grow(),
        !pool.wants_connection(),
{
}

/// First come, first served: a request that has a permit comes after none that is short of permits.
pub proof fn law_first_come_first_served(semaphore: SemaphoreState, older: int, younger: int)
    requires
        semaphore.wf(),
        0 <= older < younger < semaphore.waiters.len(),
        semaphore.waiters[younger].assigned > 0,
    ensures
        semaphore.waiters[older].assigned == semaphore.waiters[older].needed,
{
    let first = semaphore.waiters[older];
    let second = semaphore.waiters[younger];
    if first.assigned < first.needed {
        assert(second.assigned == 0);
    }
}

/// No permit lies idle while a request is short of permits.
pub proof fn law_no_permit_lies_idle(semaphore: SemaphoreState, waiting: int)
    requires
        semaphore.wf(),
        0 <= waiting < semaphore.waiters.len(),
        semaphore.waiters[waiting].assigned < semaphore.waiters[waiting].needed,
    ensures
        semaphore.available == 0,
{
    let waiter = semaphore.waiters[waiting];
    assert(waiter.assigned < waiter.needed);
}

/// A request that is abandoned leaves the queue, and all the others keep their order.
pub proof fn law_queue_moves_up(semaphore: SemaphoreState, place: int, acquire: Acquire)
    requires
        semaphore.wf(),
        0 <= place < semaphore.waiters.len(),
        acquire.stage == AcquireStage::Queued(semaphore.waiters[place].ticket),
    ensures
        semaphore.cancelled(acquire).waiters.len() == semaphore.waiters.len() - 1,
        forall|i: int|
            0 <= i < semaphore.waiters.len() - 1 ==> {
                let before = semaphore.waiters.remove(place)[i];
                let after = #[trigger] semaphore.cancelled(acquire).waiters[i];
                after.ticket == before.ticket && after.needed == before.needed
            },
{
    semaphore.lemma_place(place);
    semaphore.lemma_cancelled_queue(place);
}

// Closing.

proof fn lemma_assigned_is_part(waiters: Seq<Waiter>, i: int)
    requires
        0 <= i < waiters.len(),
    ensures
        waiters[i].assigned <= crate::semaphore::assigned_sum(waiters),
    decreases waiters.len(),
{
    if i > 0 {
        lemma_assigned_is_part(waiters.drop_first(), i - 1);
    }
}

proof fn lemma_nothing_assigned(waiters: Seq<Waiter>)
    requires
        forall|i: int| 0 <= i < waiters.len() ==> (#[trigger] waiters[i]).assigned == 0,
    ensures
        crate::semaphore::assigned_sum(waiters) == 0,
    decreases waiters.len(),
{
    if waiters.len() > 0 {
        let rest = waiters.drop_first();
        assert forall|i: int| 0 <= i < rest.len() implies (#[trigger] rest[i]).assigned == 0 by {
            assert(rest[i] == waiters[i + 1]);
        }
        lemma_nothing_assigned(rest);
    }
}

/// A request that is granted finds its permits in the semaphore.
proof fn lemma_granted_from_total(semaphore: SemaphoreState, acquire: Acquire)
    requires
        semaphore.wf(),
        semaphore.grants(acquire),
    ensures
        acquire.needed <= semaphore.total(),
{
    if let AcquireStage::Queued(ticket) = acquire.stage {
        let i = semaphore.place(ticket);
        assert(semaphore.waiters[i].ticket == ticket);
        lemma_assigned_is_part(semaphore.waiters, i);
    }
}

/// A close asks for every permit that the pool owns when it is first polled: for its own spare
/// ones too, and for none that it has donated.
pub proof fn law_close_target(close: Close, parent: PoolState)
    requires
        close.stage is Unpolled,
        parent.wf(),
    ensures
        close.request(parent).needed == parent.num_permits,
        1 <= parent.spare() ==> close.request(parent.donate()).needed == parent.num_permits - 1,
{
}

/// A close waits for every connection in use, and for everybody who has a permit and no connection
/// yet. Only permits that children returned after the close had decided how many to wait for can
/// stand in for some of them.
pub proof fn law_close_waits_for_checkouts(close: Close, pool: PoolState)
    requires
        pool.wf(),
        close.is_waiting(),
        close.passes(pool),
    ensures
        pool.in_use() <= pool.outstanding() <= pool.num_permits - close.request(pool).needed,
        close.request(pool).needed == pool.num_permits ==> pool.in_use() == 0,
{
    lemma_granted_from_total(pool.semaphore, close.request(pool));
}

/// The oldest request is granted once the semaphore holds as many permits as it asks for.
proof fn lemma_first_is_granted(semaphore: SemaphoreState, acquire: Acquire)
    requires
        semaphore.wf(),
        semaphore.waiters.len() > 0,
        acquire.stage == AcquireStage::Queued(semaphore.waiters[0].ticket),
        acquire.needed == semaphore.waiters[0].needed,
    ensures
        acquire.needed <= semaphore.total() ==> semaphore.grants(acquire),
{
    let waiters = semaphore.waiters;
    semaphore.lemma_place(0);
    if waiters[0].assigned < waiters[0].needed {
        let rest = waiters.drop_first();
        assert forall|i: int| 0 <= i < rest.len() implies (#[trigger] rest[i]).assigned == 0 by {
            assert(rest[i] == waiters[i + 1]);
        }
        lemma_nothing_assigned(rest);
    }
}

/// Once every permit is back, the oldest request that asks for no more than the pool owns is
/// granted. So of the closes of one pool that wait, the first one always comes through.
pub proof fn law_close_comes_through(pool: PoolState, acquire: Acquire)
    requires
        pool.wf(),
        pool.outstanding() == 0,
        pool.semaphore.waiters.len() > 0,
        acquire.stage == AcquireStage::Queued(pool.semaphore.waiters[0].ticket),
        acquire.needed == pool.semaphore.waiters[0].needed,
        acquire.needed <= pool.num_permits,
    ensures
        pool.semaphore.grants(acquire),
{
    lemma_first_is_granted(pool.semaphore, acquire);
}

/// A close that is polled for the first time when every permit is back, and nobody else waits,
/// does not have to wait.
pub proof fn law_close_of_a_quiet_pool(close: Close, pool: PoolState)
    requires
        pool.wf(),
        close.stage is Unpolled,
        pool.outstanding() == 0,
        pool.semaphore.waiters.len() == 0,
    ensures
        close.passes(pool),
{
}

/// A close that is first in the queue passes exactly if as many permits are in the semaphore as it
/// asks for. Where it asks for all that the pool owns, that is when every single one is back: those of
/// connections in use, of connections being opened or returned, and those that another close holds.
pub proof fn law_close_passes_exactly_with_its_permits(close: Close, pool: PoolState)
    requires
        pool.wf(),
        close.stage is Unpolled && pool.semaphore.waiters.len() == 0 || {
            &&& close.stage is Waiting
            &&& pool.semaphore.waiters.len() > 0
            &&& close.request(pool).stage == AcquireStage::Queued(pool.semaphore.waiters[0].ticket)
            &&& close.request(pool).needed == pool.semaphore.waiters[0].needed
        },
    ensures
        close.passes(pool) <==> close.request(pool).needed <= pool.semaphore.total(),
        close.request(pool).needed == pool.num_permits ==> (close.passes(pool)
            <==> pool.outstanding() == 0),
{
    let request = close.request(pool);
    if close.passes(pool) {
        lemma_granted_from_total(pool.semaphore, request);
    }
    if close.stage is Waiting {
        lemma_first_is_granted(pool.semaphore, request);
    }
}

/// A pool that owns no permits, such as a child that has borrowed none, is closed without waiting.
pub proof fn law_close_of_an_empty_child(close: Close, pool: PoolState)
    requires
        pool.wf(),
        close.stage is Unpolled,
        pool.num_permits == 0,
    ensures
        close.passes(pool),
{
}

/// Whether each of these changes brings a connection that was in use back, or ends it.
pub open spec fn are_returns(steps: Seq<Step>) -> bool {
    forall|i: int|
        0 <= i < steps.len() ==> (#[trigger] steps[i] is Release || steps[i] is DropGuard)
}

proof fn lemma_returns(pool: PoolState, steps: Seq<Step>)
    requires
        pool.wf(),
        are_returns(steps),
        steps.len() <= pool.in_use(),
    ensures
        allowed_run(pool, steps),
        run(pool, steps).wf(),
        run(pool, steps).num_permits == pool.num_permits,
        run(pool, steps).in_use() == pool.in_use() - steps.len(),
        run(pool, steps).spare() == pool.spare(),
        run(pool, steps).semaphore.waiters.len() == pool.semaphore.waiters.len(),
        pool.semaphore.waiters.len() > 0 ==> {
            let before = pool.semaphore.waiters[0];
            let after = run(pool, steps).semaphore.waiters[0];
            after.ticket == before.ticket && after.needed == before.needed
        },
    decreases steps.len(),
{
    if steps.len() > 0 {
        let step = steps[0];
        let rest = steps.drop_first();
        assert(step is Release || step is DropGuard);
        pool.semaphore.lemma_release(1);
        law_stays_well_formed(pool, step);
        if pool.semaphore.waiters.len() > 0 {
            assert(pool.semaphore.release(1).waiters[0].ticket == pool.semaphore.waiters[0].ticket);
        }
        assert forall|i: int| 0 <= i < rest.len() implies (#[trigger] rest[i] is Release
            || rest[i] is DropGuard) by {
            assert(rest[i] == steps[i + 1]);
        }
        lemma_returns(step.apply(pool), rest);
    }
}

/// A close that waits needs nothing but the pool's own connections to come back, in whatever order
/// and whether or not they are still good. Permits that a child holds do not matter.
pub proof fn law_close_needs_only_own_checkouts(
    pool: PoolState,
    acquire: Acquire,
    steps: Seq<Step>,
)
    requires
        pool.wf(),
        pool.spare() == 0,
        pool.semaphore.waiters.len() > 0,
        acquire.stage == AcquireStage::Queued(pool.semaphore.waiters[0].ticket),
        acquire.needed == pool.semaphore.waiters[0].needed,
        acquire.needed <= pool.num_permits,
        are_returns(steps),
        steps.len() == pool.in_use(),
    ensures
        allowed_run(pool, steps),
        run(pool, steps).semaphore.grants(acquire),
{
    lemma_returns(pool, steps);
    law_close_comes_through(run(pool, steps), acquire);
}

/// Past its wait, a close takes the idle connections out one after the other, the oldest first,
/// before it is done. They stay counted until then.
pub proof fn law_close_drains_in_order(close: Close, pool: PoolState)
    requires
        close.passes(pool),
        pool.idle.len() > 0,
    ensures
        close.polled_result(pool) == ClosePoll::CloseConnection(pool.idle[0]),
        close.polled_pool(pool).idle == pool.idle.drop_first(),
        close.polled_pool(pool).size == pool.size,
        close.polled_pool(pool).num_idle == pool.num_idle,
{
}

/// When a close is done, the pool is closed and has no connection left, neither idle nor counted.
/// It has the permits that it had, those that the close held are back in the semaphore.
pub proof fn law_close_leaves_nothing(close: Close, pool: PoolState)
    requires
        pool.wf(),
        pool.closed,
        pool.semaphore.has_free_ticket(),
        close.stage matches CloseStage::Draining(permits) ==> permits.count() <= pool.spare(),
        !(close.stage is Done),
        close.polled_result(pool) == ClosePoll::Done,
    ensures
        close.polled_pool(pool).wf(),
        close.polled_pool(pool).closed,
        close.polled_pool(pool).idle.len() == 0,
        close.polled_pool(pool).num_idle == 0,
        close.polled_pool(pool).size == 0,
        close.polled_pool(pool).num_permits == pool.num_permits,
        close.held(pool) == pool.num_permits ==> close.polled_pool(pool).outstanding() == 0,
{
    pool.lemma_polled(close.request(pool));
    close.waited(pool).drained().lemma_give_back(close.held(pool));
}

/// While one close holds the permits of the pool, another close of it gets past its wait only with
/// permits beyond those. So where the first one holds them all, nobody is told that the pool is
/// closed before its last connection is.
pub proof fn law_closes_of_one_pool_take_turns(first: Close, second: Close, pool: PoolState)
    requires
        pool.wf(),
        first.stage is Draining,
        first.held(pool) <= pool.spare(),
        second.is_waiting(),
    ensures
        second.passes(pool) ==> second.request(pool).needed + first.held(pool) <= pool.num_permits,
        first.held(pool) == pool.num_permits && second.request(pool).needed > 0 ==> !second.passes(
            pool,
        ),
{
    if second.passes(pool) {
        lemma_granted_from_total(pool.semaphore, second.request(pool));
    }
}

/// Abandoning a request, be it of a close or of a caller that wants a connection, loses no permit
/// and changes nothing else.
pub proof fn law_cancelling_loses_nothing(pool: PoolState, acquire: Acquire)
    requires
        pool.wf(),
    ensures
        pool.cancelled(acquire).wf(),
        pool.cancelled(acquire).semaphore.total() == pool.semaphore.total(),
        pool.cancelled(acquire) == (PoolState {
            semaphore: pool.cancelled(acquire).semaphore,
            ..pool
        }),
{
    pool.semaphore.lemma_cancelled(acquire);
}

/// What a close waits for is within what the pool owns when the close decides on it, and stays
/// within that, whatever happens meanwhile. A child that is dropped only adds permits that the close
/// does not wait for.
pub proof fn law_close_target_stays_in_reach(close: Close, pool: PoolState, steps: Seq<Step>)
    requires
        pool.wf(),
        pool.closed,
        close.is_waiting(),
        allowed_run(pool, steps),
    ensures
        close.stage is Unpolled ==> close.request(pool).needed <= pool.num_permits,
        close.request(pool).needed <= pool.num_permits ==> close.request(pool).needed <= run(
            pool,
            steps,
        ).num_permits,
{
    law_closed_for_good(pool, steps);
}

// Parents and children.

/// A permit that changes hands is counted by exactly one of the two pools. Nothing else changes.
pub proof fn law_transfer_conserves_permits(child: PoolState, parent: PoolState, offered: bool)
    requires
        child.wf(),
        parent.wf(),
        offered ==> 1 <= parent.spare(),
    ensures
        ({
            let child_after = crate::permit::transferred_child(child, parent, offered);
            let parent_after = crate::permit::transferred_parent(child, parent, offered);
            &&& child_after.wf()
            &&& parent_after.wf()
            &&& child_after.num_permits + parent_after.num_permits == child.num_permits
                + parent.num_permits
            &&& child_after == (PoolState { num_permits: child_after.num_permits, ..child })
            &&& parent_after == (PoolState { num_permits: parent_after.num_permits, ..parent })
        }),
{
}

/// A child never borrows more permits than it may have connections.
pub proof fn law_child_stays_within_its_limit(child: PoolState, parent: PoolState, offered: bool)
    requires
        child.num_permits <= child.options.max_connections,
    ensures
        crate::permit::transferred_child(child, parent, offered).num_permits
            <= child.options.max_connections,
{
}

/// A donation changes nothing for those who use connections, in either pool: the permit that the
/// parent sets aside leaves it for good, and the child has it in its semaphore.
pub proof fn law_donation_disturbs_no_checkout(
    child: PoolState,
    parent: PoolState,
    request: Acquire,
)
    requires
        child.wf(),
        parent.wf(),
        child.num_permits < child.options.max_connections,
        parent.semaphore.has_free_ticket(),
        request.needed == 1,
        parent.semaphore.grants(request),
    ensures
        parent.polled(request).donate().wf(),
        parent.polled(request).donate().outstanding() == parent.outstanding(),
        child.adopt().give_back(1).wf(),
        child.adopt().give_back(1).outstanding() == child.outstanding(),
{
    parent.lemma_polled(request);
    child.adopt().lemma_give_back(1);
}

/// A closed parent keeps its permits. One that was set aside for a child goes back into the
/// parent's semaphore, the child is closed in turn and owns nothing more than before, and the caller
/// is told that the pool is closed.
pub proof fn law_closed_parent_keeps_its_permits(
    caller: AcquirePermit,
    child: PoolState,
    parent: PoolState,
)
    requires
        child.wf(),
        parent.wf(),
        parent.closed,
        1 <= parent.spare(),
        !child.closed,
        child.num_permits < child.options.max_connections,
    ensures
        ({
            let end = crate::permit::transfer_end(child, parent, true);
            &&& end.outcome == OutcomeKind::ParentClosed
            &&& end.hands_back
            &&& crate::permit::transferred_parent(child, parent, true) == parent
            &&& crate::permit::transferred_child(child, parent, true) == child
            &&& caller.settled_parent(parent, end) == parent.give_back(1)
            &&& parent.give_back(1).num_permits == parent.num_permits
            &&& parent.give_back(1).semaphore.total() == parent.semaphore.total() + 1
            &&& caller.settled_child(child, end) == child.mark_closed()
            &&& caller.settled_kind(child, end) == PollKind::Closed
        }),
{
    parent.semaphore.lemma_release(1);
}

/// A permit that was free when the child asked for it, and is refused because the parent was closed
/// in between, leaves no trace in the parent: it is as if it had never been asked.
pub proof fn law_refusal_leaves_no_trace(
    caller: AcquirePermit,
    child: PoolState,
    parent: PoolState,
)
    requires
        caller.wf(),
        child.wf(),
        parent.wf(),
        !child.closed,
        child.num_permits < child.options.max_connections,
        caller.parent_request().stage == AcquireStage::Unpolled,
        parent.semaphore.grants(caller.parent_request()),
    ensures
        ({
            let reserved = parent.polled(caller.parent_request()).mark_closed();
            let end = crate::permit::transfer_end(child, reserved, true);
            caller.reserved(parent).settled_parent(reserved, end) == parent.mark_closed()
        }),
{
    parent.semaphore.lemma_take_release(1);
}

/// While nothing else happens to the pools, a caller that knows whether they are closed does not
/// run into that refusal: it asks no parent that is closed.
pub proof fn law_refusal_takes_a_race(
    caller: AcquirePermit,
    child: PoolState,
    parent: PoolState,
    offered: bool,
)
    requires
        child.has_parent,
        caller.begun_kind(child, child.closed, parent.closed) is Borrow,
    ensures
        !crate::permit::refuses(
            caller.begun_child(child, child.closed, parent.closed),
            parent.polled(caller.begun(child, child.closed, parent.closed).parent_request()),
            offered,
        ),
{
}

/// Whoever waits for a permit of a pool that is closed is turned away, and changes nothing.
pub proof fn law_closed_pool_turns_callers_away(
    caller: AcquirePermit,
    pool: PoolState,
    parent_closed: bool,
)
    ensures
        caller.begun_kind(pool, true, parent_closed) == PollKind::Closed,
        caller.begun_child(pool, true, parent_closed) == pool,
        caller.begun(pool, true, parent_closed) == caller,
{
}

/// Closing a parent stops its child: whoever asks the child for a connection is turned away, whether
/// or not it would have to borrow, and the child is closed. The child's connections and permits stay
/// as they are.
pub proof fn law_closing_a_parent_stops_its_child(
    caller: AcquirePermit,
    child: PoolState,
    closed: bool,
)
    requires
        child.has_parent,
    ensures
        caller.begun_kind(child, closed, true) == PollKind::Closed,
        caller.begun_child(child, closed, true) == if closed {
            child
        } else {
            child.mark_closed()
        },
{
}

/// A caller whose transfer served an older caller keeps its place in the queue and asks the parent
/// again, as long as the child may own more permits.
pub proof fn law_borrower_keeps_its_place(
    caller: AcquirePermit,
    child: PoolState,
    end: TransferEnd,
    ticket: u64,
)
    requires
        end.outcome is Transferred,
        !end.at_capacity,
        caller.acquire_self.stage == AcquireStage::Queued(ticket),
        !child.give_back(1).semaphore.grants(caller.acquire_self),
    ensures
        caller.settled_kind(child, end) == PollKind::Pending(true),
        caller.settled(child, end).acquire_self == caller.acquire_self,
        caller.settled(child, end).acquire_parent == Some(
            Acquire { needed: 1, stage: AcquireStage::Unpolled },
        ),
        caller.settled_child(child, end) == child.give_back(1),
{
}

/// The child once it has been given `n` permits of its parent.
pub open spec fn donated(child: PoolState, n: nat) -> PoolState
    decreases n,
{
    if n == 0 {
        child
    } else {
        donated(child, (n - 1) as nat).adopt().give_back(1)
    }
}

proof fn lemma_donated(child: PoolState, last: int, n: nat)
    requires
        child.wf(),
        0 <= last < child.semaphore.waiters.len(),
        forall|i: int| 0 <= i <= last ==> (#[trigger] child.semaphore.waiters[i]).needed == 1,
        n <= last + 1,
        child.num_permits + last + 1 <= child.options.max_connections,
    ensures
        donated(child, n).wf(),
        donated(child, n) == (PoolState {
            num_permits: child.num_permits + n,
            semaphore: donated(child, n).semaphore,
            ..child
        }),
        donated(child, n).semaphore.waiters.len() == child.semaphore.waiters.len(),
        forall|i: int|
            0 <= i < child.semaphore.waiters.len() ==> {
                let before = child.semaphore.waiters[i];
                let after = #[trigger] donated(child, n).semaphore.waiters[i];
                after.ticket == before.ticket && after.needed == before.needed
            },
        forall|i: int|
            0 <= i < n ==> (#[trigger] donated(child, n).semaphore.waiters[i]).assigned == 1,
    decreases n,
{
    if n > 0 {
        let earlier = donated(child, (n - 1) as nat);
        lemma_donated(child, last, (n - 1) as nat);
        assert forall|k: int| 0 <= k < n - 1 implies (
        #[trigger] earlier.semaphore.waiters[k]).assigned == earlier.semaphore.waiters[k].needed by {
            assert(child.semaphore.waiters[k].needed == 1);
        }
        assert(child.semaphore.waiters[n - 1].needed == 1);
        earlier.semaphore.lemma_release_serves(n - 1);
        earlier.semaphore.lemma_release(1);
        earlier.adopt().lemma_give_back(1);
        let after = donated(child, n).semaphore;
        assert(after == earlier.semaphore.release(1));
        assert forall|i: int| 0 <= i < n implies (#[trigger] after.waiters[i]).assigned == 1 by {
            assert(child.semaphore.waiters[i].needed == 1);
            assert(earlier.semaphore.waiters[i].needed == 1);
            if i < n - 1 {
                assert(earlier.semaphore.waiters[i].assigned == 1);
            }
        }
        assert forall|i: int| 0 <= i < child.semaphore.waiters.len() implies {
            let before = child.semaphore.waiters[i];
            let later = #[trigger] after.waiters[i];
            later.ticket == before.ticket && later.needed == before.needed
        } by {
            assert(earlier.semaphore.waiters[i].ticket == child.semaphore.waiters[i].ticket);
        }
    }
}

/// A caller that borrows again and again is served: each donation brings it one place nearer, and by
/// the time as many have been made as callers stand before it, and one more, it has its permit.
pub proof fn law_borrower_is_served_in_turn(caller: AcquirePermit, child: PoolState, ticket: u64)
    requires
        child.wf(),
        caller.acquire_self == (Acquire { needed: 1, stage: AcquireStage::Queued(ticket) }),
        child.semaphore.has_ticket(ticket),
        forall|i: int|
            0 <= i <= child.semaphore.place(ticket) ==> (
            #[trigger] child.semaphore.waiters[i]).needed == 1,
        child.num_permits + child.semaphore.place(ticket) + 1 <= child.options.max_connections,
    ensures
        donated(child, (child.semaphore.place(ticket) + 1) as nat).wf(),
        donated(child, (child.semaphore.place(ticket) + 1) as nat).semaphore.grants(
            caller.acquire_self,
        ),
{
    let place = child.semaphore.place(ticket);
    let served = donated(child, (place + 1) as nat);
    assert(child.semaphore.waiters[place].ticket == ticket);
    lemma_donated(child, place, (place + 1) as nat);
    assert(served.semaphore.waiters[place].ticket == ticket);
    served.semaphore.lemma_place(place);
}

/// A child that owns all the permits it may have lets go of the parent: what had been set aside for
/// it there goes to others, and none of its callers keeps waiting there.
pub proof fn law_full_child_lets_go_of_the_parent(
    caller: AcquirePermit,
    child: PoolState,
    parent: PoolState,
    end: TransferEnd,
)
    requires
        parent.wf(),
        caller.borrows(),
        !end.is_refused(),
        end.at_capacity,
        !end.hands_back,
    ensures
        caller.settled_parent(parent, end) == parent.cancelled(caller.parent_request()),
        caller.settled_parent(parent, end).semaphore.total() == parent.semaphore.total(),
        caller.settled(child, end).acquire_parent matches Some(request) && request.stage
            == AcquireStage::Terminated,
{
    parent.semaphore.lemma_cancelled(caller.parent_request());
}

/// When a child is dropped, its parent counts exactly the permits that enter the parent's semaphore.
pub proof fn law_drop_credits_what_it_releases(child: PoolState, parent: PoolState)
    requires
        parent.wf(),
        parent.num_permits + child.returned() <= u32::MAX,
    ensures
        ({
            let after = parent.credit(child.returned());
            &&& after.wf()
            &&& after.num_permits == parent.num_permits + child.returned()
            &&& after.semaphore.total() == parent.semaphore.total() + child.returned()
            &&& after.outstanding() == parent.outstanding()
            &&& after.closed == parent.closed
        }),
{
    parent.semaphore.lemma_release(child.returned());
}

/// A child that nobody uses any more returns all its permits, but for those that never came back,
/// such as those of connections that were leaked.
pub proof fn law_drop_returns_all_but_the_lost(child: PoolState)
    requires
        child.wf(),
        child.has_parent,
        child.semaphore.waiters.len() == 0,
    ensures
        child.returned() == child.num_permits - child.outstanding(),
{
}

/// A child that gave back every permit before it was dropped leaves its parent with all that the
/// two of them owned.
pub proof fn law_donations_come_back(child: PoolState, parent: PoolState)
    requires
        child.wf(),
        parent.wf(),
        child.has_parent,
        child.semaphore.waiters.len() == 0,
        child.outstanding() == 0,
        parent.num_permits + child.num_permits <= u32::MAX,
    ensures
        parent.credit(child.returned()).num_permits == parent.num_permits + child.num_permits,
{
    law_drop_returns_all_but_the_lost(child);
}

/// The permits that a family of pools owns.
pub open spec fn family_permits(pools: Seq<PoolState>) -> nat
    decreases pools.len(),
{
    if pools.len() == 0 {
        0
    } else {
        pools[0].num_permits + family_permits(pools.drop_first())
    }
}

proof fn lemma_family_update(pools: Seq<PoolState>, i: int, pool: PoolState)
    requires
        0 <= i < pools.len(),
    ensures
        family_permits(pools.update(i, pool)) + pools[i].num_permits == family_permits(pools)
            + pool.num_permits,
    decreases pools.len(),
{
    let updated = pools.update(i, pool);
    if i == 0 {
        assert(updated.drop_first() =~= pools.drop_first());
    } else {
        assert(updated.drop_first() =~= pools.drop_first().update(i - 1, pool));
        lemma_family_update(pools.drop_first(), i - 1, pool);
    }
}

proof fn lemma_family_remove(pools: Seq<PoolState>, i: int)
    requires
        0 <= i < pools.len(),
    ensures
        family_permits(pools.remove(i)) + pools[i].num_permits == family_permits(pools),
    decreases pools.len(),
{
    if i == 0 {
        assert(pools.remove(0) =~= pools.drop_first());
    } else {
        assert(pools.remove(i).drop_first() =~= pools.drop_first().remove(i - 1));
        assert(pools.remove(i)[0] == pools[0]);
        lemma_family_remove(pools.drop_first(), i - 1);
    }
}

proof fn lemma_family_member(pools: Seq<PoolState>, i: int)
    requires
        0 <= i < pools.len(),
    ensures
        pools[i].num_permits <= family_permits(pools),
    decreases pools.len(),
{
    if i > 0 {
        lemma_family_member(pools.drop_first(), i - 1);
    }
}

/// Borrowing moves permits around in a family of pools and makes none.
pub proof fn law_family_owns_what_it_owned(
    pools: Seq<PoolState>,
    child: int,
    parent: int,
    offered: bool,
)
    requires
        0 <= child < pools.len(),
        0 <= parent < pools.len(),
        child != parent,
        pools[parent].wf(),
        offered ==> 1 <= pools[parent].spare(),
    ensures
        family_permits(
            pools.update(
                child,
                crate::permit::transferred_child(pools[child], pools[parent], offered),
            ).update(
                parent,
                crate::permit::transferred_parent(pools[child], pools[parent], offered),
            ),
        ) == family_permits(pools),
{
    let child_after = crate::permit::transferred_child(pools[child], pools[parent], offered);
    let parent_after = crate::permit::transferred_parent(pools[child], pools[parent], offered);
    lemma_family_update(pools, child, child_after);
    lemma_family_update(pools.update(child, child_after), parent, parent_after);
}

/// Dropping a child loses only the permits that it cannot return. The parent's count does not hit
/// its limit as long as the whole family owns no more than that.
pub proof fn law_dropping_a_child_makes_no_permits(pools: Seq<PoolState>, child: int, parent: int)
    requires
        0 <= child < pools.len(),
        0 <= parent < pools.len(),
        child != parent,
        pools[child].wf(),
        pools[parent].wf(),
        family_permits(pools) <= u32::MAX,
    ensures
        pools[parent].num_permits + pools[child].returned() <= u32::MAX,
        family_permits(
            pools.update(parent, pools[parent].credit(pools[child].returned())).remove(child),
        ) + pools[child].num_permits == family_permits(pools) + pools[child].returned(),
        pools[child].returned() <= pools[child].num_permits,
{
    let after = pools[parent].credit(pools[child].returned());
    assert(pools[child].returned() <= pools[child].num_permits);
    lemma_family_update(pools, parent, after);
    lemma_family_remove(pools.update(parent, after), child);
    lemma_family_remove(pools, child);
    let place = if parent < child {
        parent
    } else {
        parent - 1
    };
    assert(pools.remove(child)[place] == pools[parent]);
    lemma_family_member(pools.remove(child), place);
}

// Waiting between attempts to connect.

/// How long a caller waits after its attempt number `k`, counted from zero, has failed.
pub open spec fn backoff_after(k: nat, max_backoff: nat) -> int
    decreases k,
{
    if k == 0 {
        crate::connect::INITIAL_BACKOFF as int
    } else {
        crate::connect::min_time(
            2 * backoff_after((k - 1) as nat, max_backoff),
            max_backoff as int,
        )
    }
}

/// The waits start at ten milliseconds and double from one attempt to the next, up to the limit.
pub proof fn law_backoff_doubles(k: nat, max_backoff: nat)
    requires
        k > 0,
    ensures
        backoff_after(k, max_backoff) == crate::connect::min_time(
            crate::connect::INITIAL_BACKOFF * vstd::arithmetic::power2::pow2(k),
            max_backoff as int,
        ),
    decreases k,
{
    vstd::arithmetic::power2::lemma_pow2_unfold(k);
    if k == 1 {
        vstd::arithmetic::power2::lemma2_to64();
        assert(backoff_after(0, max_backoff) == crate::connect::INITIAL_BACKOFF);
    } else {
        law_backoff_doubles((k - 1) as nat, max_backoff);
        let half = vstd::arithmetic::power2::pow2((k - 1) as nat);
        assert(crate::connect::INITIAL_BACKOFF * (2 * half) == 2 * (
        crate::connect::INITIAL_BACKOFF * half)) by (nonlinear_arith);
    }
}

/// The waits of a caller follow that sequence, whatever its attempts fail of.
pub proof fn law_backoff_follows_the_attempts(
    connect: crate::connect::Connect,
    next: crate::connect::Connect,
    k: nat,
)
    requires
        connect.backoff() == backoff_after(k, connect.max_backoff() as nat),
        connect.backs_off_to(next),
    ensures
        next.backoff() == backoff_after(k + 1, next.max_backoff() as nat),
{
}

// Methods that change a pool in more than one way.

/// Whether allowed changes lead from one state of a pool to another.
pub open spec fn reaches(from: PoolState, to: PoolState) -> bool {
    exists|steps: Seq<Step>| #[trigger] allowed_run(from, steps) && run(from, steps) == to
}

proof fn lemma_reaches_itself(pool: PoolState)
    ensures
        reaches(pool, pool),
{
    assert(allowed_run(pool, Seq::empty()));
}

proof fn lemma_reaches(from: PoolState, step: Step, to: PoolState)
    requires
        step.allowed(from),
        reaches(step.apply(from), to),
    ensures
        reaches(from, to),
{
    let rest = choose|steps: Seq<Step>|
        #[trigger] allowed_run(step.apply(from), steps) && run(step.apply(from), steps) == to;
    let steps = seq![step] + rest;
    assert(steps.drop_first() =~= rest);
    assert(allowed_run(from, steps));
}

/// What is reached from a closed pool is closed, and owns no fewer permits.
pub proof fn law_reached_pool(from: PoolState, to: PoolState)
    requires
        from.wf(),
        reaches(from, to),
    ensures
        to.wf(),
        to.options == from.options,
        from.closed ==> to.closed && to.num_permits >= from.num_permits && to.in_use()
            <= from.in_use(),
{
    let steps = choose|steps: Seq<Step>| #[trigger] allowed_run(from, steps) && run(from, steps) == to;
    lemma_run_keeps_wf(from, steps);
    if from.closed {
        law_closed_for_good(from, steps);
    }
}

/// A poll of a close makes allowed changes only.
pub proof fn law_close_makes_allowed_changes(close: Close, pool: PoolState)
    requires
        pool.wf(),
        pool.closed,
        pool.semaphore.has_free_ticket(),
        close.stage matches CloseStage::Draining(permits) ==> permits.count() <= pool.spare(),
    ensures
        reaches(pool, close.polled_pool(pool)),
{
    let waited = close.waited(pool);
    let after = close.polled_pool(pool);
    lemma_reaches_itself(after);
    pool.lemma_polled(close.request(pool));
    if close.passes(pool) {
        if waited.idle.len() > 0 {
            lemma_reaches(waited, Step::DrainOne, after);
        } else {
            lemma_reaches(waited.drained(), Step::GiveBack(close.held(pool)), after);
            lemma_reaches(waited, Step::Drained, after);
        }
    }
    if close.is_waiting() {
        lemma_reaches(pool, Step::Poll(close.request(pool)), after);
    }
}

/// A caller that waits for a permit makes allowed changes only, to its own pool and to the parent.
pub proof fn law_waiting_makes_allowed_changes(
    caller: AcquirePermit,
    child: PoolState,
    parent: PoolState,
    end: TransferEnd,
    closed: bool,
    parent_closed: bool,
)
    requires
        child.wf(),
        parent.wf(),
        child.semaphore.has_free_ticket(),
        parent.semaphore.has_free_ticket(),
        end.outcome is Transferred ==> 1 <= child.spare(),
        end.hands_back ==> 1 <= parent.spare(),
    ensures
        reaches(child, caller.begun_child(child, closed, parent_closed)),
        reaches(parent, parent.polled(caller.parent_request())),
        reaches(child, caller.settled_child(child, end)),
        reaches(parent, caller.settled_parent(parent, end)),
{
    let begun = caller.begun_child(child, closed, parent_closed);
    lemma_reaches_itself(begun);
    if !closed {
        if child.has_parent && parent_closed {
            lemma_reaches(child, Step::MarkClosed, begun);
        } else {
            lemma_reaches(child, Step::Poll(caller.acquire_self), begun);
        }
    }
    let reserved = parent.polled(caller.parent_request());
    lemma_reaches_itself(reserved);
    lemma_reaches(parent, Step::Poll(caller.parent_request()), reserved);
    let settling = AcquirePermit::settling_child(child, end);
    let settled = caller.settled_child(child, end);
    lemma_reaches_itself(settled);
    if end.outcome is ParentClosed {
        lemma_reaches(settling, Step::MarkClosed, settled);
    } else if !(end.outcome is ChildClosed) {
        lemma_reaches(settling, Step::Poll(caller.acquire_self), settled);
    }
    if end.outcome is Transferred {
        lemma_reaches(child, Step::GiveBack(1), settled);
    }
    let kept = if end.hands_back {
        parent.give_back(1)
    } else {
        parent
    };
    let let_go = caller.settled_parent(parent, end);
    lemma_reaches_itself(let_go);
    if !end.is_refused() && end.at_capacity {
        lemma_reaches(kept, Step::Cancel(caller.parent_request()), let_go);
    }
    if end.hands_back {
        lemma_reaches(parent, Step::GiveBack(1), let_go);
    }
}

/// A connection that is taken without waiting, and one that is put back after a look at it, are
/// allowed changes.
pub proof fn law_taking_makes_allowed_changes(pool: PoolState, live: crate::idle::Live, now: u128)
    requires
        pool.wf(),
        pool.can_pop_idle(),
        pool.semaphore.available >= 1,
    ensures
        reaches(pool, pool.take(1).pop_idle()),
        reaches(pool, pool.take(1).pop_idle().released(live, now)),
{
    pool.lemma_take(1);
    let taken = pool.take(1).pop_idle();
    lemma_reaches_itself(taken);
    lemma_reaches(pool.take(1), Step::PopIdle, taken);
    lemma_reaches(pool, Step::TakePermit, taken);
    let back = taken.released(live, now);
    lemma_reaches_itself(back);
    lemma_reaches(taken, Step::Release(Idle { live, idle_since: now }), back);
    lemma_reaches(pool.take(1), Step::PopIdle, back);
    lemma_reaches(pool, Step::TakePermit, back);
}

/// A connection that is opened without waiting for a permit is an allowed change.
pub proof fn law_growing_makes_allowed_changes(pool: PoolState)
    requires
        pool.wf(),
        pool.wants_connection(),
    ensures
        reaches(pool, pool.take(1).grow()),
{
    pool.lemma_take(1);
    let grown = pool.take(1).grow();
    lemma_reaches_itself(grown);
    lemma_reaches(pool.take(1), Step::Grow, grown);
    lemma_reaches(pool, Step::TakePermit, grown);
}

// Any number of callers that borrow.

/// What a caller of the child does to the two pools, or what else happens to one of them.
pub enum BorrowStep {
    Begin(AcquirePermit, bool, bool),
    Reserve(AcquirePermit),
    Transfer(bool),
    Settle(AcquirePermit, TransferEnd),
    CancelSelf(AcquirePermit),
    CancelParent(AcquirePermit),
    Child(Step),
    Parent(Step),
}

impl Step {
    /// Whether the change leaves the number of permits alone: nobody borrows and no pool is dropped.
    pub open spec fn keeps_permits(self) -> bool {
        !(self is Donate) && !(self is Adopt) && !(self is Credit)
    }
}

impl BorrowStep {
    pub open spec fn allowed(self, child: PoolState, parent: PoolState) -> bool {
        match self {
            BorrowStep::Begin(_, _, _) => child.semaphore.has_free_ticket(),
            BorrowStep::Reserve(_) => parent.semaphore.has_free_ticket(),
            BorrowStep::Transfer(offered) => offered ==> 1 <= parent.spare(),
            BorrowStep::Settle(_, end) => {
                &&& child.semaphore.has_free_ticket()
                &&& parent.semaphore.has_free_ticket()
                &&& end.outcome is Transferred ==> 1 <= child.spare()
                &&& end.hands_back ==> 1 <= parent.spare()
            },
            BorrowStep::CancelSelf(_) => true,
            BorrowStep::CancelParent(_) => true,
            BorrowStep::Child(step) => step.keeps_permits() && step.allowed(child),
            BorrowStep::Parent(step) => step.keeps_permits() && step.allowed(parent),
        }
    }

    pub open spec fn child(self, child: PoolState, parent: PoolState) -> PoolState {
        match self {
            BorrowStep::Begin(caller, closed, parent_closed) => caller.begun_child(
                child,
                closed,
                parent_closed,
            ),
            BorrowStep::Transfer(offered) => crate::permit::transferred_child(
                child,
                parent,
                offered,
            ),
            BorrowStep::Settle(caller, end) => caller.settled_child(child, end),
            BorrowStep::CancelSelf(caller) => child.cancelled(caller.acquire_self),
            BorrowStep::Child(step) => step.apply(child),
            _ => child,
        }
    }

    pub open spec fn parent(self, child: PoolState, parent: PoolState) -> PoolState {
        match self {
            BorrowStep::Reserve(caller) => parent.polled(caller.parent_request()),
            BorrowStep::Transfer(offered) => crate::permit::transferred_parent(
                child,
                parent,
                offered,
            ),
            BorrowStep::Settle(caller, end) => caller.settled_parent(parent, end),
            BorrowStep::CancelParent(caller) => parent.cancelled(caller.parent_request()),
            BorrowStep::Parent(step) => step.apply(parent),
            _ => parent,
        }
    }
}

pub open spec fn allowed_borrowing(
    child: PoolState,
    parent: PoolState,
    steps: Seq<BorrowStep>,
) -> bool
    decreases steps.len(),
{
    steps.len() == 0 || {
        &&& steps[0].allowed(child, parent)
        &&& allowed_borrowing(
            steps[0].child(child, parent),
            steps[0].parent(child, parent),
            steps.drop_first(),
        )
    }
}

/// The child and the parent after these steps.
pub open spec fn borrowing(
    child: PoolState,
    parent: PoolState,
    steps: Seq<BorrowStep>,
) -> (PoolState, PoolState)
    decreases steps.len(),
{
    if steps.len() == 0 {
        (child, parent)
    } else {
        borrowing(
            steps[0].child(child, parent),
            steps[0].parent(child, parent),
            steps.drop_first(),
        )
    }
}

proof fn lemma_borrow_step(child: PoolState, parent: PoolState, step: BorrowStep)
    requires
        child.wf(),
        parent.wf(),
        child.num_permits <= child.options.max_connections,
        step.allowed(child, parent),
    ensures
        step.child(child, parent).wf(),
        step.parent(child, parent).wf(),
        step.child(child, parent).options == child.options,
        step.child(child, parent).num_permits + step.parent(child, parent).num_permits
            == child.num_permits + parent.num_permits,
        child.num_permits <= step.child(child, parent).num_permits <= child.num_permits + 1,
        step.child(child, parent).num_permits <= child.options.max_connections,
{
    match step {
        BorrowStep::Begin(caller, closed, parent_closed) => {
            child.lemma_polled(caller.acquire_self);
        },
        BorrowStep::Reserve(caller) => parent.lemma_polled(caller.parent_request()),
        BorrowStep::Transfer(offered) => {},
        BorrowStep::Settle(caller, end) => {
            let settling = AcquirePermit::settling_child(child, end);
            if end.outcome is Transferred {
                child.lemma_give_back(1);
            }
            settling.lemma_polled(caller.acquire_self);
            if end.hands_back {
                parent.lemma_give_back(1);
                parent.give_back(1).lemma_cancelled(caller.parent_request());
            } else {
                parent.lemma_cancelled(caller.parent_request());
            }
        },
        BorrowStep::CancelSelf(caller) => child.lemma_cancelled(caller.acquire_self),
        BorrowStep::CancelParent(caller) => parent.lemma_cancelled(caller.parent_request()),
        BorrowStep::Child(change) => {
            law_stays_well_formed(child, change);
            law_pool_makes_no_permits(child, change);
        },
        BorrowStep::Parent(change) => {
            law_stays_well_formed(parent, change);
            law_pool_makes_no_permits(parent, change);
        },
    }
}

/// However many callers of a child are polled, served, refused or dropped, in whatever order: the
/// child and its parent own together what they owned, the child never owns fewer permits than before,
/// and never more than it may have connections. Each step moves at most one permit, from the parent to
/// the child.
pub proof fn law_borrowing_only_moves_permits(
    child: PoolState,
    parent: PoolState,
    steps: Seq<BorrowStep>,
)
    requires
        child.wf(),
        parent.wf(),
        child.num_permits <= child.options.max_connections,
        allowed_borrowing(child, parent, steps),
    ensures
        ({
            let (child_after, parent_after) = borrowing(child, parent, steps);
            &&& child_after.wf()
            &&& parent_after.wf()
            &&& child_after.num_permits + parent_after.num_permits == child.num_permits
                + parent.num_permits
            &&& child.num_permits <= child_after.num_permits <= child.options.max_connections
        }),
        steps.len() > 0 ==> steps[0].child(child, parent).num_permits <= child.num_permits + 1,
    decreases steps.len(),
{
    if steps.len() > 0 {
        lemma_borrow_step(child, parent, steps[0]);
        law_borrowing_only_moves_permits(
            steps[0].child(child, parent),
            steps[0].parent(child, parent),
            steps.drop_first(),
        );
    }
}

// The donation barrier.

/// What happens to the slot of the donation barrier.
pub enum BarrierStep<B> {
    Install(Option<Arc<B>>),
    Enter,
}

impl<B> BarrierStep<B> {
    /// What is in the slot afterwards.
    pub open spec fn slot(self, slot: Option<Arc<B>>) -> Option<Arc<B>> {
        match self {
            BarrierStep::Install(barrier) => barrier,
            BarrierStep::Enter => slot,
        }
    }

    /// The barriers that are run: the one in the slot when the window is entered, and none when one
    /// is installed.
    pub open spec fn runs(self, slot: Option<Arc<B>>) -> Seq<Arc<B>> {
        match (self, slot) {
            (BarrierStep::Enter, Some(barrier)) => seq![barrier],
            _ => Seq::empty(),
        }
    }
}

/// The barriers that are run over these steps, in order.
pub open spec fn barriers_run<B>(slot: Option<Arc<B>>, steps: Seq<BarrierStep<B>>) -> Seq<Arc<B>>
    decreases steps.len(),
{
    if steps.len() == 0 {
        Seq::empty()
    } else {
        steps[0].runs(slot) + barriers_run(steps[0].slot(slot), steps.drop_first())
    }
}

proof fn lemma_entering_runs_the_barrier<B>(slot: Option<Arc<B>>, steps: Seq<BarrierStep<B>>)
    requires
        forall|i: int| 0 <= i < steps.len() ==> #[trigger] steps[i] is Enter,
    ensures
        slot matches Some(barrier) ==> barriers_run(slot, steps) == Seq::new(
            steps.len(),
            |i: int| barrier,
        ),
        slot is None ==> barriers_run(slot, steps).len() == 0,
    decreases steps.len(),
{
    if steps.len() > 0 {
        let rest = steps.drop_first();
        assert forall|i: int| 0 <= i < rest.len() implies #[trigger] rest[i] is Enter by {
            assert(rest[i] == steps[i + 1]);
        }
        lemma_entering_runs_the_barrier(slot, rest);
        if let Some(barrier) = slot {
            assert(barriers_run(slot, steps) =~= Seq::new(steps.len(), |i: int| barrier));
        }
    } else if let Some(barrier) = slot {
        assert(barriers_run(slot, steps) =~= Seq::new(steps.len(), |i: int| barrier));
    }
}

/// From the installation of a barrier to the next one, every window runs that barrier once, or nothing
/// where it was removed. The one before is not run any more, and installing runs none.
pub proof fn law_installed_barrier_is_the_one_that_runs<B>(
    before: Option<Arc<B>>,
    barrier: Option<Arc<B>>,
    entries: Seq<BarrierStep<B>>,
)
    requires
        forall|i: int| 0 <= i < entries.len() ==> #[trigger] entries[i] is Enter,
    ensures
        barrier matches Some(b) ==> barriers_run(
            before,
            seq![BarrierStep::Install(barrier)] + entries,
        ) == Seq::new(entries.len(), |i: int| b),
        barrier is None ==> barriers_run(
            before,
            seq![BarrierStep::Install(barrier)] + entries,
        ).len() == 0,
{
    let steps = seq![BarrierStep::Install(barrier)] + entries;
    assert(steps.drop_first() =~= entries);
    assert(barriers_run(before, steps) =~= barriers_run(barrier, entries));
    lemma_entering_runs_the_barrier(barrier, entries);
}

// Migrations.

/// The order of migrations is total, and two migrations are equal in it exactly if they are the
/// same step.
pub proof fn law_migration_order_is_total(a: Migration, b: Migration)
    ensures
        a.precedes(b) || a.same(b) || b.precedes(a),
        !(a.precedes(b) && b.precedes(a)),
        a.same(b) ==> !a.precedes(b) && !b.precedes(a),
        a.order(b) is Equal <==> a.same(b),
        a.order(b) is Less <==> b.order(a) is Greater,
{
}

/// The order of migrations is transitive.
pub proof fn law_migration_order_is_transitive(a: Migration, b: Migration, c: Migration)
    requires
        a.precedes(b),
        b.precedes(c),
    ensures
        a.precedes(c),
{
}

} // verus!
