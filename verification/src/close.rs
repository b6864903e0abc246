//! Closing a pool, and telling those who wait that it is closed.

use crate::idle::Idle;
use crate::inner::PoolInner;
use crate::semaphore::{Acquire, AcquireStage, AsyncSemaphoreReleaser};
use crate::state::PoolState;
use event_listener::{Event, EventListener};
use vstd::prelude::*;

verus! {

/// How far a close has come.
#[derive(Debug)]
pub enum CloseStage {
    /// The pool is closed. How many permits to wait for is not decided yet.
    Unpolled,
    /// Waiting for the permits that the pool owns.
    Waiting(Acquire),
    /// Holding them, and closing one idle connection after the other.
    Draining(AsyncSemaphoreReleaser),
    Done,
}

/// A close in progress.
#[derive(Debug)]
pub struct Close {
    pub stage: CloseStage,
}

/// What a close needs next.
#[derive(Clone, Copy, Debug, PartialEq, Eq)]
pub enum ClosePoll {
    /// Some permits are still out.
    Pending,
    /// This connection has to be closed before the next poll.
    CloseConnection(Idle),
    /// The pool has no connections left.
    Done,
}

impl PoolInner {
    /// Closes the pool at once. What remains is to wait until its connections are back, and to
    /// close them.
    pub fn close(&mut self) -> (close: Close)
        ensures
            final(self)@ == old(self)@.mark_closed(),
            old(self).wf() ==> final(self).wf(),
            close.stage == CloseStage::Unpolled,
    {
        self.mark_closed();
        Close { stage: CloseStage::Unpolled }
    }
}

impl Close {
    /// The request that the close waits on. A close that has not been polled asks for every permit
    /// that the pool owns now: its own spare ones too, but none that it has donated.
    pub open spec fn request(self, pool: PoolState) -> Acquire {
        match self.stage {
            CloseStage::Waiting(acquire) => acquire,
            _ => Acquire { needed: pool.num_permits as u32, stage: AcquireStage::Unpolled },
        }
    }

    /// Whether it still has to wait for permits.
    pub open spec fn is_waiting(self) -> bool {
        self.stage is Unpolled || self.stage is Waiting
    }

    /// Whether a poll gets past the wait.
    pub open spec fn passes(self, pool: PoolState) -> bool {
        self.stage is Draining || (self.is_waiting() && pool.semaphore.grants(self.request(pool)))
    }

    /// The permits it holds once it is past the wait.
    pub open spec fn held(self, pool: PoolState) -> nat {
        match self.stage {
            CloseStage::Draining(permits) => permits.count(),
            _ => self.request(pool).needed as nat,
        }
    }

    /// The pool once the wait has been polled.
    pub open spec fn waited(self, pool: PoolState) -> PoolState {
        if self.is_waiting() {
            pool.polled(self.request(pool))
        } else {
            pool
        }
    }

    pub open spec fn polled_pool(self, pool: PoolState) -> PoolState {
        let waited = self.waited(pool);
        if !self.passes(pool) {
            waited
        } else if waited.idle.len() > 0 {
            waited.drain_one()
        } else {
            waited.drained().give_back(self.held(pool))
        }
    }

    pub open spec fn polled_result(self, pool: PoolState) -> ClosePoll {
        if self.stage is Done {
            ClosePoll::Done
        } else if !self.passes(pool) {
            ClosePoll::Pending
        } else if pool.idle.len() > 0 {
            ClosePoll::CloseConnection(pool.idle[0])
        } else {
            ClosePoll::Done
        }
    }

    /// Whether `self` is what a poll of `before` leaves.
    pub open spec fn follows(self, before: Close, pool: PoolState) -> bool {
        match before.polled_result(pool) {
            ClosePoll::Pending => self.stage == CloseStage::Waiting(
                pool.semaphore.polled_acquire(before.request(pool)),
            ),
            ClosePoll::CloseConnection(_) => self.stage is Draining && self.held(pool)
                == before.held(pool),
            ClosePoll::Done => self.stage is Done,
        }
    }

    /// Waits for the permits, then takes out one idle connection after the other, and at last
    /// resets the counters and lets the permits go.
    ///
    /// The permits are held until the connections are closed, so that another close of the same
    /// pool does not finish before this one.
    pub fn poll(&mut self, pool: &mut PoolInner) -> (poll: ClosePoll)
        requires
            old(pool).wf(),
            old(pool)@.semaphore.has_free_ticket(),
            old(self).stage matches CloseStage::Draining(permits) ==> permits.count() <= old(
                pool,
            )@.spare(),
        ensures
            final(pool).wf(),
            final(pool)@ == old(self).polled_pool(old(pool)@),
            poll == old(self).polled_result(old(pool)@),
            final(self).follows(*old(self), old(pool)@),
    {
        let mut stage = CloseStage::Done;
        std::mem::swap(&mut stage, &mut self.stage);
        let permits = match stage {
            CloseStage::Done => {
                return ClosePoll::Done;
            },
            CloseStage::Draining(permits) => permits,
            CloseStage::Unpolled => {
                let mut acquire = Acquire::new(pool.num_permits());
                match pool.poll_permit(&mut acquire) {
                    Some(permits) => permits,
                    None => {
                        self.stage = CloseStage::Waiting(acquire);
                        return ClosePoll::Pending;
                    },
                }
            },
            CloseStage::Waiting(mut acquire) => match pool.poll_permit(&mut acquire) {
                Some(permits) => permits,
                None => {
                    self.stage = CloseStage::Waiting(acquire);
                    return ClosePoll::Pending;
                },
            },
        };
        match pool.drain_one() {
            Some(idle) => {
                self.stage = CloseStage::Draining(permits);
                ClosePoll::CloseConnection(idle)
            },
            None => {
                pool.drained();
                pool.release_permit(permits);
                ClosePoll::Done
            },
        }
    }

    /// Gives up on the close. The pool stays closed, and the permits it waited for or held are
    /// there for the next one who closes it.
    pub fn cancel(self, pool: &mut PoolInner)
        requires
            old(pool).wf(),
            self.stage matches CloseStage::Draining(permits) ==> permits.count() <= old(
                pool,
            )@.spare(),
        ensures
            final(pool).wf(),
            final(pool)@ == (match self.stage {
                CloseStage::Waiting(acquire) => old(pool)@.cancelled(acquire),
                CloseStage::Draining(permits) => old(pool)@.give_back(permits.count()),
                _ => old(pool)@,
            }),
    {
        match self.stage {
            CloseStage::Waiting(mut acquire) => {
                pool.cancel_permit(&mut acquire);
            },
            CloseStage::Draining(permits) => {
                pool.release_permit(permits);
            },
            _ => {},
        }
    }
}

/// `event_listener::Event`, which wakes those who listen to it.
#[verifier::external_type_specification]
#[verifier::external_body]
#[verifier::reject_recursive_types(T)]
pub struct ExEvent<T>(Event<T>);

/// `event_listener::EventListener`, which completes once its event has been notified.
#[verifier::external_type_specification]
#[verifier::external_body]
#[verifier::reject_recursive_types(T)]
pub struct ExEventListener<T>(EventListener<T>);

/// Calls `Event::new`. Of the event nothing is claimed.
#[verifier::external_body]
fn new_event() -> (event: Event) {
    Event::new()
}

/// Whether a call of `Event::notify` on that event, with that number, may return `notified`.
pub uninterp spec fn notified_by(notified: usize, event: Event, n: usize) -> bool;

/// Calls `Event::notify`. The result comes from notifying this event with this number, and is at most
/// the number. Who is woken, and how many, depends on who listens at the time, and is not claimed.
#[verifier::external_body]
fn notify_event(event: &Event, n: usize) -> (notified: usize)
    ensures
        notified_by(notified, *event, n),
        notified <= n,
{
    event.notify(n)
}

/// Whether a listener that `Event::listen` returned is one of that event.
pub uninterp spec fn listens_to(listener: EventListener, event: Event) -> bool;

/// Calls `Event::listen`. The listener is one of this event, for good: it keeps the state that the
/// event notifies. When it completes depends on later notifications, and is not claimed.
#[verifier::external_body]
fn listen_event(event: &Event) -> (listener: EventListener)
    ensures
        listens_to(listener, *event),
{
    event.listen()
}

/// Wakes those who wait for a pool to be closed. It is kept beside the pool, outside its lock.
pub struct OnClosed {
    event: Event,
}

/// What a task holds that wants to know when a pool is closed. Without a listener the pool was
/// closed already.
pub struct CloseEvent {
    pub listener: Option<EventListener>,
}

impl OnClosed {
    /// Whether that listener waits for this to be notified.
    pub closed spec fn heard_by(self, listener: EventListener) -> bool {
        listens_to(listener, self.event)
    }

    /// Whether that number is what telling everybody who listens came to.
    pub closed spec fn told_all(self, notified: usize) -> bool {
        notified_by(notified, self.event, usize::MAX)
    }

    /// Nobody listens yet. Who does changes behind shared references, so a contract on the value
    /// could not say so.
    pub fn new() -> (on_closed: OnClosed) {
        OnClosed { event: new_event() }
    }

    /// Wakes everybody who listens. Called after the pool was marked closed, outside its lock.
    ///
    /// Returns how many were woken, which depends on who listens at the time.
    pub fn notify(&self) -> (notified: usize)
        ensures
            self.told_all(notified),
    {
        notify_event(&self.event, usize::MAX)
    }
}

impl PoolInner {
    /// Completes when the pool is closed: at once if it is closed already.
    pub fn close_event(&self, on_closed: &OnClosed) -> (close_event: CloseEvent)
        ensures
            close_event.listener is Some <==> !self@.closed,
            close_event.listener matches Some(listener) ==> on_closed.heard_by(listener),
    {
        CloseEvent {
            listener: if self.is_closed() {
                None
            } else {
                Some(listen_event(&on_closed.event))
            },
        }
    }
}

} // verus!
