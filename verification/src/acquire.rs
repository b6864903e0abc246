//! Acquiring a connection: waiting for a permit, reusing an idle connection or opening a new one.
//!
//! The waiting, the pinging and the connecting happen elsewhere. Here is decided what comes next.

use crate::idle::{Idle, Live, PoolConnectionMetadata};
use crate::inner::{DecrementSizeGuard, Floating, PoolInner};
use crate::options::PoolOptions;
use crate::permit::AcquirePermit;
use crate::semaphore::AsyncSemaphoreReleaser;
use vstd::prelude::*;

verus! {

/// Why a connection could not be had. `E` is the error of the database.
#[derive(Debug, PartialEq, Eq)]
pub enum Error<E> {
    PoolClosed,
    PoolTimedOut,
    Other(E),
}

/// What happened to a caller that wants a connection.
#[derive(Debug)]
pub enum AcquireEvent<E> {
    /// It asks for a connection.
    Started,
    /// It has got a permit.
    Permit(AsyncSemaphoreReleaser),
    /// The pool was closed while it waited for a permit.
    PermitClosed,
    /// The idle connection can be used.
    IdleUsable(Floating<Live>),
    /// The idle connection was closed.
    IdleUnusable(DecrementSizeGuard),
    /// Other tasks have had their turn.
    Yielded(AsyncSemaphoreReleaser),
    /// A new connection is open.
    Opened(Floating<Live>),
    /// No new connection could be opened.
    ConnectFailed(Error<E>),
    /// The time that the options allow is over. What the caller held is back in the pool.
    TimedOut,
}

/// What a caller that wants a connection has to do next.
#[derive(Debug)]
pub enum AcquireAction<E> {
    /// Wait for a permit.
    AwaitPermit(AcquirePermit),
    /// Check that this idle connection can be used.
    CheckIdle(Floating<Idle>),
    /// Open a connection.
    Connect(DecrementSizeGuard),
    /// Let other tasks have their turn, and keep the permit meanwhile.
    Yield(AsyncSemaphoreReleaser),
    /// Use this connection.
    Acquired(Floating<Live>),
    /// Give up.
    Failed(Error<E>),
}

impl PoolInner {
    /// What a caller does next. It reuses an idle connection if there is one, and opens a new one
    /// if it may. A permit that is good for neither goes back after other tasks have had their
    /// turn, and the caller starts over.
    pub fn acquire<E>(&mut self, event: AcquireEvent<E>) -> (action: AcquireAction<E>)
        requires
            old(self).wf(),
            event matches AcquireEvent::Permit(permit) ==> permit.count() == 1 && 1 <= old(
                self,
            )@.spare(),
            event matches AcquireEvent::Yielded(permit) ==> permit.count() <= old(self)@.spare(),
        ensures
            final(self).wf(),
            match event {
                AcquireEvent::Started => {
                    &&& final(self)@ == old(self)@
                    &&& action == if old(self)@.closed {
                        AcquireAction::Failed(Error::<E>::PoolClosed)
                    } else {
                        AcquireAction::AwaitPermit(AcquirePermit::started(old(self)@))
                    }
                },
                AcquireEvent::Permit(permit) => if old(self)@.can_pop_idle() {
                    &&& final(self)@ == old(self)@.pop_idle()
                    &&& action matches AcquireAction::CheckIdle(floating)
                    &&& floating.inner == old(self)@.idle[0]
                    &&& !floating.guard.is_cancelled()
                } else if old(self)@.can_grow() {
                    &&& final(self)@ == old(self)@.grow()
                    &&& action matches AcquireAction::Connect(guard)
                    &&& !guard.is_cancelled()
                } else {
                    &&& final(self)@ == old(self)@
                    &&& action == AcquireAction::<E>::Yield(permit)
                },
                AcquireEvent::PermitClosed => {
                    &&& final(self)@ == old(self)@
                    &&& action == AcquireAction::Failed(Error::<E>::PoolClosed)
                },
                AcquireEvent::IdleUsable(live) => {
                    &&& final(self)@ == old(self)@
                    &&& action == AcquireAction::<E>::Acquired(live)
                },
                AcquireEvent::IdleUnusable(guard) => {
                    &&& final(self)@ == old(self)@
                    &&& action == AcquireAction::<E>::Connect(guard)
                },
                AcquireEvent::Yielded(permit) => {
                    &&& final(self)@ == old(self)@.give_back(permit.count())
                    &&& action == AcquireAction::<E>::AwaitPermit(AcquirePermit::started(old(self)@))
                },
                AcquireEvent::Opened(live) => {
                    &&& final(self)@ == old(self)@
                    &&& action == AcquireAction::<E>::Acquired(live)
                },
                AcquireEvent::ConnectFailed(error) => {
                    &&& final(self)@ == old(self)@
                    &&& action == AcquireAction::Failed(error)
                },
                AcquireEvent::TimedOut => {
                    &&& final(self)@ == old(self)@
                    &&& action == AcquireAction::Failed(Error::<E>::PoolTimedOut)
                },
            },
    {
        match event {
            AcquireEvent::Started => if self.is_closed() {
                AcquireAction::Failed(Error::PoolClosed)
            } else {
                AcquireAction::AwaitPermit(self.acquire_permit())
            },
            AcquireEvent::Permit(permit) => match self.pop_idle(permit) {
                Ok(floating) => AcquireAction::CheckIdle(floating),
                Err(permit) => match self.try_increment_size(permit) {
                    Ok(guard) => AcquireAction::Connect(guard),
                    // A child at its connection limit, or a pool that has just been closed.
                    Err(permit) => AcquireAction::Yield(permit),
                },
            },
            AcquireEvent::PermitClosed => AcquireAction::Failed(Error::PoolClosed),
            AcquireEvent::IdleUsable(live) => AcquireAction::Acquired(live),
            AcquireEvent::IdleUnusable(guard) => AcquireAction::Connect(guard),
            AcquireEvent::Yielded(permit) => {
                self.release_permit(permit);
                AcquireAction::AwaitPermit(self.acquire_permit())
            },
            AcquireEvent::Opened(live) => AcquireAction::Acquired(live),
            AcquireEvent::ConnectFailed(error) => AcquireAction::Failed(error),
            AcquireEvent::TimedOut => AcquireAction::Failed(Error::PoolTimedOut),
        }
    }
}

/// What happened to an idle connection that was taken out of the queue.
#[derive(Clone, Copy, Debug, PartialEq, Eq, Structural)]
pub enum IdleEvent {
    /// It has just been taken out.
    Popped,
    /// It answered a ping.
    PingSucceeded,
    /// It did not answer a ping.
    PingFailed,
    /// The `before_acquire` hook accepted it.
    Accepted,
    /// The `before_acquire` hook rejected it.
    Rejected,
    /// The `before_acquire` hook failed.
    HookFailed,
}

/// What to do with an idle connection before it is handed out.
#[derive(Clone, Copy, Debug, PartialEq, Eq, Structural)]
pub enum IdleCheck {
    /// Check that it is still alive.
    Ping,
    /// Ask the `before_acquire` hook.
    BeforeAcquire(PoolConnectionMetadata),
    /// Close it nicely.
    Close,
    /// Close it without talking to the other end.
    CloseHard,
    /// Hand it out.
    Use,
}

/// What comes after the ping, whether or not there was one.
pub open spec fn check_after_ping(
    idle: Idle,
    options: PoolOptions,
    now: u128,
) -> IdleCheck {
    if options.before_acquire {
        IdleCheck::BeforeAcquire(idle.metadata_at(now))
    } else {
        IdleCheck::Use
    }
}

pub open spec fn idle_check(
    idle: Idle,
    options: PoolOptions,
    event: IdleEvent,
    now: u128,
) -> IdleCheck {
    match event {
        IdleEvent::Popped => if options.test_before_acquire {
            IdleCheck::Ping
        } else {
            check_after_ping(idle, options, now)
        },
        IdleEvent::PingSucceeded => check_after_ping(idle, options, now),
        IdleEvent::PingFailed => IdleCheck::CloseHard,
        IdleEvent::Accepted => IdleCheck::Use,
        IdleEvent::Rejected => IdleCheck::Close,
        IdleEvent::HookFailed => IdleCheck::CloseHard,
    }
}

/// What to do next with an idle connection that is to be handed out.
///
/// A connection that is broken is discarded. One that the hook rejects is closed nicely.
pub fn check_idle_conn(
    idle: &Idle,
    options: &PoolOptions,
    event: IdleEvent,
    now: u128,
) -> (check: IdleCheck)
    ensures
        check == idle_check(*idle, *options, event, now),
{
    match event {
        IdleEvent::PingFailed => IdleCheck::CloseHard,
        IdleEvent::Accepted => IdleCheck::Use,
        IdleEvent::Rejected => IdleCheck::Close,
        IdleEvent::HookFailed => IdleCheck::CloseHard,
        IdleEvent::Popped => if options.test_before_acquire {
            IdleCheck::Ping
        } else if options.before_acquire {
            IdleCheck::BeforeAcquire(idle.metadata(now))
        } else {
            IdleCheck::Use
        },
        IdleEvent::PingSucceeded => if options.before_acquire {
            IdleCheck::BeforeAcquire(idle.metadata(now))
        } else {
            IdleCheck::Use
        },
    }
}

} // verus!
