//! Opening a connection: when to try, how long to wait in between, and when to give up.

use crate::acquire::Error;
use crate::idle::{Live, PoolConnectionMetadata};
use crate::inner::{DecrementSizeGuard, Floating, PoolInner};
use vstd::prelude::*;

verus! {

/// The first wait after a failed attempt, in nanoseconds.
pub const INITIAL_BACKOFF: u128 = 10_000_000;

/// The time until `deadline`, or `PoolTimedOut` if it has passed.
pub fn deadline_as_timeout<E>(deadline: u128, now: u128) -> (timeout: Result<u128, Error<E>>)
    ensures
        timeout == if now <= deadline {
            Ok::<u128, Error<E>>((deadline - now) as u128)
        } else {
            Err(Error::PoolTimedOut)
        },
{
    if now <= deadline {
        Ok(deadline - now)
    } else {
        Err(Error::PoolTimedOut)
    }
}

/// Why an attempt to connect failed.
#[derive(Debug, PartialEq, Eq)]
pub enum ConnectError<E> {
    /// The operating system reported an error.
    Io { connection_refused: bool, error: E },
    /// The database reported an error.
    Database { transient_in_connect_phase: bool, error: E },
    Other(E),
}

impl<E> ConnectError<E> {
    /// Whether another attempt may succeed: the server may be starting up.
    pub open spec fn is_transient(self) -> bool {
        match self {
            ConnectError::Io { connection_refused, .. } => connection_refused,
            ConnectError::Database { transient_in_connect_phase, .. } => transient_in_connect_phase,
            ConnectError::Other(_) => false,
        }
    }

    pub open spec fn error(self) -> E {
        match self {
            ConnectError::Io { error, .. } => error,
            ConnectError::Database { error, .. } => error,
            ConnectError::Other(error) => error,
        }
    }
}

/// What happened to an attempt to open a connection.
#[derive(Debug, PartialEq, Eq)]
pub enum ConnectEvent<E> {
    /// The next attempt is due.
    Due,
    /// The connection is open.
    Connected { raw: u64 },
    /// The connection could not be opened.
    Refused(ConnectError<E>),
    /// The time for the attempt is over.
    TimedOut,
    /// The `after_connect` hook is done with the connection.
    HookSucceeded { raw: u64 },
    /// The `after_connect` hook failed.
    HookFailed { raw: u64 },
    /// The broken connection was closed.
    ClosedHard,
}

/// What has to be done to get the connection open.
#[derive(Clone, Copy, Debug, PartialEq, Eq)]
pub enum ConnectAction {
    /// Try to connect, for at most this long.
    Attempt { timeout: u128 },
    /// Call the `after_connect` hook.
    AfterConnect { raw: u64, metadata: PoolConnectionMetadata },
    /// Close the connection without talking to the other end.
    CloseHard { raw: u64 },
    /// Wait this long before the next attempt.
    Sleep { duration: u128 },
}

/// Where opening a connection stands.
#[derive(Debug)]
pub enum ConnectStep<E> {
    Continue(Connect, ConnectAction),
    Opened(Floating<Live>),
    Failed(Error<E>),
}

pub open spec fn min_time(a: int, b: int) -> int {
    if a <= b {
        a
    } else {
        b
    }
}

/// A connection that is being opened, with the claim to it.
#[derive(Debug)]
pub struct Connect {
    guard: DecrementSizeGuard,
    deadline: u128,
    backoff: u128,
    max_backoff: u128,
}

impl Connect {
    pub closed spec fn guard(self) -> DecrementSizeGuard {
        self.guard
    }

    pub closed spec fn deadline(self) -> u128 {
        self.deadline
    }

    /// How long it waits after the next attempt that fails.
    pub closed spec fn backoff(self) -> u128 {
        self.backoff
    }

    /// The longest wait but for the first.
    pub closed spec fn max_backoff(self) -> u128 {
        self.max_backoff
    }

    pub open spec fn wf(self) -> bool {
        &&& self.max_backoff() <= u128::MAX / 5
        &&& self.backoff() <= INITIAL_BACKOFF || self.backoff() <= self.max_backoff()
    }

    /// The same, once one more attempt has failed.
    pub open spec fn backs_off_to(self, next: Connect) -> bool {
        &&& next.guard() == self.guard()
        &&& next.deadline() == self.deadline()
        &&& next.max_backoff() == self.max_backoff()
        &&& next.backoff() == min_time(2 * self.backoff(), self.max_backoff() as int)
    }

    /// What one event leads to while the connection can still be opened. Waiting doubles the time
    /// of the next wait, up to the limit.
    pub open spec fn continues<E>(
        self,
        event: ConnectEvent<E>,
        after_connect: bool,
        now: u128,
        step: ConnectStep<E>,
    ) -> bool {
        match event {
            ConnectEvent::Due => if now <= self.deadline() {
                step == ConnectStep::<E>::Continue(
                    self,
                    ConnectAction::Attempt { timeout: (self.deadline() - now) as u128 },
                )
            } else {
                step == ConnectStep::<E>::Failed(Error::PoolTimedOut)
            },
            ConnectEvent::Connected { raw } => if after_connect {
                step == ConnectStep::<E>::Continue(
                    self,
                    ConnectAction::AfterConnect {
                        raw,
                        metadata: PoolConnectionMetadata { age: 0, idle_for: 0 },
                    },
                )
            } else {
                step == ConnectStep::<E>::Opened(
                    Floating { inner: Live { raw, created_at: now }, guard: self.guard() },
                )
            },
            ConnectEvent::Refused(error) => if error.is_transient() {
                &&& step matches ConnectStep::Continue(next, action)
                &&& action == ConnectAction::Sleep { duration: self.backoff() }
                &&& self.backs_off_to(next)
            } else {
                step == ConnectStep::Failed(Error::Other(error.error()))
            },
            ConnectEvent::TimedOut => step == ConnectStep::<E>::Failed(Error::PoolTimedOut),
            ConnectEvent::HookSucceeded { raw } => step == ConnectStep::<E>::Opened(
                Floating { inner: Live { raw, created_at: now }, guard: self.guard() },
            ),
            ConnectEvent::HookFailed { raw } => step == ConnectStep::<E>::Continue(
                self,
                ConnectAction::CloseHard { raw },
            ),
            ConnectEvent::ClosedHard => {
                &&& step matches ConnectStep::Continue(next, action)
                &&& action == ConnectAction::Sleep { duration: self.backoff() }
                &&& self.backs_off_to(next)
            },
        }
    }

    fn back_off<E>(self) -> (step: ConnectStep<E>)
        requires
            self.wf(),
        ensures
            step matches ConnectStep::Continue(next, action) && action == (ConnectAction::Sleep {
                duration: self.backoff(),
            }) && self.backs_off_to(next) && next.wf(),
    {
        let duration: u128 = self.backoff;
        let doubled: u128 = duration * 2;
        let backoff: u128 = if doubled <= self.max_backoff {
            doubled
        } else {
            self.max_backoff
        };
        ConnectStep::Continue(Connect { backoff, ..self }, ConnectAction::Sleep { duration })
    }

    /// What to do after `event`. A claim that comes to nothing goes back to the pool.
    pub fn step<E>(self, pool: &mut PoolInner, event: ConnectEvent<E>, now: u128) -> (step:
        ConnectStep<E>)
        requires
            self.wf(),
            old(pool)@.semaphore.wf(),
            old(pool)@.semaphore.available < usize::MAX,
        ensures
            self.continues(event, old(pool)@.options.after_connect, now, step),
            step matches ConnectStep::Continue(next, _) ==> next.wf(),
            final(pool)@ == if step is Failed {
                old(pool)@.dropped(self.guard())
            } else {
                old(pool)@
            },
            old(pool).wf() && (!self.guard().is_cancelled() ==> old(pool)@.has_checkout())
                ==> final(pool).wf(),
    {
        match event {
            ConnectEvent::Due => match deadline_as_timeout(self.deadline, now) {
                Ok(timeout) => ConnectStep::Continue(self, ConnectAction::Attempt { timeout }),
                Err(error) => {
                    pool.drop_guard(self.guard);
                    ConnectStep::Failed(error)
                },
            },
            ConnectEvent::Connected { raw } => if pool.options().after_connect {
                let metadata = PoolConnectionMetadata { age: 0, idle_for: 0 };
                ConnectStep::Continue(self, ConnectAction::AfterConnect { raw, metadata })
            } else {
                ConnectStep::Opened(Floating::new_live(raw, now, self.guard))
            },
            ConnectEvent::Refused(error) => match error {
                ConnectError::Io { connection_refused, error } => if connection_refused {
                    self.back_off()
                } else {
                    pool.drop_guard(self.guard);
                    ConnectStep::Failed(Error::Other(error))
                },
                ConnectError::Database { transient_in_connect_phase, error } => {
                    if transient_in_connect_phase {
                        self.back_off()
                    } else {
                        pool.drop_guard(self.guard);
                        ConnectStep::Failed(Error::Other(error))
                    }
                },
                ConnectError::Other(error) => {
                    pool.drop_guard(self.guard);
                    ConnectStep::Failed(Error::Other(error))
                },
            },
            ConnectEvent::TimedOut => {
                pool.drop_guard(self.guard);
                ConnectStep::Failed(Error::PoolTimedOut)
            },
            ConnectEvent::HookSucceeded { raw } => ConnectStep::Opened(
                Floating::new_live(raw, now, self.guard),
            ),
            // The connection is broken, don't try to close nicely.
            ConnectEvent::HookFailed { raw } => ConnectStep::Continue(
                self,
                ConnectAction::CloseHard { raw },
            ),
            ConnectEvent::ClosedHard => self.back_off(),
        }
    }

    /// Gives up on the connection.
    pub fn cancel(self, pool: &mut PoolInner)
        requires
            old(pool)@.semaphore.wf(),
            old(pool)@.semaphore.available < usize::MAX,
        ensures
            final(pool)@ == old(pool)@.dropped(self.guard()),
            old(pool).wf() && (!self.guard().is_cancelled() ==> old(pool)@.has_checkout())
                ==> final(pool).wf(),
    {
        pool.drop_guard(self.guard);
    }
}

impl PoolInner {
    /// Starts to open a connection that `guard` has a claim to. The limit to the waits is a fifth
    /// of the time that is left.
    pub fn connect<E>(&mut self, deadline: u128, guard: DecrementSizeGuard, now: u128) -> (connect:
        Result<Connect, Error<E>>)
        requires
            old(self)@.semaphore.wf(),
            old(self)@.semaphore.available < usize::MAX,
        ensures
            connect is Ok <==> !old(self)@.closed && now <= deadline,
            connect matches Ok(c) ==> {
                &&& c.wf()
                &&& c.guard() == guard
                &&& c.deadline() == deadline
                &&& c.backoff() == INITIAL_BACKOFF
                &&& c.max_backoff() == (deadline - now) / 5
                &&& final(self)@ == old(self)@
            },
            connect matches Err(error) ==> {
                &&& final(self)@ == old(self)@.dropped(guard)
                &&& error == if old(self)@.closed {
                    Error::<E>::PoolClosed
                } else {
                    Error::PoolTimedOut
                }
            },
            old(self).wf() && (!guard.is_cancelled() ==> old(self)@.has_checkout())
                ==> final(self).wf(),
    {
        if self.is_closed() {
            self.drop_guard(guard);
            return Err(Error::PoolClosed);
        }
        match deadline_as_timeout(deadline, now) {
            Ok(timeout) => {
                let max_backoff: u128 = timeout / 5;
                Ok(Connect { guard, deadline, backoff: INITIAL_BACKOFF, max_backoff })
            },
            Err(error) => {
                self.drop_guard(guard);
                Err(error)
            },
        }
    }
}

} // verus!
