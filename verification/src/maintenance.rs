//! Keeping the pool in shape: opening connections up to the minimum, and closing those that have
//! been idle or alive for too long.

use crate::acquire::Error;
use crate::idle::{Idle, Live};
use crate::inner::{DecrementSizeGuard, Floating, PoolInner};
use crate::options::{is_beyond_idle_timeout, is_beyond_max_lifetime, PoolOptions};
use crate::state::PoolState;
use vstd::prelude::*;

verus! {

/// How long it may take to get to `min_connections` if the caller does not care, in nanoseconds.
pub const DEFAULT_MAINTENANCE_TIMEOUT: u128 = 300_000_000_000;

/// What happened while connections are opened up to `min_connections`.
#[derive(Debug)]
pub enum MinConnectionsEvent<E> {
    Started,
    /// A connection is open.
    Opened(Floating<Live>),
    /// A connection could not be opened.
    Failed(Error<E>),
}

/// What to do to get to `min_connections`.
#[derive(Debug)]
pub enum MinConnectionsStep {
    /// Open a connection.
    Connect(DecrementSizeGuard),
    /// Nothing: there are enough, or no more can be opened now.
    Done,
}

/// What to report of an attempt to get to `min_connections`.
#[derive(Clone, Copy, Debug, PartialEq, Eq, Structural)]
pub enum MaintenanceLog {
    Nothing,
    /// The time was not enough.
    DeadlineMissed,
    /// A connection could not be opened.
    Error,
}

/// What to do to get to `min_connections`, and what to report in the end.
#[derive(Debug)]
pub enum MaintenanceStep<E> {
    /// Open a connection.
    Connect(DecrementSizeGuard),
    Done(MaintenanceLog, Option<E>),
}

impl<E> MinConnectionsEvent<E> {
    /// The pool once the event has been taken note of.
    pub open spec fn noted(self, pool: PoolState, now: u128) -> PoolState {
        match self {
            MinConnectionsEvent::Opened(live) => pool.released(live.inner, now),
            _ => pool,
        }
    }
}

impl PoolInner {
    /// Opens connections up to `min_connections`, one after the other, and reports any error.
    ///
    /// A connection that was opened goes straight to the idle queue. If no permit is free there is
    /// no need for another connection, and `max_connections` is always obeyed.
    pub fn try_min_connections<E>(&mut self, event: MinConnectionsEvent<E>, now: u128) -> (step:
        Result<MinConnectionsStep, Error<E>>)
        requires
            old(self).wf(),
            event is Opened ==> old(self)@.has_checkout() && old(self)@.has_room(),
        ensures
            final(self).wf(),
            match event {
                MinConnectionsEvent::Failed(error) => {
                    &&& final(self)@ == old(self)@
                    &&& step == Err::<MinConnectionsStep, Error<E>>(error)
                },
                _ => {
                    let noted = event.noted(old(self)@, now);
                    if noted.wants_connection() {
                        &&& final(self)@ == noted.take(1).grow()
                        &&& step matches Ok(MinConnectionsStep::Connect(guard))
                        &&& !guard.is_cancelled()
                    } else {
                        &&& final(self)@ == noted
                        &&& step == Ok::<MinConnectionsStep, Error<E>>(MinConnectionsStep::Done)
                    }
                },
            },
    {
        match event {
            MinConnectionsEvent::Started => {},
            MinConnectionsEvent::Opened(live) => {
                proof {
                    old(self)@.push_idle(
                        Idle { live: live.inner, idle_since: now },
                    ).semaphore.lemma_release(1);
                }
                self.release(live, now);
            },
            MinConnectionsEvent::Failed(error) => {
                return Err(error);
            },
        }
        let ghost noted = self@;
        if self.size() >= self.options().min_connections {
            return Ok(MinConnectionsStep::Done);
        }
        match self.try_acquire_permit() {
            None => Ok(MinConnectionsStep::Done),
            Some(permit) => match self.try_increment_size(permit) {
                Ok(guard) => Ok(MinConnectionsStep::Connect(guard)),
                Err(permit) => {
                    proof {
                        noted.lemma_take_give_back(1);
                    }
                    self.release_permit(permit);
                    Ok(MinConnectionsStep::Done)
                },
            },
        }
    }

    /// Opens connections up to `min_connections`, and says what to report if that fails. A pool
    /// that was closed meanwhile is nothing to report.
    pub fn min_connections_maintenance<E>(&mut self, event: MinConnectionsEvent<E>, now: u128) -> (
    step: MaintenanceStep<E>)
        requires
            old(self).wf(),
            event is Opened ==> old(self)@.has_checkout() && old(self)@.has_room(),
        ensures
            final(self).wf(),
            match event {
                MinConnectionsEvent::Failed(error) => {
                    &&& final(self)@ == old(self)@
                    &&& step == match error {
                        Error::PoolClosed => MaintenanceStep::Done(
                            MaintenanceLog::Nothing,
                            None::<E>,
                        ),
                        Error::PoolTimedOut => MaintenanceStep::Done(
                            MaintenanceLog::DeadlineMissed,
                            None::<E>,
                        ),
                        Error::Other(error) => MaintenanceStep::Done(
                            MaintenanceLog::Error,
                            Some(error),
                        ),
                    }
                },
                _ => {
                    let noted = event.noted(old(self)@, now);
                    if noted.wants_connection() {
                        &&& final(self)@ == noted.take(1).grow()
                        &&& step matches MaintenanceStep::Connect(guard)
                        &&& !guard.is_cancelled()
                    } else {
                        &&& final(self)@ == noted
                        &&& step == MaintenanceStep::Done(MaintenanceLog::Nothing, None::<E>)
                    }
                },
            },
    {
        match self.try_min_connections(event, now) {
            Ok(MinConnectionsStep::Connect(guard)) => MaintenanceStep::Connect(guard),
            Ok(MinConnectionsStep::Done) => MaintenanceStep::Done(MaintenanceLog::Nothing, None),
            Err(Error::PoolClosed) => MaintenanceStep::Done(MaintenanceLog::Nothing, None),
            Err(Error::PoolTimedOut) => MaintenanceStep::Done(MaintenanceLog::DeadlineMissed, None),
            Err(Error::Other(error)) => MaintenanceStep::Done(MaintenanceLog::Error, Some(error)),
        }
    }
}

/// The deadline for getting to `min_connections`, where the caller may not care.
pub fn maintenance_deadline(deadline: Option<u128>, now: u128) -> (chosen: u128)
    requires
        deadline is None ==> now + DEFAULT_MAINTENANCE_TIMEOUT <= u128::MAX,
    ensures
        chosen == match deadline {
            Some(deadline) => deadline as int,
            None => now + DEFAULT_MAINTENANCE_TIMEOUT,
        },
{
    match deadline {
        Some(deadline) => deadline,
        None => now + DEFAULT_MAINTENANCE_TIMEOUT,
    }
}

/// What runs in the background of a pool.
#[derive(Clone, Copy, Debug, PartialEq, Eq, Structural)]
pub enum MaintenancePlan {
    Nothing,
    /// Get to `min_connections` once.
    Once,
    /// Look at the idle connections again and again, this far apart.
    Every { period: u128 },
}

pub open spec fn maintenance_plan(options: PoolOptions) -> MaintenancePlan {
    match (options.max_lifetime, options.idle_timeout) {
        (Some(lifetime), Some(timeout)) => MaintenancePlan::Every {
            period: if lifetime <= timeout {
                lifetime
            } else {
                timeout
            },
        },
        (Some(lifetime), None) => MaintenancePlan::Every { period: lifetime },
        (None, Some(timeout)) => MaintenancePlan::Every { period: timeout },
        (None, None) => if options.min_connections > 0 {
            MaintenancePlan::Once
        } else {
            MaintenancePlan::Nothing
        },
    }
}

/// What has to run in the background of `pool`.
pub fn spawn_maintenance_tasks(pool: &PoolInner) -> (plan: MaintenancePlan)
    ensures
        plan == maintenance_plan(pool@.options),
{
    let options = pool.options();
    match (options.max_lifetime, options.idle_timeout) {
        (Some(lifetime), Some(timeout)) => {
            let period: u128 = if lifetime <= timeout {
                lifetime
            } else {
                timeout
            };
            MaintenancePlan::Every { period }
        },
        (Some(period), None) => MaintenancePlan::Every { period },
        (None, Some(period)) => MaintenancePlan::Every { period },
        (None, None) => if options.min_connections > 0 {
            MaintenancePlan::Once
        } else {
            MaintenancePlan::Nothing
        },
    }
}

/// One look at the idle connections.
#[derive(Clone, Copy, Debug, PartialEq, Eq, Structural)]
pub struct Sweep {
    /// When the next one is due. Connections that replace closed ones have to be open by then.
    pub next_run: u128,
    /// The checks that are left.
    pub checks: usize,
}

/// What one check came to.
#[derive(Debug)]
pub enum SweepStep {
    /// There was nothing to check, or the connection is back in the pool.
    Continue,
    /// The connection is too old: close it, drop its claim, and get to `min_connections`.
    Close(Floating<Idle>),
    /// Every check is done: wait until the next sweep.
    Sleep { duration: u128 },
    /// Every check is done, and the next sweep is overdue.
    Yield,
}

/// Whether a connection is not worth keeping.
pub open spec fn is_expired(idle: Idle, options: PoolOptions, now: u128) -> bool {
    let metadata = idle.metadata_at(now);
    ||| crate::options::exceeds(options.idle_timeout, metadata.idle_for)
    ||| crate::options::exceeds(options.max_lifetime, metadata.age)
}

impl Sweep {
    /// What remains after one check.
    pub open spec fn checked(self) -> Sweep {
        Sweep { checks: (self.checks - 1) as usize, ..self }
    }

    /// Checks the idle connection at the front, or ends the sweep.
    pub fn check(&mut self, pool: &mut PoolInner, now: u128) -> (step: SweepStep)
        requires
            old(pool).wf(),
        ensures
            final(pool).wf(),
            if old(self).checks == 0 {
                &&& *final(self) == *old(self)
                &&& final(pool)@ == old(pool)@
                &&& step == if now <= old(self).next_run {
                    SweepStep::Sleep { duration: (old(self).next_run - now) as u128 }
                } else {
                    SweepStep::Yield
                }
            } else if !old(pool)@.can_pop_idle() || old(pool)@.semaphore.available == 0 {
                &&& *final(self) == old(self).checked()
                &&& final(pool)@ == old(pool)@
                &&& step is Continue
            } else if is_expired(old(pool)@.idle[0], old(pool)@.options, now) {
                &&& *final(self) == old(self).checked()
                &&& final(pool)@ == old(pool)@.take(1).pop_idle()
                &&& step matches SweepStep::Close(floating)
                &&& floating.inner == old(pool)@.idle[0]
                &&& !floating.guard.is_cancelled()
            } else {
                &&& *final(self) == old(self).checked()
                &&& final(pool)@ == old(pool)@.take(1).pop_idle().released(
                    old(pool)@.idle[0].live,
                    now,
                )
                &&& step is Continue
            },
    {
        if self.checks == 0 {
            return if now <= self.next_run {
                SweepStep::Sleep { duration: self.next_run - now }
            } else {
                SweepStep::Yield
            };
        }
        self.checks = self.checks - 1;
        match pool.try_acquire() {
            None => SweepStep::Continue,
            Some(conn) => {
                let options = pool.options();
                if is_beyond_idle_timeout(&conn.inner, &options, now) || is_beyond_max_lifetime(
                    &conn.inner.live,
                    &options,
                    now,
                ) {
                    SweepStep::Close(conn)
                } else {
                    proof {
                        old(pool)@.lemma_take(1);
                    }
                    pool.release(conn.into_live(), now);
                    SweepStep::Continue
                }
            },
        }
    }
}

impl PoolInner {
    /// Begins to look at the idle connections, unless the pool is closed.
    ///
    /// No more checks than there may be connections, whatever the counter says, so that a sweep
    /// always ends.
    pub fn begin_sweep(&self, period: u128, now: u128) -> (sweep: Option<Sweep>)
        requires
            !self@.closed ==> now + period <= u128::MAX,
        ensures
            sweep is Some <==> !self@.closed,
            sweep matches Some(sweep) ==> {
                &&& sweep.next_run == now + period
                &&& sweep.checks == if self@.num_idle <= self@.options.max_connections {
                    self@.num_idle
                } else {
                    self@.options.max_connections as nat
                }
            },
    {
        if self.is_closed() {
            return None;
        }
        let max: usize = self.options().max_connections as usize;
        let checks: usize = if self.num_idle() <= max {
            self.num_idle()
        } else {
            max
        };
        Some(Sweep { next_run: now + period, checks })
    }
}

} // verus!
