//! What a pool was configured with, and the rules that follow from the configuration alone.
//!
//! All durations are nanoseconds.

use crate::idle::{elapsed, Idle, Live};
use vstd::prelude::*;

verus! {

/// The severity of a log event.
#[derive(Clone, Copy, Debug, PartialEq, Eq, Structural)]
pub enum LogLevel {
    Error,
    Warn,
    Info,
    Debug,
    Trace,
}

#[derive(Clone, Copy, Debug, PartialEq, Eq)]
pub struct PoolOptions {
    /// The most connections the pool may have open at a time.
    pub max_connections: u32,
    /// The number of connections that maintenance keeps open.
    pub min_connections: u32,
    /// Whether waiting callers have to be served in order. They are in any case. A child has to
    /// agree with its parent.
    pub fair: bool,
    /// How long a caller waits for a connection.
    pub acquire_timeout: u128,
    /// The level at which every acquisition is logged, if it is.
    pub acquire_time_level: Option<LogLevel>,
    /// The level at which slow acquisitions are logged, if they are.
    pub acquire_slow_level: Option<LogLevel>,
    /// An acquisition that takes longer than this is slow.
    pub acquire_slow_threshold: u128,
    /// The age past which maintenance closes a connection.
    pub max_lifetime: Option<u128>,
    /// The idle time past which maintenance closes a connection.
    pub idle_timeout: Option<u128>,
    /// Whether an idle connection is pinged before it is handed out.
    pub test_before_acquire: bool,
    /// Whether a hook decides if an idle connection may be handed out.
    pub before_acquire: bool,
    /// Whether a hook runs on every new connection.
    pub after_connect: bool,
}

pub open spec fn exceeds(limit: Option<u128>, passed: u128) -> bool {
    limit is Some && passed > limit->0
}

/// Returns `true` if the connection has exceeded `options.max_lifetime` if set, `false` otherwise.
pub fn is_beyond_max_lifetime(live: &Live, options: &PoolOptions, now: u128) -> (beyond: bool)
    ensures
        beyond == exceeds(
            options.max_lifetime,
            crate::idle::elapsed_since(live.created_at, now),
        ),
{
    match options.max_lifetime {
        Some(max) => elapsed(live.created_at, now) > max,
        None => false,
    }
}

/// Returns `true` if the connection has exceeded `options.idle_timeout` if set, `false` otherwise.
pub fn is_beyond_idle_timeout(idle: &Idle, options: &PoolOptions, now: u128) -> (beyond: bool)
    ensures
        beyond == exceeds(
            options.idle_timeout,
            crate::idle::elapsed_since(idle.idle_since, now),
        ),
{
    match options.idle_timeout {
        Some(timeout) => elapsed(idle.idle_since, now) > timeout,
        None => false,
    }
}

/// How a finished acquisition is logged.
#[derive(Clone, Copy, Debug, PartialEq, Eq, Structural)]
pub enum AcquireLog {
    /// It took longer than the slow threshold.
    Slow(LogLevel),
    /// It is reported like any other.
    Acquired(LogLevel),
    /// It is not reported.
    Silent,
}

impl PoolOptions {
    /// When a caller that asked for a connection at `started_at` gives up.
    pub fn acquire_deadline(&self, started_at: u128) -> (deadline: u128)
        requires
            started_at + self.acquire_timeout <= u128::MAX,
        ensures
            deadline == started_at + self.acquire_timeout,
    {
        started_at + self.acquire_timeout
    }

    pub open spec fn acquire_log_at(self, acquired_after: u128) -> AcquireLog {
        if self.acquire_slow_level is Some && acquired_after > self.acquire_slow_threshold {
            AcquireLog::Slow(self.acquire_slow_level->0)
        } else if self.acquire_time_level is Some {
            AcquireLog::Acquired(self.acquire_time_level->0)
        } else {
            AcquireLog::Silent
        }
    }

    /// How an acquisition that took `acquired_after` is logged. A slow one is reported as slow,
    /// and then not a second time as an ordinary one.
    pub fn acquire_log(&self, acquired_after: u128) -> (log: AcquireLog)
        ensures
            log == self.acquire_log_at(acquired_after),
    {
        if let Some(level) = self.acquire_slow_level {
            if acquired_after > self.acquire_slow_threshold {
                return AcquireLog::Slow(level);
            }
        }
        match self.acquire_time_level {
            Some(level) => AcquireLog::Acquired(level),
            None => AcquireLog::Silent,
        }
    }
}

} // verus!
