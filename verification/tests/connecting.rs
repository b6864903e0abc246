//! Opening connections, checking idle ones, and keeping the pool in shape.

use sqlx_pool::acquire::{
    check_idle_conn, AcquireAction, AcquireEvent, Error, IdleCheck, IdleEvent,
};
use sqlx_pool::close::ClosePoll;
use sqlx_pool::connect::{
    deadline_as_timeout, Connect, ConnectAction, ConnectError, ConnectEvent, ConnectStep,
    INITIAL_BACKOFF,
};
use sqlx_pool::idle::{elapsed, Idle, Live, PoolConnectionMetadata};
use sqlx_pool::inner::{DecrementSizeGuard, Floating, PoolInner};
use sqlx_pool::maintenance::{
    maintenance_deadline, spawn_maintenance_tasks, MaintenanceLog, MaintenancePlan,
    MaintenanceStep, MinConnectionsEvent, MinConnectionsStep, Sweep, SweepStep,
};
use sqlx_pool::options::{
    is_beyond_idle_timeout, is_beyond_max_lifetime, AcquireLog, LogLevel, PoolOptions,
};
use sqlx_pool::permit::PermitPoll;

const MILLISECOND: u128 = 1_000_000;
const SECOND: u128 = 1_000_000_000;

fn options() -> PoolOptions {
    PoolOptions {
        max_connections: 3,
        min_connections: 0,
        fair: true,
        acquire_timeout: 30 * SECOND,
        acquire_time_level: None,
        acquire_slow_level: None,
        acquire_slow_threshold: 2 * SECOND,
        max_lifetime: None,
        idle_timeout: None,
        test_before_acquire: true,
        before_acquire: true,
        after_connect: true,
    }
}

fn pool(options: PoolOptions) -> PoolInner {
    PoolInner::new(options, None)
}

fn claim(pool: &mut PoolInner) -> DecrementSizeGuard {
    let permit = pool.try_acquire_permit().unwrap();
    pool.try_increment_size(permit).unwrap()
}

fn begin(pool: &mut PoolInner, deadline: u128, now: u128) -> Connect {
    let guard = claim(pool);
    pool.connect::<&str>(deadline, guard, now).unwrap()
}

/// Goes on, and says what to do.
fn next(
    connect: Connect,
    pool: &mut PoolInner,
    event: ConnectEvent<&'static str>,
    now: u128,
) -> (Connect, ConnectAction) {
    match connect.step(pool, event, now) {
        ConnectStep::Continue(connect, action) => (connect, action),
        other => panic!("it ended: {:?}", other),
    }
}

fn failure(
    connect: Connect,
    pool: &mut PoolInner,
    event: ConnectEvent<&'static str>,
    now: u128,
) -> Error<&'static str> {
    match connect.step(pool, event, now) {
        ConnectStep::Failed(error) => error,
        other => panic!("it did not fail: {:?}", other),
    }
}

/// Puts a connection into the idle queue.
fn add_idle(pool: &mut PoolInner, raw: u64, created_at: u128, idle_since: u128) {
    let guard = claim(pool);
    pool.release(Floating::new_live(raw, created_at, guard), idle_since);
}

fn refused() -> ConnectEvent<&'static str> {
    ConnectEvent::Refused(ConnectError::Io { connection_refused: true, error: "refused" })
}

#[test]
fn a_deadline_leaves_the_time_until_then() {
    assert_eq!(deadline_as_timeout::<()>(10, 4), Ok(6));
    assert_eq!(deadline_as_timeout::<()>(10, 10), Ok(0));
    assert_eq!(deadline_as_timeout::<()>(10, 11), Err(Error::PoolTimedOut));
}

#[test]
fn a_connection_is_opened_and_handed_to_the_hook() {
    let mut pool = pool(options());
    let connect = begin(&mut pool, 10 * SECOND, 0);
    let (connect, action) = next(connect, &mut pool, ConnectEvent::Due, SECOND);
    assert_eq!(action, ConnectAction::Attempt { timeout: 9 * SECOND });
    let (connect, action) =
        next(connect, &mut pool, ConnectEvent::Connected { raw: 7 }, 2 * SECOND);
    assert_eq!(
        action,
        ConnectAction::AfterConnect {
            raw: 7,
            metadata: PoolConnectionMetadata { age: 0, idle_for: 0 },
        }
    );
    match connect.step::<&str>(&mut pool, ConnectEvent::HookSucceeded { raw: 7 }, 3 * SECOND) {
        ConnectStep::Opened(live) => {
            assert_eq!(live.inner, Live { raw: 7, created_at: 3 * SECOND });
            assert_eq!(pool.size(), 1);
            pool.release(live, 4 * SECOND);
        }
        other => panic!("it is not open: {:?}", other),
    }
    assert_eq!((pool.size(), pool.num_idle(), pool.available_permits()), (1, 1, 3));
}

#[test]
fn without_a_hook_the_connection_is_open_at_once() {
    let mut pool = pool(PoolOptions { after_connect: false, ..options() });
    let connect = begin(&mut pool, 10 * SECOND, 0);
    assert!(matches!(
        connect.step::<&str>(&mut pool, ConnectEvent::Connected { raw: 7 }, 5),
        ConnectStep::Opened(live) if live.inner == Live { raw: 7, created_at: 5 }
    ));
}

#[test]
fn a_failed_hook_closes_the_connection_and_backs_off() {
    let mut pool = pool(options());
    let connect = begin(&mut pool, 10 * SECOND, 0);
    let (connect, action) = next(connect, &mut pool, ConnectEvent::HookFailed { raw: 7 }, 0);
    assert_eq!(action, ConnectAction::CloseHard { raw: 7 });
    let (connect, action) = next(connect, &mut pool, ConnectEvent::ClosedHard, 0);
    assert_eq!(action, ConnectAction::Sleep { duration: 10 * MILLISECOND });
    let (connect, action) = next(connect, &mut pool, refused(), 0);
    assert_eq!(action, ConnectAction::Sleep { duration: 20 * MILLISECOND });
    assert_eq!(pool.size(), 1);
    connect.cancel(&mut pool);
    assert_eq!((pool.size(), pool.available_permits()), (0, 3));
}

#[test]
fn the_waits_double_up_to_a_fifth_of_the_time() {
    let mut pool = pool(options());
    assert_eq!(INITIAL_BACKOFF, 10 * MILLISECOND);
    // A fifth of half a second.
    let mut connect = begin(&mut pool, SECOND, SECOND / 2);
    let mut waits = Vec::new();
    for _ in 0..6 {
        let (later, action) = next(connect, &mut pool, refused(), SECOND / 2);
        connect = later;
        match action {
            ConnectAction::Sleep { duration } => waits.push(duration / MILLISECOND),
            other => panic!("it does not wait: {:?}", other),
        }
    }
    assert_eq!(waits, vec![10, 20, 40, 80, 100, 100]);
}

#[test]
fn with_little_time_left_only_the_first_wait_is_long() {
    let mut pool = pool(options());
    let connect = begin(&mut pool, 5, 0);
    let transient = ConnectEvent::Refused(ConnectError::Database {
        transient_in_connect_phase: true,
        error: "starting up",
    });
    let (connect, action) = next(connect, &mut pool, transient, 0);
    assert_eq!(action, ConnectAction::Sleep { duration: INITIAL_BACKOFF });
    let (connect, action) = next(connect, &mut pool, refused(), 0);
    assert_eq!(action, ConnectAction::Sleep { duration: 1 });
    assert_eq!(failure(connect, &mut pool, ConnectEvent::Due, 6), Error::PoolTimedOut);
    assert_eq!((pool.size(), pool.available_permits()), (0, 3));
}

#[test]
fn other_errors_end_the_attempt() {
    let mut pool = pool(options());
    let events = vec![
        (
            ConnectEvent::Refused(ConnectError::Io { connection_refused: false, error: "io" }),
            Error::Other("io"),
        ),
        (
            ConnectEvent::Refused(ConnectError::Database {
                transient_in_connect_phase: false,
                error: "password",
            }),
            Error::Other("password"),
        ),
        (ConnectEvent::Refused(ConnectError::Other("tls")), Error::Other("tls")),
        (ConnectEvent::TimedOut, Error::PoolTimedOut),
    ];
    for (event, error) in events {
        let connect = begin(&mut pool, SECOND, 0);
        assert_eq!(pool.size(), 1);
        assert_eq!(failure(connect, &mut pool, event, 0), error);
        assert_eq!((pool.size(), pool.available_permits()), (0, 3));
    }
}

#[test]
fn nothing_is_opened_in_a_closed_pool_or_after_the_deadline() {
    let mut pool = pool(options());
    let guard = claim(&mut pool);
    assert!(matches!(pool.connect::<()>(5, guard, 6), Err(Error::PoolTimedOut)));
    let guard = claim(&mut pool);
    pool.mark_closed();
    assert!(matches!(pool.connect::<()>(5, guard, 6), Err(Error::PoolClosed)));
    assert_eq!((pool.size(), pool.available_permits()), (0, 3));
}

#[test]
fn a_claim_that_was_cancelled_gives_nothing_back() {
    let mut pool = pool(options());
    let guard = claim(&mut pool).cancel();
    assert!(matches!(pool.connect::<()>(5, guard, 6), Err(Error::PoolTimedOut)));
    assert_eq!((pool.size(), pool.available_permits()), (1, 2));
}

#[test]
fn an_idle_connection_is_pinged_and_then_shown_to_the_hook() {
    let idle = Idle { live: Live { raw: 1, created_at: 10 }, idle_since: 40 };
    let metadata = PoolConnectionMetadata { age: 90, idle_for: 60 };
    let both = options();
    let check = |options: &PoolOptions, event| check_idle_conn(&idle, options, event, 100);
    assert_eq!(check(&both, IdleEvent::Popped), IdleCheck::Ping);
    assert_eq!(check(&both, IdleEvent::PingSucceeded), IdleCheck::BeforeAcquire(metadata));
    assert_eq!(check(&both, IdleEvent::PingFailed), IdleCheck::CloseHard);
    assert_eq!(check(&both, IdleEvent::Accepted), IdleCheck::Use);
    assert_eq!(check(&both, IdleEvent::Rejected), IdleCheck::Close);
    assert_eq!(check(&both, IdleEvent::HookFailed), IdleCheck::CloseHard);
    let hook = PoolOptions { test_before_acquire: false, ..both };
    assert_eq!(check(&hook, IdleEvent::Popped), IdleCheck::BeforeAcquire(metadata));
    let ping = PoolOptions { before_acquire: false, ..both };
    assert_eq!(check(&ping, IdleEvent::Popped), IdleCheck::Ping);
    assert_eq!(check(&ping, IdleEvent::PingSucceeded), IdleCheck::Use);
    let neither = PoolOptions { test_before_acquire: false, before_acquire: false, ..both };
    assert_eq!(check(&neither, IdleEvent::Popped), IdleCheck::Use);
}

#[test]
fn a_connection_that_is_unusable_is_replaced() {
    let mut pool = pool(options());
    add_idle(&mut pool, 1, 0, 0);
    let permit = pool.try_acquire_permit().unwrap();
    let idle = match pool.acquire::<()>(AcquireEvent::Permit(permit)) {
        AcquireAction::CheckIdle(idle) => idle,
        other => panic!("the idle connection was not used: {:?}", other),
    };
    assert_eq!(idle.inner.live.raw, 1);
    let guard = match pool.acquire::<()>(AcquireEvent::IdleUnusable(idle.guard)) {
        AcquireAction::Connect(guard) => guard,
        other => panic!("it is not replaced: {:?}", other),
    };
    let live = Floating::new_live(2, 5, guard);
    match pool.acquire::<()>(AcquireEvent::Opened(live)) {
        AcquireAction::Acquired(live) => assert_eq!(live.inner.raw, 2),
        other => panic!("it is not handed out: {:?}", other),
    }
    assert_eq!((pool.size(), pool.num_idle(), pool.available_permits()), (1, 0, 2));
}

#[test]
fn an_acquisition_ends_with_a_connection_or_an_error() {
    let mut pool = pool(options());
    assert_eq!(pool.options().acquire_deadline(5), 30 * SECOND + 5);
    assert!(matches!(
        pool.acquire::<&str>(AcquireEvent::Started),
        AcquireAction::AwaitPermit(caller) if caller.acquire_parent.is_none() && !caller.poll_parent
    ));
    assert!(matches!(
        pool.acquire::<&str>(AcquireEvent::TimedOut),
        AcquireAction::Failed(Error::PoolTimedOut)
    ));
    assert!(matches!(
        pool.acquire(AcquireEvent::ConnectFailed(Error::Other("tls"))),
        AcquireAction::Failed(Error::Other("tls"))
    ));
    let guard = claim(&mut pool);
    assert!(matches!(
        pool.acquire::<&str>(AcquireEvent::IdleUsable(Floating::new_live(4, 0, guard))),
        AcquireAction::Acquired(live) if live.inner.raw == 4
    ));
    pool.mark_closed();
    assert!(matches!(
        pool.acquire::<&str>(AcquireEvent::Started),
        AcquireAction::Failed(Error::PoolClosed)
    ));
}

#[test]
fn a_limit_is_exceeded_only_past_it() {
    let live = Live { raw: 1, created_at: 10 };
    let idle = Idle { live, idle_since: 50 };
    let limited = PoolOptions { max_lifetime: Some(90), idle_timeout: Some(50), ..options() };
    assert!(!is_beyond_max_lifetime(&live, &limited, 100));
    assert!(is_beyond_max_lifetime(&live, &limited, 101));
    assert!(!is_beyond_idle_timeout(&idle, &limited, 100));
    assert!(is_beyond_idle_timeout(&idle, &limited, 101));
    assert!(!is_beyond_max_lifetime(&live, &options(), u128::MAX));
    assert!(!is_beyond_idle_timeout(&idle, &options(), u128::MAX));
    assert_eq!(elapsed(10, 4), 0);
    assert_eq!(idle.metadata(0), PoolConnectionMetadata { age: 0, idle_for: 0 });
}

#[test]
fn a_slow_acquisition_is_reported_as_slow() {
    let logged = PoolOptions {
        acquire_time_level: Some(LogLevel::Debug),
        acquire_slow_level: Some(LogLevel::Warn),
        ..options()
    };
    assert_eq!(logged.acquire_log(2 * SECOND), AcquireLog::Acquired(LogLevel::Debug));
    assert_eq!(logged.acquire_log(2 * SECOND + 1), AcquireLog::Slow(LogLevel::Warn));
    let only_slow = PoolOptions { acquire_time_level: None, ..logged };
    assert_eq!(only_slow.acquire_log(2 * SECOND), AcquireLog::Silent);
    let only_time = PoolOptions { acquire_slow_level: None, ..logged };
    assert_eq!(only_time.acquire_log(3 * SECOND), AcquireLog::Acquired(LogLevel::Debug));
}

#[test]
fn connections_are_opened_up_to_the_minimum() {
    let mut pool = pool(PoolOptions { min_connections: 2, ..options() });
    let mut event = MinConnectionsEvent::<&str>::Started;
    for raw in 1..3 {
        match pool.try_min_connections(event, 10) {
            Ok(MinConnectionsStep::Connect(guard)) => {
                event = MinConnectionsEvent::Opened(Floating::new_live(raw, 5, guard));
            }
            other => panic!("no connection is opened: {:?}", other),
        }
    }
    assert!(matches!(pool.try_min_connections(event, 20), Ok(MinConnectionsStep::Done)));
    assert_eq!((pool.size(), pool.num_idle(), pool.available_permits()), (2, 2, 3));
    let first = pool.try_acquire().unwrap();
    assert_eq!(first.inner, Idle { live: Live { raw: 1, created_at: 5 }, idle_since: 10 });
    pool.drop_guard(first.guard);
    assert!(matches!(
        pool.try_min_connections(MinConnectionsEvent::Failed(Error::Other("tls")), 30),
        Err(Error::Other("tls"))
    ));
}

#[test]
fn nobody_waits_for_a_permit_to_reach_the_minimum() {
    let mut pool = pool(PoolOptions { min_connections: 3, ..options() });
    let mut taken = Vec::new();
    for _ in 0..3 {
        taken.push(pool.try_acquire_permit().unwrap());
    }
    assert!(matches!(
        pool.try_min_connections::<()>(MinConnectionsEvent::Started, 0),
        Ok(MinConnectionsStep::Done)
    ));
    pool.release_permit(taken.pop().unwrap());
    pool.mark_closed();
    assert!(matches!(
        pool.try_min_connections::<()>(MinConnectionsEvent::Started, 0),
        Ok(MinConnectionsStep::Done)
    ));
    assert_eq!((pool.size(), pool.available_permits()), (0, 1));
}

#[test]
fn maintenance_reports_what_went_wrong() {
    let mut pool = pool(PoolOptions { min_connections: 1, ..options() });
    let mut report = |error| {
        match pool.min_connections_maintenance(MinConnectionsEvent::Failed(error), 0) {
            MaintenanceStep::Done(log, error) => (log, error),
            other => panic!("it goes on: {:?}", other),
        }
    };
    assert_eq!(report(Error::PoolClosed), (MaintenanceLog::Nothing, None));
    assert_eq!(report(Error::PoolTimedOut), (MaintenanceLog::DeadlineMissed, None));
    assert_eq!(report(Error::Other("tls")), (MaintenanceLog::Error, Some("tls")));
    let guard = match pool.min_connections_maintenance::<&str>(MinConnectionsEvent::Started, 0) {
        MaintenanceStep::Connect(guard) => guard,
        other => panic!("no connection is opened: {:?}", other),
    };
    let opened = MinConnectionsEvent::<&str>::Opened(Floating::new_live(1, 0, guard));
    assert!(matches!(
        pool.min_connections_maintenance(opened, 1),
        MaintenanceStep::Done(MaintenanceLog::Nothing, None)
    ));
    assert_eq!((pool.size(), pool.num_idle()), (1, 1));
}

#[test]
fn maintenance_has_five_minutes_unless_told_otherwise() {
    assert_eq!(maintenance_deadline(None, 7), 300 * SECOND + 7);
    assert_eq!(maintenance_deadline(Some(3), 7), 3);
}

#[test]
fn the_shorter_limit_sets_the_period() {
    let plan = |max_lifetime, idle_timeout, min_connections| {
        spawn_maintenance_tasks(&pool(PoolOptions {
            max_lifetime,
            idle_timeout,
            min_connections,
            ..options()
        }))
    };
    assert_eq!(plan(Some(5), Some(3), 0), MaintenancePlan::Every { period: 3 });
    assert_eq!(plan(Some(3), Some(5), 0), MaintenancePlan::Every { period: 3 });
    assert_eq!(plan(Some(5), None, 0), MaintenancePlan::Every { period: 5 });
    assert_eq!(plan(None, Some(4), 1), MaintenancePlan::Every { period: 4 });
    assert_eq!(plan(None, None, 1), MaintenancePlan::Once);
    assert_eq!(plan(None, None, 0), MaintenancePlan::Nothing);
}

#[test]
fn a_sweep_closes_what_is_too_old_and_keeps_the_rest() {
    let mut pool = pool(PoolOptions {
        max_lifetime: Some(100),
        idle_timeout: Some(50),
        ..options()
    });
    add_idle(&mut pool, 1, 0, 90);
    add_idle(&mut pool, 2, 80, 40);
    add_idle(&mut pool, 3, 80, 90);
    let mut sweep = pool.begin_sweep(50, 101).unwrap();
    assert_eq!(sweep, Sweep { next_run: 151, checks: 3 });
    for raw in 1..3 {
        match sweep.check(&mut pool, 101) {
            SweepStep::Close(old) => {
                assert_eq!(old.inner.live.raw, raw);
                pool.drop_guard(old.guard);
            }
            other => panic!("it was kept: {:?}", other),
        }
    }
    assert!(matches!(sweep.check(&mut pool, 101), SweepStep::Continue));
    assert_eq!((pool.size(), pool.num_idle(), pool.available_permits()), (1, 1, 3));
    assert!(matches!(sweep.check(&mut pool, 120), SweepStep::Sleep { duration: 31 }));
    assert!(matches!(sweep.check(&mut pool, 152), SweepStep::Yield));
    let kept = pool.try_acquire().unwrap();
    assert_eq!(kept.inner, Idle { live: Live { raw: 3, created_at: 80 }, idle_since: 101 });
}

#[test]
fn a_sweep_takes_no_connection_that_it_has_no_permit_for() {
    let mut pool = pool(options());
    add_idle(&mut pool, 1, 0, 0);
    let mut sweep = pool.begin_sweep(50, 0).unwrap();
    let mut taken = Vec::new();
    while let Some(permit) = pool.try_acquire_permit() {
        taken.push(permit);
    }
    assert!(matches!(sweep.check(&mut pool, 0), SweepStep::Continue));
    assert_eq!((sweep.checks, pool.num_idle()), (0, 1));
    pool.mark_closed();
    assert!(pool.begin_sweep(50, 0).is_none());
}

#[test]
fn a_connection_for_an_emptied_pool_goes_to_its_queue() {
    let mut parent = pool(PoolOptions { min_connections: 1, ..options() });
    let mut child = PoolInner::new(PoolOptions { max_connections: 1, ..options() }, Some(&parent));
    let mut caller = child.acquire_permit();
    assert!(matches!(
        caller.poll(&mut child, &mut parent, false, false),
        PermitPoll::Pending { wake: true }
    ));
    match caller.poll(&mut child, &mut parent, false, false) {
        PermitPoll::Ready(permit) => child.release_permit(permit),
        other => panic!("nothing was borrowed: {:?}", other),
    }
    assert_eq!((parent.num_permits(), child.num_permits()), (2, 1));
    let guard = match parent.try_min_connections::<()>(MinConnectionsEvent::Started, 0) {
        Ok(MinConnectionsStep::Connect(guard)) => guard,
        other => panic!("no connection is opened: {:?}", other),
    };
    // Meanwhile the parent is closed, and the child's permit comes in.
    let mut close = parent.close();
    assert_eq!(close.poll(&mut parent), ClosePoll::Pending);
    parent.credit(child.drop_pool());
    assert_eq!(close.poll(&mut parent), ClosePoll::Done);
    let opened = MinConnectionsEvent::<()>::Opened(Floating::new_live(1, 0, guard));
    assert!(matches!(parent.try_min_connections(opened, 5), Ok(MinConnectionsStep::Done)));
    assert_eq!((parent.size(), parent.num_idle()), (0, 1));
}
