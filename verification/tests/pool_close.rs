//! What closing a pool waits for, on its own and with pools that borrow from it.

use event_listener::Listener;
use sqlx_pool::acquire::{AcquireAction, AcquireEvent, Error};
use sqlx_pool::close::{Close, ClosePoll, OnClosed};
use sqlx_pool::donation_barrier::{
    enter_donation_window, set_donation_barrier, DonationBarrierSlot,
};
use sqlx_pool::idle::{Idle, Live};
use sqlx_pool::inner::{DecrementSizeGuard, Floating, PoolInner};
use sqlx_pool::options::PoolOptions;
use sqlx_pool::permit::{transfer, AcquirePermit, PermitPoll, TransferOutcome};
use sqlx_pool::semaphore::AsyncSemaphoreReleaser;
use std::sync::atomic::{AtomicUsize, Ordering};
use std::sync::Arc;

fn options(max_connections: u32) -> PoolOptions {
    PoolOptions {
        max_connections,
        min_connections: 0,
        fair: true,
        acquire_timeout: 30_000_000_000,
        acquire_time_level: None,
        acquire_slow_level: None,
        acquire_slow_threshold: 2_000_000_000,
        max_lifetime: None,
        idle_timeout: None,
        test_before_acquire: false,
        before_acquire: false,
        after_connect: false,
    }
}

fn root(max_connections: u32) -> PoolInner {
    PoolInner::new(options(max_connections), None)
}

fn child_of(parent: &PoolInner, max_connections: u32) -> PoolInner {
    PoolInner::new(options(max_connections), Some(parent))
}

/// Uses a permit: reuses an idle connection, or opens one with the number `raw`.
fn connect(pool: &mut PoolInner, permit: AsyncSemaphoreReleaser, raw: u64) -> Floating<Live> {
    match pool.acquire::<()>(AcquireEvent::Permit(permit)) {
        AcquireAction::CheckIdle(idle) => idle.into_live(),
        AcquireAction::Connect(guard) => Floating::new_live(raw, 0, guard),
        other => panic!("no connection for a permit: {:?}", other),
    }
}

/// One poll of a caller without a parent to borrow from.
fn poll_root(caller: &mut AcquirePermit, pool: &mut PoolInner) -> PermitPoll {
    assert!(pool.has_free_ticket());
    let closed = pool.is_closed();
    caller.begin(pool, closed, false)
}

fn acquire_root(pool: &mut PoolInner, raw: u64) -> Floating<Live> {
    let mut caller = pool.acquire_permit();
    match poll_root(&mut caller, pool) {
        PermitPoll::Ready(permit) => connect(pool, permit, raw),
        other => panic!("the pool has no permit: {:?}", other),
    }
}

fn poll(caller: &mut AcquirePermit, child: &mut PoolInner, parent: &mut PoolInner) -> PermitPoll {
    assert!(child.has_free_ticket() && parent.has_free_ticket());
    let closed = child.is_closed();
    let parent_closed = parent.is_closed();
    caller.poll(child, parent, closed, parent_closed)
}

fn is_pending(poll: PermitPoll) -> bool {
    matches!(poll, PermitPoll::Pending { .. })
}

/// Polls until there is a permit, or until nothing is left to be done.
fn poll_while_woken(
    caller: &mut AcquirePermit,
    child: &mut PoolInner,
    parent: &mut PoolInner,
) -> PermitPoll {
    for _ in 0..100 {
        match poll(caller, child, parent) {
            PermitPoll::Pending { wake: true } => {}
            other => return other,
        }
    }
    panic!("the caller is woken forever");
}

fn acquire_child(child: &mut PoolInner, parent: &mut PoolInner, raw: u64) -> Floating<Live> {
    let mut caller = child.acquire_permit();
    match poll_while_woken(&mut caller, child, parent) {
        PermitPoll::Ready(permit) => {
            caller.cancel_parent(parent);
            connect(child, permit, raw)
        }
        other => panic!("the child got no permit: {:?}", other),
    }
}

/// The caller goes away without a connection.
fn give_up(mut caller: AcquirePermit, child: &mut PoolInner, parent: &mut PoolInner) {
    caller.cancel_self(child);
    caller.cancel_parent(parent);
}

fn close_connection(pool: &mut PoolInner, floating: Floating<Live>) {
    pool.drop_guard(floating.guard);
}

/// Polls a close until it waits or is done. Returns the connections it closed.
fn drive(close: &mut Close, pool: &mut PoolInner) -> (Vec<u64>, bool) {
    let mut closed = Vec::new();
    loop {
        assert!(pool.has_free_ticket());
        match close.poll(pool) {
            ClosePoll::Pending => return (closed, false),
            ClosePoll::CloseConnection(idle) => closed.push(idle.live.raw),
            ClosePoll::Done => return (closed, true),
        }
    }
}

fn close_now(pool: &mut PoolInner) -> Vec<u64> {
    let mut close = pool.close();
    let (closed, done) = drive(&mut close, pool);
    assert!(done, "the close has to wait");
    assert_drained(pool);
    closed
}

fn assert_drained(pool: &PoolInner) {
    assert!(pool.is_closed());
    assert_eq!(pool.size(), 0);
    assert_eq!(pool.num_idle(), 0);
}

fn drop_child(mut child: PoolInner, parent: &mut PoolInner) {
    let returned = child.drop_pool();
    assert!(child.is_closed());
    parent.credit(returned);
}

/// The parent owns exactly this many permits, and all of them are there.
fn assert_capacity(parent: &mut PoolInner, capacity: u32) {
    assert_eq!(parent.num_permits(), capacity);
    assert_eq!(parent.available_permits(), capacity as usize);
    let mut taken = Vec::new();
    while let Some(permit) = parent.try_acquire_permit() {
        taken.push(permit);
    }
    assert_eq!(taken.len(), capacity as usize);
    for permit in taken {
        parent.release_permit(permit);
    }
}

#[test]
fn idle_only_close_drains_workers_and_counters() {
    let mut pool = root(2);
    let first = acquire_root(&mut pool, 1);
    let second = acquire_root(&mut pool, 2);
    pool.release(first, 10);
    pool.release(second, 20);
    assert_eq!((pool.size(), pool.num_idle()), (2, 2));
    assert_eq!(close_now(&mut pool), vec![1, 2]);
    assert_eq!(pool.available_permits(), 2);
}

#[test]
fn held_checkout_with_idle_peer_blocks_close() {
    let mut pool = root(2);
    let held = acquire_root(&mut pool, 1);
    let peer = acquire_root(&mut pool, 2);
    pool.release(peer, 10);
    assert_eq!((pool.size(), pool.num_idle()), (2, 1));
    let mut close = pool.close();
    assert!(pool.is_closed());
    assert_eq!(close.poll(&mut pool), ClosePoll::Pending);
    assert_eq!(close.poll(&mut pool), ClosePoll::Pending);
    close_connection(&mut pool, held);
    assert_eq!(drive(&mut close, &mut pool), (vec![2], true));
    assert_drained(&pool);
}

#[test]
fn listener_stream_holds_checkout_until_dropped_pg() {
    let mut pool = root(2);
    let listener = acquire_root(&mut pool, 1);
    let query = acquire_root(&mut pool, 2);
    pool.release(query, 10);
    let mut close = pool.close();
    assert_eq!(drive(&mut close, &mut pool), (vec![], false));
    assert_eq!((pool.size(), pool.num_idle()), (2, 1));
    close_connection(&mut pool, listener);
    assert_eq!(drive(&mut close, &mut pool), (vec![2], true));
    assert_drained(&pool);
}

#[test]
fn return_started_before_close_is_drained_after_final_permit() {
    let mut pool = root(1);
    let held = acquire_root(&mut pool, 1);
    let mut close = pool.close();
    assert_eq!(close.poll(&mut pool), ClosePoll::Pending);
    // The connection goes back to the idle queue of a pool that is closed already.
    pool.release(held, 10);
    assert_eq!((pool.size(), pool.num_idle()), (1, 1));
    assert_eq!(drive(&mut close, &mut pool), (vec![1], true));
    assert_drained(&pool);
}

#[test]
fn idle_worker_shutdown_is_awaited_and_serializes_alias_closes() {
    let mut pool = root(2);
    let held = acquire_root(&mut pool, 1);
    pool.release(held, 10);
    let mut first = pool.close();
    let mut alias = pool.close();
    assert!(matches!(first.poll(&mut pool), ClosePoll::CloseConnection(idle) if idle.live.raw == 1));
    // The connection is still being closed, and still counted.
    assert_eq!(alias.poll(&mut pool), ClosePoll::Pending);
    assert_eq!(pool.size(), 1);
    assert_eq!(first.poll(&mut pool), ClosePoll::Done);
    assert_eq!(alias.poll(&mut pool), ClosePoll::Done);
    assert_drained(&pool);
    assert_eq!(first.poll(&mut pool), ClosePoll::Done);
}

#[test]
fn sparse_child_spare_permits_serialize_real_worker_shutdown() {
    let mut parent = root(4);
    let mut child = child_of(&parent, 3);
    let held = acquire_child(&mut child, &mut parent, 1);
    let spare = acquire_child(&mut child, &mut parent, 2);
    close_connection(&mut child, spare);
    child.release(held, 10);
    assert_eq!((child.size(), child.num_idle(), child.num_permits()), (1, 1, 2));
    let mut first = child.close();
    let mut alias = child.close();
    assert!(matches!(first.poll(&mut child), ClosePoll::CloseConnection(_)));
    assert_eq!(alias.poll(&mut child), ClosePoll::Pending);
    assert_eq!(first.poll(&mut child), ClosePoll::Done);
    assert_eq!(alias.poll(&mut child), ClosePoll::Done);
    drop_child(child, &mut parent);
    assert_capacity(&mut parent, 4);
    close_now(&mut parent);
}

#[test]
fn concurrent_alias_closes_wait_for_same_held_checkout() {
    let mut pool = root(1);
    let held = acquire_root(&mut pool, 1);
    let mut first = pool.close();
    let mut second = pool.close();
    assert_eq!(first.poll(&mut pool), ClosePoll::Pending);
    assert_eq!(second.poll(&mut pool), ClosePoll::Pending);
    close_connection(&mut pool, held);
    assert_eq!(second.poll(&mut pool), ClosePoll::Pending);
    assert_eq!(first.poll(&mut pool), ClosePoll::Done);
    assert_eq!(second.poll(&mut pool), ClosePoll::Done);
    assert_drained(&pool);
}

#[test]
fn cancelling_waiting_close_does_not_lose_pool_permits() {
    let mut pool = root(1);
    let held = acquire_root(&mut pool, 1);
    let mut cancelled = pool.close();
    assert_eq!(cancelled.poll(&mut pool), ClosePoll::Pending);
    cancelled.cancel(&mut pool);
    assert!(pool.is_closed());
    close_connection(&mut pool, held);
    assert_eq!(close_now(&mut pool), vec![]);
    assert_capacity(&mut pool, 1);
}

#[test]
fn cancelling_a_close_that_drains_gives_its_permits_back() {
    let mut pool = root(2);
    let first = acquire_root(&mut pool, 1);
    let second = acquire_root(&mut pool, 2);
    pool.release(first, 10);
    pool.release(second, 20);
    let mut close = pool.close();
    assert!(matches!(close.poll(&mut pool), ClosePoll::CloseConnection(_)));
    close.cancel(&mut pool);
    assert_eq!(pool.available_permits(), 2);
    assert_eq!(close_now(&mut pool), vec![2]);
}

#[test]
fn empty_child_close_finishes_without_parent_permits() {
    let mut parent = root(2);
    let mut child = child_of(&parent, 2);
    assert_eq!((child.size(), child.num_idle(), child.num_permits()), (0, 0, 0));
    let mut close = child.close();
    assert_eq!(close.poll(&mut child), ClosePoll::Done);
    assert_drained(&child);
    drop_child(child, &mut parent);
    let first = acquire_root(&mut parent, 1);
    let second = acquire_root(&mut parent, 2);
    assert_eq!(parent.size(), 2);
    close_connection(&mut parent, first);
    close_connection(&mut parent, second);
    assert_eq!(close_now(&mut parent), vec![]);
}

#[test]
fn partial_child_close_then_drop_returns_exact_parent_capacity() {
    let mut parent = root(2);
    let mut child = child_of(&parent, 2);
    let connection = acquire_child(&mut child, &mut parent, 1);
    child.release(connection, 10);
    assert_eq!((child.size(), child.num_idle()), (1, 1));
    assert_eq!(close_now(&mut child), vec![1]);
    // A closed child keeps what it has borrowed until it is dropped.
    assert_eq!((parent.num_permits(), child.num_permits()), (1, 1));
    drop_child(child, &mut parent);
    assert_capacity(&mut parent, 2);
    close_now(&mut parent);
}

#[test]
fn child_close_waits_with_retained_spare_permit() {
    let mut parent = root(2);
    let mut child = child_of(&parent, 2);
    let held = acquire_child(&mut child, &mut parent, 1);
    let removed = acquire_child(&mut child, &mut parent, 2);
    assert_eq!((child.size(), child.num_idle()), (2, 0));
    close_connection(&mut child, removed);
    assert_eq!((child.size(), child.num_idle()), (1, 0));
    let mut close = child.close();
    assert_eq!(close.poll(&mut child), ClosePoll::Pending);
    close_connection(&mut child, held);
    assert_eq!(close.poll(&mut child), ClosePoll::Done);
    assert_drained(&child);
    drop_child(child, &mut parent);
    assert_capacity(&mut parent, 2);
    close_now(&mut parent);
}

#[test]
fn child_close_waits_for_inflight_open_after_spare_reuse() {
    let mut parent = root(3);
    let mut child = child_of(&parent, 2);
    let removed = acquire_child(&mut child, &mut parent, 1);
    close_connection(&mut child, removed);
    assert_eq!((child.size(), child.num_permits()), (0, 1));
    // The spare permit is used again, and the connection is not open yet.
    let mut caller = child.acquire_permit();
    let guard = match poll_while_woken(&mut caller, &mut child, &mut parent) {
        PermitPoll::Ready(permit) => match child.acquire::<()>(AcquireEvent::Permit(permit)) {
            AcquireAction::Connect(guard) => guard,
            other => panic!("nothing to open: {:?}", other),
        },
        other => panic!("the spare permit was not reused: {:?}", other),
    };
    assert_eq!((child.size(), child.num_permits(), parent.num_permits()), (1, 1, 2));
    let mut close = child.close();
    assert_eq!(close.poll(&mut child), ClosePoll::Pending);
    let held = Floating::new_live(2, 0, guard);
    assert_eq!(close.poll(&mut child), ClosePoll::Pending);
    close_connection(&mut child, held);
    assert_eq!(close.poll(&mut child), ClosePoll::Done);
    assert_drained(&child);
    drop_child(child, &mut parent);
    assert_capacity(&mut parent, 3);
}

#[test]
fn queued_child_borrows_respect_capacity_and_release_parent_reservations() {
    let mut parent = root(4);
    let mut parent_held = Vec::new();
    for raw in 0..4 {
        parent_held.push(acquire_root(&mut parent, raw));
    }
    let mut child = child_of(&parent, 1);
    let mut queued = Vec::new();
    for _ in 0..3 {
        queued.push(child.acquire_permit());
    }
    // The first poll puts borrowing off, the second queues with the parent.
    for _ in 0..2 {
        for caller in &mut queued {
            assert!(is_pending(poll(caller, &mut child, &mut parent)));
        }
    }
    for connection in parent_held {
        close_connection(&mut parent, connection);
    }
    let mut first = queued.remove(0);
    let held = match poll_while_woken(&mut first, &mut child, &mut parent) {
        PermitPoll::Ready(permit) => connect(&mut child, permit, 10),
        other => panic!("the first caller got nothing: {:?}", other),
    };
    first.cancel_parent(&mut parent);
    assert_eq!((child.size(), child.num_permits()), (1, 1));
    for caller in &mut queued {
        assert!(matches!(
            poll(caller, &mut child, &mut parent),
            PermitPoll::Pending { wake: false }
        ));
    }
    // The two callers that wait hold nothing of the parent back.
    let mut sibling = child_of(&parent, 3);
    let mut sibling_held = Vec::new();
    for raw in 20..23 {
        sibling_held.push(acquire_child(&mut sibling, &mut parent, raw));
    }
    assert_eq!((sibling.size(), sibling.num_idle()), (3, 0));
    let mut close = child.close();
    assert_eq!(close.poll(&mut child), ClosePoll::Pending);
    give_up(queued.pop().unwrap(), &mut child, &mut parent);
    let mut rejected = queued.pop().unwrap();
    assert!(matches!(poll(&mut rejected, &mut child, &mut parent), PermitPoll::Closed));
    assert!(matches!(
        child.acquire::<()>(AcquireEvent::PermitClosed),
        AcquireAction::Failed(Error::PoolClosed)
    ));
    give_up(rejected, &mut child, &mut parent);
    close_connection(&mut child, held);
    assert_eq!(close.poll(&mut child), ClosePoll::Done);
    assert_drained(&child);
    drop_child(child, &mut parent);
    for connection in sibling_held {
        close_connection(&mut sibling, connection);
    }
    close_now(&mut sibling);
    drop_child(sibling, &mut parent);
    assert_capacity(&mut parent, 4);
    close_now(&mut parent);
}

#[test]
fn cancelled_borrower_preserves_transferred_child_permit_until_waiter_release() {
    let mut parent = root(2);
    let parent_first = acquire_root(&mut parent, 1);
    let parent_second = acquire_root(&mut parent, 2);
    let mut child = child_of(&parent, 1);
    let mut older = child.acquire_permit();
    let mut newer = child.acquire_permit();
    for _ in 0..2 {
        assert!(is_pending(poll(&mut older, &mut child, &mut parent)));
        assert!(is_pending(poll(&mut newer, &mut child, &mut parent)));
    }
    close_connection(&mut parent, parent_first);
    close_connection(&mut parent, parent_second);
    // The permit that the newer one borrows goes to the older one.
    assert!(is_pending(poll(&mut newer, &mut child, &mut parent)));
    assert_eq!((child.size(), child.num_idle(), child.num_permits()), (0, 0, 1));
    give_up(newer, &mut child, &mut parent);
    let mut close = child.close();
    assert_eq!(close.poll(&mut child), ClosePoll::Pending);
    give_up(older, &mut child, &mut parent);
    assert_eq!(close.poll(&mut child), ClosePoll::Done);
    assert_drained(&child);
    drop_child(child, &mut parent);
    assert_capacity(&mut parent, 2);
    close_now(&mut parent);
}

#[test]
fn queued_borrower_can_reborrow_after_transfer_to_older_waiter() {
    let mut parent = root(2);
    let parent_first = acquire_root(&mut parent, 1);
    let parent_second = acquire_root(&mut parent, 2);
    let mut child = child_of(&parent, 2);
    let mut older = child.acquire_permit();
    let mut newer = child.acquire_permit();
    for _ in 0..2 {
        assert!(is_pending(poll(&mut older, &mut child, &mut parent)));
        assert!(is_pending(poll(&mut newer, &mut child, &mut parent)));
    }
    close_connection(&mut parent, parent_first);
    close_connection(&mut parent, parent_second);
    let place = newer.acquire_self;
    assert!(matches!(
        poll(&mut newer, &mut child, &mut parent),
        PermitPoll::Pending { wake: true }
    ));
    assert_eq!(newer.acquire_self, place);
    let held_older = match poll(&mut older, &mut child, &mut parent) {
        PermitPoll::Ready(permit) => connect(&mut child, permit, 10),
        other => panic!("the older caller got nothing: {:?}", other),
    };
    older.cancel_parent(&mut parent);
    let held_newer = match poll_while_woken(&mut newer, &mut child, &mut parent) {
        PermitPoll::Ready(permit) => connect(&mut child, permit, 11),
        other => panic!("the newer caller got nothing: {:?}", other),
    };
    newer.cancel_parent(&mut parent);
    assert_eq!((child.size(), child.num_idle()), (2, 0));
    close_connection(&mut child, held_older);
    close_connection(&mut child, held_newer);
    close_now(&mut child);
    drop_child(child, &mut parent);
    assert_capacity(&mut parent, 2);
}

/// The last of the callers borrows for all the others before it gets a permit itself.
fn live_borrower_progress(maximum: u32) {
    let mut parent = root(maximum);
    let mut parent_held = Vec::new();
    for raw in 0..maximum {
        parent_held.push(acquire_root(&mut parent, raw as u64));
    }
    let mut child = child_of(&parent, maximum);
    let mut callers = Vec::new();
    for _ in 0..maximum {
        callers.push(child.acquire_permit());
    }
    for _ in 0..2 {
        for caller in &mut callers {
            assert!(is_pending(poll(caller, &mut child, &mut parent)));
        }
    }
    for connection in parent_held {
        close_connection(&mut parent, connection);
    }
    let mut donor = callers.pop().unwrap();
    let mut held = Vec::new();
    for mut older in callers {
        assert!(matches!(
            poll(&mut donor, &mut child, &mut parent),
            PermitPoll::Pending { wake: true }
        ));
        match poll(&mut older, &mut child, &mut parent) {
            PermitPoll::Ready(permit) => held.push(connect(&mut child, permit, 100)),
            other => panic!("an older caller got nothing: {:?}", other),
        }
        older.cancel_parent(&mut parent);
    }
    match poll_while_woken(&mut donor, &mut child, &mut parent) {
        PermitPoll::Ready(permit) => held.push(connect(&mut child, permit, 200)),
        other => panic!("the donor got nothing: {:?}", other),
    }
    donor.cancel_parent(&mut parent);
    assert_eq!(held.len(), maximum as usize);
    assert_eq!((child.size(), child.num_idle()), (maximum, 0));
    for connection in held {
        close_connection(&mut child, connection);
    }
    close_now(&mut child);
    drop_child(child, &mut parent);
    assert_capacity(&mut parent, maximum);
    close_now(&mut parent);
}

#[test]
fn queued_borrower_can_repeat_donations_up_to_child_capacity() {
    live_borrower_progress(3);
}

#[test]
fn scheduled_borrower_wakes_after_donation_to_older_waiter() {
    live_borrower_progress(2);
}

#[test]
fn capped_child_releases_still_pending_parent_borrow_before_later_credit() {
    let mut parent = root(2);
    let first_parent = acquire_root(&mut parent, 1);
    let second_parent = acquire_root(&mut parent, 2);
    let mut child = child_of(&parent, 1);
    let mut winner = child.acquire_permit();
    let mut waiting = child.acquire_permit();
    for _ in 0..2 {
        assert!(is_pending(poll(&mut winner, &mut child, &mut parent)));
        assert!(is_pending(poll(&mut waiting, &mut child, &mut parent)));
    }
    close_connection(&mut parent, first_parent);
    let held = match poll_while_woken(&mut winner, &mut child, &mut parent) {
        PermitPoll::Ready(permit) => connect(&mut child, permit, 10),
        other => panic!("the winner got nothing: {:?}", other),
    };
    winner.cancel_parent(&mut parent);
    assert_eq!((child.size(), child.num_idle()), (1, 0));
    assert!(is_pending(poll(&mut waiting, &mut child, &mut parent)));
    close_connection(&mut parent, second_parent);
    let mut sibling = child_of(&parent, 1);
    let sibling_held = acquire_child(&mut sibling, &mut parent, 20);
    assert_eq!((child.size(), sibling.size()), (1, 1));
    close_connection(&mut sibling, sibling_held);
    give_up(waiting, &mut child, &mut parent);
    close_connection(&mut child, held);
    close_now(&mut child);
    close_now(&mut sibling);
    drop_child(child, &mut parent);
    drop_child(sibling, &mut parent);
    assert_capacity(&mut parent, 2);
}

#[test]
fn parent_close_completes_with_live_child_holding_donated_permit() {
    let mut parent = root(2);
    let own = acquire_root(&mut parent, 1);
    parent.release(own, 10);
    let mut child = child_of(&parent, 1);
    let borrowed = acquire_child(&mut child, &mut parent, 2);
    child.release(borrowed, 20);
    assert_eq!((parent.size(), parent.num_idle()), (1, 1));
    assert_eq!((child.size(), child.num_idle()), (1, 1));
    assert_eq!(close_now(&mut parent), vec![1]);
    assert!(!child.is_closed());
    assert_eq!((child.size(), child.num_idle()), (1, 1));
    assert_eq!(close_now(&mut child), vec![2]);
    drop_child(child, &mut parent);
    assert_drained(&parent);
    assert_capacity(&mut parent, 2);
}

#[test]
fn parent_close_completes_with_closed_drained_child_handle_alive() {
    let mut parent = root(2);
    let own = acquire_root(&mut parent, 1);
    parent.release(own, 10);
    let mut child = child_of(&parent, 1);
    let borrowed = acquire_child(&mut child, &mut parent, 2);
    child.release(borrowed, 20);
    assert_eq!(close_now(&mut child), vec![2]);
    assert_eq!(close_now(&mut parent), vec![1]);
    assert_drained(&child);
}

#[test]
fn parent_close_is_bounded_when_a_dropped_child_handle_still_has_a_live_checkout() {
    let mut parent = root(2);
    let mut child = child_of(&parent, 1);
    let held = acquire_child(&mut child, &mut parent, 1);
    assert_eq!(close_now(&mut parent), vec![]);
    // The last checkout keeps the child alive. Then the child goes.
    close_connection(&mut child, held);
    drop_child(child, &mut parent);
    assert_eq!(close_now(&mut parent), vec![]);
    assert_drained(&parent);
    assert_capacity(&mut parent, 2);
}

#[test]
fn parent_capacity_accounting_stays_exact_across_donation_return_and_loss() {
    let mut parent = root(2);
    let mut returning = child_of(&parent, 1);
    let borrowed = acquire_child(&mut returning, &mut parent, 1);
    returning.release(borrowed, 10);
    assert_eq!(returning.size(), 1);
    assert_eq!(close_now(&mut returning), vec![1]);
    drop_child(returning, &mut parent);
    assert_capacity(&mut parent, 2);

    let mut leaking = child_of(&parent, 1);
    let leaked = acquire_child(&mut leaking, &mut parent, 2);
    let guard: DecrementSizeGuard = leaked.guard.cancel();
    leaking.drop_guard(guard);
    assert_eq!(leaking.size(), 1);
    drop_child(leaking, &mut parent);
    assert_capacity(&mut parent, 1);
    assert_eq!(close_now(&mut parent), vec![]);
}

#[test]
fn a_pool_that_has_leaked_a_connection_never_finishes_its_own_close() {
    let mut pool = root(1);
    let leaked = acquire_root(&mut pool, 1);
    let guard = leaked.guard.cancel();
    pool.drop_guard(guard);
    assert_eq!((pool.size(), pool.available_permits()), (1, 0));
    let mut close = pool.close();
    assert_eq!(drive(&mut close, &mut pool), (vec![], false));
}

#[test]
fn parent_close_still_waits_for_its_own_checkout_while_child_holds_donated_permit() {
    let mut parent = root(2);
    let mut child = child_of(&parent, 1);
    let borrowed = acquire_child(&mut child, &mut parent, 1);
    child.release(borrowed, 10);
    let own = acquire_root(&mut parent, 2);
    assert_eq!((parent.size(), parent.num_idle()), (1, 0));
    let mut close = parent.close();
    assert_eq!(close.poll(&mut parent), ClosePoll::Pending);
    close_connection(&mut parent, own);
    assert_eq!(close.poll(&mut parent), ClosePoll::Done);
    assert_drained(&parent);
}

#[test]
fn parent_late_return_is_drained_although_a_child_holds_a_donated_permit() {
    let mut parent = root(2);
    let mut child = child_of(&parent, 1);
    let borrowed = acquire_child(&mut child, &mut parent, 1);
    child.release(borrowed, 10);
    let own = acquire_root(&mut parent, 2);
    let mut close = parent.close();
    assert_eq!(close.poll(&mut parent), ClosePoll::Pending);
    parent.release(own, 20);
    assert_eq!(drive(&mut close, &mut parent), (vec![2], true));
    assert_drained(&parent);
}

#[test]
fn parent_close_refuses_a_donation_that_races_its_mark_closed() {
    let mut parent = root(1);
    let worker = acquire_root(&mut parent, 1);
    parent.release(worker, 10);
    let mut child = child_of(&parent, 1);
    assert!(child.size() == 0 && !child.is_closed());

    let mut slot = DonationBarrierSlot::new();
    let entered = Arc::new(AtomicUsize::new(0));
    let counter = entered.clone();
    set_donation_barrier(
        &mut slot,
        Some(Arc::new(move || {
            counter.fetch_add(1, Ordering::SeqCst);
        })),
    );

    let mut caller = child.acquire_permit();
    assert!(is_pending(caller.begin(&mut child, false, false)));
    assert!(matches!(caller.begin(&mut child, false, false), PermitPoll::Borrow));
    let parent_permit = caller.reserve(&mut parent);
    assert!(parent_permit.is_some());
    assert!(enter_donation_window(slot.barrier()));
    assert_eq!(entered.load(Ordering::SeqCst), 1);

    // In the window: the parent is closed, and its close has read its target.
    assert!(parent.try_acquire().is_none());
    let mut close = parent.close();
    assert!(parent.is_closed());
    assert_eq!(close.poll(&mut parent), ClosePoll::Pending);

    let refused = transfer(&mut child, &mut parent, parent_permit);
    assert!(matches!(refused.outcome, TransferOutcome::ParentClosed));
    assert!(matches!(caller.settle(&mut child, &mut parent, refused), PermitPoll::Closed));
    give_up(caller, &mut child, &mut parent);
    set_donation_barrier(&mut slot, None);
    assert!(!enter_donation_window(slot.barrier()));

    assert_eq!(drive(&mut close, &mut parent), (vec![1], true));
    assert_drained(&parent);
    assert!(child.is_closed());
    assert_eq!((child.size(), child.num_idle(), child.num_permits()), (0, 0, 0));
    close_now(&mut child);
    drop_child(child, &mut parent);
    assert_capacity(&mut parent, 1);
}

#[test]
fn a_donation_does_not_enter_a_child_that_was_closed_meanwhile() {
    let mut parent = root(1);
    let mut child = child_of(&parent, 1);
    let mut caller = child.acquire_permit();
    assert!(is_pending(caller.begin(&mut child, false, false)));
    assert!(matches!(caller.begin(&mut child, false, false), PermitPoll::Borrow));
    let parent_permit = caller.reserve(&mut parent);
    child.mark_closed();
    let refused = transfer(&mut child, &mut parent, parent_permit);
    assert!(matches!(refused.outcome, TransferOutcome::ChildClosed));
    assert!(matches!(caller.settle(&mut child, &mut parent, refused), PermitPoll::Closed));
    give_up(caller, &mut child, &mut parent);
    assert_capacity(&mut parent, 1);
    assert_eq!(child.num_permits(), 0);
    assert!(!parent.is_closed());
}

#[test]
fn a_parent_that_is_closed_takes_its_borrowing_child_with_it() {
    let mut parent = root(2);
    let mut child = child_of(&parent, 2);
    let held = acquire_child(&mut child, &mut parent, 1);
    close_now(&mut parent);
    assert!(!child.is_closed());
    let mut caller = child.acquire_permit();
    assert!(matches!(poll(&mut caller, &mut child, &mut parent), PermitPoll::Closed));
    assert!(child.is_closed());
    assert_eq!((child.size(), child.num_permits()), (1, 1));
    assert!(matches!(
        child.acquire::<()>(AcquireEvent::Started),
        AcquireAction::Failed(Error::PoolClosed)
    ));
    close_connection(&mut child, held);
}

#[test]
fn a_child_at_its_limit_is_stopped_by_its_closed_parent_too() {
    let mut parent = root(2);
    let mut child = child_of(&parent, 1);
    let connection = acquire_child(&mut child, &mut parent, 1);
    child.release(connection, 10);
    assert_eq!((child.size(), child.num_idle()), (1, 1));
    close_now(&mut parent);
    let mut caller = match child.acquire::<()>(AcquireEvent::Started) {
        AcquireAction::AwaitPermit(caller) => caller,
        other => panic!("the child is still open: {:?}", other),
    };
    // It would not borrow: the child may have no more connections.
    assert!(caller.acquire_parent.is_none());
    assert!(matches!(poll(&mut caller, &mut child, &mut parent), PermitPoll::Closed));
    assert!(matches!(
        child.acquire::<()>(AcquireEvent::PermitClosed),
        AcquireAction::Failed(Error::PoolClosed)
    ));
    assert!(child.is_closed());
    assert_eq!((child.size(), child.num_idle()), (1, 1));
    assert_eq!(close_now(&mut child), vec![1]);
}

#[test]
fn a_child_that_is_dropped_credits_a_closed_parent() {
    let mut parent = root(2);
    let mut child = child_of(&parent, 1);
    let borrowed = acquire_child(&mut child, &mut parent, 1);
    let own = acquire_root(&mut parent, 2);
    let mut close = parent.close();
    assert_eq!(close.poll(&mut parent), ClosePoll::Pending);
    close_connection(&mut child, borrowed);
    // The credit is one permit more than the close waits for, and comes first.
    drop_child(child, &mut parent);
    assert!(parent.is_closed());
    assert_eq!(parent.num_permits(), 2);
    assert_eq!(close.poll(&mut parent), ClosePoll::Done);
    // The close went by the permits. The connection that is still out is not counted any more.
    assert_eq!(parent.size(), 0);
    close_connection(&mut parent, own);
    assert_eq!(parent.size(), 0);
    assert_eq!(parent.available_permits(), 2);
    // A later close finds nothing to wait for.
    assert_eq!(close_now(&mut parent), vec![]);
}

#[test]
fn a_connection_that_returns_to_an_emptied_pool_is_closed_by_the_next_close() {
    let mut parent = root(2);
    let mut child = child_of(&parent, 1);
    let borrowed = acquire_child(&mut child, &mut parent, 1);
    let own = acquire_root(&mut parent, 2);
    let mut close = parent.close();
    assert_eq!(close.poll(&mut parent), ClosePoll::Pending);
    close_connection(&mut child, borrowed);
    drop_child(child, &mut parent);
    assert_eq!(close.poll(&mut parent), ClosePoll::Done);
    parent.release(own, 10);
    assert_eq!((parent.size(), parent.num_idle()), (0, 1));
    assert!(parent.try_acquire().is_none());
    assert_eq!(close_now(&mut parent), vec![2]);
    assert_capacity(&mut parent, 2);
}

#[test]
fn a_permit_without_a_use_is_kept_until_others_have_had_their_turn() {
    let mut pool = root(1);
    let permit = pool.try_acquire_permit().unwrap();
    pool.mark_closed();
    let permit = match pool.acquire::<()>(AcquireEvent::Permit(permit)) {
        AcquireAction::Yield(permit) => permit,
        other => panic!("a closed pool handed something out: {:?}", other),
    };
    assert_eq!(permit.permits(), 1);
    assert_eq!(pool.available_permits(), 0);
    let mut caller = match pool.acquire::<()>(AcquireEvent::Yielded(permit)) {
        AcquireAction::AwaitPermit(caller) => caller,
        other => panic!("the caller does not start over: {:?}", other),
    };
    assert_eq!(pool.available_permits(), 1);
    assert!(matches!(poll_root(&mut caller, &mut pool), PermitPoll::Closed));
}

#[test]
fn a_caller_reuses_the_connection_that_went_idle_first() {
    let mut pool = root(3);
    let mut held = Vec::new();
    for raw in 1..4 {
        held.push(acquire_root(&mut pool, raw));
    }
    for (connection, now) in held.into_iter().zip([30, 10, 20]) {
        pool.release(connection, now);
    }
    let first = pool.try_acquire().unwrap();
    assert_eq!(
        first.inner,
        Idle { live: Live { raw: 1, created_at: 0 }, idle_since: 30 }
    );
    let second = acquire_root(&mut pool, 99);
    assert_eq!(second.inner.raw, 2);
    assert_eq!((pool.size(), pool.num_idle(), pool.available_permits()), (3, 1, 1));
    pool.release(first.into_live(), 40);
    pool.release(second, 50);
    assert_eq!(close_now(&mut pool), vec![3, 1, 2]);
}

#[test]
fn a_closed_pool_hands_nothing_out() {
    let mut pool = root(2);
    let connection = acquire_root(&mut pool, 1);
    pool.release(connection, 10);
    let permit = pool.try_acquire_permit().unwrap();
    pool.mark_closed();
    assert!(pool.try_acquire().is_none());
    let permit = pool.pop_idle(permit).err().unwrap();
    let permit = pool.try_increment_size(permit).err().unwrap();
    pool.release_permit(permit);
    assert_eq!((pool.size(), pool.num_idle(), pool.available_permits()), (1, 1, 2));
}

#[test]
fn a_pool_at_its_limit_does_not_grow() {
    let mut pool = root(1);
    let permit = pool.try_acquire_permit().unwrap();
    let guard = pool.try_increment_size(permit).unwrap();
    assert_eq!(pool.size(), 1);
    assert!(pool.try_acquire_permit().is_none());
    assert!(pool.try_acquire().is_none());
    pool.drop_guard(guard);
    assert_eq!((pool.size(), pool.available_permits()), (0, 1));
}

#[test]
fn whoever_listens_is_told_of_the_close() {
    let mut pool = root(1);
    let on_closed = OnClosed::new();
    let event = pool.close_event(&on_closed);
    let listener = event.listener.expect("the pool is open");
    pool.mark_closed();
    assert_eq!(on_closed.notify(), 1);
    listener.wait();
    pool.mark_closed();
    assert!(pool.is_closed());
    assert!(pool.close_event(&on_closed).listener.is_none());
}

#[test]
fn everybody_who_listens_is_told_of_the_close() {
    let mut pool = root(1);
    let on_closed = OnClosed::new();
    let first = pool.close_event(&on_closed).listener.expect("the pool is open");
    let second = pool.close_event(&on_closed).listener.expect("the pool is open");
    pool.mark_closed();
    assert_eq!(on_closed.notify(), 2);
    first.wait();
    second.wait();
    assert_eq!(on_closed.notify(), 0);
}

#[test]
fn three_generations_lose_no_permit() {
    let mut oldest = root(2);
    let mut middle = child_of(&oldest, 1);
    let connection = acquire_child(&mut middle, &mut oldest, 1);
    close_connection(&mut middle, connection);
    let mut youngest = child_of(&middle, 1);
    let connection = acquire_child(&mut youngest, &mut middle, 2);
    close_connection(&mut youngest, connection);
    let connection = acquire_child(&mut middle, &mut oldest, 3);
    close_connection(&mut middle, connection);
    assert_eq!(
        (oldest.num_permits(), middle.num_permits(), youngest.num_permits()),
        (0, 1, 1)
    );
    drop_child(youngest, &mut middle);
    assert_eq!(middle.num_permits(), 2);
    drop_child(middle, &mut oldest);
    assert_capacity(&mut oldest, 2);
}
