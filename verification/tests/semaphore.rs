//! Permits are handed out in the order in which they were asked for.

use sqlx_pool::semaphore::{Acquire, AcquireStage, AsyncSemaphore};

fn granted(semaphore: &mut AsyncSemaphore, acquire: &mut Acquire) -> Option<u32> {
    assert!(semaphore.has_free_ticket());
    semaphore.poll_acquire(acquire).map(|permit| permit.disarm())
}

#[test]
fn permits_are_granted_at_once_while_they_last() {
    let mut semaphore = AsyncSemaphore::new(3);
    let mut two = Acquire::new(2);
    assert_eq!(granted(&mut semaphore, &mut two), Some(2));
    assert_eq!(two.stage, AcquireStage::Terminated);
    assert_eq!(granted(&mut semaphore, &mut two), None);
    assert_eq!(semaphore.permits(), 1);
    assert!(semaphore.try_acquire(2).is_none());
    assert_eq!(semaphore.try_acquire(1).map(|permit| permit.permits()), Some(1));
    assert_eq!(semaphore.permits(), 0);
    let mut nothing = Acquire::new(0);
    assert_eq!(granted(&mut semaphore, &mut nothing), Some(0));
}

#[test]
fn an_older_request_is_served_first() {
    let mut semaphore = AsyncSemaphore::new(1);
    let mut large = Acquire::new(3);
    let mut small = Acquire::new(1);
    assert_eq!(granted(&mut semaphore, &mut large), None);
    assert_eq!(granted(&mut semaphore, &mut small), None);
    assert_eq!(semaphore.permits(), 0);
    semaphore.release(1);
    assert_eq!(granted(&mut semaphore, &mut small), None);
    semaphore.release(3);
    assert!(semaphore.is_ready(0) && semaphore.is_ready(1));
    assert_eq!(semaphore.permits(), 1);
    assert_eq!(granted(&mut semaphore, &mut small), Some(1));
    assert_eq!(granted(&mut semaphore, &mut large), Some(3));
    assert!(!semaphore.is_ready(0));
}

#[test]
fn a_request_that_is_abandoned_makes_way_for_the_next() {
    let mut semaphore = AsyncSemaphore::new(2);
    let mut large = Acquire::new(3);
    let mut small = Acquire::new(1);
    assert_eq!(granted(&mut semaphore, &mut large), None);
    assert_eq!(granted(&mut semaphore, &mut small), None);
    semaphore.cancel_acquire(&mut large);
    assert_eq!(semaphore.permits(), 1);
    assert_eq!(granted(&mut semaphore, &mut small), Some(1));
    semaphore.cancel_acquire(&mut large);
    assert_eq!(semaphore.permits(), 1);
    assert_eq!(granted(&mut semaphore, &mut large), None);
}
