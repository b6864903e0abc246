//! A place to stop a caller that is about to borrow a permit from a parent pool.
//!
//! Between the moment a permit of the parent is reserved and the moment it is transferred, the
//! parent may be closed. A barrier that is installed here runs in just that window, so that a test
//! can put a close there. It runs without any lock of a pool: see [`crate::permit`].

use std::sync::Arc;
use vstd::prelude::*;

verus! {

/// Where a barrier is installed. The program keeps one of these, behind a lock of its own.
pub struct DonationBarrierSlot<B> {
    barrier: Option<Arc<B>>,
}

impl<B> View for DonationBarrierSlot<B> {
    type V = Option<Arc<B>>;

    closed spec fn view(&self) -> Option<Arc<B>> {
        self.barrier
    }
}

impl<B> DonationBarrierSlot<B> {
    /// A slot without a barrier.
    pub fn new() -> (slot: DonationBarrierSlot<B>)
        ensures
            slot@ is None,
    {
        DonationBarrierSlot { barrier: None }
    }

    /// The barrier that is installed now. The lock of the slot is released before it runs, so that
    /// it may block for as long as it likes.
    pub fn barrier(&self) -> (barrier: Option<Arc<B>>)
        ensures
            barrier == self@,
    {
        match &self.barrier {
            Some(barrier) => Some(Arc::clone(barrier)),
            None => None,
        }
    }
}

/// Installs (`Some`) or removes (`None`) the barrier.
pub fn set_donation_barrier<B>(slot: &mut DonationBarrierSlot<B>, barrier: Option<Arc<B>>)
    ensures
        final(slot)@ == barrier,
{
    slot.barrier = barrier;
}

/// Runs the barrier that was installed when the window was entered, if there was one.
pub fn enter_donation_window<B: Fn()>(barrier: Option<Arc<B>>) -> (entered: bool)
    requires
        barrier matches Some(b) ==> call_requires(*b, ()),
    ensures
        entered == (barrier is Some),
        barrier matches Some(b) ==> call_ensures(*b, (), ()),
{
    match barrier {
        Some(barrier) => {
            (*barrier)();
            true
        },
        None => false,
    }
}

} // verus!
