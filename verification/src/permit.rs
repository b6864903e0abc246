//! Waiting for a permit, and borrowing one from the parent pool meanwhile.
//!
//! A caller that wants a connection first needs a permit of its own pool. A pool with a parent can
//! turn a permit of the parent into one of its own. That permit then belongs to the child until the
//! child is dropped, whatever becomes of the caller that borrowed it.
//!
//! One poll of an [`AcquirePermit`] is a sequence of critical sections: [`AcquirePermit::begin`] on
//! the child, [`AcquirePermit::reserve`] on the parent, then [`transfer`] and
//! [`AcquirePermit::settle`] on both. Anything may happen to either pool in between, so `transfer`
//! looks again at whether they are still open.

use crate::inner::PoolInner;
use crate::semaphore::{Acquire, AcquireStage, AsyncSemaphoreReleaser};
use crate::state::PoolState;
use vstd::prelude::*;

verus! {

/// A caller that waits for a permit.
#[derive(Clone, Copy, Debug)]
pub struct AcquirePermit {
    /// Its place in the queue of its own pool. It keeps that place until it has a permit.
    pub acquire_self: Acquire,
    /// Its request to the parent, if it may borrow.
    pub acquire_parent: Option<Acquire>,
    /// Whether the parent is tried. It is not, on the first poll.
    pub poll_parent: bool,
}

/// What a poll came to.
#[derive(Debug)]
pub enum PermitPoll {
    /// Here is the permit.
    Ready(AsyncSemaphoreReleaser),
    /// The pool is closed.
    Closed,
    /// Not yet. Where `wake` is set, the caller has to be polled again even if nothing happens.
    Pending { wake: bool },
    /// The own pool has no permit for this caller: go on to the parent.
    Borrow,
}

/// What a poll came to, without the permit.
pub enum PollKind {
    Ready,
    Closed,
    Pending(bool),
    Borrow,
}

impl PermitPoll {
    pub open spec fn kind(self) -> PollKind {
        match self {
            PermitPoll::Ready(_) => PollKind::Ready,
            PermitPoll::Closed => PollKind::Closed,
            PermitPoll::Pending { wake } => PollKind::Pending(wake),
            PermitPoll::Borrow => PollKind::Borrow,
        }
    }

    /// A permit that a poll hands out is exactly one.
    pub open spec fn one_permit(self) -> bool {
        self matches PermitPoll::Ready(permit) ==> permit.count() == 1
    }
}

/// What became of a permit of the parent that was offered to the child.
#[derive(Debug)]
pub enum TransferOutcome {
    /// The child is closed.
    ChildClosed,
    /// The parent is closed: it keeps what it owns.
    ParentClosed,
    /// The permit now belongs to the child.
    Transferred(AsyncSemaphoreReleaser),
    /// There was nothing to transfer, or no room for it.
    Nothing,
}

#[derive(Debug)]
pub struct Transfer {
    pub outcome: TransferOutcome,
    /// Whether the child owns as many permits as it may have connections.
    pub at_capacity: bool,
    /// The permit that goes back to the parent.
    pub parent_permit: Option<AsyncSemaphoreReleaser>,
}

/// Whether a permit that is offered to `child` is moved there.
pub open spec fn transfers(child: PoolState, parent: PoolState, offered: bool) -> bool {
    &&& offered
    &&& !child.closed
    &&& !parent.closed
    &&& child.num_permits < child.options.max_connections
}

/// Whether `parent` refuses to let go of a permit that `child` could take.
pub open spec fn refuses(child: PoolState, parent: PoolState, offered: bool) -> bool {
    &&& offered
    &&& !child.closed
    &&& parent.closed
    &&& child.num_permits < child.options.max_connections
}

/// The child after a permit was offered to it.
pub open spec fn transferred_child(child: PoolState, parent: PoolState, offered: bool) -> PoolState {
    if transfers(child, parent, offered) {
        child.adopt()
    } else {
        child
    }
}

/// The parent after one of its permits was offered to the child.
pub open spec fn transferred_parent(
    child: PoolState,
    parent: PoolState,
    offered: bool,
) -> PoolState {
    if transfers(child, parent, offered) {
        parent.donate()
    } else {
        parent
    }
}

/// What became of a permit that was offered, without the permit.
pub enum OutcomeKind {
    ChildClosed,
    ParentClosed,
    Transferred,
    Nothing,
}

/// How a transfer ended, without the permits.
pub struct TransferEnd {
    pub outcome: OutcomeKind,
    pub at_capacity: bool,
    /// Whether a permit goes back to the parent.
    pub hands_back: bool,
}

impl TransferEnd {
    pub open spec fn is_refused(self) -> bool {
        self.outcome is ChildClosed || self.outcome is ParentClosed
    }
}

impl Transfer {
    pub open spec fn end(self) -> TransferEnd {
        TransferEnd {
            outcome: match self.outcome {
                TransferOutcome::ChildClosed => OutcomeKind::ChildClosed,
                TransferOutcome::ParentClosed => OutcomeKind::ParentClosed,
                TransferOutcome::Transferred(_) => OutcomeKind::Transferred,
                TransferOutcome::Nothing => OutcomeKind::Nothing,
            },
            at_capacity: self.at_capacity,
            hands_back: self.parent_permit is Some,
        }
    }

    /// Every permit in it is exactly one.
    pub open spec fn one_permit(self) -> bool {
        &&& self.outcome matches TransferOutcome::Transferred(permit) ==> permit.count() == 1
        &&& self.parent_permit matches Some(permit) ==> permit.count() == 1
    }
}

/// How the transfer of a permit that is `offered` to `child` ends.
pub open spec fn transfer_end(child: PoolState, parent: PoolState, offered: bool) -> TransferEnd {
    TransferEnd {
        outcome: if child.closed {
            OutcomeKind::ChildClosed
        } else if refuses(child, parent, offered) {
            OutcomeKind::ParentClosed
        } else if transfers(child, parent, offered) {
            OutcomeKind::Transferred
        } else {
            OutcomeKind::Nothing
        },
        at_capacity: transferred_child(child, parent, offered).num_permits
            == child.options.max_connections,
        hands_back: offered && !transfers(child, parent, offered),
    }
}

/// Moves a permit from the parent to the child, if both are open and the child has room.
///
/// The parent stops counting the permit in the critical section in which the child starts to count
/// it. A parent that is closed has fixed how many permits its close waits for, so it refuses.
pub fn transfer(
    child: &mut PoolInner,
    parent: &mut PoolInner,
    parent_permit: Option<AsyncSemaphoreReleaser>,
) -> (transfer: Transfer)
    requires
        old(child).wf(),
        old(parent).wf(),
        parent_permit matches Some(permit) ==> permit.count() == 1 && 1 <= old(parent)@.spare(),
    ensures
        final(child).wf(),
        final(parent).wf(),
        final(child)@ == transferred_child(old(child)@, old(parent)@, parent_permit is Some),
        final(parent)@ == transferred_parent(old(child)@, old(parent)@, parent_permit is Some),
        transfer.end() == transfer_end(old(child)@, old(parent)@, parent_permit is Some),
        transfer.one_permit(),
{
    if child.is_closed() {
        let at_capacity = child.num_permits() == child.options().max_connections;
        return Transfer { outcome: TransferOutcome::ChildClosed, at_capacity, parent_permit };
    }
    let max_connections: u32 = child.options().max_connections;
    if child.num_permits() < max_connections {
        if let Some(permit) = parent_permit {
            if parent.is_closed() {
                return Transfer {
                    outcome: TransferOutcome::ParentClosed,
                    at_capacity: false,
                    parent_permit: Some(permit),
                };
            }
            // The count is at least one: the permit in hand is one of those it counts.
            parent.donate(permit);
            let permit = child.adopt();
            return Transfer {
                outcome: TransferOutcome::Transferred(permit),
                at_capacity: child.num_permits() == max_connections,
                parent_permit: None,
            };
        }
        return Transfer { outcome: TransferOutcome::Nothing, at_capacity: false, parent_permit: None };
    }
    Transfer {
        outcome: TransferOutcome::Nothing,
        at_capacity: child.num_permits() == max_connections,
        parent_permit,
    }
}

impl AcquirePermit {
    /// It asks for one permit at a time.
    pub open spec fn wf(self) -> bool {
        &&& self.acquire_self.needed == 1
        &&& self.acquire_parent matches Some(acquire) ==> acquire.needed == 1
    }

    /// A caller of `pool` that has not been polled. It borrows only in a pool that has a parent
    /// and has not opened all the connections it may have.
    pub open spec fn started(pool: PoolState) -> AcquirePermit {
        let request = Acquire { needed: 1, stage: AcquireStage::Unpolled };
        AcquirePermit {
            acquire_self: request,
            acquire_parent: if pool.has_parent && pool.size < pool.options.max_connections {
                Some(request)
            } else {
                None
            },
            poll_parent: false,
        }
    }

    /// Whether the caller may borrow from the parent.
    pub open spec fn borrows(self) -> bool {
        self.acquire_parent is Some
    }

    pub open spec fn begun_kind(self, child: PoolState, closed: bool, parent_closed: bool) -> PollKind {
        if closed || (child.has_parent && parent_closed) {
            PollKind::Closed
        } else if child.semaphore.grants(self.acquire_self) {
            PollKind::Ready
        } else if !self.borrows() {
            PollKind::Pending(false)
        } else if !self.poll_parent {
            PollKind::Pending(true)
        } else {
            PollKind::Borrow
        }
    }

    pub open spec fn begun_child(
        self,
        child: PoolState,
        closed: bool,
        parent_closed: bool,
    ) -> PoolState {
        if closed {
            child
        } else if child.has_parent && parent_closed {
            child.mark_closed()
        } else {
            child.polled(self.acquire_self)
        }
    }

    pub open spec fn begun(self, child: PoolState, closed: bool, parent_closed: bool) -> AcquirePermit {
        if self.begun_kind(child, closed, parent_closed) is Closed {
            self
        } else {
            AcquirePermit {
                acquire_self: child.semaphore.polled_acquire(self.acquire_self),
                poll_parent: self.poll_parent || (self.borrows() && !child.semaphore.grants(
                    self.acquire_self,
                )),
                ..self
            }
        }
    }

    /// Looks at the close events of both pools and polls the own pool.
    ///
    /// `closed` and `parent_closed` say whether the close event of the own pool and of the parent
    /// have fired. A parent that closes takes the child with it. The parent is not tried on the
    /// first poll.
    pub fn begin(&mut self, child: &mut PoolInner, closed: bool, parent_closed: bool) -> (poll:
        PermitPoll)
        requires
            old(child).wf(),
            old(child)@.semaphore.has_free_ticket(),
            old(self).wf(),
        ensures
            final(child).wf(),
            final(self).wf(),
            final(child)@ == old(self).begun_child(old(child)@, closed, parent_closed),
            *final(self) == old(self).begun(old(child)@, closed, parent_closed),
            poll.kind() == old(self).begun_kind(old(child)@, closed, parent_closed),
            poll.one_permit(),
            poll is Ready ==> 1 <= final(child)@.spare(),
    {
        if closed {
            return PermitPoll::Closed;
        }
        if child.has_parent() && parent_closed {
            child.mark_closed();
            return PermitPoll::Closed;
        }
        if let Some(permit) = child.poll_permit(&mut self.acquire_self) {
            return PermitPoll::Ready(permit);
        }
        if self.acquire_parent.is_none() {
            return PermitPoll::Pending { wake: false };
        }
        if self.poll_parent {
            PermitPoll::Borrow
        } else {
            self.poll_parent = true;
            PermitPoll::Pending { wake: true }
        }
    }

    /// The request to the parent. Without a parent it is one that never completes.
    pub open spec fn parent_request(self) -> Acquire {
        match self.acquire_parent {
            Some(acquire) => acquire,
            None => Acquire { needed: 1, stage: AcquireStage::Terminated },
        }
    }

    pub open spec fn reserved(self, parent: PoolState) -> AcquirePermit {
        match self.acquire_parent {
            Some(acquire) => AcquirePermit {
                acquire_parent: Some(parent.semaphore.polled_acquire(acquire)),
                ..self
            },
            None => self,
        }
    }

    /// Polls the parent for a permit.
    pub fn reserve(&mut self, parent: &mut PoolInner) -> (permit: Option<AsyncSemaphoreReleaser>)
        requires
            old(parent).wf(),
            old(parent)@.semaphore.has_free_ticket(),
            old(self).wf(),
        ensures
            final(parent).wf(),
            final(self).wf(),
            final(parent)@ == old(parent)@.polled(old(self).parent_request()),
            *final(self) == old(self).reserved(old(parent)@),
            permit is Some <==> old(parent)@.semaphore.grants(old(self).parent_request()),
            permit matches Some(p) ==> p.count() == 1 && 1 <= final(parent)@.spare(),
    {
        proof {
            parent@.lemma_polled(self.parent_request());
        }
        match self.acquire_parent {
            Some(mut acquire) => {
                let permit = parent.poll_permit(&mut acquire);
                self.acquire_parent = Some(acquire);
                permit
            },
            None => None,
        }
    }

    /// The child once a transferred permit has entered its semaphore.
    pub open spec fn settling_child(child: PoolState, end: TransferEnd) -> PoolState {
        if end.outcome is Transferred {
            child.give_back(1)
        } else {
            child
        }
    }

    pub open spec fn settled_kind(self, child: PoolState, end: TransferEnd) -> PollKind {
        let child = Self::settling_child(child, end);
        if end.is_refused() {
            PollKind::Closed
        } else if child.semaphore.grants(self.acquire_self) {
            PollKind::Ready
        } else {
            // Where the transfer served an older caller and there is room for more, this caller
            // asks again.
            PollKind::Pending(end.outcome is Transferred && !end.at_capacity)
        }
    }

    pub open spec fn settled_child(self, child: PoolState, end: TransferEnd) -> PoolState {
        let child = Self::settling_child(child, end);
        match end.outcome {
            OutcomeKind::ChildClosed => child,
            OutcomeKind::ParentClosed => child.mark_closed(),
            _ => child.polled(self.acquire_self),
        }
    }

    pub open spec fn settled_parent(self, parent: PoolState, end: TransferEnd) -> PoolState {
        let parent = if end.hands_back {
            parent.give_back(1)
        } else {
            parent
        };
        if end.is_refused() || !end.at_capacity {
            parent
        } else {
            parent.cancelled(self.parent_request())
        }
    }

    pub open spec fn settled(self, child: PoolState, end: TransferEnd) -> AcquirePermit {
        let kind = self.settled_kind(child, end);
        let child = Self::settling_child(child, end);
        if kind is Closed {
            self
        } else {
            AcquirePermit {
                acquire_self: child.semaphore.polled_acquire(self.acquire_self),
                acquire_parent: if kind == PollKind::Pending(true) {
                    Some(Acquire { needed: 1, stage: AcquireStage::Unpolled })
                } else if end.at_capacity && self.acquire_parent is Some {
                    Some(Acquire { stage: AcquireStage::Terminated, ..self.acquire_parent->0 })
                } else {
                    self.acquire_parent
                },
                ..self
            }
        }
    }

    /// Acts on a transfer and polls the own pool again.
    ///
    /// A transferred permit enters the semaphore of the child, where it goes to the caller that has
    /// waited longest. A permit that was not transferred goes back to the parent. A child that owns
    /// all the permits it may have stops waiting for the parent. A caller whose transfer served an
    /// older one asks the parent again, and keeps its place in the child's queue.
    pub fn settle(
        &mut self,
        child: &mut PoolInner,
        parent: &mut PoolInner,
        transfer: Transfer,
    ) -> (poll: PermitPoll)
        requires
            old(child).wf(),
            old(parent).wf(),
            old(child)@.semaphore.has_free_ticket(),
            old(self).wf(),
            transfer.one_permit(),
            transfer.outcome is Transferred ==> 1 <= old(child)@.spare(),
            transfer.parent_permit is Some ==> 1 <= old(parent)@.spare(),
        ensures
            final(child).wf(),
            final(parent).wf(),
            final(self).wf(),
            final(child)@ == old(self).settled_child(old(child)@, transfer.end()),
            final(parent)@ == old(self).settled_parent(old(parent)@, transfer.end()),
            *final(self) == old(self).settled(old(child)@, transfer.end()),
            poll.kind() == old(self).settled_kind(old(child)@, transfer.end()),
            poll.one_permit(),
            poll is Ready ==> 1 <= final(child)@.spare(),
    {
        let Transfer { outcome, at_capacity, parent_permit } = transfer;
        if let Some(permit) = parent_permit {
            parent.release_permit(permit);
        }
        let mut transferred: bool = false;
        match outcome {
            TransferOutcome::ChildClosed => {
                return PermitPoll::Closed;
            },
            TransferOutcome::ParentClosed => {
                child.mark_closed();
                return PermitPoll::Closed;
            },
            TransferOutcome::Transferred(permit) => {
                child.release_permit(permit);
                transferred = true;
            },
            TransferOutcome::Nothing => {},
        }
        if at_capacity {
            if let Some(mut acquire) = self.acquire_parent {
                parent.cancel_permit(&mut acquire);
                self.acquire_parent = Some(acquire);
            }
        }
        match child.poll_permit(&mut self.acquire_self) {
            Some(permit) => PermitPoll::Ready(permit),
            None => {
                if transferred && !at_capacity {
                    self.acquire_parent = Some(Acquire::new(1));
                    PermitPoll::Pending { wake: true }
                } else {
                    PermitPoll::Pending { wake: false }
                }
            },
        }
    }

    /// The whole poll, for as long as nothing else happens to either pool.
    pub fn poll(
        &mut self,
        child: &mut PoolInner,
        parent: &mut PoolInner,
        closed: bool,
        parent_closed: bool,
    ) -> (poll: PermitPoll)
        requires
            old(child).wf(),
            old(parent).wf(),
            old(child)@.semaphore.next_ticket + 1 < u64::MAX,
            old(parent)@.semaphore.has_free_ticket(),
            old(self).wf(),
        ensures
            final(child).wf(),
            final(parent).wf(),
            final(self).wf(),
            poll.one_permit(),
            poll is Ready ==> 1 <= final(child)@.spare(),
            ({
                let begun = old(self).begun(old(child)@, closed, parent_closed);
                let begun_child = old(self).begun_child(old(child)@, closed, parent_closed);
                let kind = old(self).begun_kind(old(child)@, closed, parent_closed);
                if kind is Borrow {
                    let reserved = begun.reserved(old(parent)@);
                    let reserved_parent = old(parent)@.polled(begun.parent_request());
                    let offered = old(parent)@.semaphore.grants(begun.parent_request());
                    let end = transfer_end(begun_child, reserved_parent, offered);
                    let moved_child = transferred_child(begun_child, reserved_parent, offered);
                    let moved_parent = transferred_parent(begun_child, reserved_parent, offered);
                    &&& *final(self) == reserved.settled(moved_child, end)
                    &&& final(child)@ == reserved.settled_child(moved_child, end)
                    &&& final(parent)@ == reserved.settled_parent(moved_parent, end)
                    &&& poll.kind() == reserved.settled_kind(moved_child, end)
                } else {
                    &&& *final(self) == begun
                    &&& final(child)@ == begun_child
                    &&& final(parent)@ == old(parent)@
                    &&& poll.kind() == kind
                }
            }),
    {
        let poll = self.begin(child, closed, parent_closed);
        match poll {
            PermitPoll::Borrow => {
                let parent_permit = self.reserve(parent);
                let ended = transfer(child, parent, parent_permit);
                self.settle(child, parent, ended)
            },
            other => other,
        }
    }

    /// Stops waiting in the own pool.
    pub fn cancel_self(&mut self, child: &mut PoolInner)
        requires
            old(child).wf(),
            old(self).wf(),
        ensures
            final(child).wf(),
            final(self).wf(),
            final(child)@ == old(child)@.cancelled(old(self).acquire_self),
            *final(self) == (AcquirePermit {
                acquire_self: Acquire {
                    stage: AcquireStage::Terminated,
                    ..old(self).acquire_self
                },
                ..*old(self)
            }),
    {
        child.cancel_permit(&mut self.acquire_self);
    }

    /// Stops waiting for the parent.
    pub fn cancel_parent(&mut self, parent: &mut PoolInner)
        requires
            old(parent).wf(),
            old(self).wf(),
        ensures
            final(parent).wf(),
            final(self).wf(),
            final(parent)@ == old(parent)@.cancelled(old(self).parent_request()),
            *final(self) == (AcquirePermit { acquire_parent: None, ..*old(self) }),
    {
        if let Some(mut acquire) = self.acquire_parent {
            parent.cancel_permit(&mut acquire);
        }
        self.acquire_parent = None;
    }
}

impl PoolInner {
    /// A caller that is about to wait for a permit. It borrows only in a pool that has a parent and
    /// has not opened all the connections it may have: at its limit, a pool that borrowed could do
    /// nothing with the permit.
    pub fn acquire_permit(&self) -> (acquire: AcquirePermit)
        ensures
            acquire.wf(),
            acquire == AcquirePermit::started(self@),
    {
        let acquire_parent = if self.has_parent() && self.size() < self.options().max_connections {
            Some(Acquire::new(1))
        } else {
            None
        };
        AcquirePermit { acquire_self: Acquire::new(1), acquire_parent, poll_parent: false }
    }
}

} // verus!
