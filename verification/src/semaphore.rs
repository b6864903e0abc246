//! A fair counting semaphore.
//!
//! Permits are handed out strictly in the order in which requests were queued: a released permit
//! goes to the oldest request that is still short of permits, and it stays with that request until
//! the request is completed or cancelled. The semaphore never blocks. A caller polls its
//! [`Acquire`] and suspends itself where the answer is "not yet".

use vstd::prelude::*;

verus! {

/// A queued request for permits.
#[derive(Clone, Copy, Debug, PartialEq, Eq, Structural)]
pub struct Waiter {
    /// Identifies the request among all requests of one semaphore.
    pub ticket: u64,
    /// How many permits the request asks for.
    pub needed: u32,
    /// How many of them have been set aside for it so far.
    pub assigned: u32,
}

/// How far a request for permits has come.
#[derive(Clone, Copy, Debug, PartialEq, Eq, Structural)]
pub enum AcquireStage {
    /// Never polled: the semaphore does not know of it.
    Unpolled,
    /// Waiting under this ticket.
    Queued(u64),
    /// Completed, cancelled or abandoned. Polling it again yields nothing.
    Terminated,
}

/// A request for permits, as its owner holds it.
#[derive(Clone, Copy, Debug, PartialEq, Eq, Structural)]
pub struct Acquire {
    pub needed: u32,
    pub stage: AcquireStage,
}

impl Acquire {
    /// A request for `needed` permits that has not been made yet.
    pub fn new(needed: u32) -> (acquire: Acquire)
        ensures
            acquire == (Acquire { needed, stage: AcquireStage::Unpolled }),
    {
        Acquire { needed, stage: AcquireStage::Unpolled }
    }
}

/// Permits that were taken out of a semaphore and have not been put back.
#[derive(Debug, PartialEq, Eq, Structural)]
pub struct AsyncSemaphoreReleaser {
    permits: u32,
}

impl AsyncSemaphoreReleaser {
    /// How many permits it stands for.
    pub closed spec fn count(self) -> nat {
        self.permits as nat
    }

    pub fn permits(&self) -> (n: u32)
        ensures
            n == self.count(),
    {
        self.permits
    }

    pub(crate) fn new(permits: u32) -> (releaser: AsyncSemaphoreReleaser)
        ensures
            releaser.count() == permits,
    {
        AsyncSemaphoreReleaser { permits }
    }

    /// Gives up the right to put the permits back. They stay out of the semaphore.
    pub fn disarm(self) -> (n: u32)
        ensures
            n == self.count(),
    {
        self.permits
    }
}

/// The permits set aside for the requests in `waiters`.
pub open spec fn assigned_sum(waiters: Seq<Waiter>) -> nat
    decreases waiters.len(),
{
    if waiters.len() == 0 {
        0
    } else {
        waiters[0].assigned as nat + assigned_sum(waiters.drop_first())
    }
}

pub open spec fn min_nat(a: nat, b: nat) -> nat {
    if a <= b {
        a
    } else {
        b
    }
}

/// Hands `n` permits to `waiters` in queue order, each getting what it still lacks.
pub open spec fn distribute(n: nat, waiters: Seq<Waiter>) -> Seq<Waiter>
    decreases waiters.len(),
{
    if waiters.len() == 0 {
        waiters
    } else {
        let first = waiters[0];
        let given = min_nat(n, (first.needed - first.assigned) as nat);
        seq![Waiter { assigned: (first.assigned + given) as u32, ..first }] + distribute(
            (n - given) as nat,
            waiters.drop_first(),
        )
    }
}

/// What is left of `n` permits once every waiter has got what it lacks.
pub open spec fn left_over(n: nat, waiters: Seq<Waiter>) -> nat
    decreases waiters.len(),
{
    if waiters.len() == 0 {
        n
    } else {
        let given = min_nat(n, (waiters[0].needed - waiters[0].assigned) as nat);
        left_over((n - given) as nat, waiters.drop_first())
    }
}

/// What a semaphore holds.
#[verifier::ext_equal]
pub struct SemaphoreState {
    /// The permits that nobody has asked for.
    pub available: nat,
    /// The pending requests, oldest first.
    pub waiters: Seq<Waiter>,
    /// The ticket of the next request to be queued.
    pub next_ticket: nat,
}

impl SemaphoreState {
    /// The permits in the semaphore, set aside or not.
    pub open spec fn total(self) -> nat {
        self.available + assigned_sum(self.waiters)
    }

    pub open spec fn has_ticket(self, ticket: u64) -> bool {
        exists|i: int| 0 <= i < self.waiters.len() && (#[trigger] self.waiters[i]).ticket == ticket
    }

    /// The place in the queue of the request with that ticket.
    pub open spec fn place(self, ticket: u64) -> int {
        choose|i: int| 0 <= i < self.waiters.len() && (#[trigger] self.waiters[i]).ticket == ticket
    }

    /// Whether there is a ticket for one more request.
    pub open spec fn has_free_ticket(self) -> bool {
        self.next_ticket < u64::MAX
    }

    pub open spec fn wf(self) -> bool {
        &&& self.next_ticket <= u64::MAX
        &&& forall|i: int|
            0 <= i < self.waiters.len() ==> {
                &&& (#[trigger] self.waiters[i]).assigned <= self.waiters[i].needed
                &&& self.waiters[i].ticket < self.next_ticket
            }
        &&& forall|i: int, j: int|
            0 <= i < j < self.waiters.len() ==> (#[trigger] self.waiters[i]).ticket != (
            #[trigger] self.waiters[j]).ticket
        // Permits reach a request only once every older request has all it asked for.
        &&& forall|i: int, j: int|
            0 <= i < j < self.waiters.len() && (#[trigger] self.waiters[i]).assigned
                < self.waiters[i].needed ==> (#[trigger] self.waiters[j]).assigned == 0
        // No permit is idle while a request is short of permits.
        &&& forall|i: int|
            0 <= i < self.waiters.len() && (#[trigger] self.waiters[i]).assigned
                < self.waiters[i].needed ==> self.available == 0
    }

    /// `n` permits are put in.
    pub open spec fn release(self, n: nat) -> SemaphoreState {
        SemaphoreState {
            available: self.available + left_over(n, self.waiters),
            waiters: distribute(n, self.waiters),
            ..self
        }
    }

    /// `n` available permits are taken out.
    pub open spec fn take(self, n: nat) -> SemaphoreState {
        SemaphoreState { available: (self.available - n) as nat, ..self }
    }

    /// Whether polling `acquire` completes it.
    pub open spec fn grants(self, acquire: Acquire) -> bool {
        match acquire.stage {
            AcquireStage::Unpolled => acquire.needed <= self.available,
            AcquireStage::Queued(ticket) => self.has_ticket(ticket) && {
                let w = self.waiters[self.place(ticket)];
                w.assigned == w.needed && w.needed == acquire.needed
            },
            AcquireStage::Terminated => false,
        }
    }

    /// The semaphore after `acquire` was polled.
    pub open spec fn polled(self, acquire: Acquire) -> SemaphoreState {
        match acquire.stage {
            AcquireStage::Unpolled => if acquire.needed <= self.available {
                self.take(acquire.needed as nat)
            } else {
                SemaphoreState {
                    available: 0,
                    waiters: self.waiters.push(
                        Waiter {
                            ticket: self.next_ticket as u64,
                            needed: acquire.needed,
                            assigned: self.available as u32,
                        },
                    ),
                    next_ticket: self.next_ticket + 1,
                }
            },
            AcquireStage::Queued(ticket) => if self.grants(acquire) {
                SemaphoreState { waiters: self.waiters.remove(self.place(ticket)), ..self }
            } else {
                self
            },
            AcquireStage::Terminated => self,
        }
    }

    /// The request after it was polled.
    pub open spec fn polled_acquire(self, acquire: Acquire) -> Acquire {
        if self.grants(acquire) {
            Acquire { stage: AcquireStage::Terminated, ..acquire }
        } else if acquire.stage == AcquireStage::Unpolled {
            Acquire { stage: AcquireStage::Queued(self.next_ticket as u64), ..acquire }
        } else {
            acquire
        }
    }

    /// The semaphore after `acquire` was abandoned. What had been set aside for it goes to the
    /// requests behind it.
    pub open spec fn cancelled(self, acquire: Acquire) -> SemaphoreState {
        match acquire.stage {
            AcquireStage::Queued(ticket) => if self.has_ticket(ticket) {
                let i = self.place(ticket);
                SemaphoreState { waiters: self.waiters.remove(i), ..self }.release(
                    self.waiters[i].assigned as nat,
                )
            } else {
                self
            },
            _ => self,
        }
    }
}

/// Every request has at most what it asked for, and none has any permit while an older one is short.
pub open spec fn in_order(waiters: Seq<Waiter>) -> bool {
    &&& forall|i: int|
        0 <= i < waiters.len() ==> (#[trigger] waiters[i]).assigned <= waiters[i].needed
    &&& forall|i: int, j: int|
        0 <= i < j < waiters.len() && (#[trigger] waiters[i]).assigned < waiters[i].needed ==> (
        #[trigger] waiters[j]).assigned == 0
}

proof fn lemma_distribute_nothing(waiters: Seq<Waiter>)
    requires
        in_order(waiters),
    ensures
        distribute(0, waiters) == waiters,
        left_over(0, waiters) == 0,
    decreases waiters.len(),
{
    if waiters.len() > 0 {
        lemma_in_order_tail(waiters);
        lemma_distribute_nothing(waiters.drop_first());
        assert(distribute(0, waiters) =~= seq![waiters[0]] + waiters.drop_first());
        assert(waiters =~= seq![waiters[0]] + waiters.drop_first());
    }
}

proof fn lemma_distribute_satisfied(n: nat, waiters: Seq<Waiter>)
    requires
        forall|i: int|
            0 <= i < waiters.len() ==> (#[trigger] waiters[i]).assigned == waiters[i].needed,
    ensures
        distribute(n, waiters) == waiters,
        left_over(n, waiters) == n,
    decreases waiters.len(),
{
    if waiters.len() > 0 {
        let rest = waiters.drop_first();
        assert forall|i: int| 0 <= i < rest.len() implies (#[trigger] rest[i]).assigned
            == rest[i].needed by {
            assert(rest[i] == waiters[i + 1]);
        }
        lemma_distribute_satisfied(n, rest);
        assert(waiters =~= seq![waiters[0]] + rest);
    }
}

proof fn lemma_in_order_tail(waiters: Seq<Waiter>)
    requires
        in_order(waiters),
        waiters.len() > 0,
    ensures
        in_order(waiters.drop_first()),
{
    let rest = waiters.drop_first();
    assert forall|i: int| 0 <= i < rest.len() implies (#[trigger] rest[i]).assigned
        <= rest[i].needed by {
        assert(rest[i] == waiters[i + 1]);
    }
    assert forall|i: int, j: int|
        0 <= i < j < rest.len() && (#[trigger] rest[i]).assigned < rest[i].needed implies (
    #[trigger] rest[j]).assigned == 0 by {
        assert(rest[i] == waiters[i + 1]);
        assert(rest[j] == waiters[j + 1]);
    }
}

/// What handing out `n` permits does to a queue.
proof fn lemma_distribute(n: nat, waiters: Seq<Waiter>)
    requires
        in_order(waiters),
    ensures
        distribute(n, waiters).len() == waiters.len(),
        forall|i: int|
            0 <= i < waiters.len() ==> {
                &&& (#[trigger] distribute(n, waiters)[i]).ticket == waiters[i].ticket
                &&& distribute(n, waiters)[i].needed == waiters[i].needed
                &&& waiters[i].assigned <= distribute(n, waiters)[i].assigned
            },
        in_order(distribute(n, waiters)),
        assigned_sum(distribute(n, waiters)) + left_over(n, waiters) == assigned_sum(waiters) + n,
        left_over(n, waiters) <= n,
        left_over(n, waiters) > 0 ==> forall|i: int|
            0 <= i < waiters.len() ==> (#[trigger] distribute(n, waiters)[i]).assigned
                == waiters[i].needed,
    decreases waiters.len(),
{
    let after = distribute(n, waiters);
    if waiters.len() > 0 {
        let first = waiters[0];
        let given = min_nat(n, (first.needed - first.assigned) as nat);
        let rest = waiters.drop_first();
        let rest_after = distribute((n - given) as nat, rest);
        lemma_in_order_tail(waiters);
        lemma_distribute((n - given) as nat, rest);
        assert(after.drop_first() =~= rest_after);
        assert forall|i: int| 0 <= i < waiters.len() implies {
            &&& (#[trigger] after[i]).ticket == waiters[i].ticket
            &&& after[i].needed == waiters[i].needed
            &&& waiters[i].assigned <= after[i].assigned
        } by {
            if i > 0 {
                assert(after[i] == rest_after[i - 1]);
                assert(rest[i - 1] == waiters[i]);
            }
        }
        assert forall|i: int| 0 <= i < after.len() implies (#[trigger] after[i]).assigned
            <= after[i].needed by {
            if i > 0 {
                assert(after[i] == rest_after[i - 1]);
            }
        }
        assert forall|i: int, j: int|
            0 <= i < j < after.len() && (#[trigger] after[i]).assigned
                < after[i].needed implies (#[trigger] after[j]).assigned == 0 by {
            assert(after[j] == rest_after[j - 1]);
            if i > 0 {
                assert(after[i] == rest_after[i - 1]);
            } else {
                lemma_distribute_nothing(rest);
                assert(rest[j - 1] == waiters[j]);
            }
        }
        if left_over(n, waiters) > 0 {
            assert forall|i: int| 0 <= i < waiters.len() implies (#[trigger] after[i]).assigned
                == waiters[i].needed by {
                if i > 0 {
                    assert(after[i] == rest_after[i - 1]);
                    assert(rest[i - 1] == waiters[i]);
                } else if n == given {
                    lemma_distribute_nothing(rest);
                }
            }
        }
    }
}

/// Taking a request out of a queue takes out what was set aside for it.
/// One permit goes past the requests that lack none.
proof fn lemma_distribute_reaches(waiters: Seq<Waiter>, i: int)
    requires
        0 <= i < waiters.len(),
        waiters[i].needed == 1,
        waiters[i].assigned <= 1,
        forall|k: int| 0 <= k < i ==> (#[trigger] waiters[k]).assigned == waiters[k].needed,
    ensures
        distribute(1, waiters).len() == waiters.len(),
        distribute(1, waiters)[i].assigned == 1,
    decreases waiters.len(),
{
    let rest = waiters.drop_first();
    lemma_distribute_len(if i == 0 && waiters[0].assigned == 0 { 0 } else { 1 }, rest);
    if i > 0 {
        assert(waiters[0].assigned == waiters[0].needed);
        assert(rest[i - 1] == waiters[i]);
        assert forall|k: int| 0 <= k < i - 1 implies (#[trigger] rest[k]).assigned
            == rest[k].needed by {
            assert(rest[k] == waiters[k + 1]);
        }
        lemma_distribute_reaches(rest, i - 1);
    }
}

proof fn lemma_distribute_len(n: nat, waiters: Seq<Waiter>)
    ensures
        distribute(n, waiters).len() == waiters.len(),
    decreases waiters.len(),
{
    if waiters.len() > 0 {
        let given = min_nat(n, (waiters[0].needed - waiters[0].assigned) as nat);
        lemma_distribute_len((n - given) as nat, waiters.drop_first());
    }
}

proof fn lemma_assigned_sum_remove(waiters: Seq<Waiter>, i: int)
    requires
        0 <= i < waiters.len(),
    ensures
        assigned_sum(waiters) == assigned_sum(waiters.remove(i)) + waiters[i].assigned,
    decreases waiters.len(),
{
    if i == 0 {
        assert(waiters.remove(0) =~= waiters.drop_first());
    } else {
        let rest = waiters.drop_first();
        lemma_assigned_sum_remove(rest, i - 1);
        assert(waiters.remove(i).drop_first() =~= rest.remove(i - 1));
        assert(waiters.remove(i)[0] == waiters[0]);
    }
}

proof fn lemma_assigned_sum_push(waiters: Seq<Waiter>, w: Waiter)
    ensures
        assigned_sum(waiters.push(w)) == assigned_sum(waiters) + w.assigned,
    decreases waiters.len(),
{
    if waiters.len() == 0 {
        assert(waiters.push(w).drop_first() =~= waiters);
    } else {
        lemma_assigned_sum_push(waiters.drop_first(), w);
        assert(waiters.push(w).drop_first() =~= waiters.drop_first().push(w));
    }
}

impl SemaphoreState {
    /// Permits that are put in are all there afterwards, and the queue stays in order.
    pub proof fn lemma_release(self, n: nat)
        requires
            self.wf(),
        ensures
            self.release(n).wf(),
            self.release(n).total() == self.total() + n,
            self.release(n).waiters.len() == self.waiters.len(),
            forall|i: int|
                0 <= i < self.waiters.len() ==> {
                    &&& (#[trigger] self.release(n).waiters[i]).ticket == self.waiters[i].ticket
                    &&& self.release(n).waiters[i].needed == self.waiters[i].needed
                    &&& self.waiters[i].assigned <= self.release(n).waiters[i].assigned
                },
    {
        lemma_distribute(n, self.waiters);
        let after = self.release(n);
        assert forall|i: int|
            0 <= i < after.waiters.len() && (#[trigger] after.waiters[i]).assigned
                < after.waiters[i].needed implies after.available == 0 by {
            assert(self.waiters[i].assigned < self.waiters[i].needed);
        }
        assert forall|i: int, j: int| 0 <= i < j < after.waiters.len() implies (
        #[trigger] after.waiters[i]).ticket != (#[trigger] after.waiters[j]).ticket by {
            assert(self.waiters[i].ticket != self.waiters[j].ticket);
        }
        assert forall|i: int| 0 <= i < after.waiters.len() implies {
            &&& (#[trigger] after.waiters[i]).assigned <= after.waiters[i].needed
            &&& after.waiters[i].ticket < after.next_ticket
        } by {
            assert(self.waiters[i].ticket < self.next_ticket);
        }
    }

    /// Taking available permits out leaves the queue in order.
    pub proof fn lemma_take(self, n: nat)
        requires
            self.wf(),
            n <= self.available,
        ensures
            self.take(n).wf(),
            self.take(n).total() + n == self.total(),
    {
    }

    /// Permits that are taken out and put straight back change nothing.
    pub proof fn lemma_take_release(self, n: nat)
        requires
            self.wf(),
            n <= self.available,
        ensures
            self.take(n).release(n) == self,
    {
        lemma_distribute(n, self.waiters);
        if n == 0 {
            lemma_distribute_nothing(self.waiters);
        } else {
            lemma_distribute_satisfied(n, self.waiters);
        }
    }

    /// A permit that is put in reaches the first request that is short of just one.
    pub proof fn lemma_release_serves(self, i: int)
        requires
            self.wf(),
            0 <= i < self.waiters.len(),
            self.waiters[i].needed == 1,
            forall|k: int|
                0 <= k < i ==> (#[trigger] self.waiters[k]).assigned == self.waiters[k].needed,
        ensures
            self.release(1).waiters[i].assigned == 1,
    {
        lemma_distribute(1, self.waiters);
        lemma_distribute_reaches(self.waiters, i);
    }

    pub proof fn lemma_place(self, i: int)
        requires
            self.wf(),
            0 <= i < self.waiters.len(),
        ensures
            self.has_ticket(self.waiters[i].ticket),
            self.place(self.waiters[i].ticket) == i,
    {
        let t = self.waiters[i].ticket;
        assert(self.has_ticket(t));
        let p = self.place(t);
        assert(self.waiters[p].ticket == t);
    }

    /// A queue that a request has left is in order.
    pub proof fn lemma_removed(self, i: int)
        requires
            self.wf(),
            0 <= i < self.waiters.len(),
        ensures
            (SemaphoreState { waiters: self.waiters.remove(i), ..self }).wf(),
    {
        assert(self.waiters[i].assigned < self.waiters[i].needed ==> self.available == 0);
        self.lemma_remove(i);
    }

    proof fn lemma_remove(self, i: int)
        requires
            self.wf(),
            0 <= i < self.waiters.len(),
            self.waiters[i].assigned < self.waiters[i].needed ==> self.available == 0,
        ensures
            (SemaphoreState { waiters: self.waiters.remove(i), ..self }).wf(),
    {
        let q = self.waiters.remove(i);
        assert forall|k: int| 0 <= k < q.len() implies {
            &&& (#[trigger] q[k]).assigned <= q[k].needed
            &&& q[k].ticket < self.next_ticket
            &&& q[k].assigned < q[k].needed ==> self.available == 0
        } by {
            let k0 = if k < i { k } else { k + 1 };
            assert(q[k] == self.waiters[k0]);
        }
        assert forall|k: int, j: int| 0 <= k < j < q.len() implies {
            &&& (#[trigger] q[k]).ticket != (#[trigger] q[j]).ticket
            &&& q[k].assigned < q[k].needed ==> q[j].assigned == 0
        } by {
            let k0 = if k < i { k } else { k + 1 };
            let j0 = if j < i { j } else { j + 1 };
            assert(q[k] == self.waiters[k0]);
            assert(q[j] == self.waiters[j0]);
        }
    }

    /// Polling a request keeps the queue in order and moves exactly the permits it hands out.
    pub proof fn lemma_polled(self, acquire: Acquire)
        requires
            self.wf(),
            self.has_free_ticket(),
        ensures
            self.polled(acquire).wf(),
            self.grants(acquire) ==> self.polled(acquire).total() + acquire.needed
                == self.total(),
            !self.grants(acquire) ==> self.polled(acquire).total() == self.total(),
    {
        match acquire.stage {
            AcquireStage::Unpolled => {
                if acquire.needed > self.available {
                    let w = Waiter {
                        ticket: self.next_ticket as u64,
                        needed: acquire.needed,
                        assigned: self.available as u32,
                    };
                    lemma_assigned_sum_push(self.waiters, w);
                }
            },
            AcquireStage::Queued(ticket) => {
                if self.grants(acquire) {
                    let i = self.place(ticket);
                    lemma_assigned_sum_remove(self.waiters, i);
                    self.lemma_remove(i);
                }
            },
            AcquireStage::Terminated => {},
        }
    }

    /// What the queue looks like once the request at `i` has left it.
    pub proof fn lemma_cancelled_queue(self, i: int)
        requires
            self.wf(),
            0 <= i < self.waiters.len(),
        ensures
            ({
                let rest = SemaphoreState { waiters: self.waiters.remove(i), ..self };
                let after = rest.release(self.waiters[i].assigned as nat);
                &&& after.waiters.len() == self.waiters.len() - 1
                &&& forall|k: int|
                    0 <= k < self.waiters.len() - 1 ==> {
                        &&& (#[trigger] after.waiters[k]).ticket == rest.waiters[k].ticket
                        &&& after.waiters[k].needed == rest.waiters[k].needed
                    }
            }),
    {
        self.lemma_remove(i);
        (SemaphoreState { waiters: self.waiters.remove(i), ..self }).lemma_release(
            self.waiters[i].assigned as nat,
        );
    }

    /// Abandoning a request loses no permit.
    pub proof fn lemma_cancelled(self, acquire: Acquire)
        requires
            self.wf(),
        ensures
            self.cancelled(acquire).wf(),
            self.cancelled(acquire).total() == self.total(),
    {
        if let AcquireStage::Queued(ticket) = acquire.stage {
            if self.has_ticket(ticket) {
                let i = self.place(ticket);
                lemma_assigned_sum_remove(self.waiters, i);
                self.lemma_remove(i);
                (SemaphoreState { waiters: self.waiters.remove(i), ..self }).lemma_release(
                    self.waiters[i].assigned as nat,
                );
            }
        }
    }
}

/// A semaphore whose permits are handed out in the order of the requests.
pub struct AsyncSemaphore {
    available: usize,
    waiters: Vec<Waiter>,
    next_ticket: u64,
}

impl View for AsyncSemaphore {
    type V = SemaphoreState;

    closed spec fn view(&self) -> SemaphoreState {
        SemaphoreState {
            available: self.available as nat,
            waiters: self.waiters@,
            next_ticket: self.next_ticket as nat,
        }
    }
}

impl AsyncSemaphore {
    /// A semaphore that holds `permits` permits and no request.
    pub fn new(permits: usize) -> (semaphore: AsyncSemaphore)
        ensures
            semaphore@ == (SemaphoreState {
                available: permits as nat,
                waiters: Seq::<Waiter>::empty(),
                next_ticket: 0,
            }),
            semaphore@.wf(),
    {
        AsyncSemaphore { available: permits, waiters: Vec::new(), next_ticket: 0 }
    }

    /// The permits that nobody has asked for.
    pub fn permits(&self) -> (n: usize)
        ensures
            n == self@.available,
    {
        self.available
    }

    /// Takes `n` permits out if that many are available.
    pub fn try_acquire(&mut self, n: u32) -> (permit: Option<AsyncSemaphoreReleaser>)
        requires
            old(self)@.wf(),
        ensures
            final(self)@.wf(),
            permit is Some <==> n <= old(self)@.available,
            permit is Some ==> permit->0.count() == n && final(self)@ == old(self)@.take(n as nat),
            permit is None ==> final(self)@ == old(self)@,
    {
        let wanted: usize = n as usize;
        if wanted <= self.available {
            proof {
                self@.lemma_take(n as nat);
            }
            self.available = self.available - wanted;
            Some(AsyncSemaphoreReleaser::new(n))
        } else {
            None
        }
    }

    /// Puts `n` permits in. Requests that are short of permits come first.
    pub fn release(&mut self, n: usize)
        requires
            old(self)@.wf(),
            old(self)@.available + n <= usize::MAX,
        ensures
            final(self)@ == old(self)@.release(n as nat),
            final(self)@.wf(),
    {
        let ghost before = self@;
        let mut rest: usize = n;
        let mut i: usize = 0;
        proof {
            before.lemma_release(n as nat);
            lemma_distribute(n as nat, before.waiters);
            assert(before.waiters.skip(0) =~= before.waiters);
            assert(before.waiters.take(0) + distribute(n as nat, before.waiters) =~= distribute(
                n as nat,
                before.waiters,
            ));
        }
        while i < self.waiters.len()
            invariant
                before.wf(),
                i <= self.waiters.len(),
                self.waiters.len() == before.waiters.len(),
                self.available == before.available,
                self.next_ticket == before.next_ticket,
                rest <= n,
                forall|k: int| i <= k < before.waiters.len() ==> self.waiters@[k] == before.waiters[k],
                distribute(n as nat, before.waiters) == self.waiters@.take(i as int) + distribute(
                    rest as nat,
                    before.waiters.skip(i as int),
                ),
                left_over(n as nat, before.waiters) == left_over(
                    rest as nat,
                    before.waiters.skip(i as int),
                ),
            decreases self.waiters.len() - i,
        {
            let waiter: Waiter = self.waiters[i];
            let lacking: u32 = waiter.needed - waiter.assigned;
            let given: u32 = if rest < lacking as usize {
                rest as u32
            } else {
                lacking
            };
            let ghost earlier = self.waiters@.take(i as int);
            let ghost tail = before.waiters.skip(i as int);
            let updated = Waiter { assigned: waiter.assigned + given, ..waiter };
            self.waiters.set(i, updated);
            rest = rest - given as usize;
            proof {
                assert(tail.drop_first() =~= before.waiters.skip(i + 1));
                assert(self.waiters@.take(i + 1) =~= earlier + seq![updated]);
                assert(earlier + (seq![updated] + distribute(rest as nat, tail.drop_first()))
                    =~= self.waiters@.take(i + 1) + distribute(rest as nat, tail.drop_first()));
            }
            i = i + 1;
        }
        proof {
            assert(before.waiters.skip(i as int) =~= Seq::<Waiter>::empty());
            assert(self.waiters@.take(i as int) + Seq::<Waiter>::empty() =~= self.waiters@);
        }
        self.available = self.available + rest;
    }

    fn find(&self, ticket: u64) -> (found: Option<usize>)
        requires
            self@.wf(),
        ensures
            found is Some <==> self@.has_ticket(ticket),
            found matches Some(i) ==> i < self@.waiters.len() && self@.place(ticket) == i
                && self@.waiters[i as int].ticket == ticket,
    {
        let mut i: usize = 0;
        while i < self.waiters.len()
            invariant
                self@.wf(),
                i <= self.waiters.len(),
                forall|k: int| 0 <= k < i ==> (#[trigger] self.waiters@[k]).ticket != ticket,
            decreases self.waiters.len() - i,
        {
            if self.waiters[i].ticket == ticket {
                proof {
                    self@.lemma_place(i as int);
                }
                return Some(i);
            }
            i = i + 1;
        }
        None
    }

    /// Whether the request with that ticket has all the permits it asked for.
    pub fn is_ready(&self, ticket: u64) -> (ready: bool)
        requires
            self@.wf(),
        ensures
            ready == (self@.has_ticket(ticket) && {
                let w = self@.waiters[self@.place(ticket)];
                w.assigned == w.needed
            }),
    {
        match self.find(ticket) {
            Some(i) => self.waiters[i].assigned == self.waiters[i].needed,
            None => false,
        }
    }

    /// Whether there is a ticket for one more request.
    pub fn has_free_ticket(&self) -> (free: bool)
        ensures
            free == self@.has_free_ticket(),
    {
        self.next_ticket < u64::MAX
    }

    /// Asks for the permits of `acquire`. A request that cannot be met yet is queued, takes the
    /// permits that are there, and keeps its place until it is met or cancelled.
    pub fn poll_acquire(&mut self, acquire: &mut Acquire) -> (permit: Option<AsyncSemaphoreReleaser>)
        requires
            old(self)@.wf(),
            old(self)@.has_free_ticket(),
        ensures
            final(self)@ == old(self)@.polled(*old(acquire)),
            final(self)@.wf(),
            *final(acquire) == old(self)@.polled_acquire(*old(acquire)),
            permit is Some <==> old(self)@.grants(*old(acquire)),
            permit is Some ==> permit->0.count() == old(acquire).needed,
    {
        proof {
            self@.lemma_polled(*acquire);
        }
        match acquire.stage {
            AcquireStage::Unpolled => {
                let needed: u32 = acquire.needed;
                if needed as usize <= self.available {
                    self.available = self.available - needed as usize;
                    acquire.stage = AcquireStage::Terminated;
                    Some(AsyncSemaphoreReleaser::new(needed))
                } else {
                    let ticket: u64 = self.next_ticket;
                    self.waiters.push(Waiter { ticket, needed, assigned: self.available as u32 });
                    self.available = 0;
                    self.next_ticket = ticket + 1;
                    acquire.stage = AcquireStage::Queued(ticket);
                    None
                }
            },
            AcquireStage::Queued(ticket) => {
                match self.find(ticket) {
                    Some(i) => {
                        let waiter: Waiter = self.waiters[i];
                        if waiter.assigned == waiter.needed && waiter.needed == acquire.needed {
                            let _ = self.waiters.remove(i);
                            acquire.stage = AcquireStage::Terminated;
                            Some(AsyncSemaphoreReleaser::new(waiter.needed))
                        } else {
                            None
                        }
                    },
                    None => None,
                }
            },
            AcquireStage::Terminated => None,
        }
    }

    /// Abandons a request. The permits set aside for it go to the requests behind it.
    pub fn cancel_acquire(&mut self, acquire: &mut Acquire)
        requires
            old(self)@.wf(),
            old(self)@.total() <= usize::MAX,
        ensures
            final(self)@ == old(self)@.cancelled(*old(acquire)),
            final(self)@.wf(),
            *final(acquire) == (Acquire { stage: AcquireStage::Terminated, ..*old(acquire) }),
    {
        proof {
            self@.lemma_cancelled(*acquire);
        }
        if let AcquireStage::Queued(ticket) = acquire.stage {
            if let Some(i) = self.find(ticket) {
                proof {
                    lemma_assigned_sum_remove(self@.waiters, i as int);
                    self@.lemma_remove(i as int);
                }
                let waiter: Waiter = self.waiters.remove(i);
                self.release(waiter.assigned as usize);
            }
        }
        acquire.stage = AcquireStage::Terminated;
    }
}

} // verus!
