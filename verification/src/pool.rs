//! The bookkeeping of a bounded connection pool.
//!
//! The ledger decides; whoever owns the connections acts. Each call takes
//! one event (a caller asks for a connection, gives one back, loses one, or
//! stops waiting) and answers with what is to be done. The ledger never
//! admits more callers than the pool has room for, and it never forgets a
//! caller that waits.

use crate::error::RepositoryError;
use vstd::prelude::*;

verus! {

/// The size of a pool that is not told otherwise.
pub const DEFAULT_POOL_SIZE: usize = 10;

/// The answer to a caller that asks for a connection.
#[derive(Clone, Copy, Debug, PartialEq, Eq, Structural)]
pub enum Admission {
    /// Take a resting connection; it has to pass the liveness check.
    Reuse,
    /// Open a new connection; the pool has room for it.
    Open,
    /// The pool is exhausted: wait under this ticket.
    Wait(u64),
    /// No ticket is left to wait under.
    Refused,
}

/// The answer to a caller that gives up its place in the pool.
#[derive(Clone, Copy, Debug, PartialEq, Eq, Structural)]
pub enum Handover {
    /// Nobody waits: the connection rests in the pool.
    Rest,
    /// The connection goes to the caller that waits under this ticket.
    Pass(u64),
    /// Nobody waits: the place stays empty.
    Vacant,
    /// The place goes to the caller that waits under this ticket, who opens
    /// a connection of its own.
    Admit(u64),
    /// The pool had lent nothing out.
    Unknown,
}

/// What to do with a connection after its liveness check.
#[derive(Clone, Copy, Debug, PartialEq, Eq, Structural)]
pub enum Checkout {
    /// Hand the connection to the caller.
    Hand,
    /// Discard the connection and open another in its place.
    Replace,
}

/// An event at the pool.
pub enum PoolEvent {
    /// A caller asks for a connection.
    Acquire,
    /// A caller gives its connection back.
    Release,
    /// A caller gives its place back without a connection.
    Forfeit,
    /// The wait under this ticket ran out.
    Expire(u64),
}

/// What the ledger answers to an event.
pub enum PoolAnswer {
    Admission(Admission),
    Handover(Handover),
    Expiry(Result<(), RepositoryError>),
}

/// The pool as a mathematical value.
pub struct PoolState {
    /// How many connections the pool may hold.
    pub capacity: nat,
    /// Connections that rest in the pool.
    pub idle: nat,
    /// Places that callers hold.
    pub lent: nat,
    /// The tickets of the callers that wait, oldest first.
    pub waiting: Seq<u64>,
    /// The next ticket to give out.
    pub next_ticket: nat,
}

/// What holds of every pool: connections and places never exceed the
/// capacity, tickets are given out once, and a caller waits only while the
/// pool is exhausted.
pub open spec fn pool_wf(s: PoolState) -> bool {
    &&& s.idle + s.lent <= s.capacity
    &&& s.next_ticket <= u64::MAX
    &&& s.waiting.no_duplicates()
    &&& forall|i: int| 0 <= i < s.waiting.len() ==> (#[trigger] s.waiting[i]) < s.next_ticket
    &&& s.waiting.len() > 0 ==> s.idle == 0 && s.lent == s.capacity
}

/// A pool that has just been set up.
pub open spec fn opened(capacity: nat) -> PoolState {
    PoolState { capacity, idle: 0, lent: 0, waiting: Seq::empty(), next_ticket: 0 }
}

/// A caller asks for a connection.
pub open spec fn acquired(s: PoolState) -> (PoolState, Admission) {
    if s.idle > 0 {
        (PoolState { idle: (s.idle - 1) as nat, lent: s.lent + 1, ..s }, Admission::Reuse)
    } else if s.lent < s.capacity {
        (PoolState { lent: s.lent + 1, ..s }, Admission::Open)
    } else if s.next_ticket < u64::MAX {
        (
            PoolState {
                waiting: s.waiting.push(s.next_ticket as u64),
                next_ticket: s.next_ticket + 1,
                ..s
            },
            Admission::Wait(s.next_ticket as u64),
        )
    } else {
        (s, Admission::Refused)
    }
}

/// A caller gives its connection back: it goes to the oldest waiting
/// caller, or rests.
pub open spec fn released(s: PoolState) -> (PoolState, Handover) {
    if s.lent == 0 {
        (s, Handover::Unknown)
    } else if s.waiting.len() > 0 {
        (PoolState { waiting: s.waiting.drop_first(), ..s }, Handover::Pass(s.waiting[0]))
    } else {
        (PoolState { idle: s.idle + 1, lent: (s.lent - 1) as nat, ..s }, Handover::Rest)
    }
}

/// A caller gives its place back without a connection: the place goes to
/// the oldest waiting caller, or stays empty.
pub open spec fn forfeited(s: PoolState) -> (PoolState, Handover) {
    if s.lent == 0 {
        (s, Handover::Unknown)
    } else if s.waiting.len() > 0 {
        (PoolState { waiting: s.waiting.drop_first(), ..s }, Handover::Admit(s.waiting[0]))
    } else {
        (PoolState { lent: (s.lent - 1) as nat, ..s }, Handover::Vacant)
    }
}

/// The wait under a ticket ran out: a caller that still waits leaves the
/// queue and fails; a caller that was served meanwhile is left alone.
pub open spec fn expired(s: PoolState, ticket: u64) -> (PoolState, Result<(), RepositoryError>) {
    if s.waiting.contains(ticket) {
        (
            PoolState { waiting: s.waiting.remove(s.waiting.index_of(ticket)), ..s },
            Err(RepositoryError::StorageUnavailable),
        )
    } else {
        (s, Ok(()))
    }
}

/// The pool and the answer after one event.
pub open spec fn step(s: PoolState, e: PoolEvent) -> (PoolState, PoolAnswer) {
    match e {
        PoolEvent::Acquire => (acquired(s).0, PoolAnswer::Admission(acquired(s).1)),
        PoolEvent::Release => (released(s).0, PoolAnswer::Handover(released(s).1)),
        PoolEvent::Forfeit => (forfeited(s).0, PoolAnswer::Handover(forfeited(s).1)),
        PoolEvent::Expire(t) => (expired(s, t).0, PoolAnswer::Expiry(expired(s, t).1)),
    }
}

/// The pool after a run of events.
pub open spec fn run(s: PoolState, events: Seq<PoolEvent>) -> PoolState
    decreases events.len(),
{
    if events.len() == 0 {
        s
    } else {
        step(run(s, events.drop_last()), events.last()).0
    }
}

/// Whether an answer serves the caller that waits under `ticket`.
pub open spec fn serves(answer: PoolAnswer, ticket: u64) -> bool {
    answer == PoolAnswer::Handover(Handover::Pass(ticket)) || answer == PoolAnswer::Handover(
        Handover::Admit(ticket),
    )
}

/// What the liveness check decides.
pub open spec fn checkout_of(alive: bool) -> Checkout {
    if alive {
        Checkout::Hand
    } else {
        Checkout::Replace
    }
}

/// One event keeps a pool within its invariant, and its capacity fixed.
pub proof fn lemma_step_keeps_pool(s: PoolState, e: PoolEvent)
    requires
        pool_wf(s),
    ensures
        pool_wf(step(s, e).0),
        step(s, e).0.capacity == s.capacity,
{
    match e {
        PoolEvent::Acquire => {},
        PoolEvent::Release => {
            if s.waiting.len() > 0 {
                lemma_tail_keeps_tickets(s);
            }
        },
        PoolEvent::Forfeit => {
            if s.waiting.len() > 0 {
                lemma_tail_keeps_tickets(s);
            }
        },
        PoolEvent::Expire(t) => {
            if s.waiting.contains(t) {
                lemma_rest_keeps_tickets(s, s.waiting.index_of(t));
            }
        },
    }
}

/// Taking the oldest ticket off the queue keeps the others as they were.
proof fn lemma_tail_keeps_tickets(s: PoolState)
    requires
        pool_wf(s),
        s.waiting.len() > 0,
    ensures
        s.waiting.drop_first().no_duplicates(),
        forall|i: int|
            0 <= i < s.waiting.drop_first().len() ==> (#[trigger] s.waiting.drop_first()[i])
                < s.next_ticket,
{
    assert(s.waiting.drop_first() =~= s.waiting.remove(0));
    lemma_rest_keeps_tickets(s, 0);
}

/// Taking one ticket off the queue keeps the others as they were.
proof fn lemma_rest_keeps_tickets(s: PoolState, at: int)
    requires
        pool_wf(s),
        0 <= at < s.waiting.len(),
    ensures
        s.waiting.remove(at).no_duplicates(),
        forall|i: int|
            0 <= i < s.waiting.remove(at).len() ==> (#[trigger] s.waiting.remove(at)[i])
                < s.next_ticket,
{
    let rest = s.waiting.remove(at);
    assert forall|i: int| 0 <= i < rest.len() implies (#[trigger] rest[i]) < s.next_ticket by {
        let i0 = if i < at { i } else { i + 1 };
        assert(rest[i] == s.waiting[i0]);
    }
    assert forall|i: int, j: int|
        0 <= i < rest.len() && 0 <= j < rest.len() && i != j implies rest[i] != rest[j] by {
        let i0 = if i < at { i } else { i + 1 };
        let j0 = if j < at { j } else { j + 1 };
        assert(rest[i] == s.waiting[i0] && rest[j] == s.waiting[j0]);
    }
}

/// Whatever callers do, and in whatever order, a pool of capacity K never
/// has more than K places lent out, nor more than K connections in all.
pub proof fn lemma_pool_stays_within_bound(capacity: nat, events: Seq<PoolEvent>)
    ensures
        pool_wf(run(opened(capacity), events)),
        run(opened(capacity), events).capacity == capacity,
        run(opened(capacity), events).lent <= capacity,
        run(opened(capacity), events).idle + run(opened(capacity), events).lent <= capacity,
    decreases events.len(),
{
    if events.len() > 0 {
        lemma_pool_stays_within_bound(capacity, events.drop_last());
        lemma_step_keeps_pool(run(opened(capacity), events.drop_last()), events.last());
    }
}

/// No waiting caller is dropped: after any event, a caller that waited
/// still waits, unless this event served it or was the end of its own
/// wait, in which case it was told to fail.
pub proof fn lemma_no_caller_is_dropped(s: PoolState, e: PoolEvent, ticket: u64)
    requires
        pool_wf(s),
        s.waiting.contains(ticket),
    ensures
        ({
            let (next, answer) = step(s, e);
            ||| next.waiting.contains(ticket)
            ||| serves(answer, ticket)
            ||| (e == PoolEvent::Expire(ticket) && answer == PoolAnswer::Expiry(
                Err(RepositoryError::StorageUnavailable),
            ))
        }),
{
    let (next, answer) = step(s, e);
    let at = s.waiting.index_of(ticket);
    match e {
        PoolEvent::Acquire => {
            if next.waiting.len() > s.waiting.len() {
                assert(next.waiting[at] == ticket);
            }
        },
        PoolEvent::Release => {
            if s.lent > 0 && at > 0 {
                assert(next.waiting[at - 1] == ticket);
            }
        },
        PoolEvent::Forfeit => {
            if s.lent > 0 && at > 0 {
                assert(next.waiting[at - 1] == ticket);
            }
        },
        PoolEvent::Expire(t) => {
            if t != ticket && s.waiting.contains(t) {
                let k = s.waiting.index_of(t);
                if at < k {
                    assert(next.waiting[at] == ticket);
                } else {
                    assert(next.waiting[at - 1] == ticket);
                }
            }
        },
    }
}

/// Waiting ends: a place that is given back serves the oldest waiting
/// caller, and moves every other one up by one. A caller with `n` others
/// before it is served by the place that is given back after `n` more.
pub proof fn lemma_giving_back_advances_queue(s: PoolState, ticket: u64)
    requires
        pool_wf(s),
        s.lent > 0,
        s.waiting.contains(ticket),
    ensures
        ({
            let at = s.waiting.index_of(ticket);
            let (after_release, release) = released(s);
            let (after_forfeit, forfeit) = forfeited(s);
            &&& after_release.lent == s.lent
            &&& after_forfeit.lent == s.lent
            &&& at == 0 ==> release == Handover::Pass(ticket) && forfeit == Handover::Admit(ticket)
            &&& at > 0 ==> after_release.waiting.contains(ticket) && after_release.waiting.index_of(
                ticket,
            ) == at - 1
            &&& at > 0 ==> after_forfeit.waiting.contains(ticket) && after_forfeit.waiting.index_of(
                ticket,
            ) == at - 1
        }),
{
    let at = s.waiting.index_of(ticket);
    if at > 0 {
        let tail = s.waiting.drop_first();
        lemma_tail_keeps_tickets(s);
        assert(tail[at - 1] == ticket);
    }
}

/// Every caller that asks is answered: it is admitted, and then holds a
/// place, or it waits under a ticket that nobody else holds, or it is
/// refused and the pool is as it was.
pub proof fn lemma_every_caller_is_answered(s: PoolState)
    requires
        pool_wf(s),
    ensures
        ({
            let (next, admission) = acquired(s);
            match admission {
                Admission::Reuse => next.lent == s.lent + 1 && next.idle + 1 == s.idle,
                Admission::Open => next.lent == s.lent + 1 && next.idle == s.idle,
                Admission::Wait(t) => !s.waiting.contains(t) && next.waiting == s.waiting.push(t)
                    && s.lent == s.capacity,
                Admission::Refused => next == s && s.lent == s.capacity,
            }
        }),
{
}

/// The ledger of a pool.
pub struct PoolLedger {
    capacity: usize,
    idle: usize,
    lent: usize,
    waiting: Vec<u64>,
    next_ticket: u64,
}

impl View for PoolLedger {
    type V = PoolState;

    closed spec fn view(&self) -> PoolState {
        PoolState {
            capacity: self.capacity as nat,
            idle: self.idle as nat,
            lent: self.lent as nat,
            waiting: self.waiting@,
            next_ticket: self.next_ticket as nat,
        }
    }
}

impl PoolLedger {
    /// The ledger's invariant. Every ledger that this module hands out
    /// satisfies it.
    pub closed spec fn wf(&self) -> bool {
        pool_wf(self@)
    }

    /// A well-formed ledger stands for a pool within its bounds.
    pub proof fn lemma_within_bound(&self)
        requires
            self.wf(),
        ensures
            pool_wf(self@),
            self@.lent <= self@.capacity,
    {
    }

    /// The ledger of a pool of the given capacity, with no connection yet.
    pub fn new(capacity: usize) -> (ledger: PoolLedger)
        ensures
            ledger.wf(),
            ledger@ == opened(capacity as nat),
    {
        PoolLedger { capacity, idle: 0, lent: 0, waiting: Vec::new(), next_ticket: 0 }
    }

    /// How many connections the pool may hold.
    pub fn capacity(&self) -> (n: usize)
        ensures
            n == self@.capacity,
    {
        self.capacity
    }

    /// How many connections rest in the pool.
    pub fn idle(&self) -> (n: usize)
        ensures
            n == self@.idle,
    {
        self.idle
    }

    /// How many places callers hold.
    pub fn outstanding(&self) -> (n: usize)
        ensures
            n == self@.lent,
    {
        self.lent
    }

    /// How many callers wait.
    pub fn waiting(&self) -> (n: usize)
        ensures
            n == self@.waiting.len(),
    {
        self.waiting.len()
    }

    /// A caller asks for a connection.
    pub fn acquire(&mut self) -> (admission: Admission)
        requires
            old(self).wf(),
        ensures
            final(self).wf(),
            (final(self)@, admission) == acquired(old(self)@),
    {
        proof {
            lemma_step_keeps_pool(self@, PoolEvent::Acquire);
        }
        if self.idle > 0 {
            self.idle = self.idle - 1;
            self.lent = self.lent + 1;
            Admission::Reuse
        } else if self.lent < self.capacity {
            self.lent = self.lent + 1;
            Admission::Open
        } else if self.next_ticket < u64::MAX {
            let ticket: u64 = self.next_ticket;
            self.waiting.push(ticket);
            self.next_ticket = ticket + 1;
            Admission::Wait(ticket)
        } else {
            Admission::Refused
        }
    }

    /// A caller gives its connection back.
    pub fn release(&mut self) -> (handover: Handover)
        requires
            old(self).wf(),
        ensures
            final(self).wf(),
            (final(self)@, handover) == released(old(self)@),
    {
        proof {
            lemma_step_keeps_pool(self@, PoolEvent::Release);
        }
        if self.lent == 0 {
            Handover::Unknown
        } else if self.waiting.len() > 0 {
            let ticket: u64 = self.waiting.remove(0);
            Handover::Pass(ticket)
        } else {
            self.idle = self.idle + 1;
            self.lent = self.lent - 1;
            Handover::Rest
        }
    }

    /// A caller gives its place back without a connection: the one it held
    /// was lost and could not be replaced.
    pub fn forfeit(&mut self) -> (handover: Handover)
        requires
            old(self).wf(),
        ensures
            final(self).wf(),
            (final(self)@, handover) == forfeited(old(self)@),
    {
        proof {
            lemma_step_keeps_pool(self@, PoolEvent::Forfeit);
        }
        if self.lent == 0 {
            Handover::Unknown
        } else if self.waiting.len() > 0 {
            let ticket: u64 = self.waiting.remove(0);
            Handover::Admit(ticket)
        } else {
            self.lent = self.lent - 1;
            Handover::Vacant
        }
    }

    /// The wait under `ticket` ran out. A caller that still waits leaves
    /// the queue and fails with `StorageUnavailable`; one that was served
    /// meanwhile gets `Ok` and keeps what it was given.
    pub fn expire(&mut self, ticket: u64) -> (res: Result<(), RepositoryError>)
        requires
            old(self).wf(),
        ensures
            final(self).wf(),
            (final(self)@, res) == expired(old(self)@, ticket),
    {
        let mut i: usize = 0;
        while i < self.waiting.len()
            invariant
                i <= self.waiting@.len(),
                *self == *old(self),
                self.wf(),
                forall|j: int| 0 <= j < i ==> self.waiting@[j] != ticket,
            decreases self.waiting@.len() - i,
        {
            if self.waiting[i] == ticket {
                proof {
                    lemma_step_keeps_pool(self@, PoolEvent::Expire(ticket));
                }
                let _gone: u64 = self.waiting.remove(i);
                return Err(RepositoryError::StorageUnavailable);
            }
            i += 1;
        }
        Ok(())
    }
}

/// Decides what to do with a connection after its liveness check: a dead
/// connection is never handed to a caller.
pub fn after_check(alive: bool) -> (checkout: Checkout)
    ensures
        checkout == checkout_of(alive),
{
    if alive {
        Checkout::Hand
    } else {
        Checkout::Replace
    }
}

} // verus!
