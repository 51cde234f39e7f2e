//! The change bus: one producer's ordered event log, fanned out to any
//! number of independent subscribers. Each subscriber owns a cursor into the
//! log; a subscriber that trails more than the backlog bound behind the head
//! is told it lagged instead of being fed stale or gapped data.

use vstd::prelude::*;
use crate::codec::FileChange;

verus! {

/// Backlog bound: how many unconsumed events a subscriber may trail behind
/// the head of the log before it is cut off.
pub const BACKLOG_CAPACITY: usize = 1000;

/// What one receive attempt yields for a subscriber.
pub enum RecvOutcome {
    /// The next event, in production order.
    Event(FileChange),
    /// Nothing pending: the subscriber has consumed the whole log.
    Empty,
    /// The subscriber trailed more than the backlog bound behind the head
    /// of the log and can no longer be fed contiguous data.
    Lagged,
    /// The producer is gone; no further event will ever arrive.
    Closed,
}

/// The fan-out model: the ordered log of every event produced so far, and
/// the backlog bound subscribers are held to.
pub struct ChangeBus {
    log: Vec<FileChange>,
    capacity: usize,
}

/// One subscriber's position: the index into the bus's log of the next
/// event it has not consumed yet.
pub struct Subscription {
    next: usize,
}

impl View for ChangeBus {
    type V = Seq<FileChange>;

    closed spec fn view(&self) -> Seq<FileChange> {
        self.log@
    }
}

impl View for Subscription {
    type V = int;

    closed spec fn view(&self) -> int {
        self.next as int
    }
}

/// Whether a subscriber whose cursor stands at `next` has fallen beyond the
/// backlog bound of a log of length `log_len`.
pub open spec fn spec_lagged(log_len: int, next: int, capacity: int) -> bool {
    log_len - next > capacity
}

/// The outcome of one receive attempt, and the cursor it leaves behind: a
/// lagged subscriber is told so and consumes nothing; otherwise the next
/// unconsumed event, if any, is handed out in production order.
pub open spec fn spec_recv(log: Seq<FileChange>, next: int, capacity: int) -> (RecvOutcome, int) {
    if spec_lagged(log.len() as int, next, capacity) {
        (RecvOutcome::Lagged, next)
    } else if next < log.len() {
        (RecvOutcome::Event(log[next]), next + 1)
    } else {
        (RecvOutcome::Empty, next)
    }
}

impl ChangeBus {
    /// The backlog bound this bus was made with.
    pub closed spec fn spec_capacity(&self) -> usize {
        self.capacity
    }

    /// A fresh bus with the given backlog bound: nothing produced yet.
    pub fn new(capacity: usize) -> (bus: Self)
        ensures
            bus@ == Seq::<FileChange>::empty(),
            bus.spec_capacity() == capacity,
    {
        ChangeBus { log: Vec::new(), capacity }
    }

    /// How many events have been produced so far.
    pub fn len(&self) -> (n: usize)
        ensures
            n == self@.len(),
    {
        self.log.len()
    }

    /// Produces one event: it is appended to the log, after everything
    /// produced before it, and will reach every subscriber that keeps up.
    pub fn publish(&mut self, event: FileChange)
        ensures
            final(self)@ == old(self)@.push(event),
            final(self).spec_capacity() == old(self).spec_capacity(),
    {
        self.log.push(event);
    }

    /// A new subscription: its cursor stands at the head of the log, so it
    /// will see exactly the events produced strictly after this call.
    pub fn subscribe(&self) -> (sub: Subscription)
        ensures
            sub@ == self@.len(),
    {
        Subscription { next: self.log.len() }
    }

    /// One receive attempt for `sub`, per `spec_recv`: `Lagged` (consuming
    /// nothing) when the subscriber fell beyond the backlog bound, the next
    /// event in production order when one is pending, `Empty` otherwise.
    pub fn recv(&self, sub: &mut Subscription) -> (outcome: RecvOutcome)
        ensures
            (outcome, final(sub)@) == spec_recv(self@, old(sub)@, self.spec_capacity() as int),
    {
        let len: usize = self.log.len();
        if len > self.capacity && sub.next < len - self.capacity {
            RecvOutcome::Lagged
        } else if sub.next < len {
            let event: FileChange = self.log[sub.next].clone();
            proof {
                assert(event == self@[sub.next as int]);
            }
            sub.next = sub.next + 1;
            RecvOutcome::Event(event)
        } else {
            RecvOutcome::Empty
        }
    }

    /// Consumes every pending event for a subscriber that has not lagged:
    /// exactly the suffix of the log from its cursor on, in production
    /// order, leaving the cursor at the head.
    pub fn drain(&self, sub: &mut Subscription) -> (events: Vec<FileChange>)
        requires
            0 <= old(sub)@ <= self@.len(),
            !spec_lagged(self@.len() as int, old(sub)@, self.spec_capacity() as int),
        ensures
            events@ == self@.skip(old(sub)@),
            final(sub)@ == self@.len(),
    {
        let mut events: Vec<FileChange> = Vec::new();
        proof {
            assert(events@ =~= self@.subrange(old(sub)@, sub@));
        }
        while sub.next < self.log.len()
            invariant
                old(sub)@ <= sub@ <= self@.len(),
                events@ == self@.subrange(old(sub)@, sub@),
                !spec_lagged(self@.len() as int, sub@, self.spec_capacity() as int),
            decreases self@.len() - sub@,
        {
            let ghost prev = sub@;
            let outcome: RecvOutcome = self.recv(sub);
            match outcome {
                RecvOutcome::Event(event) => {
                    proof {
                        assert(events@.push(self@[prev]) =~= self@.subrange(old(sub)@, sub@));
                    }
                    events.push(event);
                },
                RecvOutcome::Empty => {
                    proof {
                        assert(false);
                    }
                },
                RecvOutcome::Lagged => {
                    proof {
                        assert(false);
                    }
                },
                RecvOutcome::Closed => {
                    proof {
                        assert(false);
                    }
                },
            }
        }
        proof {
            assert(self@.subrange(old(sub)@, self@.len() as int) =~= self@.skip(old(sub)@));
        }
        events
    }
}

/// The stream a subscriber sees from its own session: first its own
/// full-content seed, then the events of the log from its connect index on,
/// in production order.
pub open spec fn spec_session_stream(
    seed: FileChange,
    log: Seq<FileChange>,
    connect: int,
) -> Seq<FileChange> {
    seq![seed] + log.skip(connect)
}

/// Fan-out ordering law: a subscriber that connected when `connect` events
/// had already been produced receives, in order, its own seed first and
/// then exactly the events produced strictly after its connection — never
/// one produced before it.
pub proof fn lemma_session_stream_order(seed: FileChange, log: Seq<FileChange>, connect: int)
    requires
        0 <= connect <= log.len(),
    ensures
        spec_session_stream(seed, log, connect).len() == 1 + log.len() - connect,
        spec_session_stream(seed, log, connect)[0] == seed,
        forall|t: int|
            1 <= t < spec_session_stream(seed, log, connect).len()
                ==> spec_session_stream(seed, log, connect)[t] == log[connect + t - 1],
{
}

} // verus!
