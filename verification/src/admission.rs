//! Admission control decisions: whether and when a request enters the inference engine.
//! The semaphore, the wait and its timeout belong to the runtime around the library; the
//! rules that decide each outcome are here.
use vstd::prelude::*;
use crate::text::{decimal, usize_text};

verus! {

/// Why admission failed.
#[derive(Debug, Clone, Copy, PartialEq, Eq, Structural)]
pub enum AdmissionError {
    /// The system is at capacity and the wait queue is full (or the semaphore closed).
    Rejected,
    /// Timed out waiting for admission.
    Timeout,
    /// The requested cost exceeds the total capacity and could never be satisfied.
    CostTooLarge { cost: u32, capacity: usize },
}

/// The display text of an admission failure.
pub open spec fn admission_error_text(e: AdmissionError) -> Seq<char> {
    match e {
        AdmissionError::Rejected => "rejected: system at capacity"@,
        AdmissionError::Timeout => "timed out waiting for admission"@,
        AdmissionError::CostTooLarge { cost, capacity } => "requested cost "@ + decimal(cost as nat)
            + " exceeds total capacity "@ + decimal(capacity as nat),
    }
}

impl AdmissionError {
    /// The failure's display text.
    pub fn message(&self) -> (r: String)
        ensures
            r@ == admission_error_text(*self),
    {
        match self {
            AdmissionError::Rejected => String::from_str("rejected: system at capacity"),
            AdmissionError::Timeout => String::from_str("timed out waiting for admission"),
            AdmissionError::CostTooLarge { cost, capacity } => {
                let mut r = String::from_str("requested cost ");
                let c = usize_text(*cost as usize);
                r.append(c.as_str());
                r.append(" exceeds total capacity ");
                let k = usize_text(*capacity);
                r.append(k.as_str());
                r
            },
        }
    }
}

/// Estimated resource units a request consumes; one unit is one semaphore permit.
#[derive(Debug, Clone, Copy, PartialEq, Eq, Structural)]
pub struct Cost(pub u32);

/// A gatekeeper that always admits: the honest default for the single-user edge build.
#[derive(Debug, Default, Clone, Copy)]
pub struct OpenGatekeeper;

/// The units a request of `cost` reserves: its cost, but at least one.
pub open spec fn units_for(cost: Cost) -> u32 {
    if cost.0 == 0 {
        1
    } else {
        cost.0
    }
}

impl OpenGatekeeper {
    /// The open gatekeeper admits every request, reserving nothing.
    pub fn admit_request(&self, cost: Cost) -> (r: Result<Cost, AdmissionError>)
        ensures
            r == Ok::<Cost, AdmissionError>(cost),
    {
        Ok(cost)
    }
}

/// The first admission check of a bounded gatekeeper: the units to reserve, or
/// `CostTooLarge` when they exceed the total capacity.
pub fn units_to_reserve(cost: Cost, capacity: usize) -> (r: Result<u32, AdmissionError>)
    ensures
        units_for(cost) as int > capacity ==> r == Err::<u32, AdmissionError>(
            AdmissionError::CostTooLarge { cost: units_for(cost), capacity },
        ),
        units_for(cost) as int <= capacity ==> r == Ok::<u32, AdmissionError>(units_for(cost)),
{
    let units = if cost.0 == 0 {
        1
    } else {
        cost.0
    };
    if units as usize > capacity {
        Err(AdmissionError::CostTooLarge { cost: units, capacity })
    } else {
        Ok(units)
    }
}

/// When capacity is not free right now: queue, unless `max_queue_depth` callers already wait.
pub fn may_queue(waiting: usize, max_queue_depth: usize) -> (r: Result<(), AdmissionError>)
    ensures
        waiting >= max_queue_depth ==> r == Err::<(), AdmissionError>(AdmissionError::Rejected),
        waiting < max_queue_depth ==> r == Ok::<(), AdmissionError>(()),
{
    if waiting >= max_queue_depth {
        Err(AdmissionError::Rejected)
    } else {
        Ok(())
    }
}

/// How a queued wait ended.
#[derive(Debug, Clone, Copy, PartialEq, Eq, Structural)]
pub enum WaitOutcome {
    Acquired,
    Closed,
    TimedOut,
}

/// The verdict of a queued wait: admitted, rejected when the semaphore closed, or timed out.
pub fn wait_verdict(outcome: WaitOutcome) -> (r: Result<(), AdmissionError>)
    ensures
        outcome == WaitOutcome::Acquired ==> r == Ok::<(), AdmissionError>(()),
        outcome == WaitOutcome::Closed ==> r == Err::<(), AdmissionError>(AdmissionError::Rejected),
        outcome == WaitOutcome::TimedOut ==> r == Err::<(), AdmissionError>(AdmissionError::Timeout),
{
    match outcome {
        WaitOutcome::Acquired => Ok(()),
        WaitOutcome::Closed => Err(AdmissionError::Rejected),
        WaitOutcome::TimedOut => Err(AdmissionError::Timeout),
    }
}


/// The count of requests waiting for capacity, bounded by the queue depth. A request enters
/// the queue only while fewer than `max_queue_depth` wait, and leaves it on every exit path
/// (admitted, timed out, or cancelled).
#[derive(Debug)]
pub struct WaitQueue {
    waiting: usize,
    max_queue_depth: usize,
}

impl WaitQueue {
    #[verifier::type_invariant]
    spec fn bounded(self) -> bool {
        self.waiting <= self.max_queue_depth
    }

    /// How many requests wait.
    pub closed spec fn count(self) -> nat {
        self.waiting as nat
    }

    /// How many may wait at once.
    pub closed spec fn depth(self) -> nat {
        self.max_queue_depth as nat
    }

    /// An empty queue admitting up to `max_queue_depth` waiters.
    pub fn new(max_queue_depth: usize) -> (q: Self)
        ensures
            q.count() == 0,
            q.depth() == max_queue_depth,
    {
        WaitQueue { waiting: 0, max_queue_depth }
    }

    /// The number of requests currently waiting.
    pub fn waiting(&self) -> (n: usize)
        ensures
            n == self.count(),
    {
        self.waiting
    }

    /// Join the queue, or be `Rejected` when it is full.
    pub fn enter(&mut self) -> (r: Result<(), AdmissionError>)
        ensures
            final(self).depth() == old(self).depth(),
            old(self).count() >= old(self).depth() ==> (r == Err::<(), AdmissionError>(AdmissionError::Rejected)
                && final(self).count() == old(self).count()),
            old(self).count() < old(self).depth() ==> (r == Ok::<(), AdmissionError>(())
                && final(self).count() == old(self).count() + 1),
            final(self).count() <= final(self).depth(),
    {
        proof {
            use_type_invariant(&*self);
        }
        match may_queue(self.waiting, self.max_queue_depth) {
            Ok(()) => {
                self.waiting = self.waiting + 1;
                Ok(())
            },
            Err(e) => Err(e),
        }
    }

    /// Leave the queue.
    pub fn leave(&mut self)
        requires
            old(self).count() > 0,
        ensures
            final(self).depth() == old(self).depth(),
            final(self).count() == old(self).count() - 1,
    {
        proof {
            use_type_invariant(&*self);
        }
        self.waiting = self.waiting - 1;
    }
}

} // verus!
