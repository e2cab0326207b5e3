//! The time that a piece of work may take, and what the clock said of it.

use vstd::prelude::*;

verus! {

/// A moment of std's monotonic clock; opaque.
#[verifier::external_type_specification]
#[verifier::external_body]
pub struct ExInstant(std::time::Instant);

/// `std::time::Instant::now` reads the clock; nothing is claimed of what it reads.
pub assume_specification[ std::time::Instant::now ]() -> std::time::Instant;

/// `Instant::elapsed`, in nanoseconds. It rests on the clock, so nothing is claimed of it.
#[verifier::external_body]
fn nanos_since(start: &std::time::Instant) -> u128 {
    start.elapsed().as_nanos()
}

/// An amount of time that runs from a moment on, in nanoseconds, with every reading that was taken
/// of the clock since. What the clock reads is not known beforehand; that it was read, and what
/// it read, is.
pub struct TimeBudget {
    started_at: std::time::Instant,
    budget: u128,
    readings: Ghost<Seq<u128>>,
}

/// Whether the time has run out at a reading of the clock.
pub fn is_spent(elapsed: u128, budget: u128) -> (r: bool)
    ensures
        r == (elapsed >= budget),
{
    elapsed >= budget
}

impl TimeBudget {
    pub closed spec fn budget(self) -> u128 {
        self.budget
    }

    pub closed spec fn readings(self) -> Seq<u128> {
        self.readings@
    }

    /// The time begins to run.
    pub fn start(budget: u128) -> (r: TimeBudget)
        ensures
            r.budget() == budget,
            r.readings() == Seq::<u128>::empty(),
    {
        TimeBudget { started_at: std::time::Instant::now(), budget, readings: Ghost(Seq::empty()) }
    }

    pub fn amount(&self) -> (r: u128)
        ensures
            r == self.budget(),
    {
        self.budget
    }

    /// Reads the clock.
    pub fn elapsed(&mut self) -> (r: u128)
        ensures
            final(self).budget() == old(self).budget(),
            final(self).readings() == old(self).readings().push(r),
    {
        let elapsed = nanos_since(&self.started_at);
        self.readings = Ghost(self.readings@.push(elapsed));
        elapsed
    }
}

/// The clock was read on: the time is the same, and the readings of before are still there.
pub open spec fn runs_on(before: TimeBudget, after: TimeBudget) -> bool {
    &&& after.budget() == before.budget()
    &&& before.readings().len() <= after.readings().len()
    &&& after.readings().take(before.readings().len() as int) == before.readings()
}

/// What the clock read from one moment to another.
pub open spec fn read_since(before: TimeBudget, after: TimeBudget) -> Seq<u128> {
    after.readings().skip(before.readings().len() as int)
}

/// One reading more.
pub proof fn lemma_read_on(first: TimeBudget, before: TimeBudget, after: TimeBudget, r: u128)
    requires
        runs_on(first, before),
        after.budget() == before.budget(),
        after.readings() == before.readings().push(r),
    ensures
        runs_on(first, after),
        read_since(first, after) == read_since(first, before).push(r),
{
    assert(after.readings().take(first.readings().len() as int) =~= before.readings().take(
        first.readings().len() as int,
    ));
    assert(read_since(first, after) =~= read_since(first, before).push(r));
}

} // verus!
