//! The clocks, and a log of the steps of a measurement in the order in which they are taken.
//! The clocks are read only here, and every function here that takes a step adds that step,
//! and nothing else, to the log it is given; nothing outside this module can add to a log.
use vstd::prelude::*;
use core::time::Duration;
use std::time::{Instant, SystemTime};
use super::{PreparedProgram, Program};

verus! {

/// Reads the monotonic clock with `std::time::Instant::now`. The reading depends on the
/// time, so nothing is claimed of it.
#[verifier::external_body]
fn instant_now() -> Instant {
    Instant::now()
}

/// The time from `start` to `end`, computed by `Instant`'s `-` (`end - start`). The result
/// comes from two clock readings, which are opaque here, so nothing is claimed of it.
#[verifier::external_body]
fn time_between(start: Instant, end: Instant) -> Duration {
    end - start
}

/// Reads the wall clock with `std::time::SystemTime::now`. The reading depends on the time,
/// so nothing is claimed of it.
#[verifier::external_body]
fn system_now() -> SystemTime {
    SystemTime::now()
}

/// One step of a measurement.
pub enum Step<Q> {
    /// The wall clock was read, and gave this time.
    WallClock(SystemTime),
    /// A fresh copy of a program was prepared, in this state.
    Prepared(Q),
    /// The monotonic clock was read, and gave this reading.
    ClockRead(Instant),
    /// One run of the measured work took a prepared copy from the first state to the second.
    Ran(Q, Q),
    /// A prepared copy was cleaned up, from the first state to the second.
    CleanedUp(Q, Q),
    /// The time from the first reading to the second was computed, and came out as this.
    Elapsed(Instant, Instant, Duration),
}

/// The steps taken so far, in order.
pub struct Stopwatch<Q> {
    steps: Ghost<Seq<Step<Q>>>,
}

impl<Q> Stopwatch<Q> {
    /// The steps taken with this stopwatch, in the order in which they were taken.
    pub closed spec fn steps(&self) -> Seq<Step<Q>> {
        self.steps@
    }

    /// A stopwatch with which no step has been taken.
    pub fn new() -> (stopwatch: Self)
        ensures
            stopwatch.steps() == Seq::<Step<Q>>::empty(),
    {
        Stopwatch { steps: Ghost(Seq::empty()) }
    }

    /// Reads the wall clock.
    pub fn read_wall_clock(&mut self) -> (time: SystemTime)
        ensures
            final(self).steps() == old(self).steps().push(Step::WallClock(time)),
    {
        let time = system_now();
        self.steps = Ghost(self.steps@.push(Step::WallClock(time)));
        time
    }

    /// Reads the monotonic clock.
    pub fn read_clock(&mut self) -> (reading: Instant)
        ensures
            final(self).steps() == old(self).steps().push(Step::ClockRead(reading)),
    {
        let reading = instant_now();
        self.steps = Ghost(self.steps@.push(Step::ClockRead(reading)));
        reading
    }

    /// The time from `start` to `end`.
    pub fn elapsed(&mut self, start: Instant, end: Instant) -> (duration: Duration)
        ensures
            final(self).steps() == old(self).steps().push(Step::Elapsed(start, end, duration)),
    {
        let duration = time_between(start, end);
        self.steps = Ghost(self.steps@.push(Step::Elapsed(start, end, duration)));
        duration
    }

}

impl<Q: PreparedProgram> Stopwatch<Q> {
    /// Prepares a fresh copy of `program`.
    pub fn prepare<P: Program<Prepared = Q>>(&mut self, program: &P) -> (prepared: Q)
        ensures
            program.well_formed() ==> prepared.ready(),
            program.prepares(&prepared),
            prepared.runs() == 0,
            final(self).steps() == old(self).steps().push(Step::Prepared(prepared)),
    {
        let prepared = program.prepare();
        self.steps = Ghost(self.steps@.push(Step::Prepared(prepared)));
        prepared
    }

    /// Runs the measured work of `prepared` once.
    pub fn run(&mut self, prepared: &mut Q)
        requires
            old(prepared).ready(),
        ensures
            final(prepared).ready(),
            old(prepared).did_run(&*final(prepared)),
            final(prepared).runs() == old(prepared).runs() + 1,
            final(self).steps() == old(self).steps().push(Step::Ran(*old(prepared), *final(prepared))),
    {
        let ghost before = *prepared;
        prepared.benchmark_this();
        self.steps = Ghost(self.steps@.push(Step::Ran(before, *prepared)));
    }

    /// Cleans `prepared` up.
    pub fn clean_up(&mut self, prepared: &mut Q)
        requires
            old(prepared).ready(),
        ensures
            final(prepared).runs() == old(prepared).runs(),
            final(self).steps() == old(self).steps().push(Step::CleanedUp(*old(prepared), *final(prepared))),
    {
        let ghost before = *prepared;
        prepared.cleanup();
        self.steps = Ghost(self.steps@.push(Step::CleanedUp(before, *prepared)));
    }
}

} // verus!
