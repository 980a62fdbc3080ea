//! The benchmark runner: which program runs when, which iterations are kept, and how one
//! run of a program is measured.
use vstd::prelude::*;
use core::time::Duration;
use std::time::{Instant, SystemTime};
use self::clock::{Step, Stopwatch};
use self::schedule::{head_at, lemma_head_advances, lemma_wrapped_position, scheduled_program};

pub mod clock;
pub mod timing;
pub mod schedule;
pub mod simple;

verus! {

/// std's monotonic clock reading, carried as an opaque value.
#[verifier::external_type_specification]
#[verifier::external_body]
pub struct ExInstant(Instant);

/// std's wall-clock time, carried as an opaque value.
#[verifier::external_type_specification]
#[verifier::external_body]
pub struct ExSystemTime(SystemTime);

/// `Duration` is `Copy`, and its `Clone` (derived in std) returns the value itself.
pub assume_specification[ <Duration as Clone>::clone ](duration: &Duration) -> (copy: Duration)
    ensures
        copy == *duration,
;

/// `SystemTime` is `Copy`, and its `Clone` (derived in std) returns the value itself.
pub assume_specification[ <SystemTime as Clone>::clone ](time: &SystemTime) -> (copy: SystemTime)
    ensures
        copy == *time,
;

/// A program as it has been prepared for one measured run.
pub trait PreparedProgram {
    /// The prepared program can be run (and cleaned up) now.
    spec fn ready(&self) -> bool;

    /// How many times the measured work has run on this prepared copy.
    spec fn runs(&self) -> nat;

    /// `after` is a state that one run of the measured work can leave `self` in.
    spec fn did_run(&self, after: &Self) -> bool;

    /// The work that is measured; each call is one more run.
    fn benchmark_this(&mut self)
        requires
            old(self).ready(),
        ensures
            final(self).ready(),
            old(self).did_run(&*final(self)),
            final(self).runs() == old(self).runs() + 1,
    ;

    /// Work done after the measurement, such as dropping what the run used; it runs nothing.
    fn cleanup(&mut self)
        requires
            old(self).ready(),
        ensures
            final(self).runs() == old(self).runs(),
    ;
}

/// A program that the harness can run again and again. An implementation's `name` returns
/// the name that `spec_name` describes, every time it is called.
pub trait Program {
    type Prepared: PreparedProgram;

    /// The name under which the runs of this program are recorded.
    spec fn spec_name(&self) -> Seq<char>;

    /// A copy that `prepare` makes of this program can be run.
    spec fn well_formed(&self) -> bool;

    /// `prepared` is a fresh copy of this program, as `prepare` makes one.
    spec fn prepares(&self, prepared: &Self::Prepared) -> bool;

    fn name(&self) -> (name: String)
        ensures
            name@ == self.spec_name(),
    ;

    /// A fresh copy of the program, which has not run yet; it is ready to run when the
    /// program is well formed.
    fn prepare(&self) -> (prepared: Self::Prepared)
        ensures
            self.well_formed() ==> prepared.ready(),
            self.prepares(&prepared),
            prepared.runs() == 0,
    ;
}

/// What a benchmark is made of.
pub struct Args<P> {
    pub programs: Vec<P>,
    pub iterations: usize,
    /// The number of leading iterations that are run but not reported.
    pub discard_leading: Option<usize>,
    /// A pause after every iteration.
    pub pause: Option<Duration>,
}

/// The reported iterations, in the order in which they ran.
#[derive(Clone, Debug)]
pub struct BenchmarkResult {
    pub iterations: Vec<Iteration>,
}

/// One iteration: every program ran once.
#[derive(Clone, Debug)]
pub struct Iteration {
    pub i: usize,
    pub started_at: SystemTime,
    pub runs: Vec<Run>,
}

/// One measured run of one program.
#[derive(Clone, Debug)]
pub struct Run {
    pub program: String,
    pub duration: Duration,
}

/// Iteration `iteration` is reported unless it is one of the `discard_leading` first ones.
pub open spec fn is_reported(iteration: nat, discard_leading: Option<usize>) -> bool {
    match discard_leading {
        Some(value) => iteration >= value,
        None => true,
    }
}

/// The first iteration that is reported (if there are that many).
pub open spec fn first_reported(discard_leading: Option<usize>) -> nat {
    match discard_leading {
        Some(value) => value as nat,
        None => 0,
    }
}

/// How many of the first `n` iterations are reported.
pub open spec fn reported_count(n: nat, discard_leading: Option<usize>) -> nat {
    if n > first_reported(discard_leading) {
        (n - first_reported(discard_leading)) as nat
    } else {
        0
    }
}

/// `fresh` is a copy of `program` as `prepare` makes it, before any run, and `measured` is
/// what exactly one run of the measured work left of it.
pub open spec fn measured_once<P: Program>(program: P, fresh: P::Prepared, measured: P::Prepared) -> bool {
    &&& program.prepares(&fresh)
    &&& fresh.runs() == 0
    &&& fresh.did_run(&measured)
    &&& measured.runs() == 1
}

/// `iteration` records one run for each of `programs`, under the program's name, in the
/// rotated order of its index.
pub open spec fn follows_schedule<P: Program>(iteration: Iteration, programs: Seq<P>) -> bool {
    &&& iteration.runs.len() == programs.len()
    &&& forall|p: int|
        0 <= p < programs.len() ==> (#[trigger] iteration.runs[p]).program@ == programs[scheduled_program(
            programs.len(),
            iteration.i as nat,
            p as nat,
        ) as int].spec_name()
}

/// The fresh copy that the measurement logged in `steps` prepared.
pub open spec fn fresh_copy<Q>(steps: Seq<Step<Q>>) -> Q {
    steps[0]->Prepared_0
}

/// What the measured run logged in `steps` left of the copy.
pub open spec fn measured_copy<Q>(steps: Seq<Step<Q>>) -> Q {
    steps[2]->Ran_1
}

/// `steps` is one measurement of `program`, recorded as `run`: a fresh copy was prepared,
/// then the clock was read, then the copy's work ran once, then the clock was read again,
/// then the copy was cleaned up; the run's duration is the time between exactly those two
/// readings, and the run is recorded under the program's name.
pub open spec fn one_measurement<P: Program>(program: P, steps: Seq<Step<P::Prepared>>, run: Run) -> bool {
    &&& steps.len() == 6
    &&& steps[0] is Prepared
    &&& steps[1] is ClockRead
    &&& steps[2] is Ran
    &&& steps[3] is ClockRead
    &&& steps[4] is CleanedUp
    &&& measured_once(program, fresh_copy(steps), measured_copy(steps))
    &&& steps[2]->Ran_0 == fresh_copy(steps)
    &&& steps[4]->CleanedUp_0 == measured_copy(steps)
    &&& steps[5] == Step::<P::Prepared>::Elapsed(
        steps[1]->ClockRead_0,
        steps[3]->ClockRead_0,
        run.duration,
    )
    &&& run.program@ == program.spec_name()
}

/// The steps of the measurement at position `p` in the log of an iteration.
pub open spec fn segment<Q>(steps: Seq<Step<Q>>, p: int) -> Seq<Step<Q>> {
    steps.subrange(1 + 6 * p, 7 + 6 * p)
}

/// `steps` is the log of iteration `iteration` over `programs`, recorded with start time
/// `started_at` and runs `runs`: the wall clock was read first, giving `started_at`, and
/// then every position in turn measured the program scheduled there, once, and recorded it
/// as its run.
pub open spec fn iteration_log<P: Program>(
    iteration: nat,
    programs: Seq<P>,
    steps: Seq<Step<P::Prepared>>,
    started_at: SystemTime,
    runs: Seq<Run>,
) -> bool {
    &&& steps.len() == 1 + 6 * programs.len()
    &&& steps[0] == Step::<P::Prepared>::WallClock(started_at)
    &&& runs.len() == programs.len()
    &&& forall|p: int|
        0 <= p < programs.len() ==> one_measurement(
            programs[scheduled_program(programs.len(), iteration, p as nat) as int],
            #[trigger] segment(steps, p),
            runs[p],
        )
}

/// `measured` holds, for every position of iteration `iteration`, the fresh copy of the
/// program scheduled there and what one measured run left of it.
pub open spec fn measured_as_scheduled<P: Program>(
    iteration: nat,
    programs: Seq<P>,
    measured: Seq<(P::Prepared, P::Prepared)>,
) -> bool {
    &&& measured.len() == programs.len()
    &&& forall|p: int|
        0 <= p < programs.len() ==> measured_once(
            programs[scheduled_program(programs.len(), iteration, p as nat) as int],
            (#[trigger] measured[p]).0,
            measured[p].1,
        )
}

/// The fresh and the measured copy of every position of an iteration's log.
pub open spec fn measured_pairs<Q>(steps: Seq<Step<Q>>, n: nat) -> Seq<(Q, Q)> {
    Seq::new(n, |p: int| (fresh_copy(segment(steps, p)), measured_copy(segment(steps, p))))
}

/// `result` holds exactly the reported ones among the first `n` iterations over `programs`,
/// in order, each run in its rotated order.
pub open spec fn records_exactly<P: Program>(
    result: BenchmarkResult,
    n: nat,
    discard_leading: Option<usize>,
    programs: Seq<P>,
) -> bool {
    &&& result.iterations.len() == reported_count(n, discard_leading)
    &&& forall|k: int|
        0 <= k < result.iterations.len() ==> {
            &&& (#[trigger] result.iterations[k]).i == first_reported(discard_leading) + k
            &&& follows_schedule(result.iterations[k], programs)
        }
}

pub fn should_report_iteration<P>(iteration: usize, args: &Args<P>) -> (reported: bool)
    ensures
        reported == is_reported(iteration as nat, args.discard_leading),
{
    match args.discard_leading {
        Some(value) => iteration >= value,
        None => true,
    }
}

/// Takes the steps of one measurement of `program` with `stopwatch`: prepares a fresh copy,
/// reads the clock, runs the copy's work once, reads the clock again, cleans the copy up, and
/// records the run under the program's name with the time between the two readings.
fn measure<P: Program>(stopwatch: &mut Stopwatch<P::Prepared>, program: &P) -> (run: Run)
    requires
        program.well_formed(),
    ensures
        final(stopwatch).steps().len() == old(stopwatch).steps().len() + 6,
        final(stopwatch).steps().subrange(0, old(stopwatch).steps().len() as int) == old(
            stopwatch,
        ).steps(),
        one_measurement(
            *program,
            final(stopwatch).steps().subrange(
                old(stopwatch).steps().len() as int,
                (old(stopwatch).steps().len() + 6) as int,
            ),
            run,
        ),
{
    let ghost before = stopwatch.steps();
    let mut prepared = stopwatch.prepare(program);
    let start = stopwatch.read_clock();
    stopwatch.run(&mut prepared);
    let end = stopwatch.read_clock();
    stopwatch.clean_up(&mut prepared);
    let duration = stopwatch.elapsed(start, end);
    let run = Run { program: program.name(), duration };
    proof {
        let steps = stopwatch.steps().subrange(before.len() as int, (before.len() + 6) as int);
        assert(steps[0] == stopwatch.steps()[before.len() as int]);
        assert(stopwatch.steps().subrange(0, before.len() as int) =~= before);
    }
    run
}

/// Prepares `program`, measures one run of it, cleans up after the measurement, and records
/// the run under the program's name. Beside the record it gives back the log of the steps it
/// took, in order: the duration is the time between the two clock readings that come right
/// before and right after the one run, after the copy was prepared and before it was cleaned
/// up.
pub fn run_once<P: Program>(program: &P) -> (result: (Run, Stopwatch<P::Prepared>))
    requires
        program.well_formed(),
    ensures
        result.0.program@ == program.spec_name(),
        one_measurement(*program, result.1.steps(), result.0),
        measured_once(*program, fresh_copy(result.1.steps()), measured_copy(result.1.steps())),
{
    let mut stopwatch = Stopwatch::new();
    let run = measure(&mut stopwatch, program);
    proof {
        assert(stopwatch.steps().subrange(0, 6) =~= stopwatch.steps());
    }
    (run, stopwatch)
}

/// A benchmark in progress: how many iterations have run, where the rotation stands, and
/// what has been reported so far.
pub struct BenchmarkState {
    result: BenchmarkResult,
    head: usize,
    next: usize,
    iterations: usize,
    radix: usize,
    discard_leading: Option<usize>,
}

impl BenchmarkState {
    /// The number of iterations that have run.
    pub closed spec fn completed(&self) -> nat {
        self.next as nat
    }

    /// The number of iterations that the benchmark runs.
    pub closed spec fn total(&self) -> nat {
        self.iterations as nat
    }

    /// The program that runs first in the next iteration.
    pub closed spec fn head(&self) -> nat {
        self.head as nat
    }

    /// What has been reported so far.
    pub closed spec fn reported(&self) -> BenchmarkResult {
        self.result
    }

    /// The state belongs to a benchmark run with `args`, and its record is exact.
    pub closed spec fn belongs_to<P: Program>(&self, args: &Args<P>) -> bool {
        &&& self.iterations == args.iterations
        &&& self.radix == args.programs.len()
        &&& self.discard_leading == args.discard_leading
        &&& self.next <= self.iterations
        &&& self.radix > 0 ==> self.head == head_at(self.radix as nat, self.next as nat)
        &&& self.radix == 0 ==> self.head == 0
        &&& records_exactly(self.result, self.next as nat, self.discard_leading, args.programs@)
    }

    /// The rotation's head always stands at the number of completed iterations, modulo the
    /// number of programs.
    pub proof fn lemma_head_follows_iterations<P: Program>(&self, args: &Args<P>)
        requires
            self.belongs_to(args),
            args.programs.len() > 0,
        ensures
            self.head() == head_at(args.programs.len() as nat, self.completed()),
    {
    }

    /// What a benchmark has reported so far is exactly its reported iterations among those
    /// that have run, in the order in which they ran, each one's runs in rotated order; once
    /// the benchmark is done, that is every iteration from the first reported one on.
    pub proof fn lemma_report_is_exact<P: Program>(&self, args: &Args<P>)
        requires
            self.belongs_to(args),
        ensures
            self.completed() <= args.iterations,
            self.total() == args.iterations,
            records_exactly(self.reported(), self.completed(), args.discard_leading, args.programs@),
    {
    }

    /// A benchmark with `args` before its first iteration.
    pub fn new<P: Program>(args: &Args<P>) -> (state: Self)
        ensures
            state.belongs_to(args),
            state.total() == args.iterations,
            state.completed() == 0,
            state.head() == 0,
            state.reported().iterations.len() == 0,
    {
        let state = BenchmarkState {
            result: BenchmarkResult { iterations: Vec::new() },
            head: 0,
            next: 0,
            iterations: args.iterations,
            radix: args.programs.len(),
            discard_leading: args.discard_leading,
        };
        proof {
            if args.programs.len() > 0 {
                vstd::arithmetic::div_mod::lemma_small_mod(0, args.programs.len() as nat);
            }
        }
        state
    }

    /// All iterations have run.
    pub fn is_done(&self) -> (done: bool)
        ensures
            done == (self.completed() == self.total()),
    {
        self.next == self.iterations
    }

    /// The index of the next iteration.
    pub fn next_iteration(&self) -> (i: usize)
        ensures
            i == self.completed(),
    {
        self.next
    }

    /// Runs the next iteration: starts its clock, runs every program once from the head of
    /// the rotation on, moves the head on by one, and keeps the iteration if it is reported.
    /// Returns whether it was reported, and, position by position, the fresh copy of the
    /// program that ran there and what its one measured run left of it.
    pub fn run_next_iteration<P: Program>(&mut self, args: &Args<P>) -> (result: (
        bool,
        Stopwatch<P::Prepared>,
    ))
        requires
            old(self).belongs_to(args),
            old(self).completed() < args.iterations,
            args.programs.len() > 0,
            forall|k: int| 0 <= k < args.programs.len() ==> (#[trigger] args.programs[k]).well_formed(),
        ensures
            final(self).belongs_to(args),
            final(self).total() == old(self).total(),
            final(self).completed() == old(self).completed() + 1,
            final(self).head() == (old(self).head() + 1) % (args.programs.len() as nat),
            result.0 == is_reported(old(self).completed(), args.discard_leading),
            measured_as_scheduled(
                old(self).completed(),
                args.programs@,
                measured_pairs(result.1.steps(), args.programs.len() as nat),
            ),
            !result.0 ==> final(self).reported() == old(self).reported(),
            !result.0 ==> exists|t: SystemTime, r: Seq<Run>|
                #[trigger] iteration_log(old(self).completed(), args.programs@, result.1.steps(), t, r),
            result.0 ==> {
                &&& final(self).reported().iterations.len() == old(self).reported().iterations.len() + 1
                &&& final(self).reported().iterations@.drop_last() == old(self).reported().iterations@
                &&& final(self).reported().iterations@.last().i == old(self).completed()
                &&& follows_schedule(final(self).reported().iterations@.last(), args.programs@)
                &&& iteration_log(
                    old(self).completed(),
                    args.programs@,
                    result.1.steps(),
                    final(self).reported().iterations@.last().started_at,
                    final(self).reported().iterations@.last().runs@,
                )
            },
    {
        let radix = args.programs.len();
        let i = self.next;
        let mut stopwatch: Stopwatch<P::Prepared> = Stopwatch::new();
        let started_at = stopwatch.read_wall_clock();
        let mut iteration = Iteration { i, started_at, runs: Vec::new() };
        proof {
            lemma_head_advances(radix as nat, i as nat);
        }
        for p in 0..radix
            invariant
                radix == args.programs.len(),
                radix > 0,
                self.head == head_at(radix as nat, i as nat),
                self.head < radix,
                iteration.i == i,
                iteration.started_at == started_at,
                iteration.runs.len() == p,
                stopwatch.steps().len() == 1 + 6 * p,
                stopwatch.steps()[0] == Step::<P::Prepared>::WallClock(started_at),
                forall|k: int| 0 <= k < radix ==> (#[trigger] args.programs[k]).well_formed(),
                forall|q: int|
                    0 <= q < p ==> (#[trigger] iteration.runs[q]).program@ == args.programs[scheduled_program(
                        radix as nat,
                        i as nat,
                        q as nat,
                    ) as int].spec_name(),
                forall|q: int|
                    0 <= q < p ==> one_measurement(
                        args.programs[scheduled_program(radix as nat, i as nat, q as nat) as int],
                        #[trigger] segment(stopwatch.steps(), q),
                        iteration.runs[q],
                    ),
        {
            proof {
                lemma_wrapped_position(radix as nat, i as nat, p as nat);
            }
            let k = if p < radix - self.head {
                self.head + p
            } else {
                p - (radix - self.head)
            };
            let ghost before = stopwatch.steps();
            let run = measure(&mut stopwatch, &args.programs[k]);
            iteration.runs.push(run);
            proof {
                let after = stopwatch.steps();
                assert forall|q: int| 0 <= q < p implies #[trigger] segment(after, q) == segment(before, q) by {
                    assert(segment(after, q) =~= after.subrange(0, before.len() as int).subrange(1 + 6 * q, 7 + 6 * q));
                }
                assert(segment(after, p as int) =~= after.subrange(before.len() as int, (before.len() + 6) as int));
                assert(after[0] == after.subrange(0, before.len() as int)[0]);
            }
        }
        self.head = (self.head + 1) % radix;
        self.next = i + 1;

        let reported = should_report_iteration(i, args);
        let ghost runs = iteration.runs@;
        proof {
            let steps = stopwatch.steps();
            assert(iteration_log(i as nat, args.programs@, steps, started_at, runs));
            assert(measured_as_scheduled(i as nat, args.programs@, measured_pairs(steps, radix as nat)));
        }
        if reported {
            self.result.iterations.push(iteration);
        }
        let result = (reported, stopwatch);
        proof {
            assert(iteration_log(old(self).completed(), args.programs@, result.1.steps(), started_at, runs));
        }
        result
    }

    /// Everything that was reported, once the benchmark is over.
    pub fn into_result(self) -> (result: BenchmarkResult)
        ensures
            result == self.reported(),
    {
        self.result
    }
}

} // verus!
