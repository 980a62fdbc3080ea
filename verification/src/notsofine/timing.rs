//! What a measurement's log says about what was timed, and what an iteration's log says
//! about which program ran where and when.
use vstd::prelude::*;
use std::time::SystemTime;
use super::clock::Step;
use super::schedule::{lemma_every_program_runs_once_per_iteration, position_of, scheduled_program};
use super::{iteration_log, one_measurement, segment, Program, Run};

verus! {

/// In one measurement, the clock is read exactly twice; the copy is prepared before the first
/// reading and cleaned up after the second; between the two readings there is one step only,
/// and it is the one run of the copy's work, of a copy that the program prepared; and the
/// recorded duration is the time between exactly those two readings.
pub proof fn lemma_only_the_run_is_timed<P: Program>(
    program: P,
    steps: Seq<Step<P::Prepared>>,
    run: Run,
)
    requires
        one_measurement(program, steps, run),
    ensures
        forall|k: int| 0 <= k < steps.len() && #[trigger] steps[k] is ClockRead ==> k == 1 || k == 3,
        forall|k: int| 0 <= k < steps.len() && #[trigger] steps[k] is Ran ==> 1 < k < 3,
        forall|k: int| 0 <= k < steps.len() && #[trigger] steps[k] is Prepared ==> k < 1,
        forall|k: int| 0 <= k < steps.len() && #[trigger] steps[k] is CleanedUp ==> k > 3,
        steps[2] is Ran && program.prepares(&steps[2]->Ran_0),
        steps.last() == Step::<P::Prepared>::Elapsed(
            steps[1]->ClockRead_0,
            steps[3]->ClockRead_0,
            run.duration,
        ),
{
    assert forall|k: int| 0 <= k < steps.len() && #[trigger] steps[k] is ClockRead implies k == 1 || k
        == 3 by {
        assert(k == 0 || k == 1 || k == 2 || k == 3 || k == 4 || k == 5);
    }
    assert forall|k: int| 0 <= k < steps.len() && #[trigger] steps[k] is Ran implies 1 < k < 3 by {
        assert(k == 0 || k == 1 || k == 2 || k == 3 || k == 4 || k == 5);
    }
    assert forall|k: int| 0 <= k < steps.len() && #[trigger] steps[k] is Prepared implies k < 1 by {
        assert(k == 0 || k == 1 || k == 2 || k == 3 || k == 4 || k == 5);
    }
    assert forall|k: int| 0 <= k < steps.len() && #[trigger] steps[k] is CleanedUp implies k > 3 by {
        assert(k == 0 || k == 1 || k == 2 || k == 3 || k == 4 || k == 5);
    }
}

/// Within an iteration's log, position `p`'s steps are at indices `1 + 6 * p` to `6 + 6 * p`.
proof fn lemma_segment_index<Q>(steps: Seq<Step<Q>>, n: nat, p: int, r: int)
    requires
        steps.len() == 1 + 6 * n,
        0 <= p < n,
        0 <= r < 6,
    ensures
        segment(steps, p)[r] == steps[1 + 6 * p + r],
{
}

/// In an iteration over `programs`, the recorded run at every position `p` has the duration
/// of the time between the two clock readings around that position's one run, which is a run
/// of a copy of the program scheduled at `p`; the only step between those two readings is that
/// run. So no recorded duration takes in the run of another program.
pub proof fn lemma_each_run_times_only_its_own_program<P: Program>(
    iteration: nat,
    programs: Seq<P>,
    steps: Seq<Step<P::Prepared>>,
    started_at: SystemTime,
    runs: Seq<Run>,
)
    requires
        iteration_log(iteration, programs, steps, started_at, runs),
    ensures
        forall|p: int|
            0 <= p < programs.len() ==> {
                &&& #[trigger] steps[2 + 6 * p] is ClockRead
                &&& steps[3 + 6 * p] is Ran
                &&& steps[4 + 6 * p] is ClockRead
                &&& programs[scheduled_program(programs.len(), iteration, p as nat) as int].prepares(
                    &steps[3 + 6 * p]->Ran_0,
                )
                &&& steps[6 + 6 * p] == Step::<P::Prepared>::Elapsed(
                    steps[2 + 6 * p]->ClockRead_0,
                    steps[4 + 6 * p]->ClockRead_0,
                    runs[p].duration,
                )
                &&& runs[p].program@ == programs[scheduled_program(
                    programs.len(),
                    iteration,
                    p as nat,
                ) as int].spec_name()
            },
{
    let n = programs.len();
    assert forall|p: int| 0 <= p < n implies {
        &&& #[trigger] steps[2 + 6 * p] is ClockRead
        &&& steps[3 + 6 * p] is Ran
        &&& steps[4 + 6 * p] is ClockRead
        &&& programs[scheduled_program(n, iteration, p as nat) as int].prepares(
            &steps[3 + 6 * p]->Ran_0,
        )
        &&& steps[6 + 6 * p] == Step::<P::Prepared>::Elapsed(
            steps[2 + 6 * p]->ClockRead_0,
            steps[4 + 6 * p]->ClockRead_0,
            runs[p].duration,
        )
        &&& runs[p].program@ == programs[scheduled_program(n, iteration, p as nat) as int].spec_name()
    } by {
        let seg = segment(steps, p);
        assert(one_measurement(programs[scheduled_program(n, iteration, p as nat) as int], seg, runs[p]));
        lemma_segment_index(steps, n, p, 1);
        lemma_segment_index(steps, n, p, 2);
        lemma_segment_index(steps, n, p, 3);
        lemma_segment_index(steps, n, p, 5);
    }
}

/// An iteration's start time is the one wall-clock reading of its log, taken first, before
/// any program runs; and over the iteration the work of every program runs exactly once: the
/// log's runs are the middle steps of the positions, one per position, and the run at the
/// position where program `k` is scheduled is a run of a copy of program `k`.
pub proof fn lemma_iteration_starts_first_and_runs_each_program_once<P: Program>(
    iteration: nat,
    programs: Seq<P>,
    steps: Seq<Step<P::Prepared>>,
    started_at: SystemTime,
    runs: Seq<Run>,
)
    requires
        programs.len() > 0,
        iteration_log(iteration, programs, steps, started_at, runs),
    ensures
        steps[0] == Step::<P::Prepared>::WallClock(started_at),
        forall|j: int| 0 < j < steps.len() ==> !(#[trigger] steps[j] is WallClock),
        forall|j: int|
            0 <= j < steps.len() && #[trigger] steps[j] is Ran ==> j % 6 == 3,
        forall|k: int|
            0 <= k < programs.len() ==> {
                &&& #[trigger] position_of(programs.len(), iteration, k as nat) < programs.len()
                &&& steps[(3 + 6 * position_of(programs.len(), iteration, k as nat)) as int] is Ran
                &&& programs[k].prepares(
                    &steps[(3 + 6 * position_of(programs.len(), iteration, k as nat)) as int]->Ran_0,
                )
            },
{
    let n = programs.len();
    assert forall|j: int| 0 < j < steps.len() implies !(#[trigger] steps[j] is WallClock) by {
        let p = (j - 1) / 6;
        let r = (j - 1) % 6;
        assert(j == 1 + 6 * p + r);
        assert(0 <= p < n);
        let seg = segment(steps, p);
        assert(one_measurement(programs[scheduled_program(n, iteration, p as nat) as int], seg, runs[p]));
        lemma_segment_index(steps, n, p, r);
        assert(r == 0 || r == 1 || r == 2 || r == 3 || r == 4 || r == 5);
    }
    assert forall|j: int| 0 <= j < steps.len() && #[trigger] steps[j] is Ran implies j % 6 == 3 by {
        let p = (j - 1) / 6;
        let r = (j - 1) % 6;
        assert(j == 1 + 6 * p + r);
        assert(0 <= p < n);
        let seg = segment(steps, p);
        assert(one_measurement(programs[scheduled_program(n, iteration, p as nat) as int], seg, runs[p]));
        lemma_segment_index(steps, n, p, r);
        assert(r == 0 || r == 1 || r == 2 || r == 3 || r == 4 || r == 5);
        assert(r == 2);
        assert((1 + 6 * p + 2) % 6 == 3) by (nonlinear_arith);
    }
    lemma_every_program_runs_once_per_iteration(n, iteration);
    assert forall|k: int| 0 <= k < n implies {
        &&& #[trigger] position_of(n, iteration, k as nat) < n
        &&& steps[(3 + 6 * position_of(n, iteration, k as nat)) as int] is Ran
        &&& programs[k].prepares(&steps[(3 + 6 * position_of(n, iteration, k as nat)) as int]->Ran_0)
    } by {
        let p = position_of(n, iteration, k as nat) as int;
        assert(scheduled_program(n, iteration, p as nat) == k);
        let seg = segment(steps, p);
        assert(one_measurement(programs[k], seg, runs[p]));
        lemma_segment_index(steps, n, p, 2);
    }
}

} // verus!
