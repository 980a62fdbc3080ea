use std::cell::Cell;
use std::rc::Rc;
use std::time::Duration;

use harness::notsofine::simple::{program_for_fn, program_for_fn_with_arg, FnProgram};
use harness::notsofine::{
    run_once, should_report_iteration, Args, BenchmarkState, PreparedProgram, Program,
};
use harness::workloads::loop_some;

fn nothing() {}

fn args_of(programs: Vec<FnProgram<fn()>>, iterations: usize, discard_leading: Option<usize>) -> Args<FnProgram<fn()>> {
    Args { programs, iterations, discard_leading, pause: None }
}

fn three_programs() -> Vec<FnProgram<fn()>> {
    vec![
        program_for_fn("a", nothing as fn()),
        program_for_fn("b", nothing as fn()),
        program_for_fn("c", nothing as fn()),
    ]
}

fn run_all(args: &Args<FnProgram<fn()>>) -> (harness::notsofine::BenchmarkResult, Vec<bool>) {
    let mut state = BenchmarkState::new(args);
    let mut reported = Vec::new();
    while !state.is_done() {
        reported.push(state.run_next_iteration(args).0);
    }
    (state.into_result(), reported)
}

fn names(runs: &[harness::notsofine::Run]) -> Vec<String> {
    runs.iter().map(|r| r.program.clone()).collect()
}

#[test]
fn should_report_every_iteration_without_discard() {
    let args = args_of(three_programs(), 5, None);
    assert!(should_report_iteration(0, &args));
    assert!(should_report_iteration(4, &args));
}

#[test]
fn should_report_skips_leading_iterations() {
    let args = args_of(three_programs(), 30, Some(10));
    assert!(!should_report_iteration(0, &args));
    assert!(!should_report_iteration(9, &args));
    assert!(should_report_iteration(10, &args));
    assert!(should_report_iteration(29, &args));
}

#[test]
fn program_for_fn_keeps_its_name() {
    let p = program_for_fn("Looper1", nothing as fn());
    assert_eq!(p.name(), "Looper1");
}

#[test]
fn run_once_runs_the_function_once_and_records_the_name() {
    let calls = Cell::new(0u32);
    let f = || calls.set(calls.get() + 1);
    let p = program_for_fn("counted", f);
    let (run, _) = run_once(&p);
    assert_eq!(run.program, "counted");
    assert_eq!(calls.get(), 1);
    let (run, _) = run_once(&p);
    assert_eq!(run.program, "counted");
    assert_eq!(calls.get(), 2);
}

#[test]
fn run_once_measures_the_time_of_the_work() {
    let f = || {
        let start = std::time::Instant::now();
        while start.elapsed() < Duration::from_millis(20) {}
    };
    let (run, _) = run_once(&program_for_fn("sleeper", f));
    assert!(run.duration >= Duration::from_millis(20));
}

#[test]
fn every_run_gets_a_fresh_copy_of_the_argument() {
    let seen = Cell::new(0u32);
    let f = |x: &mut u32| {
        *x += 1;
        seen.set(*x);
    };
    let p = program_for_fn_with_arg("geo", f, 41u32);
    assert_eq!(p.name(), "geo");
    run_once(&p);
    assert_eq!(seen.get(), 42);
    run_once(&p);
    assert_eq!(seen.get(), 42);
}

#[test]
fn prepared_program_keeps_its_argument_between_runs() {
    let seen = Cell::new(0u32);
    let f = |x: &mut u32| {
        *x += 1;
        seen.set(*x);
    };
    let p = program_for_fn_with_arg("geo", f, 0u32);
    let mut prepared = p.prepare();
    prepared.benchmark_this();
    prepared.benchmark_this();
    prepared.benchmark_this();
    assert_eq!(seen.get(), 3);
    prepared.cleanup();
}

#[test]
fn rotation_starts_one_program_later_each_iteration() {
    let args = args_of(three_programs(), 4, None);
    let (result, reported) = run_all(&args);
    assert_eq!(reported, vec![true, true, true, true]);
    assert_eq!(result.iterations.len(), 4);
    assert_eq!(names(&result.iterations[0].runs), vec!["a", "b", "c"]);
    assert_eq!(names(&result.iterations[1].runs), vec!["b", "c", "a"]);
    assert_eq!(names(&result.iterations[2].runs), vec!["c", "a", "b"]);
    assert_eq!(names(&result.iterations[3].runs), vec!["a", "b", "c"]);
    for (k, it) in result.iterations.iter().enumerate() {
        assert_eq!(it.i, k);
    }
}

#[test]
fn leading_iterations_are_run_but_not_reported() {
    let args = args_of(three_programs(), 5, Some(2));
    let (result, reported) = run_all(&args);
    assert_eq!(reported, vec![false, false, true, true, true]);
    let indices: Vec<usize> = result.iterations.iter().map(|it| it.i).collect();
    assert_eq!(indices, vec![2, 3, 4]);
    assert_eq!(names(&result.iterations[0].runs), vec!["c", "a", "b"]);
    assert_eq!(names(&result.iterations[1].runs), vec!["a", "b", "c"]);
    assert_eq!(names(&result.iterations[2].runs), vec!["b", "c", "a"]);
}

#[test]
fn discarding_more_than_all_reports_nothing() {
    let args = args_of(three_programs(), 3, Some(7));
    let (result, reported) = run_all(&args);
    assert_eq!(reported, vec![false, false, false]);
    assert!(result.iterations.is_empty());
}

#[test]
fn zero_iterations_is_done_at_once() {
    let args = args_of(Vec::new(), 0, None);
    let state = BenchmarkState::new(&args);
    assert!(state.is_done());
    assert_eq!(state.next_iteration(), 0);
    assert!(state.into_result().iterations.is_empty());
}

#[test]
fn single_program_runs_first_every_time() {
    let args = args_of(vec![program_for_fn("only", nothing as fn())], 3, None);
    let (result, _) = run_all(&args);
    for it in &result.iterations {
        assert_eq!(names(&it.runs), vec!["only"]);
    }
}

#[test]
fn every_program_takes_every_position_over_a_full_rotation() {
    let programs: Vec<FnProgram<fn()>> = ["p0", "p1", "p2", "p3"]
        .iter()
        .map(|n| program_for_fn(n, nothing as fn()))
        .collect();
    let args = args_of(programs, 4, None);
    let (result, _) = run_all(&args);
    for position in 0..4 {
        let mut at_position: Vec<String> =
            result.iterations.iter().map(|it| it.runs[position].program.clone()).collect();
        at_position.sort();
        assert_eq!(at_position, vec!["p0", "p1", "p2", "p3"]);
    }
}

#[test]
fn loop_some_returns() {
    loop_some();
}

#[test]
fn cleanup_drops_the_prepared_argument() {
    let shared = Rc::new(Cell::new(0u32));
    let f = |x: &mut Rc<Cell<u32>>| x.set(x.get() + 1);
    let p = program_for_fn_with_arg("rc", f, shared.clone());
    assert_eq!(Rc::strong_count(&shared), 2);
    let mut prepared = p.prepare();
    assert_eq!(Rc::strong_count(&shared), 3);
    prepared.benchmark_this();
    assert_eq!(shared.get(), 1);
    assert_eq!(Rc::strong_count(&shared), 3);
    prepared.cleanup();
    assert_eq!(Rc::strong_count(&shared), 2);
    drop(p);
    assert_eq!(Rc::strong_count(&shared), 1);
}

#[test]
fn a_new_copy_starts_from_the_argument_whatever_earlier_copies_did() {
    let seen = Cell::new(0u32);
    let f = |x: &mut u32| {
        *x *= 2;
        seen.set(*x);
    };
    let p = program_for_fn_with_arg("doubler", f, 5u32);
    let mut first = p.prepare();
    first.benchmark_this();
    first.benchmark_this();
    assert_eq!(seen.get(), 20);
    let mut second = p.prepare();
    second.benchmark_this();
    assert_eq!(seen.get(), 10);
}

#[test]
fn results_can_be_cloned() {
    let args = args_of(three_programs(), 2, None);
    let (result, _) = run_all(&args);
    let copy = result.clone();
    assert_eq!(copy.iterations.len(), 2);
    assert_eq!(names(&copy.iterations[1].runs), vec!["b", "c", "a"]);
    assert_eq!(copy.iterations[0].runs[0].duration, result.iterations[0].runs[0].duration);
    assert_eq!(copy.iterations[0].started_at, result.iterations[0].started_at);
}

#[test]
fn cleaning_up_a_copy_leaves_the_program_its_argument() {
    let seen = Cell::new(0u32);
    let f = |x: &mut u32| {
        *x += 1;
        seen.set(*x);
    };
    let p = program_for_fn_with_arg("kept", f, 1u32);
    let mut copy = p.prepare();
    copy.benchmark_this();
    copy.cleanup();
    let mut again = p.prepare();
    again.benchmark_this();
    assert_eq!(seen.get(), 2);
    assert_eq!(p.name(), "kept");
}
