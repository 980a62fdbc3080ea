//! The rotation that decides in which order the programs run in each iteration.
use vstd::prelude::*;
use vstd::arithmetic::div_mod::{lemma_fundamental_div_mod_converse, lemma_small_mod};

verus! {

/// The head of the rotation at the start of iteration `iteration`: it starts at 0 and moves
/// on by one program after every iteration.
pub open spec fn head_at(radix: nat, iteration: nat) -> nat
    recommends
        radix > 0,
{
    iteration % radix
}

/// The index of the program that runs at position `position` of iteration `iteration`,
/// when `radix` programs take part: the order starts at the head and wraps around.
pub open spec fn scheduled_program(radix: nat, iteration: nat, position: nat) -> nat
    recommends
        radix > 0,
{
    (head_at(radix, iteration) + position) % radix
}

/// The position at which program `program` runs in iteration `iteration`.
pub open spec fn position_of(radix: nat, iteration: nat, program: nat) -> nat
    recommends
        radix > 0,
{
    ((program + radix - head_at(radix, iteration)) % (radix as int)) as nat
}

/// The iteration among `start .. start + radix` in which program `program` runs at
/// position `position`.
pub open spec fn iteration_running_at(radix: nat, start: nat, program: nat, position: nat) -> nat
    recommends
        radix > 0,
{
    start + ((program + radix - scheduled_program(radix, start, position)) % (radix as int)) as nat
}

/// For `x` in `[0, 2 * r)`, `x % r` is `x` or `x - r`.
proof fn lemma_mod_in_window(x: int, r: int)
    requires
        0 < r,
        0 <= x < 2 * r,
    ensures
        x % r == (if x < r { x } else { x - r }),
{
    if x < r {
        lemma_small_mod(x as nat, r as nat);
    } else {
        lemma_fundamental_div_mod_converse(x, r, 1, x - r);
    }
}

/// `((a % r) + b) % r == (a + b) % r`
proof fn lemma_mod_left(a: int, b: int, r: int)
    requires
        0 < r,
    ensures
        ((a % r) + b) % r == (a + b) % r,
{
    vstd::arithmetic::div_mod::lemma_add_mod_noop_right(b, a, r);
}

/// The program at a position is the head plus the position, wrapped around once.
pub(crate) proof fn lemma_wrapped_position(radix: nat, iteration: nat, position: nat)
    requires
        radix > 0,
        position < radix,
    ensures
        scheduled_program(radix, iteration, position) as int == (if head_at(radix, iteration)
            + position < radix {
            (head_at(radix, iteration) + position) as int
        } else {
            head_at(radix, iteration) + position - radix
        }),
{
    lemma_head_advances(radix, iteration);
    lemma_mod_in_window((head_at(radix, iteration) + position) as int, radix as int);
}

/// Moving the head on by one is the same as starting one iteration later.
pub proof fn lemma_head_advances(radix: nat, iteration: nat)
    requires
        radix > 0,
    ensures
        (head_at(radix, iteration) + 1) % radix == head_at(radix, iteration + 1),
        head_at(radix, iteration) < radix,
{
    lemma_mod_left(iteration as int, 1, radix as int);
    vstd::arithmetic::div_mod::lemma_mod_bound(iteration as int, radix as int);
}

/// Within one iteration, the rotation runs every one of the `radix` programs exactly once:
/// the positions `0..radix` are mapped one to one onto the programs `0..radix`.
pub proof fn lemma_every_program_runs_once_per_iteration(radix: nat, iteration: nat)
    requires
        radix > 0,
    ensures
        forall|p: nat| p < radix ==> #[trigger] scheduled_program(radix, iteration, p) < radix,
        forall|k: nat|
            k < radix ==> #[trigger] position_of(radix, iteration, k) < radix && scheduled_program(
                radix,
                iteration,
                position_of(radix, iteration, k),
            ) == k,
        forall|p1: nat, p2: nat|
            p1 < radix && p2 < radix && #[trigger] scheduled_program(radix, iteration, p1)
                == #[trigger] scheduled_program(radix, iteration, p2) ==> p1 == p2,
{
    let h = head_at(radix, iteration);
    lemma_head_advances(radix, iteration);
    assert forall|p: nat| p < radix implies #[trigger] scheduled_program(radix, iteration, p) < radix by {
        lemma_mod_in_window((h + p) as int, radix as int);
    }
    assert forall|k: nat| k < radix implies #[trigger] position_of(radix, iteration, k) < radix
        && scheduled_program(radix, iteration, position_of(radix, iteration, k)) == k by {
        let p = position_of(radix, iteration, k);
        lemma_mod_in_window((k + radix - h) as int, radix as int);
        lemma_mod_in_window((h + p) as int, radix as int);
    }
    assert forall|p1: nat, p2: nat|
        p1 < radix && p2 < radix && #[trigger] scheduled_program(radix, iteration, p1)
            == #[trigger] scheduled_program(radix, iteration, p2) implies p1 == p2 by {
        lemma_mod_in_window((h + p1) as int, radix as int);
        lemma_mod_in_window((h + p2) as int, radix as int);
    }
}

/// Over any `radix` consecutive iterations, every program runs exactly once at every
/// position: the rotation spreads the programs evenly over the positions.
pub proof fn lemma_rotation_is_fair(radix: nat, start: nat)
    requires
        radix > 0,
    ensures
        forall|k: nat, p: nat|
            k < radix && p < radix ==> start <= #[trigger] iteration_running_at(radix, start, k, p)
                < start + radix && scheduled_program(radix, iteration_running_at(radix, start, k, p), p)
                == k,
        forall|i1: nat, i2: nat, p: nat|
            start <= i1 < start + radix && start <= i2 < start + radix && p < radix
                && #[trigger] scheduled_program(radix, i1, p) == #[trigger] scheduled_program(
                radix,
                i2,
                p,
            ) ==> i1 == i2,
{
    assert forall|k: nat, p: nat| k < radix && p < radix implies start
        <= #[trigger] iteration_running_at(radix, start, k, p) < start + radix && scheduled_program(
        radix,
        iteration_running_at(radix, start, k, p),
        p,
    ) == k by {
        let s = scheduled_program(radix, start, p);
        lemma_every_program_runs_once_per_iteration(radix, start);
        assert(s < radix);
        let j: nat = ((k + radix - s) % (radix as int)) as nat;
        lemma_mod_in_window((k + radix - s) as int, radix as int);
        lemma_shift(radix, start, p, j);
        lemma_mod_in_window((s + j) as int, radix as int);
    }
    assert forall|i1: nat, i2: nat, p: nat|
        start <= i1 < start + radix && start <= i2 < start + radix && p < radix
            && #[trigger] scheduled_program(radix, i1, p) == #[trigger] scheduled_program(
            radix,
            i2,
            p,
        ) implies i1 == i2 by {
        let s = scheduled_program(radix, start, p);
        lemma_every_program_runs_once_per_iteration(radix, start);
        lemma_shift(radix, start, p, (i1 - start) as nat);
        lemma_shift(radix, start, p, (i2 - start) as nat);
        lemma_mod_in_window((s + (i1 - start)) as int, radix as int);
        lemma_mod_in_window((s + (i2 - start)) as int, radix as int);
    }
}

/// Starting `j` iterations later moves every position `j` programs further on.
proof fn lemma_shift(radix: nat, start: nat, p: nat, j: nat)
    requires
        radix > 0,
    ensures
        scheduled_program(radix, start + j, p) == (scheduled_program(radix, start, p) + j) % radix,
    decreases j,
{
    let s = scheduled_program(radix, start, p);
    if j > 0 {
        lemma_shift(radix, start, p, (j - 1) as nat);
        lemma_step(radix, (start + j - 1) as nat, p);
        lemma_mod_left((s + j - 1) as int, 1, radix as int);
    } else {
        lemma_every_program_runs_once_per_iteration(radix, start);
        lemma_small_mod(s, radix);
    }
}

/// One iteration later, every position runs the next program.
proof fn lemma_step(radix: nat, i: nat, p: nat)
    requires
        radix > 0,
    ensures
        scheduled_program(radix, i + 1, p) == (scheduled_program(radix, i, p) + 1) % radix,
{
    let r = radix as int;
    lemma_mod_left((i + 1) as int, p as int, r);
    lemma_mod_left(((i % radix) + p) as int, 1, r);
    lemma_mod_left(i as int, (p + 1) as int, r);
}

} // verus!
