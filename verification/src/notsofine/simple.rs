//! Programs made of a plain function, with or without an argument of their own.
use vstd::prelude::*;
use super::{PreparedProgram, Program};

verus! {

/// Hands `dummy` to `criterion::black_box`, which returns it unchanged while keeping the
/// optimizer from seeing through it (it reads the value back with a volatile read).
#[verifier::external_body]
fn black_box<T>(dummy: T) -> (same: T)
    ensures
        same == dummy,
{
    criterion::black_box(dummy)
}

/// A copy of a program made for measured runs, with the number of runs it has had.
pub struct PreparedCopy<P> {
    program: P,
    runs: Ghost<nat>,
}

impl<P> PreparedCopy<P> {
    /// The copy of the program that the runs work on.
    pub closed spec fn copy(&self) -> P {
        self.program
    }
}

/// A program that calls `f`.
#[derive(Clone, Debug)]
pub struct FnProgram<F: Fn() + Copy> {
    name: String,
    f: F,
}

impl<F: Fn() + Copy> FnProgram<F> {
    /// The function that every run calls.
    pub closed spec fn function(&self) -> F {
        self.f
    }
}

/// A program named `name` that calls `f`.
pub fn program_for_fn<F: Fn() + Copy>(name: &str, f: F) -> (program: FnProgram<F>)
    requires
        f.requires(()),
    ensures
        program.spec_name() == name@,
        program.function() == f,
        program.well_formed(),
{
    FnProgram { name: name.to_owned(), f }
}

impl<F: Fn() + Copy> Program for FnProgram<F> {
    type Prepared = PreparedCopy<Self>;

    closed spec fn spec_name(&self) -> Seq<char> {
        self.name@
    }

    closed spec fn well_formed(&self) -> bool {
        self.f.requires(())
    }

    closed spec fn prepares(&self, prepared: &PreparedCopy<Self>) -> bool {
        prepared.program == *self
    }

    fn name(&self) -> (name: String) {
        self.name.clone()
    }

    /// A copy of the program, which has not run yet.
    fn prepare(&self) -> (prepared: PreparedCopy<Self>)
        ensures
            prepared.copy() == *self,
    {
        PreparedCopy { program: FnProgram { name: self.name.clone(), f: self.f }, runs: Ghost(0) }
    }
}

impl<F: Fn() + Copy> PreparedProgram for PreparedCopy<FnProgram<F>> {
    closed spec fn ready(&self) -> bool {
        self.program.f.requires(())
    }

    closed spec fn runs(&self) -> nat {
        self.runs@
    }

    closed spec fn did_run(&self, after: &Self) -> bool {
        after.program == self.program && self.program.f.ensures((), ())
    }

    /// Calls the function once.
    fn benchmark_this(&mut self)
        ensures
            final(self).copy() == old(self).copy(),
            old(self).copy().function().ensures((), ()),
    {
        (self.program.f)();
        self.runs = Ghost(self.runs@ + 1);
    }

    fn cleanup(&mut self)
        ensures
            *final(self) == *old(self),
    {
    }
}

/// A program that calls `f` on an argument of its own, which every prepared copy receives
/// as a clone.
#[derive(Clone)]
pub struct FnWithArgProgram<T, F: Fn(&mut T) + Copy> {
    name: String,
    f: F,
    arg: Option<T>,
}

impl<T, F: Fn(&mut T) + Copy> FnWithArgProgram<T, F> {
    /// The program's name.
    pub closed spec fn program_name(&self) -> Seq<char> {
        self.name@
    }

    /// The function that every run calls.
    pub closed spec fn function(&self) -> F {
        self.f
    }

    /// The argument that the program holds, if it holds one.
    pub closed spec fn argument(&self) -> Option<T> {
        self.arg
    }
}

/// `f` accepts every argument.
pub open spec fn accepts_any_argument<T, F: Fn(&mut T)>(f: F) -> bool {
    forall|x: &mut T| #[trigger] f.requires((x,))
}

/// A program named `name` that calls `f` on `arg`.
pub fn program_for_fn_with_arg<T: Clone, F: Fn(&mut T) + Copy>(name: &str, f: F, arg: T) -> (program:
    FnWithArgProgram<T, F>)
    requires
        accepts_any_argument(f),
    ensures
        program.spec_name() == name@,
        program.function() == f,
        program.argument() == Some(arg),
        program.well_formed(),
{
    FnWithArgProgram { name: name.to_owned(), f, arg: Some(arg) }
}

/// A program's name is the one its runs are recorded under.
pub proof fn lemma_recorded_under_its_name<T: Clone, F: Fn(&mut T) + Copy>(
    program: FnWithArgProgram<T, F>,
)
    ensures
        program.spec_name() == program.program_name(),
{
}

impl<T: Clone, F: Fn(&mut T) + Copy> Program for FnWithArgProgram<T, F> {
    type Prepared = PreparedCopy<Self>;

    closed spec fn spec_name(&self) -> Seq<char> {
        self.name@
    }

    closed spec fn well_formed(&self) -> bool {
        self.arg is Some && accepts_any_argument(self.f)
    }

    closed spec fn prepares(&self, prepared: &PreparedCopy<Self>) -> bool {
        &&& prepared.program.name == self.name
        &&& prepared.program.f == self.f
        &&& self.arg is None ==> prepared.program.arg is None
        &&& self.arg is Some ==> prepared.program.arg is Some && cloned::<T>(
            self.arg->0,
            prepared.program.arg->0,
        )
    }

    fn name(&self) -> (name: String) {
        self.name.clone()
    }

    /// A copy of the program that holds a clone of its argument (none, where the program
    /// holds none), and has not run yet.
    fn prepare(&self) -> (prepared: PreparedCopy<Self>)
        ensures
            prepared.copy().spec_name() == self.spec_name(),
            prepared.copy().function() == self.function(),
            self.argument() is None ==> prepared.copy().argument() is None,
            self.argument() is Some ==> prepared.copy().argument() is Some && cloned::<T>(
                self.argument()->0,
                prepared.copy().argument()->0,
            ),
    {
        PreparedCopy {
            program: FnWithArgProgram { name: self.name.clone(), f: self.f, arg: self.arg.clone() },
            runs: Ghost(0),
        }
    }
}

/// Every prepared copy of a program starts from a clone of the program's own argument, which
/// preparing leaves untouched, so no run sees what another run did to its copy. Where `T`'s
/// `clone` gives back an equal value, every copy starts from the very argument the program
/// holds, which `program_for_fn_with_arg` made the one it was given.
pub proof fn lemma_every_copy_starts_from_the_argument<T: Clone, F: Fn(&mut T) + Copy>(
    program: FnWithArgProgram<T, F>,
    prepared: PreparedCopy<FnWithArgProgram<T, F>>,
)
    requires
        program.prepares(&prepared),
        forall|a: T, b: T| #[trigger] cloned::<T>(a, b) ==> a == b,
    ensures
        prepared.copy().spec_name() == program.spec_name(),
        prepared.copy().function() == program.function(),
        prepared.copy().argument() == program.argument(),
{
}

/// A measured run can only pass the argument to `f` and take it back: nothing here knows that
/// `T` can be cloned, so no run clones the argument, and the one value of type `T` at hand is
/// the argument itself, which the run gives back.
impl<T, F: Fn(&mut T) + Copy> PreparedProgram for PreparedCopy<FnWithArgProgram<T, F>> {
    closed spec fn ready(&self) -> bool {
        self.program.arg is Some && accepts_any_argument(self.program.f)
    }

    closed spec fn runs(&self) -> nat {
        self.runs@
    }

    closed spec fn did_run(&self, after: &Self) -> bool {
        &&& after.program.name == self.program.name
        &&& after.program.f == self.program.f
        &&& after.program.arg is Some
        &&& exists|r: &mut T| *r == self.program.arg->0 && #[trigger] self.program.f.ensures((r,), ())
    }

    /// Calls the function once on the argument, which the copy holds again afterwards, as the
    /// call left it.
    fn benchmark_this(&mut self)
        ensures
            final(self).copy().program_name() == old(self).copy().program_name(),
            final(self).copy().function() == old(self).copy().function(),
            final(self).copy().argument() is Some,
            exists|r: &mut T|
                *r == old(self).copy().argument()->0 && *final(r) == final(self).copy().argument()->0
                    && #[trigger] old(self).copy().function().ensures((r,), ()),
    {
        let mut arg = self.program.arg.take().unwrap();
        let ghost before = arg;
        (self.program.f)(&mut arg);
        assert(exists|r: &mut T|
            *r == before && *final(r) == arg && #[trigger] self.program.f.ensures((r,), ()));
        self.program.arg = Some(arg);
        self.runs = Ghost(self.runs@ + 1);
    }

    /// Gives up the argument, so that it is dropped after the measurement.
    fn cleanup(&mut self)
        ensures
            final(self).copy().program_name() == old(self).copy().program_name(),
            final(self).copy().function() == old(self).copy().function(),
            final(self).copy().argument() is None,
    {
        black_box(self.program.arg.take().unwrap());
    }
}

} // verus!
