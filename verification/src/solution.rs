//! The contract a loadable module's solvers implement: two solve operations
//! keyed by puzzle part, and duplication onto independent execution contexts.

use vstd::prelude::*;

use crate::options::{AocOption, OutcomeView};

verus! {

/// One day's puzzle solver.
///
/// An implementation fixes, as spec functions, the outcome of each part on
/// every input, and its executable operations are proved to return exactly
/// those outcomes. `duplicate` produces an independent instance with
/// equivalent behaviour, so that concurrent execution contexts never share
/// one instance.
pub trait Solution: Sized {
    /// The outcome of part 1 on the given input; absent by default, so a
    /// module may implement only one part. An implementation outside the
    /// verifier that leaves this default is not held to it.
    open spec fn spec_part1(&self, input: Seq<char>) -> OutcomeView {
        OutcomeView::Missing
    }

    /// The outcome of part 2 on the given input; absent by default.
    open spec fn spec_part2(&self, input: Seq<char>) -> OutcomeView {
        OutcomeView::Missing
    }

    /// Solves part 1 of the day's puzzle. An unimplemented part returns the
    /// absent outcome, matching the defaulted spec; a verified default body
    /// cannot exist here, since it could never prove an overridden spec.
    fn part1(&self, input: String) -> (r: AocOption)
        ensures
            r@ == self.spec_part1(input@),
    ;

    /// Solves part 2 of the day's puzzle.
    fn part2(&self, input: String) -> (r: AocOption)
        ensures
            r@ == self.spec_part2(input@),
    ;

    /// An independent instance with equivalent behaviour.
    fn duplicate(&self) -> (r: Self)
        ensures
            forall|input: Seq<char>| #[trigger] r.spec_part1(input) == self.spec_part1(input),
            forall|input: Seq<char>| #[trigger] r.spec_part2(input) == self.spec_part2(input),
    ;
}

/// A solver that answers part 1 with the puzzle text itself and leaves
/// part 2 to its default, unimplemented outcome.
pub struct EchoSolver;

impl Solution for EchoSolver {
    open spec fn spec_part1(&self, input: Seq<char>) -> OutcomeView {
        OutcomeView::Text(input)
    }

    fn part1(&self, input: String) -> (r: AocOption) {
        AocOption::Str(input)
    }

    fn part2(&self, input: String) -> (r: AocOption) {
        AocOption::Absent
    }

    fn duplicate(&self) -> (r: Self) {
        EchoSolver
    }
}

/// A solver with fixed answers, independent of the input.
pub struct ConstSolver {
    /// The answer to part 1.
    pub a: AocOption,
    /// The answer to part 2.
    pub b: AocOption,
}

impl Solution for ConstSolver {
    open spec fn spec_part1(&self, input: Seq<char>) -> OutcomeView {
        self.a@
    }

    open spec fn spec_part2(&self, input: Seq<char>) -> OutcomeView {
        self.b@
    }

    fn part1(&self, input: String) -> (r: AocOption) {
        self.a.duplicate()
    }

    fn part2(&self, input: String) -> (r: AocOption) {
        self.b.duplicate()
    }

    fn duplicate(&self) -> (r: Self) {
        ConstSolver { a: self.a.duplicate(), b: self.b.duplicate() }
    }
}

} // verus!
