//! The execution dispatcher: for a requested day and part selection it
//! fetches the solver, runs the requested operations on a duplicated
//! instance, measures elapsed time, and collects structured results.

use vstd::prelude::*;

use crate::error::{AocError, SolutionError};
use crate::input::PuzzleInput;
use crate::loader::{LoadedModule, ModulePhase};
use crate::options::{AocOption, OutcomeView};
use crate::result::AocResult;
use crate::solution::Solution;
use crate::Parts;

verus! {

/// Relies on `chrono::Utc::now` and `DateTime::timestamp_nanos_opt` for a
/// wall-clock reading in nanoseconds. Nothing is promised of a clock
/// reading. `Utc::now` panics on a system clock set before the epoch or
/// past chrono's maximum year; no input of this function can exclude that.
#[verifier::external_body]
fn clock_nanos() -> (r: i64) {
    match chrono::Utc::now().timestamp_nanos_opt() {
        Some(n) => n,
        None => 0,
    }
}

/// The outcome the solver's spec gives the requested part on the input.
pub open spec fn spec_part_outcome<S: Solution>(solver: S, part: Parts, input: Seq<char>) -> OutcomeView {
    match part {
        Parts::Part1 => solver.spec_part1(input),
        Parts::Part2 => solver.spec_part2(input),
    }
}

/// Runs one part of one day's puzzle and measures the elapsed wall-clock
/// time around the invocation; the result carries exactly one sample. The
/// measured span covers the solve invocation alone: input is obtained
/// before dispatch, so reading and fetching time is always excluded.
pub fn run_part<S: Solution>(solver: &S, day: u8, part: Parts, input: &PuzzleInput) -> (r:
    AocResult)
    ensures
        r.day == day,
        r.part == part,
        r.result@ == spec_part_outcome(*solver, part, input.0@),
        r.time.duration@.len() == 1,
{
    let start = clock_nanos();
    let text = input.input();
    let outcome = match part {
        Parts::Part1 => solver.part1(text),
        Parts::Part2 => solver.part2(text),
    };
    let end = clock_nanos();
    let span: i128 = (end as i128) - (start as i128);
    let elapsed: u64 = if span <= 0 {
        0
    } else if span > (u64::MAX as i128) {
        u64::MAX
    } else {
        span as u64
    };
    let r = AocResult::new(day, part.as_number(), outcome, elapsed);
    proof {
        assert(r.time.duration@ =~= seq![elapsed]);
    }
    r
}

/// Runs the selected parts of one day: both when none is named, exactly the
/// named one otherwise. A part the solver does not implement yields its
/// absent outcome; it is not an error.
pub fn run_parts<S: Solution>(solver: &S, day: u8, part: &Option<Parts>, input: &PuzzleInput) -> (r:
    Vec<AocResult>)
    ensures
        match part {
            Some(p) => r@.len() == 1 && r@[0].day == day && r@[0].part == *p && r@[0].result@
                == spec_part_outcome(*solver, *p, input.0@) && r@[0].time.duration@.len() == 1,
            None => r@.len() == 2 && (forall|k: int|
                0 <= k < 2 ==> (#[trigger] r@[k]).day == day && r@[k].time.duration@.len() == 1)
                && r@[0].part == Parts::Part1 && r@[0].result@ == solver.spec_part1(input.0@)
                && r@[1].part == Parts::Part2 && r@[1].result@ == solver.spec_part2(input.0@),
        },
{
    let mut r: Vec<AocResult> = Vec::new();
    match part {
        Some(p) => {
            r.push(run_part(solver, day, *p, input));
        },
        None => {
            r.push(run_part(solver, day, Parts::Part1, input));
            r.push(run_part(solver, day, Parts::Part2, input));
        },
    }
    r
}

/// Dispatches one explicitly requested day: the registry's solver is
/// duplicated onto the execution context and run. A day with no registered
/// solver fails, rather than being skipped silently.
///
/// The outcomes are those of the registry's own solver: running a fresh
/// duplicate returns the same outcomes the registered instance defines.
pub fn dispatch_day<S: Solution>(
    module: &LoadedModule<S>,
    day: u8,
    part: &Option<Parts>,
    input: &PuzzleInput,
) -> (r: Result<Vec<AocResult>, AocError>)
    requires
        module.wf(),
        module.spec_phase() == ModulePhase::Live,
    ensures
        match r {
            Ok(list) => module.spec_registry().dom().contains(day) && (forall|k: int|
                0 <= k < list@.len() ==> (#[trigger] list@[k]).time.duration@.len() == 1) && {
                let solver = module.spec_registry().index(day);
                match part {
                    Some(p) => list@.len() == 1 && list@[0].day == day && list@[0].part == *p
                        && list@[0].result@ == spec_part_outcome(solver, *p, input.0@),
                    None => list@.len() == 2 && list@[0].day == day && list@[1].day == day
                        && list@[0].part == Parts::Part1 && list@[0].result@ == solver.spec_part1(
                        input.0@,
                    ) && list@[1].part == Parts::Part2 && list@[1].result@ == solver.spec_part2(
                        input.0@,
                    ),
                }
            },
            Err(e) => !module.spec_registry().dom().contains(day) && e == AocError::Solution(
                SolutionError::SolverMissing { day },
            ),
        },
{
    match module.get(day) {
        None => Err(AocError::Solution(SolutionError::SolverMissing { day })),
        Some(solver) => {
            let local = solver.duplicate();
            Ok(run_parts(&local, day, part, input))
        },
    }
}

/// The days of the list whose puzzles are available at the given time, in
/// order.
pub open spec fn spec_available_days(days: Seq<u8>, time: crate::time::AocTime, year: int) -> Seq<
    u8,
>
    decreases days.len(),
{
    if days.len() == 0 {
        Seq::empty()
    } else {
        let rest = spec_available_days(days.drop_last(), time, year);
        if time.spec_date_valid(year, days.last()) {
            rest.push(days.last())
        } else {
            rest
        }
    }
}

/// Selects the days to run: exactly the requested day when one is named,
/// else every registered day whose puzzle is available. A named day is
/// selected whether or not a solver exists, so that its dispatch can fail
/// loudly instead of being skipped.
pub fn select_days<S: Solution>(
    module: &LoadedModule<S>,
    requested: &Option<u8>,
    time: &crate::time::AocTime,
    year: i32,
) -> (r: Vec<u8>)
    requires
        module.wf(),
        module.spec_phase() == ModulePhase::Live,
        time.wf(),
    ensures
        match requested {
            Some(day) => r@ == seq![*day],
            None => r@ == spec_available_days(module.spec_days(), *time, year as int),
        },
{
    match requested {
        Some(day) => {
            let mut r: Vec<u8> = Vec::new();
            r.push(*day);
            proof {
                assert(r@ =~= seq![*day]);
            }
            r
        },
        None => {
            let days = module.days();
            let ghost all = days@;
            let mut r: Vec<u8> = Vec::new();
            let mut i: usize = 0;
            while i < days.len()
                invariant
                    i <= all.len(),
                    all == days@,
                    time.wf(),
                    r@ =~= spec_available_days(all.take(i as int), *time, year as int),
                decreases all.len() - i,
            {
                proof {
                    assert(all.take(i + 1).drop_last() =~= all.take(i as int));
                    assert(all.take(i + 1).last() == all[i as int]);
                }
                if time.is_puzzle_available(year, days[i]) {
                    r.push(days[i]);
                }
                i = i + 1;
            }
            proof {
                assert(all.take(all.len() as int) =~= all);
            }
            r
        },
    }
}

/// Law: reading a solver out of a live module and invoking it gives the
/// same outcomes as invoking a freshly duplicated instance of it, on both
/// parts. Returns the direct and the duplicated outcome of each part.
pub fn round_trip_outcomes<S: Solution>(module: &LoadedModule<S>, day: u8, input: &PuzzleInput)
    -> (r: Option<((AocOption, AocOption), (AocOption, AocOption))>)
    requires
        module.wf(),
        module.spec_phase() == ModulePhase::Live,
    ensures
        match r {
            Some(pairs) => {
                let solver = module.spec_registry().index(day);
                &&& module.spec_registry().dom().contains(day)
                &&& pairs.0.0@ == solver.spec_part1(input.0@)
                &&& pairs.0.1@ == pairs.0.0@
                &&& pairs.1.0@ == solver.spec_part2(input.0@)
                &&& pairs.1.1@ == pairs.1.0@
            },
            None => !module.spec_registry().dom().contains(day),
        },
{
    match module.get(day) {
        None => None,
        Some(solver) => {
            let duplicate = solver.duplicate();
            let direct_a = solver.part1(input.input());
            let duped_a = duplicate.part1(input.input());
            let direct_b = solver.part2(input.input());
            let duped_b = duplicate.part2(input.input());
            Some(((direct_a, duped_a), (direct_b, duped_b)))
        },
    }
}

} // verus!
