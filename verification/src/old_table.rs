//! Column-width bookkeeping of the earlier table layout: per-solution
//! timing and answer widths, and their maxima across a year.

use vstd::prelude::*;

use crate::decimal::{spec_u64_string, u64_to_string};

verus! {

/// One solution's display data: optional timings in nanoseconds and the
/// optional answer text.
pub struct Solution {
    /// Time including input reading.
    pub total_time: Option<u64>,
    /// Time spent reading and parsing input.
    pub parse_time: Option<u64>,
    /// Time spent solving.
    pub solution_time: Option<u64>,
    /// The answer shown.
    pub solution: Option<String>,
}

impl Solution {
    /// An empty record: nothing measured, nothing solved.
    pub fn new() -> (r: Solution)
        ensures
            r.total_time is None,
            r.parse_time is None,
            r.solution_time is None,
            r.solution is None,
    {
        Solution { total_time: None, parse_time: None, solution_time: None, solution: None }
    }
}

/// The width a timing column needs: the rendered microseconds and a unit
/// suffix, at least `min`.
pub open spec fn spec_time_width(t: Option<u64>, min: int) -> int {
    let raw = match t {
        Some(nanos) => spec_u64_string((nanos / 1000) as nat).len() + 3,
        None => 0,
    };
    if raw > min {
        raw as int
    } else {
        min
    }
}

/// The width the answer column needs, at least 6.
pub open spec fn spec_solution_width(s: Option<String>) -> int {
    let raw = match s {
        Some(text) => text@.len() as int,
        None => 0,
    };
    if raw > 6 {
        raw
    } else {
        6
    }
}

/// The column widths one solution needs.
pub struct Widths {
    /// Width of the total-time column.
    pub total_time: usize,
    /// Width of the parse-time column.
    pub parse_time: usize,
    /// Width of the solution-time column.
    pub solution_time: usize,
    /// Width of the answer column.
    pub solution: usize,
}

/// The width of a rendered time column entry.
fn time_width(t: &Option<u64>, min: usize) -> (r: usize)
    ensures
        r == spec_time_width(*t, min as int),
{
    match t {
        Some(nanos) => {
            proof {
                crate::decimal::lemma_u64_string_len(*nanos / 1000);
            }
            let text = u64_to_string(*nanos / 1000);
            let raw = text.as_str().unicode_len() + 3;
            if raw > min {
                raw
            } else {
                min
            }
        },
        None => min,
    }
}

impl Widths {
    /// The widths one solution's row needs.
    pub fn new(solution: &Solution) -> (r: Widths)
        ensures
            r.total_time == spec_time_width(solution.total_time, 5),
            r.parse_time == spec_time_width(solution.parse_time, 5),
            r.solution_time == spec_time_width(solution.solution_time, 6),
            r.solution == spec_solution_width(solution.solution),
    {
        let total_time = time_width(&solution.total_time, 5);
        let parse_time = time_width(&solution.parse_time, 5);
        let solution_time = time_width(&solution.solution_time, 6);
        let answer = match &solution.solution {
            Some(text) => {
                let raw = text.as_str().unicode_len();
                if raw > 6 {
                    raw
                } else {
                    6
                }
            },
            None => 6,
        };
        Widths { total_time, parse_time, solution_time, solution: answer }
    }

    /// The per-column maxima over many rows' widths; zero with no rows.
    pub fn get_max(widths: Vec<Widths>) -> (r: Widths)
        ensures
            r.total_time == spec_max_total(widths@),
            r.parse_time == spec_max_parse(widths@),
            r.solution_time == spec_max_solution_time(widths@),
            r.solution == spec_max_solution(widths@),
    {
        let mut total_time: usize = 0;
        let mut parse_time: usize = 0;
        let mut solution_time: usize = 0;
        let mut solution: usize = 0;
        let mut i: usize = 0;
        while i < widths.len()
            invariant
                i <= widths@.len(),
                total_time == spec_max_total(widths@.take(i as int)),
                parse_time == spec_max_parse(widths@.take(i as int)),
                solution_time == spec_max_solution_time(widths@.take(i as int)),
                solution == spec_max_solution(widths@.take(i as int)),
            decreases widths@.len() - i,
        {
            proof {
                assert(widths@.take(i + 1).drop_last() =~= widths@.take(i as int));
                assert(widths@.take(i + 1).last() == widths@[i as int]);
            }
            let w = &widths[i];
            if w.total_time > total_time {
                total_time = w.total_time;
            }
            if w.parse_time > parse_time {
                parse_time = w.parse_time;
            }
            if w.solution_time > solution_time {
                solution_time = w.solution_time;
            }
            if w.solution > solution {
                solution = w.solution;
            }
            i = i + 1;
        }
        proof {
            assert(widths@.take(widths@.len() as int) =~= widths@);
        }
        Widths { total_time, parse_time, solution_time, solution }
    }
}

/// The largest total-time width, zero over none.
pub open spec fn spec_max_total(ws: Seq<Widths>) -> int
    decreases ws.len(),
{
    if ws.len() == 0 {
        0
    } else {
        let rest = spec_max_total(ws.drop_last());
        if ws.last().total_time > rest {
            ws.last().total_time as int
        } else {
            rest
        }
    }
}

/// The largest parse-time width, zero over none.
pub open spec fn spec_max_parse(ws: Seq<Widths>) -> int
    decreases ws.len(),
{
    if ws.len() == 0 {
        0
    } else {
        let rest = spec_max_parse(ws.drop_last());
        if ws.last().parse_time > rest {
            ws.last().parse_time as int
        } else {
            rest
        }
    }
}

/// The largest solution-time width, zero over none.
pub open spec fn spec_max_solution_time(ws: Seq<Widths>) -> int
    decreases ws.len(),
{
    if ws.len() == 0 {
        0
    } else {
        let rest = spec_max_solution_time(ws.drop_last());
        if ws.last().solution_time > rest {
            ws.last().solution_time as int
        } else {
            rest
        }
    }
}

/// The largest answer width, zero over none.
pub open spec fn spec_max_solution(ws: Seq<Widths>) -> int
    decreases ws.len(),
{
    if ws.len() == 0 {
        0
    } else {
        let rest = spec_max_solution(ws.drop_last());
        if ws.last().solution > rest {
            ws.last().solution as int
        } else {
            rest
        }
    }
}

} // verus!
