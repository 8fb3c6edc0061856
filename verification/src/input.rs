//! Puzzle input values, the cache paths they are read from, and the plan for
//! when a cached input is used, fetched, or refused.

use vstd::prelude::*;

use crate::decimal::{
    i64_to_string, int_literal_val, parse_i32, spec_i64_string, spec_u64_string, u8_to_string,
    valid_int_literal,
};
use crate::error::{AocError, InputError};
use crate::options::{AocOption, OutcomeView};
use crate::parser::{spec_lines, split_lines};

verus! {

/// The text a solver receives for one day's puzzle.
pub struct PuzzleInput(pub String);

impl PuzzleInput {
    /// A copy of the puzzle text.
    pub fn input(&self) -> (r: String)
        ensures
            r@ == self.0@,
    {
        self.0.clone()
    }

    /// An independent input with the same text.
    pub fn duplicate(&self) -> (r: PuzzleInput)
        ensures
            r.0@ == self.0@,
    {
        PuzzleInput(self.0.clone())
    }

    /// The expected result a test input carries on its first line, rendered
    /// as display text.
    pub fn test_result(&self) -> (r: String)
        ensures
            r@ == spec_test_result_display(self.0@),
    {
        match parse_test_outcome_text(self.0.as_str()) {
            Some(outcome) => outcome.to_display_string(),
            None => String::from_str("None"),
        }
    }
}

/// A session token for the puzzle site, read from the environment by the
/// surrounding program.
#[derive(Debug, Clone)]
pub struct SessionToken(pub String);

impl From<String> for SessionToken {
    fn from(value: String) -> (r: SessionToken) {
        SessionToken(value)
    }
}

impl vstd::std_specs::convert::FromSpecImpl<String> for SessionToken {
    open spec fn obeys_from_spec() -> bool {
        true
    }

    open spec fn from_spec(value: String) -> SessionToken {
        SessionToken(value)
    }
}

impl SessionToken {
    /// The token text.
    pub fn token(&self) -> (r: &String)
        ensures
            r@ == self.0@,
    {
        &self.0
    }
}

/// The cache path of one day's input: under the input directory, the year as
/// a directory (after `tests` for test inputs), then `day_<day>.txt`.
pub open spec fn spec_input_path(dir: Seq<char>, year: int, day: u8, test: bool) -> Seq<char> {
    let base = if test {
        dir + "/tests/"@
    } else {
        dir + "/"@
    };
    base + spec_i64_string(year) + "/day_"@ + spec_u64_string(day as nat) + ".txt"@
}

/// Builds the cache path of one day's input.
pub fn input_path(input_dir: &String, year: i32, day: u8, test: bool) -> (r: String)
    ensures
        r@ == spec_input_path(input_dir@, year as int, day, test),
{
    let mut r = input_dir.clone();
    if test {
        r.append("/tests/");
    } else {
        r.append("/");
    }
    let y = i64_to_string(year as i64);
    r.append(y.as_str());
    r.append("/day_");
    let d = u8_to_string(day);
    r.append(d.as_str());
    r.append(".txt");
    r
}

/// What the surrounding program must do to obtain an input.
#[derive(Debug, PartialEq, Eq, Structural)]
pub enum InputAction {
    /// The cache already holds the input: read it from there.
    UseCached,
    /// Fetch the input from the site, then store it in the cache.
    FetchAndStore,
    /// A test input was requested but none is stored: fail.
    FailNoTest,
}

/// Decides how an input is obtained: a cached input is used; a missing real
/// input is fetched and stored; a missing test input is refused, since test
/// inputs are written only by hand.
pub fn input_plan(has_input: bool, test: bool) -> (r: InputAction)
    ensures
        has_input ==> r == InputAction::UseCached,
        !has_input && !test ==> r == InputAction::FetchAndStore,
        !has_input && test ==> r == InputAction::FailNoTest,
{
    if has_input {
        InputAction::UseCached
    } else if !test {
        InputAction::FetchAndStore
    } else {
        InputAction::FailNoTest
    }
}

/// The first line of a text, when the text has one.
pub open spec fn spec_first_line(s: Seq<char>) -> Seq<char> {
    spec_lines(s)[0]
}

/// The expected outcome a test input's first line denotes: its numeric value
/// when it is a decimal integer fitting an `i32`, else its text.
pub open spec fn spec_test_outcome(s: Seq<char>) -> OutcomeView {
    let line = spec_first_line(s);
    if valid_int_literal(line) && i32::MIN <= int_literal_val(line) <= i32::MAX {
        OutcomeView::Number(int_literal_val(line))
    } else {
        OutcomeView::Text(line)
    }
}

/// The display text of a test input's expected outcome, `None` when the text
/// has no first line.
pub open spec fn spec_test_result_display(s: Seq<char>) -> Seq<char> {
    if spec_lines(s).len() == 0 {
        "None"@
    } else {
        crate::options::spec_outcome_display(spec_test_outcome(s))
    }
}

/// Reads the expected outcome off a test input's first line, or nothing when
/// the text is empty.
fn parse_test_outcome_text(s: &str) -> (r: Option<AocOption>)
    ensures
        match r {
            Some(outcome) => spec_lines(s@).len() > 0 && outcome@ == spec_test_outcome(s@),
            None => spec_lines(s@).len() == 0,
        },
{
    let lines = split_lines(s);
    if lines.len() == 0 {
        return None;
    }
    let first = &lines[0];
    proof {
        assert(lines@.map_values(|t: String| t@)[0] == first@);
    }
    match parse_i32(first.as_str()) {
        Some(v) => Some(AocOption::Int(v as i64)),
        None => Some(AocOption::Str(first.clone())),
    }
}

/// Reads the expected outcome of a stored test input: the first line as a
/// number or as text, or `EmptyTest` when the text has no line at all.
pub fn parse_test_result(input: &PuzzleInput, year: i32, day: u8) -> (r: Result<
    AocOption,
    AocError,
>)
    ensures
        match r {
            Ok(outcome) => spec_lines(input.0@).len() > 0 && outcome@ == spec_test_outcome(
                input.0@,
            ),
            Err(e) => spec_lines(input.0@).len() == 0 && e == AocError::Input(
                InputError::EmptyTest { year, day },
            ),
        },
{
    match parse_test_outcome_text(input.0.as_str()) {
        Some(outcome) => Ok(outcome),
        None => Err(AocError::Input(InputError::EmptyTest { year, day })),
    }
}

} // verus!
