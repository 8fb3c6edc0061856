//! Runner support library for daily coding-puzzle solutions: it discovers a
//! separately compiled solver module, models the load/teardown protocol for
//! taking the module's solver registry across the host boundary, dispatches
//! solver invocations, and aggregates timed results.

pub mod adder;
pub mod config;
pub mod db;
pub mod decimal;
pub mod discovery;
pub mod dispatch;
pub mod display;
pub mod error;
pub mod input;
pub mod loader;
pub mod old_table;
pub mod options;
pub mod parser;
pub mod registry;
pub mod result;
pub mod solution;
pub mod time;

pub use input::PuzzleInput;
pub use input::SessionToken;
pub use options::AocOption;
pub use solution::Solution;

use vstd::prelude::*;

verus! {

/// Puzzle parts: every day has two independent sub-answers.
#[derive(Clone, Copy, PartialEq, Eq, Structural, Debug, Hash)]
pub enum Parts {
    Part1,
    Part2,
}

impl Parts {
    /// Reads a part from its number; a number other than 1 or 2 is refused.
    pub fn new(num: u8) -> (r: Result<Parts, crate::error::AocError>)
        ensures
            match r {
                Ok(p) => (num == 1 || num == 2) && p == (if num == 1 {
                    Parts::Part1
                } else {
                    Parts::Part2
                }),
                Err(e) => num != 1 && num != 2 && e == crate::error::AocError::InvalidPart(num),
            },
    {
        match num {
            1 => Ok(Parts::Part1),
            2 => Ok(Parts::Part2),
            _ => Err(crate::error::AocError::InvalidPart(num)),
        }
    }

    /// Numeric form used for ordering and for the loaded module's tables.
    pub fn as_number(&self) -> (r: u8)
        ensures
            r == self.spec_number(),
    {
        match self {
            Parts::Part1 => 1,
            Parts::Part2 => 2,
        }
    }

    /// The number of the part, 1 or 2.
    pub open spec fn spec_number(self) -> u8 {
        match self {
            Parts::Part1 => 1,
            Parts::Part2 => 2,
        }
    }

    /// How the part is shown.
    pub open spec fn spec_display(self) -> Seq<char> {
        match self {
            Parts::Part1 => "Part 1"@,
            Parts::Part2 => "Part 2"@,
        }
    }

    /// The display text of the part.
    pub fn to_display_string(&self) -> (r: String)
        ensures
            r@ == self.spec_display(),
    {
        match self {
            Parts::Part1 => String::from_str("Part 1"),
            Parts::Part2 => String::from_str("Part 2"),
        }
    }
}

impl TryFrom<u8> for Parts {
    type Error = crate::error::AocError;

    fn try_from(value: u8) -> (r: Result<Parts, crate::error::AocError>) {
        Parts::new(value)
    }
}

impl vstd::std_specs::convert::TryFromSpecImpl<u8> for Parts {
    open spec fn obeys_try_from_spec() -> bool {
        true
    }

    open spec fn try_from_spec(value: u8) -> Result<Parts, crate::error::AocError> {
        if value == 1 {
            Ok(Parts::Part1)
        } else if value == 2 {
            Ok(Parts::Part2)
        } else {
            Err(crate::error::AocError::InvalidPart(value))
        }
    }
}

} // verus!
