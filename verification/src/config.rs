//! Run configuration: what to run, where the workspace and inputs live, and
//! how many measurement passes a benchmark takes.
//!
//! Timing follows one fixed policy: the elapsed time of a result covers the
//! solve invocation alone, never the reading or fetching of input, which
//! always happens before the clock starts.

use vstd::prelude::*;

use crate::Parts;

verus! {

/// Configuration of a run of solvers.
pub struct Config {
    /// The puzzle year.
    pub year: i32,
    /// The requested day; none means every available day.
    pub day: Option<u8>,
    /// The requested part; none means both.
    pub part: Option<Parts>,
    /// Whether test inputs are used instead of real ones.
    pub test_mode: bool,
    /// The directory holding cached inputs.
    pub input_dir: String,
    /// The directory searched for solution libraries.
    pub workspace_dir: String,
}

impl Config {
    /// Builds a configuration; libraries are searched under the workspace's
    /// release build directory.
    pub fn new(
        year: i32,
        day: Option<u8>,
        part: Option<Parts>,
        test_mode: bool,
        input_dir: String,
        workspace_dir: String,
    ) -> (r: Config)
        ensures
            r.year == year,
            r.day == day,
            r.part == part,
            r.test_mode == test_mode,
            r.input_dir@ == input_dir@,
            r.workspace_dir@ == workspace_dir@ + "/target/release"@,
    {
        let mut workspace = workspace_dir;
        workspace.append("/target/release");
        Config { year, day, part, test_mode, input_dir, workspace_dir: workspace }
    }
}

/// Configuration of a run against the cache-backed store.
pub struct RunConfig {
    /// The puzzle year.
    pub year: i32,
    /// The requested day; none means every available day.
    pub day: Option<u8>,
    /// The requested part; none means both.
    pub part: Option<Parts>,
    /// Whether test inputs are used instead of real ones.
    pub test: bool,
    /// The directory searched for solution libraries.
    pub workspace_dir: String,
    /// Whether repeated measurement passes are taken.
    pub benchmark: bool,
}

impl RunConfig {
    /// How many warm-up and measurement passes to run, from the duration of
    /// the first pass in nanoseconds: fast solutions take more passes.
    pub fn get_run_counts(&self, first_run_nanos: u64) -> (r: (u32, u32))
        ensures
            !self.benchmark ==> r == (1u32, 1u32),
            self.benchmark && first_run_nanos < 10_000_000 ==> r == (5u32, 10u32),
            self.benchmark && 10_000_000 <= first_run_nanos < 100_000_000 ==> r == (3u32, 5u32),
            self.benchmark && 100_000_000 <= first_run_nanos < 1_000_000_000 ==> r == (2u32, 3u32),
            self.benchmark && first_run_nanos >= 1_000_000_000 ==> r == (1u32, 1u32),
    {
        if !self.benchmark {
            (1, 1)
        } else if first_run_nanos < 10_000_000 {
            (5, 10)
        } else if first_run_nanos < 100_000_000 {
            (3, 5)
        } else if first_run_nanos < 1_000_000_000 {
            (2, 3)
        } else {
            (1, 1)
        }
    }
}

/// Configuration for adding a test input to a day.
pub struct AddConfig {
    /// The puzzle year.
    pub year: i32,
    /// The day to add a test input for.
    pub day: u8,
}

/// Configuration for adding a test case against the cache-backed store.
pub struct AddTestConfig {
    /// The puzzle year.
    pub year: i32,
    /// The day to add a test case for.
    pub day: u8,
}

/// Configuration for scaffolding a new day in the workspace.
pub struct AddDayConfig {
    /// The puzzle year.
    pub year: i32,
    /// The day to scaffold.
    pub day: u8,
    /// The workspace directory.
    pub workspace_dir: String,
}

} // verus!
