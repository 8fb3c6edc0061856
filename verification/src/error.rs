//! Error taxonomy: discovery and loading failures, dispatch failures, input
//! failures, cache failures, and invalid requests, each carrying enough
//! context to render a precise diagnostic.

use vstd::prelude::*;

use crate::decimal::{i64_to_string, spec_i64_string, spec_u64_string, u64_to_string, u8_to_string};

verus! {

/// A failure to discover or load the solution library.
#[derive(Debug)]
pub enum LoadingError {
    /// The workspace directory could not be listed at all.
    DiscoveryFailed { reason: String },
    /// No file in the search path carries the year in its name.
    LibraryNotFound { year: i32, search_path: String },
    /// More than one candidate library is valid; refusing to guess.
    AmbiguousLibraries { paths: Vec<String> },
    /// A library failed to open.
    LibraryLoadFailed { reason: String },
    /// The library's construction entry point produced no registry.
    NoSolutions { year: i32 },
    /// No candidate both opens and exports the construction symbol.
    InvalidLibrary { reason: String },
}

impl LoadingError {
    /// A load failure with the loader's own error text.
    pub fn library_load_failed(reason: String) -> (r: LoadingError)
        ensures
            r == (LoadingError::LibraryLoadFailed { reason }),
    {
        LoadingError::LibraryLoadFailed { reason }
    }

    /// An invalid library, with the reason it was rejected.
    pub fn invalid_library(reason: String) -> (r: LoadingError)
        ensures
            r == (LoadingError::InvalidLibrary { reason }),
    {
        LoadingError::InvalidLibrary { reason }
    }

    /// A library that yielded no solutions for the year.
    pub fn no_solutions(year: i32) -> (r: LoadingError)
        ensures
            r == (LoadingError::NoSolutions { year }),
    {
        LoadingError::NoSolutions { year }
    }

    /// No library was found for the year under the search path.
    pub fn library_not_found(year: i32, search_path: String) -> (r: LoadingError)
        ensures
            r == (LoadingError::LibraryNotFound { year, search_path }),
    {
        LoadingError::LibraryNotFound { year, search_path }
    }

    /// Several valid libraries were found where one was expected.
    pub fn ambiguous_libraries(paths: Vec<String>) -> (r: LoadingError)
        ensures
            r == (LoadingError::AmbiguousLibraries { paths }),
    {
        LoadingError::AmbiguousLibraries { paths }
    }
}

/// A failure while running a solver.
#[derive(Debug)]
pub enum SolutionError {
    /// The solver reported a failure.
    ExecutionFailed { msg: String },
    /// The solver exceeded its time budget.
    Timeout { seconds: u64 },
    /// The solver returned a result that could not be used.
    InvalidResult(String),
    /// The solver does not implement the requested part.
    NotImplemented,
    /// The registry has no solver for the explicitly requested day.
    SolverMissing { day: u8 },
}

/// A failure to obtain puzzle input.
#[derive(Debug)]
pub enum InputError {
    /// The session token is not available.
    MissingToken { reason: String },
    /// Fetching the input over the network failed.
    FetchFailed { year: i32, day: u8, reason: String },
    /// Reading a cached input file failed.
    FileReadError { path: String, reason: String },
    /// Writing a fetched input to the cache failed.
    FileSaveError { path: String, reason: String },
    /// No test input was stored for the day.
    NoTestInput { day: u8 },
    /// Preparing the test input editor failed.
    TestInputFailed,
    /// The stored test input has no first line to read a result from.
    EmptyTest { year: i32, day: u8 },
}

/// A failure of the local cache store.
#[derive(Debug)]
pub enum DatabaseError {
    /// A statement failed to execute.
    DatabaseExec { command: String },
    /// The local data directory could not be determined.
    DataLocation,
    /// Connecting to the store failed.
    ConnectionFailed { path: String },
    /// A query failed.
    DatabaseQuerying { object: String },
}

/// Any failure of the runner.
#[derive(Debug)]
pub enum AocError {
    /// An input failure.
    Input(InputError),
    /// A solver failure.
    Solution(SolutionError),
    /// A discovery or loading failure.
    Loading(LoadingError),
    /// A cache failure.
    Database(DatabaseError),
    /// The requested part is neither 1 nor 2.
    InvalidPart(u8),
    /// The requested year has no puzzles.
    InvalidYear { year: i32, reason: String },
    /// The requested day has no puzzle in the requested year.
    InvalidDay { year: i32, day: u8, reason: String },
}

impl From<InputError> for AocError {
    fn from(value: InputError) -> (r: AocError) {
        AocError::Input(value)
    }
}

impl vstd::std_specs::convert::FromSpecImpl<InputError> for AocError {
    open spec fn obeys_from_spec() -> bool {
        true
    }

    open spec fn from_spec(value: InputError) -> AocError {
        AocError::Input(value)
    }
}

impl From<SolutionError> for AocError {
    fn from(value: SolutionError) -> (r: AocError) {
        AocError::Solution(value)
    }
}

impl vstd::std_specs::convert::FromSpecImpl<SolutionError> for AocError {
    open spec fn obeys_from_spec() -> bool {
        true
    }

    open spec fn from_spec(value: SolutionError) -> AocError {
        AocError::Solution(value)
    }
}

impl From<LoadingError> for AocError {
    fn from(value: LoadingError) -> (r: AocError) {
        AocError::Loading(value)
    }
}

impl vstd::std_specs::convert::FromSpecImpl<LoadingError> for AocError {
    open spec fn obeys_from_spec() -> bool {
        true
    }

    open spec fn from_spec(value: LoadingError) -> AocError {
        AocError::Loading(value)
    }
}

impl From<DatabaseError> for AocError {
    fn from(value: DatabaseError) -> (r: AocError) {
        AocError::Database(value)
    }
}

impl vstd::std_specs::convert::FromSpecImpl<DatabaseError> for AocError {
    open spec fn obeys_from_spec() -> bool {
        true
    }

    open spec fn from_spec(value: DatabaseError) -> AocError {
        AocError::Database(value)
    }
}

/// The paths joined with a comma and a space between each two.
pub open spec fn spec_join_paths(paths: Seq<Seq<char>>) -> Seq<char>
    decreases paths.len(),
{
    if paths.len() == 0 {
        Seq::empty()
    } else if paths.len() == 1 {
        paths[0]
    } else {
        spec_join_paths(paths.drop_last()) + ", "@ + paths.last()
    }
}

/// Joins path strings with a comma and a space.
pub fn join_paths(paths: &Vec<String>) -> (r: String)
    ensures
        r@ == spec_join_paths(paths@.map_values(|p: String| p@)),
{
    let ghost views = paths@.map_values(|p: String| p@);
    let mut r = String::new();
    let mut i: usize = 0;
    while i < paths.len()
        invariant
            i <= paths.len(),
            views == paths@.map_values(|p: String| p@),
            r@ == spec_join_paths(views.take(i as int)),
        decreases paths.len() - i,
    {
        proof {
            assert(views.take(i + 1).drop_last() =~= views.take(i as int));
            assert(views.take(i + 1).last() == paths@[i as int]@);
            if i == 0 {
                assert(views.take(1) =~= seq![views[0]]);
            }
        }
        if i > 0 {
            r.append(", ");
        }
        r.append(paths[i].as_str());
        i = i + 1;
    }
    proof {
        assert(views.take(paths@.len() as int) =~= views);
    }
    r
}

/// The diagnostic text of a loading failure.
pub open spec fn spec_loading_message(e: LoadingError) -> Seq<char> {
    match e {
        LoadingError::DiscoveryFailed { reason } => "Discovering solution libraries failed: "@
            + reason@,
        LoadingError::LibraryNotFound { year, search_path } => "No solution library found for year "@
            + spec_i64_string(year as int) + " under "@ + search_path@,
        LoadingError::AmbiguousLibraries { paths } => "Multiple solution libraries found: "@
            + spec_join_paths(paths@.map_values(|p: String| p@)),
        LoadingError::LibraryLoadFailed { reason } => "Failed to load solution library: "@
            + reason@,
        LoadingError::NoSolutions { year } => "No solutions found in library for year "@
            + spec_i64_string(year as int),
        LoadingError::InvalidLibrary { reason } => "Invalid solution library: "@ + reason@,
    }
}

impl LoadingError {
    /// Renders the diagnostic text of the failure.
    pub fn message(&self) -> (r: String)
        ensures
            r@ == spec_loading_message(*self),
    {
        match self {
            LoadingError::DiscoveryFailed { reason } => {
                let mut r = String::from_str("Discovering solution libraries failed: ");
                r.append(reason.as_str());
                r
            },
            LoadingError::LibraryNotFound { year, search_path } => {
                let mut r = String::from_str("No solution library found for year ");
                let y = i64_to_string(*year as i64);
                r.append(y.as_str());
                r.append(" under ");
                r.append(search_path.as_str());
                r
            },
            LoadingError::AmbiguousLibraries { paths } => {
                let mut r = String::from_str("Multiple solution libraries found: ");
                let joined = join_paths(paths);
                r.append(joined.as_str());
                r
            },
            LoadingError::LibraryLoadFailed { reason } => {
                let mut r = String::from_str("Failed to load solution library: ");
                r.append(reason.as_str());
                r
            },
            LoadingError::NoSolutions { year } => {
                let mut r = String::from_str("No solutions found in library for year ");
                let y = i64_to_string(*year as i64);
                r.append(y.as_str());
                r
            },
            LoadingError::InvalidLibrary { reason } => {
                let mut r = String::from_str("Invalid solution library: ");
                r.append(reason.as_str());
                r
            },
        }
    }
}

/// The diagnostic text of a solver failure.
pub open spec fn spec_solution_message(e: SolutionError) -> Seq<char> {
    match e {
        SolutionError::ExecutionFailed { msg } => "Solution failed: "@ + msg@,
        SolutionError::Timeout { seconds } => "Solution timed out after "@ + spec_u64_string(
            seconds as nat,
        ) + " seconds"@,
        SolutionError::InvalidResult(msg) => "Invalid solution result: "@ + msg@,
        SolutionError::NotImplemented => "Solution not implemented"@,
        SolutionError::SolverMissing { day } => "No solver registered for day "@ + spec_u64_string(
            day as nat,
        ),
    }
}

impl SolutionError {
    /// Renders the diagnostic text of the failure.
    pub fn message(&self) -> (r: String)
        ensures
            r@ == spec_solution_message(*self),
    {
        match self {
            SolutionError::ExecutionFailed { msg } => {
                let mut r = String::from_str("Solution failed: ");
                r.append(msg.as_str());
                r
            },
            SolutionError::Timeout { seconds } => {
                let mut r = String::from_str("Solution timed out after ");
                let s = u64_to_string(*seconds);
                r.append(s.as_str());
                r.append(" seconds");
                r
            },
            SolutionError::InvalidResult(msg) => {
                let mut r = String::from_str("Invalid solution result: ");
                r.append(msg.as_str());
                r
            },
            SolutionError::NotImplemented => String::from_str("Solution not implemented"),
            SolutionError::SolverMissing { day } => {
                let mut r = String::from_str("No solver registered for day ");
                let d = u8_to_string(*day);
                r.append(d.as_str());
                r
            },
        }
    }
}

/// The diagnostic text of an input failure.
pub open spec fn spec_input_message(e: InputError) -> Seq<char> {
    match e {
        InputError::MissingToken { reason } => "Missing session token: "@ + reason@,
        InputError::FetchFailed { year, day, reason } => "Failed to fetch input for year "@
            + spec_i64_string(year as int) + " day "@ + spec_u64_string(day as nat) + ": "@
            + reason@,
        InputError::FileReadError { path, reason } => "Failed to read input file "@ + path@ + ": "@
            + reason@,
        InputError::FileSaveError { path, reason } => "Failed to save input to "@ + path@ + ": "@
            + reason@,
        InputError::NoTestInput { day } => "The test input for day "@ + spec_u64_string(day as nat)
            + " is not set"@,
        InputError::TestInputFailed => "Failed creating a temporary file for setting the test input"@,
        InputError::EmptyTest { year, day } => "Test file for that day is empty. Year: "@
            + spec_i64_string(year as int) + ", Day: "@ + spec_u64_string(day as nat),
    }
}

impl InputError {
    /// Renders the diagnostic text of the failure.
    pub fn message(&self) -> (r: String)
        ensures
            r@ == spec_input_message(*self),
    {
        match self {
            InputError::MissingToken { reason } => {
                let mut r = String::from_str("Missing session token: ");
                r.append(reason.as_str());
                r
            },
            InputError::FetchFailed { year, day, reason } => {
                let mut r = String::from_str("Failed to fetch input for year ");
                let y = i64_to_string(*year as i64);
                r.append(y.as_str());
                r.append(" day ");
                let d = u8_to_string(*day);
                r.append(d.as_str());
                r.append(": ");
                r.append(reason.as_str());
                r
            },
            InputError::FileReadError { path, reason } => {
                let mut r = String::from_str("Failed to read input file ");
                r.append(path.as_str());
                r.append(": ");
                r.append(reason.as_str());
                r
            },
            InputError::FileSaveError { path, reason } => {
                let mut r = String::from_str("Failed to save input to ");
                r.append(path.as_str());
                r.append(": ");
                r.append(reason.as_str());
                r
            },
            InputError::NoTestInput { day } => {
                let mut r = String::from_str("The test input for day ");
                let d = u8_to_string(*day);
                r.append(d.as_str());
                r.append(" is not set");
                r
            },
            InputError::TestInputFailed => String::from_str(
                "Failed creating a temporary file for setting the test input",
            ),
            InputError::EmptyTest { year, day } => {
                let mut r = String::from_str("Test file for that day is empty. Year: ");
                let y = i64_to_string(*year as i64);
                r.append(y.as_str());
                r.append(", Day: ");
                let d = u8_to_string(*day);
                r.append(d.as_str());
                r
            },
        }
    }
}

/// The diagnostic text of a cache failure.
pub open spec fn spec_database_message(e: DatabaseError) -> Seq<char> {
    match e {
        DatabaseError::DatabaseExec { command } => "Failed executing command on the database: "@
            + command@,
        DatabaseError::DataLocation => "Failed finding the correct location for local data"@,
        DatabaseError::ConnectionFailed { path } => "Failed connecting to the database at "@
            + path@,
        DatabaseError::DatabaseQuerying { object } => "Failed querying the database for "@
            + object@,
    }
}

impl DatabaseError {
    /// Renders the diagnostic text of the failure.
    pub fn message(&self) -> (r: String)
        ensures
            r@ == spec_database_message(*self),
    {
        match self {
            DatabaseError::DatabaseExec { command } => {
                let mut r = String::from_str("Failed executing command on the database: ");
                r.append(command.as_str());
                r
            },
            DatabaseError::DataLocation => String::from_str(
                "Failed finding the correct location for local data",
            ),
            DatabaseError::ConnectionFailed { path } => {
                let mut r = String::from_str("Failed connecting to the database at ");
                r.append(path.as_str());
                r
            },
            DatabaseError::DatabaseQuerying { object } => {
                let mut r = String::from_str("Failed querying the database for ");
                r.append(object.as_str());
                r
            },
        }
    }
}

/// The diagnostic text of any runner failure.
pub open spec fn spec_error_message(e: AocError) -> Seq<char> {
    match e {
        AocError::Input(inner) => "Input error: "@ + spec_input_message(inner),
        AocError::Solution(inner) => "Solution error: "@ + spec_solution_message(inner),
        AocError::Loading(inner) => "Loading error: "@ + spec_loading_message(inner),
        AocError::Database(inner) => "Database error: "@ + spec_database_message(inner),
        AocError::InvalidPart(part) => "Invalid part number: "@ + spec_u64_string(part as nat),
        AocError::InvalidYear { year, reason } => "Invalid year "@ + spec_i64_string(year as int)
            + ": "@ + reason@,
        AocError::InvalidDay { year, day, reason } => "Invalid day "@ + spec_u64_string(day as nat)
            + " for year "@ + spec_i64_string(year as int) + ": "@ + reason@,
    }
}

impl AocError {
    /// Renders the diagnostic text of the failure.
    pub fn message(&self) -> (r: String)
        ensures
            r@ == spec_error_message(*self),
    {
        match self {
            AocError::Input(inner) => {
                let mut r = String::from_str("Input error: ");
                let m = inner.message();
                r.append(m.as_str());
                r
            },
            AocError::Solution(inner) => {
                let mut r = String::from_str("Solution error: ");
                let m = inner.message();
                r.append(m.as_str());
                r
            },
            AocError::Loading(inner) => {
                let mut r = String::from_str("Loading error: ");
                let m = inner.message();
                r.append(m.as_str());
                r
            },
            AocError::Database(inner) => {
                let mut r = String::from_str("Database error: ");
                let m = inner.message();
                r.append(m.as_str());
                r
            },
            AocError::InvalidPart(part) => {
                let mut r = String::from_str("Invalid part number: ");
                let p = u8_to_string(*part);
                r.append(p.as_str());
                r
            },
            AocError::InvalidYear { year, reason } => {
                let mut r = String::from_str("Invalid year ");
                let y = i64_to_string(*year as i64);
                r.append(y.as_str());
                r.append(": ");
                r.append(reason.as_str());
                r
            },
            AocError::InvalidDay { year, day, reason } => {
                let mut r = String::from_str("Invalid day ");
                let d = u8_to_string(*day);
                r.append(d.as_str());
                r.append(" for year ");
                let y = i64_to_string(*year as i64);
                r.append(y.as_str());
                r.append(": ");
                r.append(reason.as_str());
                r
            },
        }
    }
}

} // verus!
