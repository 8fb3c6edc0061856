//! Puzzle availability: the current date in the puzzle site's time zone,
//! which years and days have puzzles, and when a puzzle is released.

use vstd::prelude::*;

use chrono::Datelike;

use crate::decimal::{i64_to_string, spec_i64_string, spec_u64_string, u8_to_string};
use crate::error::AocError;

verus! {

/// The first year with puzzles.
pub const AOC_START_YEAR: i32 = 2015;

/// The number of puzzle days in a full year.
pub const MAX_PUZZLE_DAY: u8 = 25;

/// Puzzles release at midnight in UTC-5.
pub const EST_OFFSET_SECONDS: i32 = 5 * 3600;

/// The largest calendar year this module reasons about; chrono documents
/// support for roughly 262,000 years either side of the epoch.
pub const MAX_MODEL_YEAR: i32 = 300_000;

/// Relies on `chrono::Utc::now`, `DateTime::with_timezone` with
/// `FixedOffset::west_opt(5 * 3600)`, `DateTime::timestamp`, and the
/// `Datelike` accessors: the result is the current Unix time in seconds and
/// the current civil date in UTC-5. `Datelike` documents the month in 1..=12
/// and the day in 1..=31; chrono documents dates within about 262,000 years either side
/// of the epoch, which bounds the year and the timestamp. `west_opt` is
/// documented to return a value for any offset smaller than a day, so the
/// fixed five-hour offset always exists. `Utc::now` itself panics on a
/// system clock set before the epoch or past chrono's maximum year; no
/// input of this function can exclude that.
#[verifier::external_body]
fn now_est_parts() -> (r: (i64, i32, u32, u32))
    ensures
        -9_000_000_000_000_000 <= r.0 <= 9_000_000_000_000_000,
        -300_000 <= r.1 <= 300_000,
        1 <= r.2 <= 12,
        1 <= r.3 <= 31,
{
    let t = chrono::Utc::now().with_timezone(
        &chrono::FixedOffset::west_opt(EST_OFFSET_SECONDS).unwrap(),
    );
    (t.timestamp(), t.year(), t.month(), t.day())
}

/// The current moment, as the puzzle site's clock sees it: a Unix timestamp
/// and the civil date in UTC-5.
#[derive(Debug, Clone, Copy)]
pub struct AocTime {
    /// Unix time, in seconds.
    pub timestamp: i64,
    /// Civil year in UTC-5.
    pub year: i32,
    /// Civil month in UTC-5, 1 to 12.
    pub month: u8,
    /// Civil day of month in UTC-5, 1 to 31.
    pub day: u8,
}

impl AocTime {
    /// A well-formed time holds a civil date and a timestamp within the
    /// ranges the clock can produce.
    pub open spec fn wf(self) -> bool {
        &&& 1 <= self.month <= 12
        &&& 1 <= self.day <= 31
        &&& -300_000 <= self.year <= 300_000
        &&& -9_000_000_000_000_000 <= self.timestamp <= 9_000_000_000_000_000
    }

    /// Reads the current time from the system clock.
    pub fn now() -> (r: AocTime)
        ensures
            r.wf(),
    {
        let (timestamp, year, month, day) = now_est_parts();
        AocTime { timestamp, year, month: month as u8, day: day as u8 }
    }

    /// A time built from its parts; timestamp and date are taken on faith to
    /// describe the same moment.
    pub fn from_parts(timestamp: i64, year: i32, month: u8, day: u8) -> (r: AocTime)
        requires
            1 <= month <= 12,
            1 <= day <= 31,
            -300_000 <= year <= 300_000,
            -9_000_000_000_000_000 <= timestamp <= 9_000_000_000_000_000,
        ensures
            r.wf(),
            r == (AocTime { timestamp, year, month, day }),
    {
        AocTime { timestamp, year, month, day }
    }

    /// The latest year whose puzzles have started releasing: the current
    /// year in December, else the previous year.
    pub open spec fn spec_current_year(self) -> int {
        if self.month == 12 {
            self.year as int
        } else {
            self.year - 1
        }
    }

    /// The latest year with available puzzles.
    pub fn current_year(&self) -> (r: i32)
        requires
            self.wf(),
        ensures
            r == self.spec_current_year(),
    {
        if self.month == 12 {
            self.year
        } else {
            self.year - 1
        }
    }

    /// The last released puzzle day of a year: none for a future year, the
    /// day of month during that year's December but never more than the 25
    /// puzzle days there are, else the full 25.
    pub open spec fn spec_available_day(self, year: int) -> u8 {
        if year > self.spec_current_year() {
            0
        } else if year == self.year && self.month == 12 && self.day < 25 {
            self.day
        } else {
            25
        }
    }

    /// The last released puzzle day of the given year.
    pub fn available_day(&self, year: i32) -> (r: u8)
        requires
            self.wf(),
        ensures
            r == self.spec_available_day(year as int),
            r <= MAX_PUZZLE_DAY,
    {
        if year > self.current_year() {
            0
        } else if year == self.year && self.month == 12 && self.day < MAX_PUZZLE_DAY {
            self.day
        } else {
            MAX_PUZZLE_DAY
        }
    }

    /// Whether a year has available puzzles.
    pub open spec fn spec_year_valid(self, year: int) -> bool {
        AOC_START_YEAR <= year <= self.spec_current_year()
    }

    /// Checks that a year has puzzles: not before the first event, and not
    /// after the latest available year.
    pub fn validate_year(&self, year: i32) -> (r: Result<(), AocError>)
        requires
            self.wf(),
        ensures
            match r {
                Ok(()) => self.spec_year_valid(year as int),
                Err(e) => !self.spec_year_valid(year as int) && match e {
                    AocError::InvalidYear { year: y, reason } => y == year && reason@ == (
                    if year < AOC_START_YEAR {
                        spec_year_too_early_reason()
                    } else {
                        spec_year_too_late_reason(self.spec_current_year())
                    }),
                    _ => false,
                },
            },
    {
        if year < AOC_START_YEAR {
            Err(AocError::InvalidYear { year, reason: year_too_early_reason() })
        } else if year > self.current_year() {
            Err(
                AocError::InvalidYear {
                    year,
                    reason: year_too_late_reason(self.current_year()),
                },
            )
        } else {
            Ok(())
        }
    }

    /// Whether a day of a year has an available puzzle.
    pub open spec fn spec_date_valid(self, year: int, day: u8) -> bool {
        self.spec_year_valid(year) && 1 <= day && day <= self.spec_available_day(year)
    }

    /// Checks that a day of a year has an available puzzle.
    pub fn validate_date(&self, year: i32, day: u8) -> (r: Result<(), AocError>)
        requires
            self.wf(),
        ensures
            match r {
                Ok(()) => self.spec_date_valid(year as int, day),
                Err(e) => !self.spec_date_valid(year as int, day) && (
                if !self.spec_year_valid(year as int) {
                    e is InvalidYear
                } else {
                    match e {
                        AocError::InvalidDay { year: y, day: d, reason } => y == year && d == day
                            && reason@ == (if day == 0 {
                            spec_day_zero_reason()
                        } else {
                            spec_day_too_late_reason(
                                year as int,
                                self.spec_available_day(year as int),
                            )
                        }),
                        _ => false,
                    }
                }),
            },
    {
        if let Err(e) = self.validate_year(year) {
            return Err(e);
        }
        let max_day = self.available_day(year);
        if day == 0 {
            Err(AocError::InvalidDay { year, day, reason: day_zero_reason() })
        } else if day > max_day {
            Err(AocError::InvalidDay { year, day, reason: day_too_late_reason(year, max_day) })
        } else {
            Ok(())
        }
    }

    /// Whether the puzzle of the given day and year is available now.
    pub fn is_puzzle_available(&self, year: i32, day: u8) -> (r: bool)
        requires
            self.wf(),
        ensures
            r == self.spec_date_valid(year as int, day),
    {
        match self.validate_date(year, day) {
            Ok(()) => true,
            Err(_) => false,
        }
    }

    /// The release moment of a puzzle — midnight in UTC-5 starting its
    /// December day — as a Unix timestamp in seconds.
    pub fn puzzle_release_time(&self, year: i32, day: u8) -> (r: i64)
        requires
            AOC_START_YEAR <= year <= MAX_MODEL_YEAR,
            1 <= day <= MAX_PUZZLE_DAY,
        ensures
            r == spec_release_timestamp(year as int, day as int),
    {
        let days = december_days_from_epoch(year, day);
        days * 86400 + (EST_OFFSET_SECONDS as i64)
    }

    /// The seconds until a puzzle releases, when it has not released yet.
    pub fn time_until_release(&self, year: i32, day: u8) -> (r: Option<i64>)
        requires
            self.wf(),
            AOC_START_YEAR <= year <= MAX_MODEL_YEAR,
            1 <= day <= MAX_PUZZLE_DAY,
        ensures
            match r {
                Some(remaining) => spec_release_timestamp(year as int, day as int)
                    > self.timestamp && remaining == spec_release_timestamp(
                    year as int,
                    day as int,
                ) - self.timestamp,
                None => spec_release_timestamp(year as int, day as int) <= self.timestamp,
            },
    {
        let release = self.puzzle_release_time(year, day);
        proof {
            lemma_release_timestamp_bounds(year as int, day as int);
        }
        if release > self.timestamp {
            Some(release - self.timestamp)
        } else {
            None
        }
    }
}

/// Why a year before the first event is refused.
pub open spec fn spec_year_too_early_reason() -> Seq<char> {
    "Advent of Code started in 2015"@
}

fn year_too_early_reason() -> (r: String)
    ensures
        r@ == spec_year_too_early_reason(),
{
    String::from_str("Advent of Code started in 2015")
}

/// Why a year after the latest available one is refused.
pub open spec fn spec_year_too_late_reason(current_year: int) -> Seq<char> {
    "Latest available year is "@ + spec_i64_string(current_year)
}

fn year_too_late_reason(current_year: i32) -> (r: String)
    ensures
        r@ == spec_year_too_late_reason(current_year as int),
{
    let mut r = String::from_str("Latest available year is ");
    let y = i64_to_string(current_year as i64);
    r.append(y.as_str());
    r
}

/// Why day zero is refused.
pub open spec fn spec_day_zero_reason() -> Seq<char> {
    "Day must be between 1 and 25"@
}

fn day_zero_reason() -> (r: String)
    ensures
        r@ == spec_day_zero_reason(),
{
    String::from_str("Day must be between 1 and 25")
}

/// Why a day past the last released one is refused.
pub open spec fn spec_day_too_late_reason(year: int, max_day: u8) -> Seq<char> {
    "Latest available day for year "@ + spec_i64_string(year) + " is "@ + spec_u64_string(
        max_day as nat,
    )
}

fn day_too_late_reason(year: i32, max_day: u8) -> (r: String)
    ensures
        r@ == spec_day_too_late_reason(year as int, max_day),
{
    let mut r = String::from_str("Latest available day for year ");
    let y = i64_to_string(year as i64);
    r.append(y.as_str());
    r.append(" is ");
    let d = u8_to_string(max_day);
    r.append(d.as_str());
    r
}

/// Days from the Unix epoch to the given day of December of the given year,
/// by era-based civil calendar arithmetic.
pub open spec fn spec_december_days_from_epoch(year: int, day: int) -> int {
    let era = year / 400;
    let yoe = year - era * 400;
    let doy = 274 + day;
    let doe = yoe * 365 + yoe / 4 - yoe / 100 + doy;
    era * 146097 + doe - 719468
}

/// The release moment of a puzzle: midnight in UTC-5 starting the given
/// December day, in seconds from the epoch.
pub open spec fn spec_release_timestamp(year: int, day: int) -> int {
    spec_december_days_from_epoch(year, day) * 86400 + EST_OFFSET_SECONDS
}

/// Days from the epoch to a December date.
fn december_days_from_epoch(year: i32, day: u8) -> (r: i64)
    requires
        AOC_START_YEAR <= year <= MAX_MODEL_YEAR,
        1 <= day <= MAX_PUZZLE_DAY,
    ensures
        r == spec_december_days_from_epoch(year as int, day as int),
        11000 <= r <= 110_000_000,
{
    let y: u64 = year as u64;
    let era: u64 = y / 400;
    proof {
        assert(era * 400 <= y && y - era * 400 < 400 && 5 <= era <= 750) by (nonlinear_arith)
            requires
                era == y / 400 && 2015 <= y <= 300_000,
        ;
    }
    let yoe: u64 = y - era * 400;
    let doy: u64 = 274 + (day as u64);
    let doe: u64 = yoe * 365 + yoe / 4 - yoe / 100 + doy;
    let total: u64 = era * 146097 + doe;
    (total as i64) - 719468
}

/// Release timestamps stay well within the clock's own range.
proof fn lemma_release_timestamp_bounds(year: int, day: int)
    requires
        AOC_START_YEAR <= year <= MAX_MODEL_YEAR,
        1 <= day <= MAX_PUZZLE_DAY,
    ensures
        0 <= spec_release_timestamp(year, day) <= 10_000_000_000_000,
{
    let era = year / 400;
    let yoe = year - era * 400;
    assert(0 <= yoe < 400 && 5 <= era <= 750) by (nonlinear_arith)
        requires
            2015 <= year <= 300_000 && era == year / 400 && yoe == year - era * 400,
    ;
    assert(0 <= yoe * 365 <= 146000) by (nonlinear_arith)
        requires
            0 <= yoe < 400,
    ;
    assert(5 * 146097 <= era * 146097 <= 750 * 146097) by (nonlinear_arith)
        requires
            5 <= era <= 750,
    ;
    assert(0 <= yoe / 4 <= 100 && 0 <= yoe / 100 <= 4);
    let days = spec_december_days_from_epoch(year, day);
    assert(0 <= days <= 110_000_000);
    assert(0 <= days * 86400 <= 110_000_000 * 86400) by (nonlinear_arith)
        requires
            0 <= days <= 110_000_000,
    ;
    assert(0 <= days * 86400 + EST_OFFSET_SECONDS <= 10_000_000_000_000);
}

} // verus!
