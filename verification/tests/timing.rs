use advent_of_utils::error::AocError;
use advent_of_utils::input::{input_path, input_plan, parse_test_result, InputAction};
use advent_of_utils::time::AocTime;
use advent_of_utils::{PuzzleInput, SessionToken};

#[test]
fn clock_reads_a_civil_date() {
    let now = AocTime::now();
    assert!((1..=12).contains(&now.month));
    assert!((1..=31).contains(&now.day));
}

#[test]
fn current_year_rolls_over_in_december() {
    let december = AocTime::from_parts(0, 2023, 12, 5);
    assert_eq!(december.current_year(), 2023);
    let november = AocTime::from_parts(0, 2023, 11, 30);
    assert_eq!(november.current_year(), 2022);
}

#[test]
fn available_day_tracks_the_calendar() {
    let mid_december = AocTime::from_parts(0, 2023, 12, 5);
    assert_eq!(mid_december.available_day(2023), 5);
    assert_eq!(mid_december.available_day(2022), 25);
    assert_eq!(mid_december.available_day(2024), 0);
    // After the last puzzle day of December, the cap of 25 holds.
    let late_december = AocTime::from_parts(0, 2023, 12, 28);
    assert_eq!(late_december.available_day(2023), 25);
    assert!(late_december.validate_date(2023, 25).is_ok());
    assert!(!late_december.is_puzzle_available(2023, 26));
    let summer = AocTime::from_parts(0, 2023, 6, 1);
    assert_eq!(summer.available_day(2022), 25);
    assert_eq!(summer.available_day(2023), 0);
}

#[test]
fn year_validation() {
    let time = AocTime::from_parts(0, 2023, 12, 5);
    assert!(time.validate_year(2015).is_ok());
    assert!(time.validate_year(2023).is_ok());
    match time.validate_year(2014) {
        Err(AocError::InvalidYear { year, reason }) => {
            assert_eq!(year, 2014);
            assert_eq!(reason, "Advent of Code started in 2015");
        }
        other => panic!("expected invalid-year failure, got {:?}", other),
    }
    match time.validate_year(2024) {
        Err(AocError::InvalidYear { year, reason }) => {
            assert_eq!(year, 2024);
            assert_eq!(reason, "Latest available year is 2023");
        }
        other => panic!("expected invalid-year failure, got {:?}", other),
    }
}

#[test]
fn date_validation() {
    let time = AocTime::from_parts(0, 2023, 12, 5);
    assert!(time.validate_date(2023, 5).is_ok());
    assert!(time.validate_date(2022, 25).is_ok());
    match time.validate_date(2023, 0) {
        Err(AocError::InvalidDay { year, day, reason }) => {
            assert_eq!((year, day), (2023, 0));
            assert_eq!(reason, "Day must be between 1 and 25");
        }
        other => panic!("expected invalid-day failure, got {:?}", other),
    }
    match time.validate_date(2023, 6) {
        Err(AocError::InvalidDay { year, day, reason }) => {
            assert_eq!((year, day), (2023, 6));
            assert_eq!(reason, "Latest available day for year 2023 is 5");
        }
        other => panic!("expected invalid-day failure, got {:?}", other),
    }
    assert!(time.is_puzzle_available(2023, 5));
    assert!(!time.is_puzzle_available(2023, 6));
    assert!(!time.is_puzzle_available(2024, 1));
}

#[test]
fn release_times_are_midnights_in_utc_minus_five() {
    let time = AocTime::from_parts(0, 2023, 12, 5);
    // 2015-12-01T00:00:00 in UTC-5 is 2015-12-01T05:00:00Z,
    // 1448928000 + 18000 seconds after the epoch.
    assert_eq!(time.puzzle_release_time(2015, 1), 1_448_946_000);
    // 2023-12-25T00:00:00 in UTC-5 is 1703462400 + 18000 after the epoch.
    assert_eq!(time.puzzle_release_time(2023, 25), 1_703_480_400);
}

#[test]
fn time_until_release_counts_down() {
    let before = AocTime::from_parts(1_448_945_000, 2015, 11, 30);
    assert_eq!(before.time_until_release(2015, 1), Some(1000));
    let after = AocTime::from_parts(1_448_947_000, 2015, 12, 1);
    assert_eq!(after.time_until_release(2015, 1), None);
}

#[test]
fn input_cache_paths() {
    assert_eq!(
        input_path(&"inputs".to_string(), 2023, 4, false),
        "inputs/2023/day_4.txt"
    );
    assert_eq!(
        input_path(&"inputs".to_string(), 2023, 4, true),
        "inputs/tests/2023/day_4.txt"
    );
}

#[test]
fn input_plans() {
    assert_eq!(input_plan(true, false), InputAction::UseCached);
    assert_eq!(input_plan(true, true), InputAction::UseCached);
    assert_eq!(input_plan(false, false), InputAction::FetchAndStore);
    assert_eq!(input_plan(false, true), InputAction::FailNoTest);
}

#[test]
fn puzzle_input_accessors() {
    let input = PuzzleInput("first\nsecond".to_string());
    assert_eq!(input.input(), "first\nsecond");
    assert_eq!(input.duplicate().input(), "first\nsecond");
}

#[test]
fn test_results_read_the_first_line() {
    assert_eq!(PuzzleInput("42\nrest".to_string()).test_result(), "42");
    assert_eq!(PuzzleInput("0042\n".to_string()).test_result(), "42");
    assert_eq!(PuzzleInput("abc\nrest".to_string()).test_result(), "abc");
    assert_eq!(PuzzleInput(String::new()).test_result(), "None");
    let ok = parse_test_result(&PuzzleInput("7".to_string()), 2023, 4).unwrap();
    assert_eq!(ok.to_display_string(), "7");
    match parse_test_result(&PuzzleInput(String::new()), 2023, 4) {
        Err(AocError::Input(advent_of_utils::error::InputError::EmptyTest { year, day })) => {
            assert_eq!((year, day), (2023, 4));
        }
        other => panic!("expected empty-test failure, got {:?}", other),
    }
}

#[test]
fn session_tokens_wrap_their_text() {
    let token: SessionToken = "abc123".to_string().into();
    assert_eq!(token.token(), "abc123");
}
