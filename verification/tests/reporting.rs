use advent_of_utils::adder::choose_editor;
use advent_of_utils::config::{Config, RunConfig};
use advent_of_utils::db::{build_has_field_query, build_query, input_field, result_field, Query, Table as DbTable};
use advent_of_utils::display::{Table, TableStruct};
use advent_of_utils::error::{AocError, DatabaseError, InputError, LoadingError, SolutionError};
use advent_of_utils::old_table::{Solution as TimingRow, Widths};
use advent_of_utils::options::AocOption;
use advent_of_utils::result::{collect_results, AocDuration, AocResult, AocYear, Metrics};
use advent_of_utils::Parts;

#[test]
fn parts_numbering() {
    assert_eq!(Parts::new(1).unwrap(), Parts::Part1);
    assert_eq!(Parts::new(2).unwrap(), Parts::Part2);
    match Parts::new(3) {
        Err(AocError::InvalidPart(3)) => {}
        other => panic!("expected invalid-part failure, got {:?}", other),
    }
    assert_eq!(Parts::Part1.as_number(), 1);
    assert_eq!(Parts::Part2.as_number(), 2);
    assert_eq!(Parts::Part1.to_display_string(), "Part 1");
    assert_eq!(Parts::Part2.to_display_string(), "Part 2");
}

#[test]
fn outcome_display() {
    assert_eq!(AocOption::Str("abc".to_string()).to_display_string(), "abc");
    assert_eq!(AocOption::Int(-7).to_display_string(), "-7");
    assert_eq!(AocOption::Absent.to_display_string(), "None");
    let from_str: AocOption = "xy".to_string().into();
    assert_eq!(from_str.to_display_string(), "xy");
    let from_int: AocOption = 42i64.into();
    assert_eq!(from_int.to_display_string(), "42");
    let from_i32: AocOption = 9i32.into();
    assert_eq!(from_i32.to_display_string(), "9");
    let from_u32: AocOption = 8u32.into();
    assert_eq!(from_u32.to_display_string(), "8");
    let from_u8: AocOption = 3u8.into();
    assert_eq!(from_u8.to_display_string(), "3");
    let from_i16: AocOption = (-2i16).into();
    assert_eq!(from_i16.to_display_string(), "-2");
    let from_text: AocOption = "borrowed".into();
    assert_eq!(from_text.to_display_string(), "borrowed");
    let from_usize: AocOption = 17usize.into();
    assert_eq!(from_usize.to_display_string(), "17");
    let from_isize: AocOption = (-4isize).into();
    assert_eq!(from_isize.to_display_string(), "-4");
    let from_some: AocOption = Some(6i32).into();
    assert_eq!(from_some.to_display_string(), "6");
    let from_none: AocOption = Option::<i32>::None.into();
    assert!(from_none.is_absent());
    let big_ok = AocOption::try_from(42u64).unwrap();
    assert_eq!(big_ok.to_display_string(), "42");
    assert!(AocOption::try_from(u64::MAX).is_err());
    assert!(AocOption::try_from(i128::MIN).is_err());
    let narrow = AocOption::try_from(-9i128).unwrap();
    assert_eq!(narrow.to_display_string(), "-9");
    assert!(AocOption::try_from(u128::MAX).is_err());
}

#[test]
fn result_accessors_and_averages() {
    let mut r = AocResult::new(3, 1, AocOption::Int(5), 100);
    assert_eq!(r.day(), 3);
    assert_eq!(r.part(), Parts::Part1);
    assert_eq!(r.result().to_display_string(), "5");
    assert_eq!(r.avg_time(), Some(100));
    let mut extra = vec![300u64];
    r.additional_time(&mut extra);
    assert!(extra.is_empty());
    assert_eq!(r.avg_time(), Some(200));
    let taken = r.get_mut_time();
    assert_eq!(taken, vec![100, 300]);
    assert_eq!(r.avg_time(), None);
}

#[test]
fn duration_operations() {
    let mut d = AocDuration::new(vec![2, 4]);
    assert_eq!(d.duration_len(), 2);
    assert_eq!(d.avg_time(), Some(3));
    let mut more = vec![6u64];
    d.additional_time(&mut more);
    assert_eq!(d.duration(), &vec![2, 4, 6]);
    assert_eq!(d.avg_time(), Some(4));
    assert_eq!(AocDuration::new(Vec::new()).avg_time(), None);
}

#[test]
fn duration_display_units() {
    assert_eq!(AocDuration::new(Vec::new()).display_string(), "None");
    assert_eq!(AocDuration::new(vec![999]).display_string(), "999 ns");
    assert_eq!(AocDuration::new(vec![1_500]).display_string(), "1.50 us");
    assert_eq!(AocDuration::new(vec![2_530_000]).display_string(), "2.53 ms");
    assert_eq!(AocDuration::new(vec![3_040_000_000]).display_string(), "3.04 s");
}

#[test]
fn merging_results_concatenates_samples() {
    // Two results of one (day, part) key merge additively: the first one's
    // outcome is kept and no sample is dropped.
    let first = AocResult::new(5, 1, AocOption::Int(1), 10);
    let second = AocResult::new(5, 1, AocOption::Int(2), 20);
    let other_part = AocResult::new(5, 2, AocOption::Int(3), 30);
    let year = AocYear::from_vec(vec![first, second, other_part]);
    let merged = year.get(5, Parts::Part1).unwrap();
    assert_eq!(merged.time.duration(), &vec![10, 20]);
    assert_eq!(merged.result().to_display_string(), "1");
    let single = year.get(5, Parts::Part2).unwrap();
    assert_eq!(single.time.duration(), &vec![30]);
    assert!(year.get(6, Parts::Part1).is_none());
    assert_eq!(year.available_days(), &vec![5]);
}

#[test]
fn collecting_sorts_by_day_and_part() {
    let results = vec![
        AocResult::new(7, 2, AocOption::Int(72), 1),
        AocResult::new(3, 1, AocOption::Int(31), 2),
        AocResult::new(7, 1, AocOption::Int(71), 3),
        AocResult::new(3, 1, AocOption::Int(99), 4),
    ];
    let year = collect_results(results);
    let days: Vec<u8> = year.entries().iter().map(|e| e.day()).collect();
    assert_eq!(days, vec![3, 7, 7]);
    assert_eq!(year.available_days(), &vec![3, 7]);
    let merged = year.get(3, Parts::Part1).unwrap();
    assert_eq!(merged.time.duration().len(), 2);
    assert_eq!(merged.result().to_display_string(), "31");
}

#[test]
fn merging_is_commutative_and_associative_on_the_sample_collection() {
    // Merging in either order yields the same collection of samples, and
    // grouping does not matter.
    let mut ab = AocDuration::new(vec![1, 2]);
    let mut ab_rest = vec![3u64, 4];
    ab.additional_time(&mut ab_rest);
    let mut ba = AocDuration::new(vec![3, 4]);
    let mut ba_rest = vec![1u64, 2];
    ba.additional_time(&mut ba_rest);
    let mut left = ab.duration().clone();
    let mut right = ba.duration().clone();
    left.sort();
    right.sort();
    assert_eq!(left, right);
    assert_eq!(ab.duration_len(), 4);

    let mut grouped_left = AocDuration::new(vec![1]);
    let mut tail = vec![2u64];
    grouped_left.additional_time(&mut tail);
    let mut tail2 = vec![3u64];
    grouped_left.additional_time(&mut tail2);
    let mut grouped_right = AocDuration::new(vec![1]);
    let mut tail3 = vec![2u64, 3];
    grouped_right.additional_time(&mut tail3);
    assert_eq!(grouped_left.duration(), grouped_right.duration());
}

#[test]
fn totals_per_run_index() {
    let year = AocYear::from_vec(vec![
        AocResult::new(1, 1, AocOption::Int(0), 10),
        AocResult::new(1, 2, AocOption::Int(0), 20),
        AocResult::new(1, 1, AocOption::Int(0), 40),
    ]);
    let totals = year.calculate_total_time();
    assert_eq!(totals.duration(), &vec![30, 40]);
}

#[test]
fn metrics_totals_and_average() {
    let results = vec![
        AocResult::new(1, 1, AocOption::Int(0), 10),
        AocResult::new(1, 2, AocOption::Int(0), 30),
    ];
    let metrics = Metrics::new(&results);
    assert_eq!(metrics.total_solution_time, 40);
    assert_eq!(metrics.average_solution_time, 20);
    let empty = Metrics::new(&Vec::<AocResult>::new());
    assert_eq!(empty.total_solution_time, 0);
    assert_eq!(empty.average_solution_time, 0);
}

#[test]
fn table_layout_widths() {
    let contents = vec![
        vec!["Day".to_string(), "Result".to_string()],
        vec!["1".to_string(), "a long answer".to_string()],
    ];
    let table = TableStruct::new(contents);
    assert_eq!(table.cell_widths(), &vec![3, 13]);
    assert_eq!(table.contents().len(), 2);
}

#[test]
fn padding_centres_cells() {
    let padded = TableStruct::pad_center(&"ab".to_string(), 5);
    assert_eq!(padded, " ab  ");
    let exact = TableStruct::pad_center(&"abc".to_string(), 3);
    assert_eq!(exact, "abc");
}

#[test]
fn year_report_lays_out_one_row_per_day() {
    let year = AocYear::from_vec(vec![
        AocResult::new(2, 1, AocOption::Int(4), 1_500),
        AocResult::new(1, 1, AocOption::Str("x".to_string()), 10),
    ]);
    let table = year.table_constructor();
    let rows = table.contents();
    assert_eq!(rows.len(), 3);
    assert_eq!(rows[0], vec!["Day", "Part 1", "Part 2", "Avg. Time 1", "Avg. Time 2"]);
    assert_eq!(rows[1][0], "1");
    assert_eq!(rows[1][1], "x");
    assert_eq!(rows[1][2], "None");
    assert_eq!(rows[2][0], "2");
    assert_eq!(rows[2][1], "4");
    let reduced = year.reduced_table_constructor();
    assert_eq!(reduced.contents()[0].len(), 3);
}

#[test]
fn single_result_table() {
    let result = AocResult::new(4, 2, AocOption::Int(8), 999);
    let table = result.table_constructor();
    assert_eq!(table.contents().len(), 2);
    assert_eq!(table.contents()[1], vec!["4", "Part 2", "8", "999 ns"]);
    let listed = vec![result];
    let list_table = listed.table_constructor();
    assert_eq!(list_table.contents().len(), 2);
}

#[test]
fn old_table_widths() {
    let mut row = TimingRow::new();
    assert!(row.total_time.is_none());
    row.total_time = Some(1_234_000);
    row.solution = Some("answer!".to_string());
    let widths = Widths::new(&row);
    // 1234 microseconds render in four characters, plus three for a unit.
    assert_eq!(widths.total_time, 7);
    assert_eq!(widths.parse_time, 5);
    assert_eq!(widths.solution_time, 6);
    assert_eq!(widths.solution, 7);
    let other = Widths::new(&TimingRow::new());
    let max = Widths::get_max(vec![widths, other]);
    assert_eq!(max.total_time, 7);
    assert_eq!(max.solution, 7);
    let none = Widths::get_max(Vec::new());
    assert_eq!(none.total_time, 0);
}

#[test]
fn query_texts() {
    assert_eq!(input_field(true), "test_input");
    assert_eq!(input_field(false), "input");
    assert_eq!(result_field(Parts::Part1), "part_1");
    assert_eq!(result_field(Parts::Part2), "part_2");
    assert_eq!(
        build_query(DbTable::Inputs, "input", Query::Select),
        "SELECT input FROM Inputs WHERE year = ?1 AND day = ?2"
    );
    assert_eq!(
        build_query(DbTable::TestResults, "part_1", Query::Insert),
        "INSERT INTO Test_Results (year, day, part_1) VALUES (?1, ?2, ?3) \
         ON CONFLICT(year, day) DO UPDATE SET part_1 = ?3"
    );
    assert_eq!(
        build_has_field_query("test_input"),
        "SELECT COUNT(test_input) FROM Inputs WHERE year = ? AND day = ? AND test_input IS NOT NULL"
    );
}

#[test]
fn run_configuration() {
    let config = Config::new(
        2023,
        Some(4),
        Some(Parts::Part1),
        false,
        "inputs".to_string(),
        "workspace".to_string(),
    );
    assert_eq!(config.workspace_dir, "workspace/target/release");
    assert_eq!(config.input_dir, "inputs");
    let bench = RunConfig {
        year: 2023,
        day: None,
        part: None,
        test: false,
        workspace_dir: "ws".to_string(),
        benchmark: true,
    };
    assert_eq!(bench.get_run_counts(5_000_000), (5, 10));
    assert_eq!(bench.get_run_counts(50_000_000), (3, 5));
    assert_eq!(bench.get_run_counts(500_000_000), (2, 3));
    assert_eq!(bench.get_run_counts(2_000_000_000), (1, 1));
    let plain = RunConfig { benchmark: false, ..bench };
    assert_eq!(plain.get_run_counts(5_000_000), (1, 1));
}

#[test]
fn editor_selection() {
    assert_eq!(
        choose_editor(Some("hx".to_string()), true, false),
        Some("hx".to_string())
    );
    assert_eq!(choose_editor(Some("hx".to_string()), false, true), None);
    assert_eq!(choose_editor(None, false, true), Some("vim".to_string()));
    assert_eq!(choose_editor(None, false, false), Some("vi".to_string()));
}

#[test]
fn error_messages() {
    assert_eq!(
        AocError::Solution(SolutionError::SolverMissing { day: 9 }).message(),
        "Solution error: No solver registered for day 9"
    );
    assert_eq!(
        AocError::InvalidPart(7).message(),
        "Invalid part number: 7"
    );
    assert_eq!(
        LoadingError::ambiguous_libraries(vec!["a.so".to_string(), "b.so".to_string()]).message(),
        "Multiple solution libraries found: a.so, b.so"
    );
    assert_eq!(
        LoadingError::no_solutions(2023).message(),
        "No solutions found in library for year 2023"
    );
    assert_eq!(
        LoadingError::library_not_found(2023, "ws".to_string()).message(),
        "No solution library found for year 2023 under ws"
    );
    assert_eq!(
        LoadingError::library_load_failed("boom".to_string()).message(),
        "Failed to load solution library: boom"
    );
    assert_eq!(
        LoadingError::DiscoveryFailed { reason: "denied".to_string() }.message(),
        "Discovering solution libraries failed: denied"
    );
    assert_eq!(
        LoadingError::invalid_library("bad".to_string()).message(),
        "Invalid solution library: bad"
    );
    assert_eq!(
        AocError::Input(InputError::NoTestInput { day: 3 }).message(),
        "Input error: The test input for day 3 is not set"
    );
    assert_eq!(
        AocError::Database(DatabaseError::DataLocation).message(),
        "Database error: Failed finding the correct location for local data"
    );
    assert_eq!(
        AocError::Solution(SolutionError::Timeout { seconds: 30 }).message(),
        "Solution error: Solution timed out after 30 seconds"
    );
    assert_eq!(
        InputError::MissingToken { reason: "unset".to_string() }.message(),
        "Missing session token: unset"
    );
    assert_eq!(
        InputError::FetchFailed { year: 2023, day: 2, reason: "offline".to_string() }.message(),
        "Failed to fetch input for year 2023 day 2: offline"
    );
    assert_eq!(
        InputError::FileReadError { path: "p.txt".to_string(), reason: "gone".to_string() }
            .message(),
        "Failed to read input file p.txt: gone"
    );
    assert_eq!(
        AocError::InvalidYear { year: 2014, reason: "too early".to_string() }.message(),
        "Invalid year 2014: too early"
    );
    assert_eq!(
        AocError::InvalidDay { year: 2023, day: 26, reason: "late".to_string() }.message(),
        "Invalid day 26 for year 2023: late"
    );
    assert_eq!(
        SolutionError::NotImplemented.message(),
        "Solution not implemented"
    );
}
