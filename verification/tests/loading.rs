use advent_of_utils::discovery::{contains_sub, filter_candidates, resolve_candidates, ProbeOutcome};
use advent_of_utils::dispatch::{dispatch_day, round_trip_outcomes, run_part, run_parts};
use advent_of_utils::error::{AocError, LoadingError, SolutionError};
use advent_of_utils::loader::{construction_outcome, LoadedModule, ModulePhase, TeardownAction};
use advent_of_utils::registry::{expand_day_specs, DaySpec, SolverRegistry};
use advent_of_utils::solution::{ConstSolver, EchoSolver, Solution};
use advent_of_utils::{AocOption, Parts, PuzzleInput};

fn probe(path: &str, valid: bool, error: Option<&str>) -> ProbeOutcome {
    ProbeOutcome {
        path: path.to_string(),
        valid,
        error: error.map(|e| e.to_string()),
    }
}

#[test]
fn substring_search() {
    assert!(contains_sub("solutions_2023.so", "2023"));
    assert!(!contains_sub("solutions_2024.so", "2023"));
    assert!(contains_sub("abc", ""));
    assert!(!contains_sub("ab", "abc"));
}

#[test]
fn candidates_filtered_by_year_token() {
    let names = vec![
        "solutions_2023.so".to_string(),
        "readme.md".to_string(),
        "lib2023_old.so".to_string(),
    ];
    let got = filter_candidates(&names, 2023);
    assert_eq!(
        got,
        vec!["solutions_2023.so".to_string(), "lib2023_old.so".to_string()]
    );
}

#[test]
fn discovery_returns_the_single_valid_path() {
    // One candidate opens and exports the construction symbol.
    let outcomes = vec![
        probe("solutions_2023.so", true, None),
        probe("broken_2023.so", false, Some("missing symbol 'create_solutions'")),
    ];
    let got = resolve_candidates(outcomes, 2023, &"target/release".to_string());
    assert_eq!(got.unwrap(), "solutions_2023.so".to_string());
}

#[test]
fn discovery_refuses_ambiguous_candidates() {
    // Scenario: two valid libraries for one year are an explicit failure
    // listing both paths, never a silent guess.
    let outcomes = vec![
        probe("solutions_2023.so", true, None),
        probe("solutions_2023_old.so", true, None),
    ];
    let got = resolve_candidates(outcomes, 2023, &"target/release".to_string());
    match got {
        Err(AocError::Loading(LoadingError::AmbiguousLibraries { paths })) => {
            assert_eq!(
                paths,
                vec!["solutions_2023.so".to_string(), "solutions_2023_old.so".to_string()]
            );
        }
        other => panic!("expected ambiguous-libraries failure, got {:?}", other),
    }
}

#[test]
fn discovery_reports_missing_and_invalid_libraries() {
    let none: Vec<ProbeOutcome> = Vec::new();
    match resolve_candidates(none, 2023, &"ws".to_string()) {
        Err(AocError::Loading(LoadingError::LibraryNotFound { year, search_path })) => {
            assert_eq!(year, 2023);
            assert_eq!(search_path, "ws".to_string());
        }
        other => panic!("expected library-not-found failure, got {:?}", other),
    }
    let all_bad = vec![
        probe("a_2023.so", false, Some("first error")),
        probe("b_2023.so", false, Some("last error")),
    ];
    match resolve_candidates(all_bad, 2023, &"ws".to_string()) {
        Err(AocError::Loading(LoadingError::InvalidLibrary { reason })) => {
            assert_eq!(reason, "last error".to_string());
        }
        other => panic!("expected invalid-library failure, got {:?}", other),
    }
    let silent_bad = vec![probe("a_2023.so", false, None)];
    match resolve_candidates(silent_bad, 2023, &"ws".to_string()) {
        Err(AocError::Loading(LoadingError::InvalidLibrary { reason })) => {
            assert_eq!(reason, "No valid solution libraries found".to_string());
        }
        other => panic!("expected invalid-library failure, got {:?}", other),
    }
}

#[test]
fn day_specs_expand_in_order() {
    let specs = vec![
        DaySpec::Range(1, 3),
        DaySpec::Single(12),
        DaySpec::Range(5, 5),
        DaySpec::Range(9, 7),
    ];
    assert_eq!(expand_day_specs(&specs), vec![1, 2, 3, 12, 5]);
}

#[test]
fn registry_keys_are_unique_days() {
    let mut registry: SolverRegistry<EchoSolver> = SolverRegistry::new();
    assert!(registry.insert(5, EchoSolver));
    assert!(!registry.insert(5, EchoSolver));
    assert!(!registry.insert(0, EchoSolver));
    assert!(!registry.insert(26, EchoSolver));
    assert!(registry.insert(7, EchoSolver));
    assert_eq!(registry.len(), 2);
    assert!(registry.contains_day(5));
    assert!(!registry.contains_day(6));
    assert!(registry.get(7).is_some());
    assert!(registry.get(9).is_none());
    assert_eq!(registry.days(), vec![5, 7]);
}

#[test]
fn construction_null_pointer_is_a_failure() {
    match construction_outcome(true, 2023) {
        Err(AocError::Loading(LoadingError::NoSolutions { year })) => assert_eq!(year, 2023),
        other => panic!("expected no-solutions failure, got {:?}", other),
    }
    assert_eq!(construction_outcome(false, 2023).unwrap(), ModulePhase::Live);
}

#[test]
fn module_release_decides_the_destroy_call_once() {
    let mut registry: SolverRegistry<EchoSolver> = SolverRegistry::new();
    registry.insert(1, EchoSolver);
    let mut module = LoadedModule::new(registry);
    assert!(module.is_live());
    assert!(module.get(1).is_some());
    assert_eq!(module.release(true), TeardownAction::CallDestroy);
    assert!(!module.is_live());

    let mut registry2: SolverRegistry<EchoSolver> = SolverRegistry::new();
    registry2.insert(1, EchoSolver);
    let mut module2 = LoadedModule::new(registry2);
    // With the destruction symbol absent the registry leaks, logged only.
    assert_eq!(module2.release(false), TeardownAction::LeakAndLog);
    assert!(!module2.is_live());
}

#[test]
fn registry_round_trip_matches_duplicate() {
    // Scenario: construct, get a day, invoke, and compare with a freshly
    // duplicated handle of the same day.
    let mut registry: SolverRegistry<EchoSolver> = SolverRegistry::new();
    registry.insert(3, EchoSolver);
    let module = LoadedModule::new(registry);
    let input = PuzzleInput("the puzzle text".to_string());
    let ((direct_a, duped_a), (direct_b, duped_b)) =
        round_trip_outcomes(&module, 3, &input).unwrap();
    assert_eq!(direct_a.to_display_string(), "the puzzle text");
    assert_eq!(duped_a.to_display_string(), direct_a.to_display_string());
    assert!(direct_b.is_absent());
    assert!(duped_b.is_absent());
    assert!(round_trip_outcomes(&module, 4, &input).is_none());
}

#[test]
fn dispatch_runs_part_a_and_reports_part_b_absent() {
    // Scenario: day 5 requested with no part named, and the module
    // implements only part 1 of day 5.
    let mut registry: SolverRegistry<EchoSolver> = SolverRegistry::new();
    registry.insert(5, EchoSolver);
    let module = LoadedModule::new(registry);
    let input = PuzzleInput("abc".to_string());
    let results = dispatch_day(&module, 5, &None, &input).unwrap();
    assert_eq!(results.len(), 2);
    assert_eq!(results[0].day(), 5);
    assert_eq!(results[0].part(), Parts::Part1);
    assert_eq!(results[0].result().to_display_string(), "abc");
    assert_eq!(results[0].time.duration().len(), 1);
    assert_eq!(results[1].day(), 5);
    assert_eq!(results[1].part(), Parts::Part2);
    assert!(results[1].result().is_absent());
    assert_eq!(results[1].time.duration().len(), 1);
}

#[test]
fn dispatch_missing_day_fails() {
    // Scenario: day 9 is requested but the registry has no entry for 9.
    let registry: SolverRegistry<EchoSolver> = SolverRegistry::new();
    let module = LoadedModule::new(registry);
    let input = PuzzleInput("abc".to_string());
    match dispatch_day(&module, 9, &None, &input) {
        Err(AocError::Solution(SolutionError::SolverMissing { day })) => assert_eq!(day, 9),
        other => panic!("expected solver-missing failure, got {:?}", other),
    }
}

#[test]
fn dispatch_single_part_requests() {
    let solver = ConstSolver {
        a: AocOption::Int(11),
        b: AocOption::Str("eleven".to_string()),
    };
    let input = PuzzleInput("ignored".to_string());
    let only_b = run_parts(&solver, 2, &Some(Parts::Part2), &input);
    assert_eq!(only_b.len(), 1);
    assert_eq!(only_b[0].part(), Parts::Part2);
    assert_eq!(only_b[0].result().to_display_string(), "eleven");
    let one = run_part(&solver, 2, Parts::Part1, &input);
    assert_eq!(one.result().to_display_string(), "11");
}

#[test]
fn solver_duplicates_behave_alike() {
    let solver = ConstSolver {
        a: AocOption::Int(3),
        b: AocOption::Absent,
    };
    let copy = solver.duplicate();
    assert_eq!(
        copy.part1("x".to_string()).to_display_string(),
        solver.part1("x".to_string()).to_display_string()
    );
    assert!(copy.part2("x".to_string()).is_absent());
}
