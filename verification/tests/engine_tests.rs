use predate::config::Config;
use predate::engine::run_all;
use predate::engine::FatalError;
use predate::engine::Outcome;
use predate::engine::Runner;
use predate::report::Verdict;
use predate::strategy::strategy_for;
use predate::strategy::Strategy;

const IDS: [&str; 10] = [
    "test-1", "test-2", "test-3", "test-4", "test-5", "test-6", "test-7", "test-8", "test-9",
    "test-10",
];

fn config_with_sizes(sizes: [i64; 10]) -> Config {
    let tests: Vec<(String, String)> = IDS
        .iter()
        .map(|id| (id.to_string(), format!("$GREPQ {}", id)))
        .collect();
    let size_pairs: Vec<(String, i64)> = IDS
        .iter()
        .enumerate()
        .map(|(i, id)| (id.to_string(), sizes[i]))
        .collect();
    match Config::from_pairs(&tests, &size_pairs) {
        Ok(cfg) => cfg,
        Err(_) => panic!("complete document was rejected"),
    }
}

/// One non-fatal outcome per test, matching each test's strategy: captured
/// stdout for the count tests, a measured file length otherwise.
fn outcomes_with(counts: [i64; 10]) -> Vec<Outcome> {
    (0..10)
        .map(|i| match strategy_for(i) {
            Strategy::Count => Outcome::Stdout(format!("{}\n", counts[i]).into_bytes()),
            _ => Outcome::FileSize(counts[i]),
        })
        .collect()
}

fn durations(label: &str) -> Vec<String> {
    (0..10).map(|_| label.to_string()).collect()
}

#[test]
fn strategy_table_is_fixed() {
    for i in 0..10 {
        let expected = if i == 6 || i == 7 {
            Strategy::Count
        } else if i == 9 {
            Strategy::NamedFile
        } else {
            Strategy::RedirectToTemp
        };
        assert_eq!(strategy_for(i), expected);
    }
}

#[test]
fn redirect_commands_carry_scratch_file() {
    let cfg = config_with_sizes([1; 10]);
    let runner = Runner::new(&cfg, true);
    assert_eq!(runner.cases[0].command, "grepq test-1 > /tmp/test-1.txt");
    assert_eq!(runner.cases[6].command, "grepq test-7");
    assert_eq!(runner.cases[9].command, "grepq test-10");
}

#[test]
fn control_flag_selects_executable_path() {
    let cfg = config_with_sizes([1; 10]);
    let installed = Runner::new(&cfg, true);
    let built = Runner::new(&cfg, false);
    assert_eq!(installed.cases[6].command, "grepq test-7");
    assert_eq!(built.cases[6].command, "../target/release/grepq test-7");
}

#[test]
fn count_match_passes_and_mismatch_fails_with_got_value() {
    let mut sizes = [50; 10];
    sizes[6] = 42;
    let cfg = config_with_sizes(sizes);
    let mut counts = [50; 10];
    counts[6] = 42;
    let rep = match run_all(&cfg, true, &outcomes_with(counts), &durations("1ms")) {
        Ok(rep) => rep,
        Err(_) => panic!("run with matching counts aborted"),
    };
    assert_eq!(rep.entries[6].verdict, Verdict::Passed);
    assert_eq!(rep.entries[6].actual, 42);
    assert_eq!(rep.failing, 0);

    let mut stricter = sizes;
    stricter[6] = 43;
    let cfg2 = config_with_sizes(stricter);
    let rep2 = match run_all(&cfg2, true, &outcomes_with(counts), &durations("1ms")) {
        Ok(rep) => rep,
        Err(_) => panic!("run with a mismatched count aborted"),
    };
    assert_eq!(rep2.entries[6].verdict, Verdict::Failed);
    assert_eq!(rep2.entries[6].expected, 43);
    assert_eq!(rep2.entries[6].actual, 42);
    assert_eq!(rep2.entries[6].command, "grepq test-7");
    assert_eq!(rep2.failing, 1);
    assert_eq!(rep2.passing, 9);
}

#[test]
fn redirect_comparison_uses_reported_file_length() {
    let mut sizes = [7; 10];
    sizes[0] = 100;
    let cfg = config_with_sizes(sizes);
    let mut measured = [7; 10];
    measured[0] = 100;
    let rep = match run_all(&cfg, true, &outcomes_with(measured), &durations("2ms")) {
        Ok(rep) => rep,
        Err(_) => panic!("run aborted"),
    };
    assert_eq!(rep.entries[0].verdict, Verdict::Passed);
    assert_eq!(rep.entries[0].actual, 100);

    let mut short = measured;
    short[0] = 99;
    let rep2 = match run_all(&cfg, true, &outcomes_with(short), &durations("2ms")) {
        Ok(rep) => rep,
        Err(_) => panic!("run aborted"),
    };
    assert_eq!(rep2.entries[0].verdict, Verdict::Failed);
    assert_eq!(rep2.entries[0].expected, 100);
    assert_eq!(rep2.entries[0].actual, 99);
}

#[test]
fn entries_keep_the_fixed_declared_order() {
    let cfg = config_with_sizes([5; 10]);
    let rep = match run_all(&cfg, false, &outcomes_with([5; 10]), &durations("9s")) {
        Ok(rep) => rep,
        Err(_) => panic!("run aborted"),
    };
    assert_eq!(rep.entries.len(), 10);
    for i in 0..10 {
        assert_eq!(rep.entries[i].id, IDS[i]);
    }
    assert_eq!(rep.passing, 10);
    assert_eq!(rep.failing, 0);
}

#[test]
fn parse_failure_aborts_without_later_entries() {
    let cfg = config_with_sizes([5; 10]);
    let mut outcomes = outcomes_with([5; 10]);
    outcomes[6] = Outcome::Stdout(b"not a number\n".to_vec());
    let durs = durations("1ms");

    match run_all(&cfg, true, &outcomes, &durs) {
        Err(FatalError::ParseFailure(id)) => assert_eq!(id, "test-7"),
        _ => panic!("malformed captured output did not abort the run"),
    }

    let mut runner = Runner::new(&cfg, true);
    for i in 0..6 {
        assert!(runner.step(&outcomes[i], "1ms".to_string()).is_ok());
    }
    assert!(runner.step(&outcomes[6], "1ms".to_string()).is_err());
    assert_eq!(runner.report.entries.len(), 6);
    assert_eq!(runner.next, 6);
}

#[test]
fn launch_failure_aborts_with_the_test_it_struck() {
    let cfg = config_with_sizes([5; 10]);
    let mut outcomes = outcomes_with([5; 10]);
    outcomes[2] = Outcome::LaunchFailed;
    match run_all(&cfg, true, &outcomes, &durations("1ms")) {
        Err(FatalError::LaunchFailure(id)) => assert_eq!(id, "test-3"),
        _ => panic!("a failed launch did not abort the run"),
    }
}

#[test]
fn rerun_with_same_outcomes_gives_same_verdicts() {
    let mut sizes = [5; 10];
    sizes[3] = 77;
    let cfg = config_with_sizes(sizes);
    let outcomes = outcomes_with([5; 10]);
    let rep1 = match run_all(&cfg, true, &outcomes, &durations("1ms")) {
        Ok(rep) => rep,
        Err(_) => panic!("run aborted"),
    };
    let rep2 = match run_all(&cfg, true, &outcomes, &durations("250ms")) {
        Ok(rep) => rep,
        Err(_) => panic!("run aborted"),
    };
    assert_eq!(rep1.entries.len(), rep2.entries.len());
    for i in 0..10 {
        assert_eq!(rep1.entries[i].verdict, rep2.entries[i].verdict);
    }
    assert_eq!(rep1.passing, rep2.passing);
    assert_eq!(rep1.failing, rep2.failing);
    assert_eq!(rep1.failing, 1);
}

#[test]
fn durations_are_recorded_from_the_clock() {
    let cfg = config_with_sizes([5; 10]);
    let rep = match run_all(&cfg, true, &outcomes_with([5; 10]), &durations("3.2ms")) {
        Ok(rep) => rep,
        Err(_) => panic!("run aborted"),
    };
    assert_eq!(rep.entries[4].duration, "3.2ms");
}
