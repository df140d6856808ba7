//! The sequential test-execution engine. The engine decides everything that
//! does not require touching the system: which command each test runs, how
//! its observed outcome is classified, and how the report grows. Actually
//! running a command is outside work; its observation comes back in as an
//! `Outcome` value, and the engine is verified for every value that can
//! come back.

use crate::NUM_TESTS;
use crate::config::Config;
use crate::ids::fixed_id;
use crate::ids::fixed_ids;
use crate::numparse::literal_val;
use crate::numparse::parse_count;
use crate::numparse::parses;
use crate::numparse::trimmed;
use crate::report::ExecutionResult;
use crate::report::Report;
use crate::report::Verdict;
use crate::report::classify;
use crate::strategy::Strategy;
use crate::strategy::strategy_for;
use crate::strategy::strategy_spec;
use crate::subst::placeholder;
use crate::subst::replace_all;
use crate::subst::replace_placeholder;
use vstd::prelude::*;

verus! {

/// The path substituted for the placeholder token: the installed binary on
/// the search path, or the relative build-output path.
pub open spec fn resolved_path_spec(use_installed: bool) -> Seq<char> {
    if use_installed {
        "grepq"@
    } else {
        "../target/release/grepq"@
    }
}

/// Chooses the executable path that the placeholder token resolves to.
pub fn resolve_path(use_installed: bool) -> (r: String)
    ensures
        r@ == resolved_path_spec(use_installed),
{
    if use_installed {
        "grepq".to_owned()
    } else {
        "../target/release/grepq".to_owned()
    }
}

/// The redirection appended to a redirect-strategy command: standard output
/// goes to a per-test scratch file.
pub open spec fn scratch_suffix(id: Seq<char>) -> Seq<char> {
    " > /tmp/"@ + id + ".txt"@
}

/// The exact command string run for the test at position `i`: the template
/// with the placeholder replaced, plus the scratch-file redirection when the
/// test's strategy calls for one.
pub open spec fn effective_command(template: Seq<char>, path: Seq<char>, i: int) -> Seq<char> {
    let m = replace_all(template, placeholder(), path);
    if strategy_spec(i) is RedirectToTemp {
        m + scratch_suffix(fixed_ids()[i])
    } else {
        m
    }
}

/// One test, ready to run: its identifier, the exact command to hand to the
/// shell, the expected result, and how to measure the actual one.
pub struct PreparedTest {
    pub id: String,
    pub command: String,
    pub expected: i64,
    pub strategy: Strategy,
}

/// What running one test was observed to do: the captured standard output
/// (count strategy), the byte length the filesystem reports for the measured
/// file (the other strategies), or a shell that failed to start.
pub enum Outcome {
    Stdout(Vec<u8>),
    FileSize(i64),
    LaunchFailed,
}

/// An error that aborts the whole run, carrying the identifier of the test
/// it struck: the shell could not be launched, or captured output did not
/// parse as an integer.
pub enum FatalError {
    LaunchFailure(String),
    ParseFailure(String),
}

/// An outcome of the given kind can only be observed under the strategy
/// that measures it; a failed launch can strike any test.
pub open spec fn outcome_matches(strat: Strategy, o: Outcome) -> bool {
    match o {
        Outcome::Stdout(_) => strat is Count,
        Outcome::FileSize(_) => strat is RedirectToTemp || strat is NamedFile,
        Outcome::LaunchFailed => true,
    }
}

/// Whether an observed outcome aborts the run: a launch failure always does,
/// and captured output that is not an integer in range does.
pub open spec fn outcome_fatal(o: Outcome) -> bool {
    match o {
        Outcome::LaunchFailed => true,
        Outcome::Stdout(b) => !parses(trimmed(b@)),
        Outcome::FileSize(_) => false,
    }
}

/// The actual numeric result of a non-fatal outcome.
pub open spec fn outcome_actual(o: Outcome) -> int {
    match o {
        Outcome::Stdout(b) => literal_val(trimmed(b@)),
        Outcome::FileSize(n) => n as int,
        Outcome::LaunchFailed => 0,
    }
}

/// The fatal error reported for the given outcome at the given test.
pub open spec fn fatal_for(e: FatalError, o: Outcome, id: Seq<char>) -> bool {
    match e {
        FatalError::LaunchFailure(s) => o is LaunchFailed && s@ == id,
        FatalError::ParseFailure(s) => s@ == id && match o {
            Outcome::Stdout(b) => !parses(trimmed(b@)),
            Outcome::FileSize(_) => false,
            Outcome::LaunchFailed => false,
        },
    }
}

/// The record appended for a non-fatal outcome of one prepared test.
pub open spec fn entry_for(case: PreparedTest, o: Outcome, duration: String) -> ExecutionResult {
    ExecutionResult {
        id: case.id,
        command: case.command,
        duration: duration,
        expected: case.expected,
        actual: outcome_actual(o) as i64,
        verdict: if outcome_actual(o) == case.expected as int {
            Verdict::Passed
        } else {
            Verdict::Failed
        },
    }
}

/// The engine's state while a run is in progress: the prepared tests in the
/// fixed order, how many have been recorded, and the report so far.
pub struct Runner {
    pub cases: Vec<PreparedTest>,
    pub next: usize,
    pub report: Report,
}

impl Runner {
    /// The prepared tests follow the fixed order and table, the report is
    /// well formed, and it holds one record per test already run, each
    /// agreeing with its test.
    pub open spec fn wf(self) -> bool {
        &&& self.cases@.len() == NUM_TESTS
        &&& self.next <= NUM_TESTS
        &&& self.report.wf()
        &&& self.report.entries@.len() == self.next
        &&& forall|i: int|
            0 <= i < NUM_TESTS ==> (#[trigger] self.cases@[i]).id@ == fixed_ids()[i]
                && self.cases@[i].strategy == strategy_spec(i)
        &&& forall|i: int|
            0 <= i < self.next ==> (#[trigger] self.report.entries@[i]).id@ == self.cases@[i].id@
                && self.report.entries@[i].command@ == self.cases@[i].command@
                && self.report.entries@[i].expected == self.cases@[i].expected
    }

    /// Prepares a run: materializes each template with the resolved path,
    /// appends the scratch-file redirection where the strategy calls for
    /// one, and pairs each test with its expected result.
    pub fn new(cfg: &Config, use_installed: bool) -> (r: Runner)
        requires
            cfg.wf(),
        ensures
            r.wf(),
            r.next == 0,
            forall|i: int|
                0 <= i < NUM_TESTS ==> (#[trigger] r.cases@[i]).command@ == effective_command(
                    cfg.templates@[i]@,
                    resolved_path_spec(use_installed),
                    i,
                ) && r.cases@[i].expected == cfg.expected@[i],
    {
        let path = resolve_path(use_installed);
        let mut cases: Vec<PreparedTest> = Vec::new();
        let mut i: usize = 0;
        while i < NUM_TESTS
            invariant
                cfg.wf(),
                i <= NUM_TESTS,
                path@ == resolved_path_spec(use_installed),
                cases@.len() == i,
                forall|k: int|
                    0 <= k < i ==> (#[trigger] cases@[k]).id@ == fixed_ids()[k]
                        && cases@[k].strategy == strategy_spec(k) && cases@[k].command@
                        == effective_command(
                        cfg.templates@[k]@,
                        resolved_path_spec(use_installed),
                        k,
                    ) && cases@[k].expected == cfg.expected@[k],
            decreases NUM_TESTS - i,
        {
            let id = fixed_id(i);
            let materialized = replace_placeholder(cfg.templates[i].as_str(), path.as_str());
            let strat = strategy_for(i);
            let command = match strat {
                Strategy::RedirectToTemp => {
                    let mut c = materialized;
                    c.append(" > /tmp/");
                    c.append(id.as_str());
                    c.append(".txt");
                    proof {
                        assert(c@ =~= replace_all(
                            cfg.templates@[i as int]@,
                            placeholder(),
                            resolved_path_spec(use_installed),
                        ) + scratch_suffix(fixed_ids()[i as int]));
                    }
                    c
                },
                _ => materialized,
            };
            let expected = cfg.expected[i];
            cases.push(PreparedTest { id, command, expected, strategy: strat });
            i = i + 1;
        }
        Runner { cases, next: 0, report: Report::new() }
    }

    /// Consumes the observation of the test now due. A fatal outcome leaves
    /// the engine untouched and returns the error that aborts the run; any
    /// other outcome appends exactly one record, with the verdict from
    /// comparing the measured result to the expected one.
    pub fn step(&mut self, outcome: &Outcome, duration: String) -> (r: Result<(), FatalError>)
        requires
            old(self).wf(),
            old(self).next < NUM_TESTS,
            outcome_matches(old(self).cases@[old(self).next as int].strategy, *outcome),
        ensures
            final(self).wf(),
            final(self).cases == old(self).cases,
            outcome_fatal(*outcome) ==> *final(self) == *old(self) && match r {
                Result::Ok(_) => false,
                Result::Err(e) => fatal_for(e, *outcome, fixed_ids()[old(self).next as int]),
            },
            !outcome_fatal(*outcome) ==> r is Ok && final(self).next == old(self).next + 1
                && final(self).report.entries@ == old(self).report.entries@.push(
                entry_for(old(self).cases@[old(self).next as int], *outcome, duration),
            ),
    {
        let idx = self.next;
        let id = self.cases[idx].id.clone();
        let command = self.cases[idx].command.clone();
        let expected = self.cases[idx].expected;
        let actual: i64 = match outcome {
            Outcome::LaunchFailed => {
                return Err(FatalError::LaunchFailure(id));
            },
            Outcome::Stdout(b) => {
                match parse_count(b) {
                    Some(v) => v,
                    None => {
                        return Err(FatalError::ParseFailure(id));
                    },
                }
            },
            Outcome::FileSize(n) => *n,
        };
        let verdict = classify(actual, expected);
        let entry = ExecutionResult { id, command, duration, expected, actual, verdict };
        self.report.record(entry);
        self.next = idx + 1;
        Ok(())
    }
}

/// The position of the first fatal outcome at or after `i`, if any.
pub open spec fn first_fatal(outcomes: Seq<Outcome>, i: int) -> Option<int>
    decreases outcomes.len() - i,
{
    if i < 0 || i >= outcomes.len() {
        None
    } else if outcome_fatal(outcomes[i]) {
        Some(i)
    } else {
        first_fatal(outcomes, i + 1)
    }
}

proof fn lemma_first_fatal(outcomes: Seq<Outcome>, i: int)
    requires
        0 <= i <= outcomes.len(),
        forall|k: int| 0 <= k < i ==> !outcome_fatal(#[trigger] outcomes[k]),
    ensures
        first_fatal(outcomes, 0) == first_fatal(outcomes, i),
    decreases i,
{
    if i > 0 {
        lemma_first_fatal(outcomes, i - 1);
    }
}

/// What the record at position `i` of a finished run's report must hold,
/// given the configuration, the flag and the observations of that run.
pub open spec fn entry_matches_run(
    cfg: Config,
    use_installed: bool,
    outcomes: Seq<Outcome>,
    durations: Seq<String>,
    e: ExecutionResult,
    i: int,
) -> bool {
    &&& e.id@ == fixed_ids()[i]
    &&& e.command@ == effective_command(cfg.templates@[i]@, resolved_path_spec(use_installed), i)
    &&& e.duration@ == durations[i]@
    &&& e.expected == cfg.expected@[i]
    &&& e.actual as int == outcome_actual(outcomes[i])
    &&& e.verdict == (if outcome_actual(outcomes[i]) == cfg.expected@[i] as int {
        Verdict::Passed
    } else {
        Verdict::Failed
    })
}

/// The report of a finished run, as a function of the configuration, the
/// flag, and the observations: one record per test, in the fixed order.
pub open spec fn report_matches(
    cfg: Config,
    use_installed: bool,
    outcomes: Seq<Outcome>,
    durations: Seq<String>,
    rep: Report,
) -> bool {
    &&& rep.wf()
    &&& rep.entries@.len() == NUM_TESTS
    &&& forall|i: int|
        0 <= i < NUM_TESTS ==> entry_matches_run(
            cfg,
            use_installed,
            outcomes,
            durations,
            #[trigger] rep.entries@[i],
            i,
        )
}

/// What a whole run returns, as a function of the configuration, the flag
/// and the observations: the first fatal observation aborts the run with
/// its error and no report, otherwise the finished report is pinned down by
/// `report_matches`.
pub open spec fn run_result_matches(
    cfg: Config,
    use_installed: bool,
    outcomes: Seq<Outcome>,
    durations: Seq<String>,
    r: Result<Report, FatalError>,
) -> bool {
    match r {
        Result::Ok(rep) => first_fatal(outcomes, 0) is None && report_matches(
            cfg,
            use_installed,
            outcomes,
            durations,
            rep,
        ),
        Result::Err(e) => match first_fatal(outcomes, 0) {
            Option::Some(i) => fatal_for(e, outcomes[i], fixed_ids()[i]),
            Option::None => false,
        },
    }
}

/// Runs the whole fixed order against a sequence of observations, one per
/// test. The first fatal observation aborts the run with its error and no
/// report — records for the tests after it never come to exist. Otherwise
/// the finished report is returned.
pub fn run_all(
    cfg: &Config,
    use_installed: bool,
    outcomes: &Vec<Outcome>,
    durations: &Vec<String>,
) -> (r: Result<Report, FatalError>)
    requires
        cfg.wf(),
        outcomes@.len() == NUM_TESTS,
        durations@.len() == NUM_TESTS,
        forall|i: int|
            0 <= i < NUM_TESTS ==> outcome_matches(strategy_spec(i), #[trigger] outcomes@[i]),
    ensures
        run_result_matches(*cfg, use_installed, outcomes@, durations@, r),
{
    let mut runner = Runner::new(cfg, use_installed);
    let mut i: usize = 0;
    while i < NUM_TESTS
        invariant
            cfg.wf(),
            runner.wf(),
            runner.next == i,
            i <= NUM_TESTS,
            outcomes@.len() == NUM_TESTS,
            durations@.len() == NUM_TESTS,
            forall|k: int|
                0 <= k < NUM_TESTS ==> outcome_matches(strategy_spec(k), #[trigger] outcomes@[k]),
            forall|k: int| 0 <= k < i ==> !outcome_fatal(#[trigger] outcomes@[k]),
            forall|k: int|
                0 <= k < NUM_TESTS ==> (#[trigger] runner.cases@[k]).command@ == effective_command(
                    cfg.templates@[k]@,
                    resolved_path_spec(use_installed),
                    k,
                ) && runner.cases@[k].expected == cfg.expected@[k],
            forall|k: int|
                0 <= k < i ==> entry_matches_run(
                    *cfg,
                    use_installed,
                    outcomes@,
                    durations@,
                    #[trigger] runner.report.entries@[k],
                    k,
                ),
        decreases NUM_TESTS - i,
    {
        match runner.step(&outcomes[i], durations[i].clone()) {
            Ok(_) => {},
            Err(e) => {
                proof {
                    lemma_first_fatal(outcomes@, i as int);
                }
                return Err(e);
            },
        }
        i = i + 1;
    }
    proof {
        lemma_first_fatal(outcomes@, NUM_TESTS as int);
    }
    Ok(runner.report)
}

/// Sequential ordering: the entries of any finished run's report carry the
/// fixed identifiers in exactly the declared order, whatever the outcomes
/// and durations were.
pub proof fn lemma_report_order(
    cfg: Config,
    use_installed: bool,
    outcomes: Seq<Outcome>,
    durations: Seq<String>,
    rep: Report,
)
    requires
        report_matches(cfg, use_installed, outcomes, durations, rep),
    ensures
        rep.entries@.len() == NUM_TESTS,
        forall|i: int| 0 <= i < NUM_TESTS ==> (#[trigger] rep.entries@[i]).id@ == fixed_ids()[i],
{
}

/// Fatal-error short-circuit: a run stops at the first fatal observation.
/// By `run_result_matches` it then returns the error for that very test and
/// no report, so records for the tests after it never come to exist; by
/// `Runner::step` a fatal observation leaves the engine's state untouched.
pub proof fn lemma_fatal_short_circuit(outcomes: Seq<Outcome>, i: int)
    requires
        0 <= i < outcomes.len(),
        outcome_fatal(outcomes[i]),
        forall|k: int| 0 <= k < i ==> !outcome_fatal(#[trigger] outcomes[k]),
    ensures
        first_fatal(outcomes, 0) == Some(i),
{
    lemma_first_fatal(outcomes, i);
}

proof fn lemma_count_passed_congruent(s1: Seq<ExecutionResult>, s2: Seq<ExecutionResult>)
    requires
        s1.len() == s2.len(),
        forall|i: int| 0 <= i < s1.len() ==> (#[trigger] s1[i]).verdict == s2[i].verdict,
    ensures
        crate::report::count_passed(s1) == crate::report::count_passed(s2),
    decreases s1.len(),
{
    if s1.len() > 0 {
        assert(forall|i: int|
            0 <= i < s1.drop_last().len() ==> (#[trigger] s1.drop_last()[i]).verdict
                == s2.drop_last()[i].verdict);
        lemma_count_passed_congruent(s1.drop_last(), s2.drop_last());
    }
}

/// Idempotence: two finished runs of the same configuration that observe the
/// same outcomes carry the same verdict for every test, and the same totals,
/// whatever durations each run measured.
pub proof fn lemma_rerun_same_verdicts(
    cfg: Config,
    use_installed: bool,
    outcomes: Seq<Outcome>,
    durations1: Seq<String>,
    durations2: Seq<String>,
    rep1: Report,
    rep2: Report,
)
    requires
        report_matches(cfg, use_installed, outcomes, durations1, rep1),
        report_matches(cfg, use_installed, outcomes, durations2, rep2),
    ensures
        forall|i: int|
            0 <= i < NUM_TESTS ==> (#[trigger] rep1.entries@[i]).verdict
                == rep2.entries@[i].verdict,
        rep1.passing == rep2.passing,
        rep1.failing == rep2.failing,
{
    assert(forall|i: int|
        0 <= i < rep1.entries@.len() ==> (#[trigger] rep1.entries@[i]).verdict
            == rep2.entries@[i].verdict);
    lemma_count_passed_congruent(rep1.entries@, rep2.entries@);
}

/// Two fatal errors of the same kind, striking the same test.
pub open spec fn same_fatal(e1: FatalError, e2: FatalError) -> bool {
    match (e1, e2) {
        (FatalError::LaunchFailure(a), FatalError::LaunchFailure(b)) => a@ == b@,
        (FatalError::ParseFailure(a), FatalError::ParseFailure(b)) => a@ == b@,
        _ => false,
    }
}

/// Idempotence across whole runs, fatal ones included: two runs of the same
/// configuration that observe the same outcomes either both finish with the
/// same verdicts and totals, or both abort on the same test with the same
/// kind of error.
pub proof fn lemma_rerun_same_result(
    cfg: Config,
    use_installed: bool,
    outcomes: Seq<Outcome>,
    durations1: Seq<String>,
    durations2: Seq<String>,
    r1: Result<Report, FatalError>,
    r2: Result<Report, FatalError>,
)
    requires
        run_result_matches(cfg, use_installed, outcomes, durations1, r1),
        run_result_matches(cfg, use_installed, outcomes, durations2, r2),
    ensures
        r1 is Ok <==> r2 is Ok,
        match (r1, r2) {
            (Result::Ok(rep1), Result::Ok(rep2)) => rep1.passing == rep2.passing && rep1.failing
                == rep2.failing && forall|i: int|
                0 <= i < NUM_TESTS ==> (#[trigger] rep1.entries@[i]).verdict
                    == rep2.entries@[i].verdict,
            (Result::Err(e1), Result::Err(e2)) => same_fatal(e1, e2),
            _ => false,
        },
{
    match (r1, r2) {
        (Result::Ok(rep1), Result::Ok(rep2)) => {
            lemma_rerun_same_verdicts(
                cfg,
                use_installed,
                outcomes,
                durations1,
                durations2,
                rep1,
                rep2,
            );
        },
        (Result::Err(e1), Result::Err(e2)) => {},
        _ => {},
    }
}

} // verus!
