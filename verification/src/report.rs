//! Verdicts, per-test execution records, and the ordered report that one
//! run accumulates.

use vstd::prelude::*;

verus! {

/// The outcome of comparing a test's actual result to its expected one.
#[derive(Clone, Copy, PartialEq, Eq, Structural, Debug)]
pub enum Verdict {
    Passed,
    Failed,
}

/// The record of one executed test: its identifier, the exact command that
/// was run, the elapsed time as formatted by the clock, the expected and
/// actual numeric results, and the verdict.
pub struct ExecutionResult {
    pub id: String,
    pub command: String,
    pub duration: String,
    pub expected: i64,
    pub actual: i64,
    pub verdict: Verdict,
}

impl ExecutionResult {
    /// The verdict of a record is exactly the comparison of its actual
    /// result to its expected one.
    pub open spec fn wf(self) -> bool {
        self.verdict == (if self.actual == self.expected {
            Verdict::Passed
        } else {
            Verdict::Failed
        })
    }
}

/// Compares an actual numeric result to the expected one.
pub fn classify(actual: i64, expected: i64) -> (v: Verdict)
    ensures
        v == (if actual == expected {
            Verdict::Passed
        } else {
            Verdict::Failed
        }),
{
    if actual == expected {
        Verdict::Passed
    } else {
        Verdict::Failed
    }
}

/// How many of the entries carry a passing verdict.
pub open spec fn count_passed(s: Seq<ExecutionResult>) -> int
    decreases s.len(),
{
    if s.len() == 0 {
        0
    } else {
        count_passed(s.drop_last()) + if s.last().verdict is Passed {
            1int
        } else {
            0int
        }
    }
}

pub proof fn lemma_count_passed_bounds(s: Seq<ExecutionResult>)
    ensures
        0 <= count_passed(s) <= s.len(),
    decreases s.len(),
{
    if s.len() > 0 {
        lemma_count_passed_bounds(s.drop_last());
    }
}

/// The ordered collection of per-test records for one run, with running
/// totals of passing and failing tests.
pub struct Report {
    pub entries: Vec<ExecutionResult>,
    pub passing: usize,
    pub failing: usize,
}

impl Report {
    /// The totals always agree with the entries, and every entry's verdict
    /// agrees with its own comparison.
    pub open spec fn wf(self) -> bool {
        &&& self.passing == count_passed(self.entries@)
        &&& self.failing == self.entries@.len() - count_passed(self.entries@)
        &&& forall|i: int| 0 <= i < self.entries@.len() ==> (#[trigger] self.entries@[i]).wf()
    }

    /// An empty report, before any test has run.
    pub fn new() -> (r: Report)
        ensures
            r.wf(),
            r.entries@.len() == 0,
    {
        Report { entries: Vec::new(), passing: 0, failing: 0 }
    }

    /// Appends the record of the test that just ran, keeping the totals in
    /// step. Records are only ever appended, so entries stay in execution
    /// order.
    pub fn record(&mut self, e: ExecutionResult)
        requires
            old(self).wf(),
            e.wf(),
            old(self).entries@.len() < usize::MAX,
        ensures
            final(self).wf(),
            final(self).entries@ == old(self).entries@.push(e),
            final(self).passing == old(self).passing + (if e.verdict is Passed {
                1int
            } else {
                0int
            }),
            final(self).failing == old(self).failing + (if e.verdict is Passed {
                0int
            } else {
                1int
            }),
    {
        proof {
            lemma_count_passed_bounds(self.entries@);
        }
        match e.verdict {
            Verdict::Passed => {
                self.passing = self.passing + 1;
            },
            Verdict::Failed => {
                self.failing = self.failing + 1;
            },
        }
        self.entries.push(e);
        proof {
            assert(self.entries@.drop_last() =~= old(self).entries@);
            assert(self.entries@.last() == e);
        }
    }
}

} // verus!
