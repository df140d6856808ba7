//! The closed mapping from test identifier to execution strategy: how a
//! test's command is run and how its actual result is measured.

use crate::NUM_TESTS;
use vstd::prelude::*;

verus! {

/// How one test is executed and measured.
#[derive(Clone, Copy, PartialEq, Eq, Structural, Debug)]
pub enum Strategy {
    /// Run the command, capture its standard output, and parse it as an
    /// integer count.
    Count,
    /// Run the command with standard output redirected to a per-test scratch
    /// file, then use that file's byte length as the actual result.
    RedirectToTemp,
    /// Run the command as is; it writes a fixed-name result file whose byte
    /// length is the actual result.
    NamedFile,
}

/// The fixed assignment of a strategy to each position of the declared test
/// order. It is not user-configurable: swapping strategies would change what
/// an expected value means (bytes against counts).
pub open spec fn strategy_spec(i: int) -> Strategy {
    if i == 6 || i == 7 {
        Strategy::Count
    } else if i == 9 {
        Strategy::NamedFile
    } else {
        Strategy::RedirectToTemp
    }
}

/// The strategy assigned to the test at position `i` of the fixed order.
pub fn strategy_for(i: usize) -> (r: Strategy)
    requires
        i < NUM_TESTS,
    ensures
        r == strategy_spec(i as int),
{
    if i == 6 || i == 7 {
        Strategy::Count
    } else if i == 9 {
        Strategy::NamedFile
    } else {
        Strategy::RedirectToTemp
    }
}

} // verus!
