//! A regression-test harness core: it materializes declared shell commands,
//! classifies each test's measured result against its expected value, and
//! accumulates an ordered report of verdicts. Execution of the commands and
//! all I/O stay outside this crate; the logic here is a pure function from a
//! configuration and a sequence of observed outcomes to a report.

pub mod config;
pub mod engine;
pub mod ids;
pub mod numparse;
pub mod report;
pub mod strategy;
pub mod subst;
pub mod timefmt;

use vstd::prelude::*;

verus! {

/// The number of declared tests in one run.
pub const NUM_TESTS: usize = 10;

} // verus!
