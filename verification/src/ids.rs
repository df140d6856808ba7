//! The fixed, ordered set of test identifiers that one run consists of.

use crate::NUM_TESTS;
use vstd::prelude::*;

verus! {

/// The ten test identifiers, in the order in which they are declared and run.
pub open spec fn fixed_ids() -> Seq<Seq<char>> {
    seq![
        "test-1"@,
        "test-2"@,
        "test-3"@,
        "test-4"@,
        "test-5"@,
        "test-6"@,
        "test-7"@,
        "test-8"@,
        "test-9"@,
        "test-10"@,
    ]
}

/// The identifier at position `i` of the fixed order, as an owned string.
pub fn fixed_id(i: usize) -> (r: String)
    requires
        i < NUM_TESTS,
    ensures
        r@ == fixed_ids()[i as int],
{
    if i == 0 {
        "test-1".to_owned()
    } else if i == 1 {
        "test-2".to_owned()
    } else if i == 2 {
        "test-3".to_owned()
    } else if i == 3 {
        "test-4".to_owned()
    } else if i == 4 {
        "test-5".to_owned()
    } else if i == 5 {
        "test-6".to_owned()
    } else if i == 6 {
        "test-7".to_owned()
    } else if i == 7 {
        "test-8".to_owned()
    } else if i == 8 {
        "test-9".to_owned()
    } else {
        "test-10".to_owned()
    }
}

} // verus!
