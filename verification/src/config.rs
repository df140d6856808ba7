//! The loaded configuration: one command template and one expected numeric
//! result per fixed test identifier. A document that misses any identifier
//! in either mapping is rejected as a fatal configuration error.

use crate::NUM_TESTS;
use crate::ids::fixed_id;
use crate::ids::fixed_ids;
use vstd::prelude::*;

verus! {

/// Why a configuration document was rejected: the named identifier is
/// missing from the command mapping, or from the expected-result mapping.
pub enum ConfigError {
    MissingCommand(String),
    MissingExpected(String),
}

/// A validated configuration: the command template and the expected result
/// for each of the fixed identifiers, in the fixed order.
pub struct Config {
    pub templates: Vec<String>,
    pub expected: Vec<i64>,
}

pub open spec fn has_key_str(pairs: Seq<(String, String)>, key: Seq<char>) -> bool {
    exists|j: int| 0 <= j < pairs.len() && (#[trigger] pairs[j]).0@ == key
}

pub open spec fn has_key_int(pairs: Seq<(String, i64)>, key: Seq<char>) -> bool {
    exists|j: int| 0 <= j < pairs.len() && (#[trigger] pairs[j]).0@ == key
}

proof fn lemma_first_missing_cmd_none_from(pairs: Seq<(String, String)>, i: int)
    requires
        0 <= i <= NUM_TESTS,
    ensures
        first_missing_cmd(pairs, i) is None <==> (forall|k: int|
            i <= k < NUM_TESTS ==> has_key_str(pairs, #[trigger] fixed_ids()[k])),
        match first_missing_cmd(pairs, i) {
            Some(m) => i <= m < NUM_TESTS && !has_key_str(pairs, fixed_ids()[m]),
            None => true,
        },
    decreases NUM_TESTS - i,
{
    if i < NUM_TESTS {
        lemma_first_missing_cmd_none_from(pairs, i + 1);
    }
}

proof fn lemma_first_missing_exp_none_from(pairs: Seq<(String, i64)>, i: int)
    requires
        0 <= i <= NUM_TESTS,
    ensures
        first_missing_exp(pairs, i) is None <==> (forall|k: int|
            i <= k < NUM_TESTS ==> has_key_int(pairs, #[trigger] fixed_ids()[k])),
        match first_missing_exp(pairs, i) {
            Some(m) => i <= m < NUM_TESTS && !has_key_int(pairs, fixed_ids()[m]),
            None => true,
        },
    decreases NUM_TESTS - i,
{
    if i < NUM_TESTS {
        lemma_first_missing_exp_none_from(pairs, i + 1);
    }
}

/// A document is accepted exactly when every one of the fixed identifiers
/// has a pair in both mappings; when one is rejected, the identifier it
/// reports is indeed missing from the mapping it names.
pub proof fn lemma_accepts_iff_complete(tests: Seq<(String, String)>, sizes: Seq<(String, i64)>)
    ensures
        (first_missing_cmd(tests, 0) is None && first_missing_exp(sizes, 0) is None) <==> (forall|
            k: int,
        |
            0 <= k < NUM_TESTS ==> has_key_str(tests, #[trigger] fixed_ids()[k]) && has_key_int(
                sizes,
                fixed_ids()[k],
            )),
        match first_missing_cmd(tests, 0) {
            Some(m) => 0 <= m < NUM_TESTS && !has_key_str(tests, fixed_ids()[m]),
            None => true,
        },
        match first_missing_exp(sizes, 0) {
            Some(m) => 0 <= m < NUM_TESTS && !has_key_int(sizes, fixed_ids()[m]),
            None => true,
        },
{
    lemma_first_missing_cmd_none_from(tests, 0);
    lemma_first_missing_exp_none_from(sizes, 0);
}

/// The value of the last pair whose key is `key` (later entries of a
/// document override earlier ones).
pub open spec fn last_value_str(pairs: Seq<(String, String)>, key: Seq<char>) -> Seq<char>
    decreases pairs.len(),
{
    if pairs.len() == 0 {
        Seq::empty()
    } else if pairs.last().0@ == key {
        pairs.last().1@
    } else {
        last_value_str(pairs.drop_last(), key)
    }
}

pub open spec fn last_value_int(pairs: Seq<(String, i64)>, key: Seq<char>) -> i64
    decreases pairs.len(),
{
    if pairs.len() == 0 {
        0
    } else if pairs.last().0@ == key {
        pairs.last().1
    } else {
        last_value_int(pairs.drop_last(), key)
    }
}

/// The first position at or after `i` in the fixed order whose identifier
/// has no pair in the command mapping.
pub open spec fn first_missing_cmd(pairs: Seq<(String, String)>, i: int) -> Option<int>
    decreases NUM_TESTS - i,
{
    if i < 0 || i >= NUM_TESTS {
        None
    } else if !has_key_str(pairs, fixed_ids()[i]) {
        Some(i)
    } else {
        first_missing_cmd(pairs, i + 1)
    }
}

/// The first position at or after `i` in the fixed order whose identifier
/// has no pair in the expected-result mapping.
pub open spec fn first_missing_exp(pairs: Seq<(String, i64)>, i: int) -> Option<int>
    decreases NUM_TESTS - i,
{
    if i < 0 || i >= NUM_TESTS {
        None
    } else if !has_key_int(pairs, fixed_ids()[i]) {
        Some(i)
    } else {
        first_missing_exp(pairs, i + 1)
    }
}

proof fn lemma_first_missing_cmd(pairs: Seq<(String, String)>, i: int)
    requires
        0 <= i <= NUM_TESTS,
        forall|k: int| 0 <= k < i ==> has_key_str(pairs, #[trigger] fixed_ids()[k]),
    ensures
        first_missing_cmd(pairs, 0) == first_missing_cmd(pairs, i),
    decreases i,
{
    if i > 0 {
        lemma_first_missing_cmd(pairs, i - 1);
    }
}

proof fn lemma_first_missing_exp(pairs: Seq<(String, i64)>, i: int)
    requires
        0 <= i <= NUM_TESTS,
        forall|k: int| 0 <= k < i ==> has_key_int(pairs, #[trigger] fixed_ids()[k]),
    ensures
        first_missing_exp(pairs, 0) == first_missing_exp(pairs, i),
    decreases i,
{
    if i > 0 {
        lemma_first_missing_exp(pairs, i - 1);
    }
}

/// The value of the last pair of `pairs` whose key equals `key`, or `None`
/// when no pair has that key.
fn find_last_str(pairs: &Vec<(String, String)>, key: &String) -> (r: Option<String>)
    ensures
        match r {
            Some(v) => has_key_str(pairs@, key@) && v@ == last_value_str(pairs@, key@),
            None => !has_key_str(pairs@, key@),
        },
{
    let mut j = pairs.len();
    proof {
        assert(pairs@.take(j as int) =~= pairs@);
    }
    while j > 0
        invariant
            j <= pairs@.len(),
            forall|m: int| j <= m < pairs@.len() ==> (#[trigger] pairs@[m]).0@ != key@,
            last_value_str(pairs@, key@) == last_value_str(pairs@.take(j as int), key@),
        decreases j,
    {
        proof {
            assert(pairs@.take(j as int).last() == pairs@[j - 1]);
            assert(pairs@.take(j as int).drop_last() =~= pairs@.take(j - 1));
        }
        if pairs[j - 1].0 == *key {
            return Some(pairs[j - 1].1.clone());
        }
        j = j - 1;
    }
    None
}

/// The value of the last pair of `pairs` whose key equals `key`, or `None`
/// when no pair has that key.
fn find_last_int(pairs: &Vec<(String, i64)>, key: &String) -> (r: Option<i64>)
    ensures
        match r {
            Some(v) => has_key_int(pairs@, key@) && v == last_value_int(pairs@, key@),
            None => !has_key_int(pairs@, key@),
        },
{
    let mut j = pairs.len();
    proof {
        assert(pairs@.take(j as int) =~= pairs@);
    }
    while j > 0
        invariant
            j <= pairs@.len(),
            forall|m: int| j <= m < pairs@.len() ==> (#[trigger] pairs@[m]).0@ != key@,
            last_value_int(pairs@, key@) == last_value_int(pairs@.take(j as int), key@),
        decreases j,
    {
        proof {
            assert(pairs@.take(j as int).last() == pairs@[j - 1]);
            assert(pairs@.take(j as int).drop_last() =~= pairs@.take(j - 1));
        }
        if pairs[j - 1].0 == *key {
            return Some(pairs[j - 1].1);
        }
        j = j - 1;
    }
    None
}

impl Config {
    /// A configuration always carries exactly one template and one expected
    /// result per fixed identifier.
    pub open spec fn wf(self) -> bool {
        self.templates@.len() == NUM_TESTS && self.expected@.len() == NUM_TESTS
    }

    /// Builds a configuration from the two mappings of a parsed document,
    /// given as key/value pairs. Every fixed identifier must appear in both
    /// mappings; the first one (in the fixed order) missing from the command
    /// mapping, or else from the expected-result mapping, is reported.
    /// When a key appears more than once, the last pair wins.
    pub fn from_pairs(tests: &Vec<(String, String)>, sizes: &Vec<(String, i64)>) -> (r: Result<
        Config,
        ConfigError,
    >)
        ensures
            match r {
                Ok(cfg) => {
                    &&& cfg.wf()
                    &&& first_missing_cmd(tests@, 0) is None
                    &&& first_missing_exp(sizes@, 0) is None
                    &&& forall|i: int|
                        0 <= i < NUM_TESTS ==> (#[trigger] cfg.templates@[i])@ == last_value_str(
                            tests@,
                            fixed_ids()[i],
                        )
                    &&& forall|i: int|
                        0 <= i < NUM_TESTS ==> #[trigger] cfg.expected@[i] == last_value_int(
                            sizes@,
                            fixed_ids()[i],
                        )
                },
                Err(ConfigError::MissingCommand(id)) => match first_missing_cmd(tests@, 0) {
                    Some(i) => id@ == fixed_ids()[i],
                    None => false,
                },
                Err(ConfigError::MissingExpected(id)) => first_missing_cmd(tests@, 0) is None
                    && match first_missing_exp(sizes@, 0) {
                    Some(i) => id@ == fixed_ids()[i],
                    None => false,
                },
            },
    {
        let mut templates: Vec<String> = Vec::new();
        let mut i: usize = 0;
        while i < NUM_TESTS
            invariant
                i <= NUM_TESTS,
                templates@.len() == i,
                forall|k: int| 0 <= k < i ==> has_key_str(tests@, #[trigger] fixed_ids()[k]),
                forall|k: int|
                    0 <= k < i ==> (#[trigger] templates@[k])@ == last_value_str(
                        tests@,
                        fixed_ids()[k],
                    ),
            decreases NUM_TESTS - i,
        {
            let id = fixed_id(i);
            match find_last_str(tests, &id) {
                Some(v) => {
                    templates.push(v);
                },
                None => {
                    proof {
                        lemma_first_missing_cmd(tests@, i as int);
                        assert(first_missing_cmd(tests@, 0) == Some(i as int));
                    }
                    return Err(ConfigError::MissingCommand(id));
                },
            }
            i = i + 1;
        }
        proof {
            lemma_first_missing_cmd(tests@, NUM_TESTS as int);
        }
        let mut expected: Vec<i64> = Vec::new();
        let mut i: usize = 0;
        while i < NUM_TESTS
            invariant
                i <= NUM_TESTS,
                expected@.len() == i,
                first_missing_cmd(tests@, 0) is None,
                templates@.len() == NUM_TESTS,
                forall|k: int|
                    0 <= k < NUM_TESTS ==> (#[trigger] templates@[k])@ == last_value_str(
                        tests@,
                        fixed_ids()[k],
                    ),
                forall|k: int| 0 <= k < i ==> has_key_int(sizes@, #[trigger] fixed_ids()[k]),
                forall|k: int|
                    0 <= k < i ==> #[trigger] expected@[k] == last_value_int(
                        sizes@,
                        fixed_ids()[k],
                    ),
            decreases NUM_TESTS - i,
        {
            let id = fixed_id(i);
            match find_last_int(sizes, &id) {
                Some(v) => {
                    expected.push(v);
                },
                None => {
                    proof {
                        lemma_first_missing_exp(sizes@, i as int);
                        assert(first_missing_exp(sizes@, 0) == Some(i as int));
                    }
                    return Err(ConfigError::MissingExpected(id));
                },
            }
            i = i + 1;
        }
        proof {
            lemma_first_missing_exp(sizes@, NUM_TESTS as int);
        }
        Ok(Config { templates, expected })
    }
}

} // verus!
