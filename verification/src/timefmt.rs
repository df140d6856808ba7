//! Splitting a formatted elapsed time such as `"1.234ms"` into its numeric
//! value and its units, as the report's passed records carry them.

use vstd::prelude::*;

verus! {

/// A character of the numeric value part: a decimal digit or the point.
pub open spec fn is_value_char(c: char) -> bool {
    c == '.' || (48 <= c as u32 && c as u32 <= 57)
}

/// The length of the longest prefix of value characters at or after `i`.
pub open spec fn value_end(s: Seq<char>, i: int) -> int
    decreases s.len() - i,
{
    if i < 0 || i >= s.len() {
        s.len() as int
    } else if !is_value_char(s[i]) {
        i
    } else {
        value_end(s, i + 1)
    }
}

proof fn lemma_value_end(s: Seq<char>, i: int)
    requires
        0 <= i <= s.len(),
        forall|k: int| 0 <= k < i ==> is_value_char(#[trigger] s[k]),
    ensures
        value_end(s, 0) == value_end(s, i),
    decreases i,
{
    if i > 0 {
        lemma_value_end(s, i - 1);
    }
}

/// Splits a formatted duration at the first character that belongs to the
/// units rather than the numeric value: `"1.234ms"` becomes `"1.234"` and
/// `"ms"`.
pub fn split_duration(s: &str) -> (r: (String, String))
    ensures
        r.0@ == s@.take(value_end(s@, 0)),
        r.1@ == s@.skip(value_end(s@, 0)),
{
    let n = s.unicode_len();
    let mut k: usize = 0;
    while k < n && (s.get_char(k) == '.' || (48 <= s.get_char(k) as u32 && s.get_char(k) as u32
        <= 57))
        invariant
            n == s@.len(),
            k <= n,
            forall|j: int| 0 <= j < k ==> is_value_char(#[trigger] s@[j]),
        decreases n - k,
    {
        k = k + 1;
    }
    proof {
        lemma_value_end(s@, k as int);
        assert(value_end(s@, 0) == k);
    }
    let value = s.substring_char(0, k);
    let units = s.substring_char(k, n);
    proof {
        assert(s@.subrange(0, k as int) =~= s@.take(k as int));
        assert(s@.subrange(k as int, n as int) =~= s@.skip(k as int));
    }
    (value.to_owned(), units.to_owned())
}

} // verus!
