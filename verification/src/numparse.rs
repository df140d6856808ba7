//! Parsing the captured standard output of a count-strategy test as a signed
//! decimal integer, after trimming surrounding whitespace. Output that does
//! not form an integer in `i64` range is a fatal condition for the run, so
//! the contract pins down exactly which byte strings parse.

use vstd::prelude::*;

verus! {

/// ASCII whitespace, as trimmed from captured output.
pub open spec fn is_space(b: u8) -> bool {
    b == 32 || (9 <= b && b <= 13)
}

/// ASCII decimal digit.
pub open spec fn is_digit(b: u8) -> bool {
    48 <= b && b <= 57
}

pub open spec fn all_digits(s: Seq<u8>) -> bool {
    forall|i: int| 0 <= i < s.len() ==> is_digit(#[trigger] s[i])
}

/// The value of a string of decimal digits, most significant first.
pub open spec fn digits_val(s: Seq<u8>) -> int
    decreases s.len(),
{
    if s.len() == 0 {
        0
    } else {
        digits_val(s.drop_last()) * 10 + (s.last() - 48)
    }
}

pub open spec fn trim_front(s: Seq<u8>) -> Seq<u8>
    decreases s.len(),
{
    if s.len() > 0 && is_space(s[0]) {
        trim_front(s.skip(1))
    } else {
        s
    }
}

pub open spec fn trim_back(s: Seq<u8>) -> Seq<u8>
    decreases s.len(),
{
    if s.len() > 0 && is_space(s.last()) {
        trim_back(s.drop_last())
    } else {
        s
    }
}

/// `s` with leading and trailing ASCII whitespace removed.
pub open spec fn trimmed(s: Seq<u8>) -> Seq<u8> {
    trim_back(trim_front(s))
}

/// A well-formed decimal integer literal: an optional sign followed by at
/// least one digit, and nothing else.
pub open spec fn int_literal(s: Seq<u8>) -> bool {
    if s.len() == 0 {
        false
    } else if s[0] == 43 || s[0] == 45 {
        s.len() > 1 && all_digits(s.skip(1))
    } else {
        all_digits(s)
    }
}

/// The mathematical value of a decimal integer literal.
pub open spec fn literal_val(s: Seq<u8>) -> int {
    if s.len() > 0 && s[0] == 45 {
        -digits_val(s.skip(1))
    } else if s.len() > 0 && s[0] == 43 {
        digits_val(s.skip(1))
    } else {
        digits_val(s)
    }
}

/// The byte strings accepted by `parse_count` once trimmed: an integer
/// literal whose value fits in `i64`.
pub open spec fn parses(s: Seq<u8>) -> bool {
    int_literal(s) && i64::MIN <= literal_val(s) <= i64::MAX
}

proof fn lemma_digits_val_nonneg(s: Seq<u8>)
    requires
        all_digits(s),
    ensures
        digits_val(s) >= 0,
    decreases s.len(),
{
    if s.len() > 0 {
        assert(forall|i: int| 0 <= i < s.drop_last().len() ==> s.drop_last()[i] == s[i]);
        lemma_digits_val_nonneg(s.drop_last());
    }
}

/// The value of a digit string only grows as more digits are appended.
proof fn lemma_digits_val_take_le(s: Seq<u8>, k: int)
    requires
        all_digits(s),
        0 <= k <= s.len(),
    ensures
        digits_val(s.take(k)) <= digits_val(s),
    decreases s.len() - k,
{
    if k < s.len() {
        assert(forall|i: int| 0 <= i < k ==> s.take(k)[i] == s[i]);
        lemma_digits_val_nonneg(s.take(k));
        assert(s.take(k + 1).drop_last() =~= s.take(k));
        assert(digits_val(s.take(k + 1)) == digits_val(s.take(k)) * 10 + (s[k] - 48));
        lemma_digits_val_take_le(s, k + 1);
    } else {
        assert(s.take(k) =~= s);
    }
}

/// Parses the captured output bytes as a decimal integer after trimming
/// ASCII whitespace. Returns `Some` exactly when the trimmed bytes form an
/// integer literal whose value fits in `i64`, and then returns that value.
pub fn parse_count(s: &Vec<u8>) -> (r: Option<i64>)
    ensures
        match r {
            Some(v) => parses(trimmed(s@)) && v as int == literal_val(trimmed(s@)),
            None => !parses(trimmed(s@)),
        },
{
    let n = s.len();
    let mut lo: usize = 0;
    proof {
        assert(s@.skip(0) =~= s@);
    }
    while lo < n && (s[lo] == 32 || (9 <= s[lo] && s[lo] <= 13))
        invariant
            n == s@.len(),
            lo <= n,
            trim_front(s@) == trim_front(s@.skip(lo as int)),
        decreases n - lo,
    {
        proof {
            assert(s@.skip(lo as int)[0] == s@[lo as int]);
            assert(s@.skip(lo as int).skip(1) =~= s@.skip(lo + 1));
        }
        lo = lo + 1;
    }
    proof {
        if lo < n {
            assert(s@.skip(lo as int)[0] == s@[lo as int]);
        }
        assert(trim_front(s@) == s@.skip(lo as int));
    }
    let mut hi: usize = n;
    while hi > lo && (s[hi - 1] == 32 || (9 <= s[hi - 1] && s[hi - 1] <= 13))
        invariant
            n == s@.len(),
            lo <= hi <= n,
            trim_front(s@) == s@.skip(lo as int),
            trim_back(s@.skip(lo as int)) == trim_back(s@.subrange(lo as int, hi as int)),
        decreases hi,
    {
        proof {
            assert(s@.skip(lo as int) =~= s@.subrange(lo as int, n as int));
            assert(s@.subrange(lo as int, hi as int).last() == s@[hi - 1]);
            assert(s@.subrange(lo as int, hi as int).drop_last() =~= s@.subrange(
                lo as int,
                hi - 1,
            ));
        }
        hi = hi - 1;
    }
    proof {
        assert(s@.skip(lo as int) =~= s@.subrange(lo as int, n as int));
        if hi > lo {
            assert(s@.subrange(lo as int, hi as int).last() == s@[hi - 1]);
        }
        assert(trimmed(s@) == s@.subrange(lo as int, hi as int));
    }
    let ghost t = s@.subrange(lo as int, hi as int);

    if lo == hi {
        return None;
    }
    let first = s[lo];
    let neg = first == 45;
    let has_sign = neg || first == 43;
    let di: usize = if has_sign {
        lo + 1
    } else {
        lo
    };
    if di == hi {
        // a bare sign with no digits
        return None;
    }
    let ghost dseq = if has_sign {
        t.skip(1)
    } else {
        t
    };
    proof {
        if has_sign {
            assert(t.skip(1) =~= s@.subrange(di as int, hi as int));
        }
        assert(dseq == s@.subrange(di as int, hi as int));
    }
    let bound: u64 = if neg {
        9223372036854775808
    } else {
        9223372036854775807
    };
    let mut acc: u64 = 0;
    let mut i: usize = di;
    while i < hi
        invariant
            n == s@.len(),
            lo <= di <= i <= hi <= n,
            di < hi,
            t == s@.subrange(lo as int, hi as int),
            trimmed(s@) == t,
            dseq == s@.subrange(di as int, hi as int),
            has_sign ==> di == lo + 1 && (t[0] == 43 || t[0] == 45) && dseq == t.skip(1),
            !has_sign ==> di == lo && dseq == t && !(t[0] == 43 || t[0] == 45),
            neg <==> t[0] == 45,
            bound == if neg {
                9223372036854775808u64
            } else {
                9223372036854775807u64
            },
            forall|j: int| 0 <= j < i - di ==> is_digit(#[trigger] dseq[j]),
            acc <= bound,
            acc as int == digits_val(dseq.take(i - di)),
        decreases hi - i,
    {
        let b = s[i];
        proof {
            assert(dseq[i - di] == s@[i as int]);
        }
        if b < 48 || b > 57 {
            // not a digit: the trimmed bytes are not an integer literal
            proof {
                assert(!all_digits(dseq));
                if has_sign {
                    assert(!int_literal(t));
                } else {
                    assert(!int_literal(t));
                }
            }
            return None;
        }
        let d: u64 = (b - 48) as u64;
        proof {
            assert(dseq.take(i - di + 1).drop_last() =~= dseq.take(i - di));
            assert(dseq.take(i - di + 1).last() == dseq[i - di]);
            assert(digits_val(dseq.take(i - di + 1)) == acc * 10 + d);
        }
        let q = (bound - d) / 10;
        if acc > q {
            // the value exceeds the representable range
            proof {
                assert(acc * 10 >= (q + 1) * 10);
                assert((q + 1) * 10 > bound - d);
                assert(digits_val(dseq.take(i - di + 1)) > bound);
                if all_digits(dseq) {
                    lemma_digits_val_take_le(dseq, i - di + 1);
                    assert(digits_val(dseq) > bound);
                    if neg {
                        assert(literal_val(t) < i64::MIN);
                    } else {
                        assert(literal_val(t) > i64::MAX);
                    }
                } else {
                    assert(!int_literal(t));
                }
            }
            return None;
        }
        proof {
            assert(acc * 10 <= q * 10);
            assert(q * 10 <= bound - d);
        }
        acc = acc * 10 + d;
        i = i + 1;
    }
    proof {
        assert(dseq.take(hi - di) =~= dseq);
        assert(all_digits(dseq));
        assert(int_literal(t));
        if neg {
            assert(literal_val(t) == -(acc as int));
        } else {
            assert(literal_val(t) == acc as int);
        }
    }
    if neg {
        if acc == 9223372036854775808 {
            Some(i64::MIN)
        } else {
            Some(-(acc as i64))
        }
    } else {
        Some(acc as i64)
    }
}

} // verus!
