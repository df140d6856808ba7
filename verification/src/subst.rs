//! Command materialization: replacing the placeholder token in a command
//! template with the resolved path of the executable under test.

use vstd::prelude::*;

verus! {

/// The token in a command template that stands for the executable under test.
pub open spec fn placeholder() -> Seq<char> {
    "$GREPQ"@
}

/// Leftmost, non-overlapping replacement of every occurrence of `pat` in `t`
/// by `rep`. For an empty `pat` the text is returned unchanged.
pub open spec fn replace_all(t: Seq<char>, pat: Seq<char>, rep: Seq<char>) -> Seq<char>
    decreases t.len(),
{
    if pat.len() == 0 || t.len() < pat.len() {
        t
    } else if t.subrange(0, pat.len() as int) == pat {
        rep + replace_all(t.skip(pat.len() as int), pat, rep)
    } else {
        seq![t[0]] + replace_all(t.skip(1), pat, rep)
    }
}

/// True when the placeholder token occurs in `t` starting at position `i`.
fn placeholder_at(t: &str, i: usize, n: usize) -> (r: bool)
    requires
        n == t@.len(),
        i <= n,
    ensures
        r == (i + placeholder().len() <= t@.len() && t@.subrange(
            i as int,
            i + placeholder().len(),
        ) == placeholder()),
{
    proof {
        reveal_strlit("$GREPQ");
    }
    let pat = "$GREPQ";
    if n - i < 6 {
        return false;
    }
    let mut j: usize = 0;
    while j < 6
        invariant
            n == t@.len(),
            i + 6 <= n,
            j <= 6,
            pat@ == placeholder(),
            pat@.len() == 6,
            forall|k: int| 0 <= k < j ==> t@[i + k] == pat@[k],
        decreases 6 - j,
    {
        if t.get_char(i + j) != pat.get_char(j) {
            proof {
                assert(t@.subrange(i as int, i + 6)[j as int] == t@[i + j]);
            }
            return false;
        }
        j = j + 1;
    }
    proof {
        assert(t@.subrange(i as int, i + 6) =~= pat@);
    }
    true
}

/// Materializes a command template: every occurrence of the placeholder token
/// in `t` is replaced by `rep`, and all other characters are kept as they are.
pub fn replace_placeholder(t: &str, rep: &str) -> (r: String)
    ensures
        r@ == replace_all(t@, placeholder(), rep@),
{
    proof {
        reveal_strlit("$GREPQ");
    }
    let n = t.unicode_len();
    let mut out = String::new();
    let mut i: usize = 0;
    proof {
        assert(t@.skip(0) =~= t@);
        assert(out@ + replace_all(t@, placeholder(), rep@) =~= replace_all(
            t@,
            placeholder(),
            rep@,
        ));
    }
    while i < n
        invariant
            n == t@.len(),
            i <= n,
            placeholder().len() == 6,
            replace_all(t@, placeholder(), rep@) == out@ + replace_all(
                t@.skip(i as int),
                placeholder(),
                rep@,
            ),
        decreases n - i,
    {
        let ghost s = t@.skip(i as int);
        if placeholder_at(t, i, n) {
            proof {
                assert(s.subrange(0, 6) =~= t@.subrange(i as int, i + 6));
                assert(s.skip(6) =~= t@.skip(i + 6));
                assert(out@ + (rep@ + replace_all(t@.skip(i + 6), placeholder(), rep@)) =~= (out@
                    + rep@) + replace_all(t@.skip(i + 6), placeholder(), rep@));
            }
            out.append(rep);
            i = i + 6;
        } else {
            proof {
                if i + 6 <= n {
                    assert(s.subrange(0, 6) =~= t@.subrange(i as int, i + 6));
                }
                assert(s[0] == t@[i as int]);
                assert(s.skip(1) =~= t@.skip(i + 1));
                assert(t@.subrange(i as int, i + 1) =~= seq![t@[i as int]]);
                assert(out@ + (seq![t@[i as int]] + replace_all(
                    t@.skip(i + 1),
                    placeholder(),
                    rep@,
                )) =~= (out@ + t@.subrange(i as int, i + 1)) + replace_all(
                    t@.skip(i + 1),
                    placeholder(),
                    rep@,
                ));
            }
            let c = t.substring_char(i, i + 1);
            out.append(c);
            i = i + 1;
        }
    }
    proof {
        assert(t@.skip(n as int).len() == 0);
        assert(out@ + t@.skip(n as int) =~= out@);
    }
    out
}

} // verus!
