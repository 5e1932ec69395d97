use vstd::prelude::*;
use vstd::string::*;

verus! {

/// Character-wise equality of two string slices.
pub fn str_eq(a: &str, b: &str) -> (r: bool)
    ensures
        r == (a@ == b@),
{
    let na = a.unicode_len();
    let nb = b.unicode_len();
    if na != nb {
        return false;
    }
    let mut i: usize = 0;
    while i < na
        invariant
            na == a@.len(),
            nb == b@.len(),
            na == nb,
            i <= na,
            forall|j: int| 0 <= j < i ==> a@[j] == b@[j],
        decreases na - i,
    {
        if a.get_char(i) != b.get_char(i) {
            return false;
        }
        i += 1;
    }
    proof {
        assert(a@ =~= b@);
    }
    true
}

/// Whether `prefix` is a prefix of `s`.
pub fn str_starts_with(s: &str, prefix: &str) -> (r: bool)
    ensures
        r == (prefix@.len() <= s@.len() && s@.subrange(0, prefix@.len() as int) == prefix@),
{
    let np = prefix.unicode_len();
    let ns = s.unicode_len();
    if np > ns {
        return false;
    }
    let mut i: usize = 0;
    while i < np
        invariant
            np == prefix@.len(),
            ns == s@.len(),
            np <= ns,
            i <= np,
            forall|j: int| 0 <= j < i ==> s@[j] == prefix@[j],
        decreases np - i,
    {
        if s.get_char(i) != prefix.get_char(i) {
            proof {
                if s@.subrange(0, np as int) == prefix@ {
                    assert(s@.subrange(0, np as int)[i as int] == prefix@[i as int]);
                }
            }
            return false;
        }
        i += 1;
    }
    proof {
        assert(s@.subrange(0, np as int) =~= prefix@);
    }
    true
}

/// Whether `pat` occurs in `s` at position `i`.
pub open spec fn match_at(s: Seq<char>, pat: Seq<char>, i: int) -> bool {
    0 <= i && i + pat.len() <= s.len() && s.subrange(i, i + pat.len()) == pat
}

/// The number of positions at which the non-empty `pat` occurs in `s`.
pub open spec fn count_matches(s: Seq<char>, pat: Seq<char>) -> nat
    decreases s.len(),
{
    if pat.len() == 0 || s.len() < pat.len() {
        0
    } else {
        (if match_at(s, pat, 0) {
            1 as nat
        } else {
            0 as nat
        }) + count_matches(s.drop_first(), pat)
    }
}

/// A pattern that occurs nowhere is counted zero times.
pub proof fn lemma_count_matches_zero(s: Seq<char>, pat: Seq<char>)
    requires
        forall|i: int| !match_at(s, pat, i),
    ensures
        count_matches(s, pat) == 0,
    decreases s.len(),
{
    if pat.len() == 0 || s.len() < pat.len() {
    } else {
        assert(!match_at(s, pat, 0));
        let t = s.drop_first();
        assert forall|i: int| !match_at(t, pat, i) by {
            if match_at(t, pat, i) {
                assert(t.subrange(i, i + pat.len()) =~= s.subrange(i + 1, i + 1 + pat.len()));
                assert(match_at(s, pat, i + 1));
            }
        }
        lemma_count_matches_zero(t, pat);
    }
}

/// A pattern that occurs at exactly one position is counted once.
pub proof fn lemma_count_matches_one(s: Seq<char>, pat: Seq<char>, k: int)
    requires
        pat.len() > 0,
        match_at(s, pat, k),
        forall|i: int| i != k ==> !match_at(s, pat, i),
    ensures
        count_matches(s, pat) == 1,
    decreases s.len(),
{
    let t = s.drop_first();
    if k == 0 {
        assert forall|i: int| !match_at(t, pat, i) by {
            if match_at(t, pat, i) {
                assert(t.subrange(i, i + pat.len()) =~= s.subrange(i + 1, i + 1 + pat.len()));
                assert(match_at(s, pat, i + 1));
            }
        }
        lemma_count_matches_zero(t, pat);
    } else {
        assert(!match_at(s, pat, 0));
        assert(match_at(t, pat, k - 1)) by {
            assert(t.subrange(k - 1, k - 1 + pat.len()) =~= s.subrange(k, k + pat.len()));
        }
        assert forall|i: int| i != k - 1 implies !match_at(t, pat, i) by {
            if match_at(t, pat, i) {
                assert(t.subrange(i, i + pat.len()) =~= s.subrange(i + 1, i + 1 + pat.len()));
                assert(match_at(s, pat, i + 1));
            }
        }
        lemma_count_matches_one(t, pat, k - 1);
    }
}

/// Whether the character `c` occurs in `s`.
pub fn contains_char(s: &str, c: char) -> (r: bool)
    ensures
        r == s@.contains(c),
{
    let n = s.unicode_len();
    let mut i: usize = 0;
    while i < n
        invariant
            n == s@.len(),
            i <= n,
            forall|j: int| 0 <= j < i ==> s@[j] != c,
        decreases n - i,
    {
        if s.get_char(i) == c {
            return true;
        }
        i += 1;
    }
    false
}

} // verus!
