//! Suffix and substring tests on character sequences.
use vstd::prelude::*;

verus! {

/// `s` ends with `suffix`.
pub open spec fn ends_with(s: Seq<char>, suffix: Seq<char>) -> bool {
    suffix.len() <= s.len() && s.subrange(s.len() - suffix.len(), s.len() as int) == suffix
}

/// `pat` occurs in `s` at position `i`.
pub open spec fn occurs_at(s: Seq<char>, pat: Seq<char>, i: int) -> bool {
    0 <= i && i + pat.len() <= s.len() && s.subrange(i, i + pat.len()) == pat
}

/// `pat` occurs somewhere in `s` as a contiguous substring.
pub open spec fn contains(s: Seq<char>, pat: Seq<char>) -> bool {
    exists|i: int| occurs_at(s, pat, i)
}

/// Whether `pat` matches `s` at `start`, comparing `pat.len()` characters.
fn matches_at(s: &str, s_len: usize, pat: &str, pat_len: usize, start: usize) -> (r: bool)
    requires
        s_len == s@.len(),
        pat_len == pat@.len(),
        start + pat_len <= s_len,
    ensures
        r == (s@.subrange(start as int, start + pat_len) == pat@),
{
    let mut k: usize = 0;
    while k < pat_len
        invariant
            s_len == s@.len(),
            pat_len == pat@.len(),
            start + pat_len <= s_len,
            k <= pat_len,
            forall|j: int| 0 <= j < k ==> s@[start + j] == pat@[j],
        decreases pat_len - k,
    {
        if s.get_char(start + k) != pat.get_char(k) {
            assert(s@.subrange(start as int, start + pat_len)[k as int] != pat@[k as int]);
            return false;
        }
        k = k + 1;
    }
    assert(s@.subrange(start as int, start + pat_len) =~= pat@);
    true
}

/// Whether `s` ends with `suffix`.
pub fn str_ends_with(s: &str, suffix: &str) -> (r: bool)
    ensures
        r == ends_with(s@, suffix@),
{
    let s_len = s.unicode_len();
    let suffix_len = suffix.unicode_len();
    if suffix_len > s_len {
        return false;
    }
    matches_at(s, s_len, suffix, suffix_len, s_len - suffix_len)
}

/// Whether `a` and `b` hold the same characters.
pub fn str_equals(a: &str, b: &str) -> (r: bool)
    ensures
        r == (a@ == b@),
{
    let a_len = a.unicode_len();
    let b_len = b.unicode_len();
    if a_len != b_len {
        return false;
    }
    let r = matches_at(a, a_len, b, b_len, 0);
    assert(a@.subrange(0, a_len as int) =~= a@);
    r
}

/// Whether `pat` occurs in `s` as a contiguous substring.
pub fn str_contains(s: &str, pat: &str) -> (r: bool)
    ensures
        r == contains(s@, pat@),
{
    let s_len = s.unicode_len();
    let pat_len = pat.unicode_len();
    if pat_len > s_len {
        assert(forall|i: int| !occurs_at(s@, pat@, i));
        return false;
    }
    if pat_len == 0 {
        assert(s@.subrange(0, 0) =~= pat@);
        assert(occurs_at(s@, pat@, 0));
        return true;
    }
    let mut start: usize = 0;
    while start <= s_len - pat_len
        invariant
            s_len == s@.len(),
            pat_len == pat@.len(),
            0 < pat_len <= s_len,
            start <= s_len - pat_len + 1,
            forall|i: int| 0 <= i < start ==> !occurs_at(s@, pat@, i),
        decreases s_len - pat_len + 1 - start,
    {
        if matches_at(s, s_len, pat, pat_len, start) {
            assert(occurs_at(s@, pat@, start as int));
            return true;
        }
        start = start + 1;
    }
    assert(forall|i: int| !occurs_at(s@, pat@, i));
    false
}

} // verus!
