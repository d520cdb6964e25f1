//! Character-level string helpers shared by the parsing modules: equality,
//! single-character search, and substring search, each against a spec over
//! the string's character sequence.

use vstd::prelude::*;
use vstd::string::StrSliceExecFns;

verus! {

/// The first position at or after `i` where `c` occurs in `s`.
pub open spec fn char_from(s: Seq<char>, c: char, i: int) -> Option<int>
    decreases s.len() - i,
{
    if i < 0 || i >= s.len() {
        None
    } else if s[i] == c {
        Some(i)
    } else {
        char_from(s, c, i + 1)
    }
}

/// A found position is in range, holds `c`, and lies at or after the start.
pub proof fn lemma_char_from_props(s: Seq<char>, c: char, i: int)
    ensures
        match char_from(s, c, i) {
            Some(j) => i <= j < s.len() && s[j] == c,
            None => true,
        },
    decreases s.len() - i,
{
    if 0 <= i < s.len() && s[i] != c {
        lemma_char_from_props(s, c, i + 1);
    }
}

/// `pat` occurs in `s` starting at position `i`.
pub open spec fn contains_at(s: Seq<char>, pat: Seq<char>, i: int) -> bool {
    0 <= i && i + pat.len() <= s.len() && s.subrange(i, i + pat.len()) == pat
}

/// `pat` occurs somewhere in `s`.
pub open spec fn contains_seq(s: Seq<char>, pat: Seq<char>) -> bool {
    exists|i: int| contains_at(s, pat, i)
}

/// Character-wise string equality.
pub(crate) fn str_eq(a: &str, b: &str) -> (r: bool)
    ensures
        r == (a@ == b@),
{
    let alen = a.unicode_len();
    let blen = b.unicode_len();
    if alen != blen {
        return false;
    }
    let mut i: usize = 0;
    while i < alen
        invariant
            0 <= i <= alen,
            alen == a@.len(),
            alen == b@.len(),
            forall|j: int| 0 <= j < i ==> a@[j] == b@[j],
        decreases alen - i,
    {
        if a.get_char(i) != b.get_char(i) {
            return false;
        }
        i = i + 1;
    }
    proof {
        assert(a@ =~= b@);
    }
    true
}

/// Find the first `c` in `s` at or after `from`.
pub(crate) fn find_char_from(s: &str, c: char, from: usize) -> (r: Option<usize>)
    ensures
        match r {
            Some(j) => char_from(s@, c, from as int) == Some(j as int) && from <= j < s@.len()
                && s@[j as int] == c,
            None => char_from(s@, c, from as int) is None,
        },
{
    let len = s.unicode_len();
    if from >= len {
        return None;
    }
    let mut i: usize = from;
    while i < len
        invariant
            from <= i <= len,
            len == s@.len(),
            char_from(s@, c, from as int) == char_from(s@, c, i as int),
        decreases len - i,
    {
        if s.get_char(i) == c {
            return Some(i);
        }
        i = i + 1;
    }
    None
}

/// Substring search: whether `pat` occurs anywhere in `s`.
pub(crate) fn str_contains(s: &str, pat: &str) -> (r: bool)
    ensures
        r == contains_seq(s@, pat@),
{
    let n = s.unicode_len();
    let m = pat.unicode_len();
    if m > n {
        proof {
            assert forall|i: int| !contains_at(s@, pat@, i) by {}
        }
        return false;
    }
    if m == 0 {
        proof {
            assert(s@.subrange(0, 0) =~= pat@);
            assert(contains_at(s@, pat@, 0));
        }
        return true;
    }
    let end = n - m + 1;
    let mut i: usize = 0;
    while i < end
        invariant
            0 <= i <= end,
            1 <= m <= n,
            end == n - m + 1,
            n == s@.len(),
            m == pat@.len(),
            forall|j: int| 0 <= j < i ==> !contains_at(s@, pat@, j),
        decreases end - i,
    {
        if str_eq(s.substring_char(i, i + m), pat) {
            proof {
                assert(contains_at(s@, pat@, i as int));
            }
            return true;
        }
        i = i + 1;
    }
    proof {
        assert forall|j: int| !contains_at(s@, pat@, j) by {
            if 0 <= j < end {
                assert(!contains_at(s@, pat@, j));
            }
        }
    }
    false
}

} // verus!
