//! Small verified helpers over `&str` and its `Seq<char>` view: equality,
//! character extraction, and substring search.

use vstd::prelude::*;
use vstd::string::StrSliceExecFns;

verus! {

/// Character-by-character string equality.
pub fn str_eq(a: &str, b: &str) -> (r: bool)
    ensures
        r == (a@ == b@),
{
    let a_len = a.unicode_len();
    let b_len = b.unicode_len();
    if a_len != b_len {
        assert(a@ != b@) by {
            assert(a@.len() != b@.len());
        }
        return false;
    }
    let mut i: usize = 0;
    while i < a_len
        invariant
            i <= a_len,
            a_len == a@.len(),
            a_len == b@.len(),
            forall|j: int| 0 <= j < i ==> a@[j] == b@[j],
        decreases a_len - i,
    {
        if a.get_char(i) != b.get_char(i) {
            return false;
        }
        i += 1;
    }
    proof {
        assert(a@ =~= b@);
    }
    true
}

/// Copies the characters of a string into a vector, for constant-time indexing.
pub fn str_chars(s: &str) -> (r: Vec<char>)
    ensures
        r@ == s@,
{
    let len = s.unicode_len();
    let mut out: Vec<char> = Vec::new();
    let mut i: usize = 0;
    while i < len
        invariant
            i <= len,
            len == s@.len(),
            out@ =~= s@.take(i as int),
        decreases len - i,
    {
        out.push(s.get_char(i));
        assert(out@ =~= s@.take(i + 1));
        i += 1;
    }
    proof {
        assert(out@ =~= s@);
    }
    out
}

/// True when `pat` occurs in `s` starting at position `i`.
pub open spec fn match_at(s: Seq<char>, pat: Seq<char>, i: int) -> bool {
    &&& 0 <= i
    &&& i + pat.len() <= s.len()
    &&& s.subrange(i, i + pat.len() as int) == pat
}

/// Position of the first occurrence of `pat` in `s` at or after `from`.
pub open spec fn spec_find_from(s: Seq<char>, pat: Seq<char>, from: int) -> Option<int>
    decreases s.len() - from when 0 <= from <= s.len()
{
    if pat.len() == 0 {
        Some(from)
    } else if from + pat.len() > s.len() {
        None
    } else if match_at(s, pat, from) {
        Some(from)
    } else {
        spec_find_from(s, pat, from + 1)
    }
}

/// Position of the first occurrence of `pat` in `s`.
pub open spec fn spec_find(s: Seq<char>, pat: Seq<char>) -> Option<int> {
    spec_find_from(s, pat, 0)
}

proof fn lemma_find_from_properties(s: Seq<char>, pat: Seq<char>, from: int)
    requires
        0 <= from <= s.len(),
    ensures
        match spec_find_from(s, pat, from) {
            Some(p) => {
                &&& from <= p
                &&& match_at(s, pat, p)
                &&& forall|j: int| from <= j < p ==> !match_at(s, pat, j)
            },
            None => forall|j: int| from <= j ==> !match_at(s, pat, j),
        },
    decreases s.len() - from,
{
    if pat.len() == 0 {
        assert(s.subrange(from, from) =~= pat);
    } else if from + pat.len() > s.len() {
    } else if match_at(s, pat, from) {
    } else {
        lemma_find_from_properties(s, pat, from + 1);
    }
}

/// The first occurrence is an occurrence, and nothing before it matches.
pub proof fn lemma_find_is_first(s: Seq<char>, pat: Seq<char>)
    ensures
        match spec_find(s, pat) {
            Some(p) => {
                &&& 0 <= p
                &&& match_at(s, pat, p)
                &&& forall|j: int| 0 <= j < p ==> !match_at(s, pat, j)
            },
            None => forall|j: int| !match_at(s, pat, j),
        },
{
    lemma_find_from_properties(s, pat, 0);
}

/// Finds the first occurrence of `pat` in `s`, by character position.
pub fn find_sub(s: &Vec<char>, pat: &Vec<char>) -> (r: Option<usize>)
    ensures
        match r {
            Some(p) => spec_find(s@, pat@) == Some(p as int),
            None => spec_find(s@, pat@) is None,
        },
{
    let s_len = s.len();
    let pat_len = pat.len();
    if pat_len == 0 {
        return Some(0);
    }
    if pat_len > s_len {
        return None;
    }
    let mut i: usize = 0;
    while i <= s_len - pat_len
        invariant
            0 <= i,
            i + pat_len <= s_len + 1,
            0 < pat_len <= s_len,
            s_len == s@.len(),
            pat_len == pat@.len(),
            spec_find(s@, pat@) == spec_find_from(s@, pat@, i as int),
        decreases s_len - i,
    {
        let mut k: usize = 0;
        let mut matched = true;
        while k < pat_len
            invariant
                k <= pat_len,
                i + pat_len <= s_len,
                s_len == s@.len(),
                pat_len == pat@.len(),
                matched == (forall|j: int| 0 <= j < k ==> s@[i + j] == pat@[j]),
            decreases pat_len - k,
        {
            if s[i + k] != pat[k] {
                matched = false;
                k = pat_len;
            } else {
                k += 1;
            }
        }
        if matched {
            assert(s@.subrange(i as int, i + pat_len) =~= pat@);
            assert(match_at(s@, pat@, i as int));
            return Some(i);
        }
        proof {
            if match_at(s@, pat@, i as int) {
                let j0 = choose|j: int| 0 <= j < pat_len && s@[i + j] != pat@[j];
                assert(s@.subrange(i as int, i + pat_len as int)[j0] == s@[i + j0]);
                assert(false);
            }
        }
        i += 1;
    }
    proof {
        assert(spec_find_from(s@, pat@, i as int) is None);
    }
    None
}

} // verus!
