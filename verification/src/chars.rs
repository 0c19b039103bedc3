//! Character-sequence utilities: string/vector conversion, substring search
//! and comparison. All feed logic works over `Vec<char>` with `Seq<char>`
//! views; strings cross into this representation at the API edge.

use vstd::prelude::*;

verus! {

/// Copy the characters of a string slice into a vector.
pub fn str_to_chars(s: &str) -> (v: Vec<char>)
    ensures
        v@ == s@,
{
    let n = s.unicode_len();
    let mut v: Vec<char> = Vec::new();
    let mut i: usize = 0;
    while i < n
        invariant
            i <= n,
            n == s@.len(),
            v@ == s@.subrange(0, i as int),
        decreases n - i,
    {
        v.push(s.get_char(i));
        proof {
            assert(v@ =~= s@.subrange(0, i + 1));
        }
        i += 1;
    }
    proof {
        assert(v@ =~= s@);
    }
    v
}

/// Relies on `String`'s `FromIterator<char>` implementation: collecting
/// characters yields the string holding exactly those characters in order.
#[verifier::external_body]
pub fn chars_to_string(v: &Vec<char>) -> (s: String)
    ensures
        s@ == v@,
{
    v.iter().collect()
}

/// Copy of the characters in the half-open range `[lo, hi)`.
pub fn subvec(v: &Vec<char>, lo: usize, hi: usize) -> (r: Vec<char>)
    requires
        lo <= hi <= v.len(),
    ensures
        r@ == v@.subrange(lo as int, hi as int),
{
    let mut r: Vec<char> = Vec::new();
    let mut i = lo;
    while i < hi
        invariant
            lo <= i <= hi <= v.len(),
            r@ == v@.subrange(lo as int, i as int),
        decreases hi - i,
    {
        r.push(v[i]);
        proof {
            assert(r@ =~= v@.subrange(lo as int, i + 1));
        }
        i += 1;
    }
    r
}

/// The pattern `pat` occurs in `s` starting at position `i`.
pub open spec fn matches_at(s: Seq<char>, pat: Seq<char>, i: int) -> bool {
    0 <= i && i + pat.len() <= s.len() && s.subrange(i, i + pat.len()) == pat
}

/// Position of the leftmost occurrence of `pat` in `s` at or after `i`.
pub open spec fn spec_find(s: Seq<char>, pat: Seq<char>, i: nat) -> Option<int>
    decreases s.len() - i,
{
    if i > s.len() {
        None
    } else if pat.len() == 0 {
        Some(i as int)
    } else if i + pat.len() > s.len() {
        None
    } else if s.subrange(i as int, (i + pat.len()) as int) == pat {
        Some(i as int)
    } else {
        spec_find(s, pat, i + 1)
    }
}

/// What `spec_find` returns: the least match position, or a guarantee that
/// no position at or after `i` matches.
pub proof fn lemma_find_characterizes(s: Seq<char>, pat: Seq<char>, i: nat)
    ensures
        spec_find(s, pat, i) matches Some(j) ==> i <= j && matches_at(s, pat, j)
            && forall|k: int| i <= k < j ==> !matches_at(s, pat, k),
        spec_find(s, pat, i) is None ==> forall|j: int| j >= i ==> !matches_at(s, pat, j),
    decreases s.len() + 1 - i,
{
    if i > s.len() {
    } else if pat.len() == 0 {
        assert(s.subrange(i as int, i as int) =~= pat);
    } else if i + pat.len() > s.len() {
    } else if s.subrange(i as int, (i + pat.len()) as int) == pat {
    } else {
        lemma_find_characterizes(s, pat, i + 1);
    }
}

/// The characters of `v` starting at `j` match `pat` exactly.
pub fn eq_at(v: &Vec<char>, pat: &Vec<char>, j: usize) -> (b: bool)
    requires
        j + pat@.len() <= v@.len(),
    ensures
        b == matches_at(v@, pat@, j as int),
{
    let _n = v.len();
    assert(v@.len() <= usize::MAX);
    let mut k: usize = 0;
    while k < pat.len()
        invariant
            k <= pat@.len(),
            j + pat@.len() <= v@.len(),
            v@.len() <= usize::MAX,
            forall|t: int| 0 <= t < k ==> v@[j + t] == pat@[t],
        decreases pat@.len() - k,
    {
        if v[j + k] != pat[k] {
            proof {
                assert(v@.subrange(j as int, j + pat@.len())[k as int] == v@[j + k]);
            }
            return false;
        }
        k += 1;
    }
    proof {
        assert(v@.subrange(j as int, j + pat@.len()) =~= pat@);
    }
    true
}

/// The two vectors hold the same characters.
pub fn chars_eq(a: &Vec<char>, b: &Vec<char>) -> (r: bool)
    ensures
        r == (a@ == b@),
{
    if a.len() != b.len() {
        return false;
    }
    let mut k: usize = 0;
    while k < a.len()
        invariant
            k <= a@.len(),
            a@.len() == b@.len(),
            forall|t: int| 0 <= t < k ==> a@[t] == b@[t],
        decreases a@.len() - k,
    {
        if a[k] != b[k] {
            return false;
        }
        k += 1;
    }
    proof {
        assert(a@ =~= b@);
    }
    true
}

/// Leftmost occurrence of `pat` in `v` at or after `start`.
pub fn find_from(v: &Vec<char>, pat: &Vec<char>, start: usize) -> (r: Option<usize>)
    requires
        start <= v@.len(),
    ensures
        match r {
            Some(j) => spec_find(v@, pat@, start as nat) == Some(j as int) && j <= v@.len(),
            None => spec_find(v@, pat@, start as nat) is None,
        },
{
    if pat.len() == 0 {
        return Some(start);
    }
    if pat.len() > v.len() || start > v.len() - pat.len() {
        return None;
    }
    let last = v.len() - pat.len();
    let mut j = start;
    while j <= last
        invariant
            start <= j <= last + 1,
            pat@.len() >= 1,
            last + pat@.len() == v@.len(),
            v@.len() <= usize::MAX,
            spec_find(v@, pat@, start as nat) == spec_find(v@, pat@, j as nat),
        decreases last + 1 - j,
    {
        if eq_at(v, pat, j) {
            assert(spec_find(v@, pat@, j as nat) == Some(j as int));
            return Some(j);
        }
        assert(spec_find(v@, pat@, j as nat) == spec_find(v@, pat@, (j + 1) as nat));
        j += 1;
    }
    assert(spec_find(v@, pat@, j as nat) is None);
    None
}

/// `pat` occurs somewhere in `s`.
pub open spec fn spec_contains(s: Seq<char>, pat: Seq<char>) -> bool {
    exists|i: int| matches_at(s, pat, i)
}

/// Substring test, exact with respect to `spec_contains`.
pub fn contains_sub(v: &Vec<char>, pat: &Vec<char>) -> (b: bool)
    ensures
        b == spec_contains(v@, pat@),
{
    proof {
        lemma_find_characterizes(v@, pat@, 0);
    }
    match find_from(v, pat, 0) {
        Some(_) => true,
        None => {
            assert(forall|i: int| !matches_at(v@, pat@, i));
            false
        },
    }
}

} // verus!
