//! Character-level helpers on strings: searching for a pattern and
//! rendering numbers in decimal.

use vstd::prelude::*;

verus! {

/// `p` occurs in `s` at index `i`.
pub open spec fn occurs_at(s: Seq<char>, p: Seq<char>, i: int) -> bool {
    0 <= i && i + p.len() <= s.len() && s.subrange(i, i + p.len()) =~= p
}

/// The first index at or after `i` at which `p` occurs in `s`.
pub open spec fn find_from(s: Seq<char>, p: Seq<char>, i: int) -> Option<int>
    decreases s.len() - i,
{
    if i < 0 || i + p.len() > s.len() {
        None
    } else if occurs_at(s, p, i) {
        Some(i)
    } else {
        find_from(s, p, i + 1)
    }
}

/// `p` occurs somewhere in `s`.
pub open spec fn contains_text(s: Seq<char>, p: Seq<char>) -> bool {
    find_from(s, p, 0) is Some
}

/// What `find_from` returns is an occurrence, and the first one from `i` on.
pub proof fn lemma_find_from(s: Seq<char>, p: Seq<char>, i: int)
    requires
        0 <= i,
    ensures
        match find_from(s, p, i) {
            Some(k) => {
                &&& i <= k
                &&& occurs_at(s, p, k)
                &&& forall|j: int| i <= j < k ==> !occurs_at(s, p, j)
            },
            None => forall|j: int| i <= j ==> !occurs_at(s, p, j),
        },
    decreases s.len() - i,
{
    if i + p.len() > s.len() {
    } else if occurs_at(s, p, i) {
    } else {
        lemma_find_from(s, p, i + 1);
    }
}

/// Searching `pre + rest` from inside `rest` finds what searching `rest`
/// finds, shifted by the length of `pre`.
pub proof fn lemma_find_shift(pre: Seq<char>, rest: Seq<char>, p: Seq<char>, i: int)
    requires
        0 <= i,
    ensures
        find_from(pre + rest, p, pre.len() + i) == match find_from(rest, p, i) {
            Some(k) => Some(k + pre.len()),
            None => None,
        },
    decreases rest.len() - i,
{
    let s = pre + rest;
    if i + p.len() <= rest.len() {
        assert(s.subrange(pre.len() + i, pre.len() + i + p.len()) =~= rest.subrange(i, i + p.len()));
        if !occurs_at(rest, p, i) {
            if p.len() == 0 {
                assert(rest.subrange(i, i) =~= p);
            }
            lemma_find_shift(pre, rest, p, i + 1);
        }
    }
}

/// Where `p` occurs at `k` and nowhere from `i` up to `k`, the search from
/// `i` finds `k`.
pub proof fn lemma_find_first(s: Seq<char>, p: Seq<char>, i: int, k: int)
    requires
        0 <= i <= k,
        occurs_at(s, p, k),
        forall|j: int| i <= j < k ==> !occurs_at(s, p, j),
    ensures
        find_from(s, p, i) == Some(k),
{
    lemma_find_from(s, p, i);
}

/// The characters of `s`, one by one.
pub fn chars_of(s: &str) -> (v: Vec<char>)
    ensures
        v@ == s@,
{
    let n = s.unicode_len();
    let mut v: Vec<char> = Vec::new();
    let mut i: usize = 0;
    while i < n
        invariant
            n == s@.len(),
            i <= n,
            v@ =~= s@.subrange(0, i as int),
        decreases n - i,
    {
        v.push(s.get_char(i));
        i = i + 1;
    }
    v
}

/// Whether `p` occurs in `s` at index `i`.
fn matches_at(s: &Vec<char>, p: &Vec<char>, i: usize) -> (r: bool)
    requires
        i + p.len() <= s.len(),
    ensures
        r == occurs_at(s@, p@, i as int),
{
    let mut j: usize = 0;
    while j < p.len()
        invariant
            i + p.len() <= s.len(),
            j <= p.len(),
            forall|k: int| 0 <= k < j ==> s@[i + k] == p@[k],
        decreases p.len() - j,
    {
        if s[i + j] != p[j] {
            assert(s@.subrange(i as int, i + p.len())[j as int] != p@[j as int]);
            return false;
        }
        j = j + 1;
    }
    assert(s@.subrange(i as int, i + p.len()) =~= p@);
    true
}

/// The first index at or after `start` at which `p` occurs in `s`.
pub fn find_text(s: &Vec<char>, p: &Vec<char>, start: usize) -> (r: Option<usize>)
    ensures
        match r {
            Some(k) => find_from(s@, p@, start as int) == Some(k as int),
            None => find_from(s@, p@, start as int) is None,
        },
{
    let mut i: usize = start;
    if i > s.len() || s.len() - i < p.len() {
        return None;
    }
    while p.len() <= s.len() - i
        invariant
            start <= i <= s.len(),
            find_from(s@, p@, start as int) == find_from(s@, p@, i as int),
        decreases s.len() - i,
    {
        if matches_at(s, p, i) {
            return Some(i);
        }
        i = i + 1;
    }
    None
}

} // verus!
