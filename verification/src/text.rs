//! Literal substring search over sequences of characters.

use vstd::prelude::*;

verus! {

/// `pat` stands in `text` at character offset `i`.
pub open spec fn occurs_at(text: Seq<char>, pat: Seq<char>, i: int) -> bool {
    &&& 0 <= i
    &&& i + pat.len() <= text.len()
    &&& text.subrange(i, i + pat.len()) == pat
}

/// `pat` stands somewhere in `text`.
pub open spec fn occurs(text: Seq<char>, pat: Seq<char>) -> bool {
    exists|i: int| occurs_at(text, pat, i)
}

/// `i` is the least offset at which `pat` stands in `text`.
pub open spec fn first_occurrence(text: Seq<char>, pat: Seq<char>, i: int) -> bool {
    &&& occurs_at(text, pat, i)
    &&& forall|j: int| 0 <= j < i ==> !occurs_at(text, pat, j)
}

/// The characters of a string slice, in order.
pub fn to_chars(s: &str) -> (v: Vec<char>)
    ensures
        v@ == s@,
{
    let n: usize = s.unicode_len();
    let mut v: Vec<char> = Vec::new();
    let mut i: usize = 0;
    while i < n
        invariant
            n == s@.len(),
            i <= n,
            v@ == s@.subrange(0, i as int),
        decreases n - i,
    {
        let c = s.get_char(i);
        v.push(c);
        i = i + 1;
        assert(v@ =~= s@.subrange(0, i as int));
    }
    assert(s@.subrange(0, n as int) =~= s@);
    v
}

/// Whether `pat` stands in `text` at offset `i`.
pub fn matches_at(text: &Vec<char>, pat: &Vec<char>, i: usize) -> (r: bool)
    ensures
        r == occurs_at(text@, pat@, i as int),
{
    if pat.len() > text.len() || i > text.len() - pat.len() {
        return false;
    }
    let mut k: usize = 0;
    while k < pat.len()
        invariant
            k <= pat.len(),
            i + pat.len() <= text.len(),
            forall|j: int| 0 <= j < k ==> text@[i + j] == pat@[j],
        decreases pat.len() - k,
    {
        if text[i + k] != pat[k] {
            proof {
                assert(text@.subrange(i as int, i + pat.len())[k as int] == text@[i + k]);
            }
            return false;
        }
        k = k + 1;
    }
    assert(text@.subrange(i as int, i + pat.len()) =~= pat@);
    true
}

/// The least offset at which `pat` stands in `text`, if it stands there at all.
pub fn find(text: &Vec<char>, pat: &Vec<char>) -> (r: Option<usize>)
    ensures
        match r {
            Some(i) => first_occurrence(text@, pat@, i as int),
            None => !occurs(text@, pat@),
        },
{
    if pat.len() > text.len() {
        return None;
    }
    let last: usize = text.len() - pat.len();
    let mut i: usize = 0;
    while i < last
        invariant
            last == text.len() - pat.len(),
            i <= last,
            forall|j: int| 0 <= j < i ==> !occurs_at(text@, pat@, j),
        decreases last - i,
    {
        if matches_at(text, pat, i) {
            return Some(i);
        }
        i = i + 1;
    }
    if matches_at(text, pat, last) {
        Some(last)
    } else {
        None
    }
}

/// Whether `pat` stands somewhere in `text`.
pub fn contains(text: &Vec<char>, pat: &Vec<char>) -> (r: bool)
    ensures
        r == occurs(text@, pat@),
{
    find(text, pat).is_some()
}

} // verus!
