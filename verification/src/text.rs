//! Searching in character sequences: the first occurrence of a pattern at or
//! after a given position, over the `Seq<char>` view of a string.
use vstd::prelude::*;

verus! {

/// `needle` occurs in `hay` starting at position `i`.
pub open spec fn occurs_at(hay: Seq<char>, needle: Seq<char>, i: int) -> bool {
    &&& 0 <= i
    &&& i + needle.len() <= hay.len()
    &&& hay.subrange(i, i + needle.len()) =~= needle
}

/// `i` is the first position at or after `start` where `needle` occurs in `hay`.
pub open spec fn is_first_from(hay: Seq<char>, needle: Seq<char>, start: int, i: int) -> bool {
    &&& start <= i
    &&& occurs_at(hay, needle, i)
    &&& forall|j: int| start <= j < i ==> !occurs_at(hay, needle, j)
}

/// The first position at or after `start` where `needle` occurs in `hay`,
/// or `None` when it occurs nowhere from `start` on.
pub open spec fn first_match_from(hay: Seq<char>, needle: Seq<char>, start: int) -> Option<int> {
    if exists|i: int| is_first_from(hay, needle, start, i) {
        Some(choose|i: int| is_first_from(hay, needle, start, i))
    } else {
        None
    }
}

/// `needle` occurs somewhere in `hay`.
pub open spec fn contains_seq(hay: Seq<char>, needle: Seq<char>) -> bool {
    exists|i: int| occurs_at(hay, needle, i)
}

/// The first position is the one that `is_first_from` describes.
pub proof fn lemma_first_match_is(hay: Seq<char>, needle: Seq<char>, start: int, i: int)
    requires
        is_first_from(hay, needle, start, i),
    ensures
        first_match_from(hay, needle, start) == Some(i),
{
    let k = choose|k: int| is_first_from(hay, needle, start, k);
    assert(is_first_from(hay, needle, start, k));
    if k < i {
        assert(!occurs_at(hay, needle, k));
    } else if i < k {
        assert(!occurs_at(hay, needle, i));
    }
}

/// Any occurrence at or after `start` makes the first match exist, no later than it.
pub proof fn lemma_first_match_exists(hay: Seq<char>, needle: Seq<char>, start: int, i: int)
    requires
        start <= i,
        occurs_at(hay, needle, i),
    ensures
        first_match_from(hay, needle, start) matches Some(k) && start <= k <= i && is_first_from(
            hay,
            needle,
            start,
            k,
        ),
    decreases i - start,
{
    if exists|j: int| start <= j < i && occurs_at(hay, needle, j) {
        let j = choose|j: int| start <= j < i && occurs_at(hay, needle, j);
        lemma_first_match_exists(hay, needle, start, j);
    } else {
        assert(is_first_from(hay, needle, start, i));
        lemma_first_match_is(hay, needle, start, i);
    }
}

/// No occurrence at or after `start` means no first match.
pub proof fn lemma_first_match_none(hay: Seq<char>, needle: Seq<char>, start: int)
    requires
        forall|j: int| start <= j ==> !occurs_at(hay, needle, j),
    ensures
        first_match_from(hay, needle, start) is None,
{
}

/// The characters of `s`, in order.
pub fn chars_of(s: &str) -> (v: Vec<char>)
    ensures
        v@ == s@,
{
    let mut v: Vec<char> = Vec::new();
    for c in it: s.chars()
        invariant
            it.seq() == s@,
            v@ == it.seq().take(it.index() as int),
    {
        v.push(c);
    }
    v
}

/// Whether `needle` occurs in `hay` at position `i`.
fn matches_at(hay: &Vec<char>, needle: &Vec<char>, i: usize) -> (b: bool)
    requires
        i + needle.len() <= hay.len(),
    ensures
        b == occurs_at(hay@, needle@, i as int),
{
    let n = needle.len();
    let mut j: usize = 0;
    while j < n
        invariant
            n == needle.len(),
            i + n <= hay.len(),
            j <= n,
            forall|k: int| 0 <= k < j ==> hay@[i + k] == needle@[k],
        decreases n - j,
    {
        if hay[i + j] != needle[j] {
            assert(hay@.subrange(i as int, i + n)[j as int] != needle@[j as int]);
            return false;
        }
        j = j + 1;
    }
    assert(hay@.subrange(i as int, i + n) =~= needle@);
    true
}

/// The first position at or after `start` where `needle` occurs in `hay`.
pub fn find_from(hay: &Vec<char>, needle: &Vec<char>, start: usize) -> (r: Option<usize>)
    ensures
        match r {
            Some(k) => first_match_from(hay@, needle@, start as int) == Some(k as int),
            None => first_match_from(hay@, needle@, start as int) is None,
        },
{
    let h = hay.len();
    let n = needle.len();
    if n > h || start > h - n {
        proof {
            assert forall|j: int| start <= j implies !occurs_at(hay@, needle@, j) by {}
            lemma_first_match_none(hay@, needle@, start as int);
        }
        return None;
    }
    let last = h - n;
    let mut i: usize = start;
    while i <= last
        invariant
            h == hay.len(),
            n == needle.len(),
            last == h - n,
            start <= i,
            i <= last + 1,
            forall|j: int| start <= j < i ==> !occurs_at(hay@, needle@, j),
        decreases last + 1 - i,
    {
        if matches_at(hay, needle, i) {
            proof {
                lemma_first_match_is(hay@, needle@, start as int, i as int);
            }
            return Some(i);
        }
        i = i + 1;
    }
    proof {
        assert forall|j: int| start <= j implies !occurs_at(hay@, needle@, j) by {
            if j < i {
            }
        }
        lemma_first_match_none(hay@, needle@, start as int);
    }
    None
}

} // verus!
