//! Byte-string searching and splitting.
use vstd::prelude::*;

verus! {

/// Whether `pattern` occurs in `s` starting at index `i`.
pub open spec fn occurs_at(s: Seq<u8>, pattern: Seq<u8>, i: int) -> bool {
    0 <= i && i + pattern.len() <= s.len() && s.subrange(i, i + pattern.len()) == pattern
}

/// The first index at or after `from` where `pattern` occurs in `s`.
pub open spec fn find_from(s: Seq<u8>, pattern: Seq<u8>, from: int) -> Option<int>
    decreases s.len() - from,
{
    if from < 0 || from + pattern.len() > s.len() {
        None
    } else if occurs_at(s, pattern, from) {
        Some(from)
    } else if from >= s.len() {
        None
    } else {
        find_from(s, pattern, from + 1)
    }
}

proof fn lemma_find_from_occurs(s: Seq<u8>, pattern: Seq<u8>, from: int)
    ensures
        find_from(s, pattern, from) matches Some(i) ==> from <= i && occurs_at(s, pattern, i),
    decreases s.len() - from,
{
    if !(from < 0 || from + pattern.len() > s.len()) && !occurs_at(s, pattern, from) && from < s.len() {
        lemma_find_from_occurs(s, pattern, from + 1);
    }
}

/// A found position is one where the pattern occurs.
pub proof fn lemma_find_occurs(s: Seq<u8>, pattern: Seq<u8>)
    ensures
        find(s, pattern) matches Some(i) ==> occurs_at(s, pattern, i),
{
    lemma_find_from_occurs(s, pattern, 0);
}

/// The first index where `pattern` occurs in `s`.
pub open spec fn find(s: Seq<u8>, pattern: Seq<u8>) -> Option<int> {
    find_from(s, pattern, 0)
}

/// Whether `pattern` occurs at `i`, compared byte by byte.
pub(crate) fn matches_at(s: &[u8], pattern: &[u8], i: usize) -> (res: bool)
    requires
        i + pattern@.len() <= s@.len(),
    ensures
        res == occurs_at(s@, pattern@, i as int),
{
    let slen = s.len();
    let mut k: usize = 0;
    while k < pattern.len()
        invariant
            k <= pattern@.len(),
            slen == s@.len(),
            i + pattern@.len() <= s@.len(),
            forall|m: int| 0 <= m < k ==> s@[i + m] == pattern@[m],
        decreases pattern@.len() - k,
    {
        if s[i + k] != pattern[k] {
            assert(s@.subrange(i as int, i + pattern@.len())[k as int] != pattern@[k as int]);
            return false;
        }
        k = k + 1;
    }
    assert(s@.subrange(i as int, i + pattern@.len()) =~= pattern@);
    true
}

/// The first index where `pattern` occurs in `s`, if any.
pub(crate) fn find_bytes(s: &[u8], pattern: &[u8]) -> (res: Option<usize>)
    ensures
        res matches Some(i) ==> find(s@, pattern@) == Some(i as int) && i + pattern@.len() <= s@.len(),
        res is None ==> find(s@, pattern@) is None,
{
    if pattern.len() == 0 {
        assert(occurs_at(s@, pattern@, 0)) by {
            assert(s@.subrange(0, 0) =~= pattern@);
        }
        return Some(0);
    }
    let mut i: usize = 0;
    while i <= s.len() && pattern.len() <= s.len() - i
        invariant
            pattern@.len() > 0,
            i <= s@.len(),
            find(s@, pattern@) == find_from(s@, pattern@, i as int),
        decreases s@.len() - i,
    {
        if matches_at(s, pattern, i) {
            return Some(i);
        }
        i = i + 1;
    }
    None
}

/// The first index at which `s` holds one of the bytes `a` or `b`.
pub open spec fn first_of_from(s: Seq<u8>, a: u8, b: u8, from: int) -> Option<int>
    decreases s.len() - from,
{
    if from < 0 || from >= s.len() {
        None
    } else if s[from] == a || s[from] == b {
        Some(from)
    } else {
        first_of_from(s, a, b, from + 1)
    }
}

pub(crate) fn first_of(s: &[u8], a: u8, b: u8) -> (res: Option<usize>)
    ensures
        res matches Some(i) ==> first_of_from(s@, a, b, 0) == Some(i as int),
        res is None ==> first_of_from(s@, a, b, 0) is None,
{
    let mut i: usize = 0;
    while i < s.len()
        invariant
            i <= s@.len(),
            first_of_from(s@, a, b, 0) == first_of_from(s@, a, b, i as int),
        decreases s@.len() - i,
    {
        if s[i] == a || s[i] == b {
            return Some(i);
        }
        i = i + 1;
    }
    None
}

/// The pieces of `s` between occurrences of `separator`, as `str::split`
/// produces them: one more piece than there are separators.
pub open spec fn split_bytes(s: Seq<u8>, separator: u8) -> Seq<Seq<u8>>
    decreases s.len(),
{
    if s.len() == 0 {
        seq![Seq::empty()]
    } else if s.last() == separator {
        split_bytes(s.drop_last(), separator).push(Seq::empty())
    } else {
        let pieces = split_bytes(s.drop_last(), separator);
        pieces.update(pieces.len() - 1, pieces.last().push(s.last()))
    }
}

proof fn lemma_split_bytes_nonempty(s: Seq<u8>, separator: u8)
    ensures
        split_bytes(s, separator).len() >= 1,
    decreases s.len(),
{
    if s.len() > 0 {
        lemma_split_bytes_nonempty(s.drop_last(), separator);
    }
}

/// Split a byte string at every occurrence of `separator`.
pub(crate) fn split_at_byte(s: &[u8], separator: u8) -> (res: Vec<Vec<u8>>)
    ensures
        res@.len() == split_bytes(s@, separator).len(),
        forall|k: int| 0 <= k < res@.len() ==> (#[trigger] res@[k])@ == split_bytes(s@, separator)[k],
{
    let mut done: Vec<Vec<u8>> = Vec::new();
    let mut current: Vec<u8> = Vec::new();
    let mut i: usize = 0;
    while i < s.len()
        invariant
            i <= s@.len(),
            done@.len() + 1 == split_bytes(s@.take(i as int), separator).len(),
            forall|k: int| 0 <= k < done@.len() ==> (#[trigger] done@[k])@ == split_bytes(s@.take(i as int), separator)[k],
            current@ == split_bytes(s@.take(i as int), separator).last(),
        decreases s@.len() - i,
    {
        proof {
            assert(s@.take(i + 1).drop_last() =~= s@.take(i as int));
            lemma_split_bytes_nonempty(s@.take(i as int), separator);
        }
        if s[i] == separator {
            done.push(current);
            current = Vec::new();
        } else {
            current.push(s[i]);
        }
        i = i + 1;
    }
    assert(s@.take(i as int) =~= s@);
    done.push(current);
    done
}

} // verus!
