//! Searching and splitting character sequences.
//!
//! The definitions are over `Seq<char>`; the functions that run take
//! `&[char]` and are proved against the definitions through its view.

use vstd::prelude::*;
use vstd::slice::slice_subrange;

verus! {

/// `pattern` stands in `s` at index `i`.
pub open spec fn occurs_at(s: Seq<char>, pattern: Seq<char>, i: int) -> bool {
    &&& 0 <= i
    &&& i + pattern.len() <= s.len()
    &&& s.subrange(i, i + pattern.len()) == pattern
}

/// `pattern` stands in `s` at index `i` and at no smaller index.
pub open spec fn is_first_occurrence(s: Seq<char>, pattern: Seq<char>, i: int) -> bool {
    &&& occurs_at(s, pattern, i)
    &&& forall|j: int| 0 <= j < i ==> !occurs_at(s, pattern, j)
}

/// The smallest index at which `pattern` stands in `s`, if there is one.
pub open spec fn first_occurrence(s: Seq<char>, pattern: Seq<char>) -> Option<int> {
    if exists|i: int| is_first_occurrence(s, pattern, i) {
        Some(choose|i: int| is_first_occurrence(s, pattern, i))
    } else {
        None
    }
}

/// The pieces of `s` between successive occurrences of `pattern`, found
/// from left to right without overlap. An `s` without any occurrence is its
/// own single piece, so the result is never empty; an empty pattern
/// separates nothing.
pub open spec fn split(s: Seq<char>, pattern: Seq<char>) -> Seq<Seq<char>>
    decreases s.len(),
{
    match first_occurrence(s, pattern) {
        Some(i) if pattern.len() > 0 => seq![s.take(i)] + split(
            s.skip(i + pattern.len()),
            pattern,
        ),
        _ => seq![s],
    }
}

/// An index that is a first occurrence is the first occurrence.
pub proof fn lemma_first_occurrence_found(s: Seq<char>, pattern: Seq<char>, i: int)
    requires
        is_first_occurrence(s, pattern, i),
    ensures
        first_occurrence(s, pattern) == Some(i),
{
    let k = choose|k: int| is_first_occurrence(s, pattern, k);
    assert(is_first_occurrence(s, pattern, k));
    assert(k == i) by {
        if k < i {
            assert(!occurs_at(s, pattern, k));
        }
        if i < k {
            assert(!occurs_at(s, pattern, i));
        }
    }
}

/// Where the pattern stands nowhere, there is no first occurrence.
pub proof fn lemma_first_occurrence_absent(s: Seq<char>, pattern: Seq<char>)
    requires
        forall|j: int| !occurs_at(s, pattern, j),
    ensures
        first_occurrence(s, pattern) is None,
{
    assert forall|i: int| !is_first_occurrence(s, pattern, i) by {
        assert(!occurs_at(s, pattern, i));
    }
}

/// A split has at least one piece, and a split of one piece is the whole
/// sequence.
pub proof fn lemma_split_pieces(s: Seq<char>, pattern: Seq<char>)
    ensures
        split(s, pattern).len() >= 1,
        split(s, pattern).len() == 1 ==> split(s, pattern) == seq![s],
    decreases s.len(),
{
    match first_occurrence(s, pattern) {
        Some(i) if pattern.len() > 0 => {
            lemma_split_pieces(s.skip(i + pattern.len()), pattern);
        },
        _ => {},
    }
}

/// `pattern` stands at `i` exactly when each of its characters does.
pub proof fn lemma_occurs_at_pointwise(s: Seq<char>, pattern: Seq<char>, i: int)
    ensures
        occurs_at(s, pattern, i) <==> (0 <= i && i + pattern.len() <= s.len() && forall|k: int|
            0 <= k < pattern.len() ==> s[i + k] == pattern[k]),
{
    if 0 <= i && i + pattern.len() <= s.len() {
        let window = s.subrange(i, i + pattern.len());
        if window == pattern {
            assert forall|k: int| 0 <= k < pattern.len() implies s[i + k] == pattern[k] by {
                assert(window[k] == s[i + k]);
            }
        }
        if forall|k: int| 0 <= k < pattern.len() ==> s[i + k] == pattern[k] {
            assert(window =~= pattern);
        }
    }
}

/// Whether `pattern` stands in `s` at index `i`.
pub fn matches_at(s: &[char], pattern: &[char], i: usize) -> (hit: bool)
    ensures
        hit == occurs_at(s@, pattern@, i as int),
{
    let n = s.len();
    let m = pattern.len();
    if i > n || m > n - i {
        return false;
    }
    let mut k: usize = 0;
    while k < m
        invariant
            n == s@.len(),
            m == pattern@.len(),
            i + m <= n,
            k <= m,
            forall|t: int| 0 <= t < k ==> s@[i + t] == pattern@[t],
        decreases m - k,
    {
        if s[i + k] != pattern[k] {
            proof {
                lemma_occurs_at_pointwise(s@, pattern@, i as int);
            }
            return false;
        }
        k += 1;
    }
    proof {
        lemma_occurs_at_pointwise(s@, pattern@, i as int);
    }
    true
}

/// The index of the first occurrence of `pattern` in `s`.
pub fn find_first(s: &[char], pattern: &[char]) -> (found: Option<usize>)
    ensures
        first_occurrence(s@, pattern@) == (match found {
            Some(i) => Some(i as int),
            None => None::<int>,
        }),
        found matches Some(i) ==> is_first_occurrence(s@, pattern@, i as int),
        found is None ==> forall|j: int| !occurs_at(s@, pattern@, j),
{
    let n = s.len();
    let m = pattern.len();
    if m > n {
        proof {
            lemma_first_occurrence_absent(s@, pattern@);
        }
        return None;
    }
    if m == 0 {
        proof {
            assert(s@.subrange(0, 0) =~= pattern@);
            lemma_first_occurrence_found(s@, pattern@, 0);
        }
        return Some(0);
    }
    let mut i: usize = 0;
    while i <= n - m
        invariant
            n == s@.len(),
            m == pattern@.len(),
            0 < m <= n,
            i <= n - m + 1,
            forall|j: int| 0 <= j < i ==> !occurs_at(s@, pattern@, j),
        decreases n - m + 1 - i,
    {
        if matches_at(s, pattern, i) {
            proof {
                lemma_first_occurrence_found(s@, pattern@, i as int);
            }
            return Some(i);
        }
        i += 1;
    }
    proof {
        lemma_first_occurrence_absent(s@, pattern@);
    }
    None
}

/// Cuts `s` at the first occurrence of `pattern`: what precedes it, and
/// what follows it. Without an occurrence, or with an empty pattern, the
/// whole of `s` is the head and there is no tail.
pub fn split_first<'a>(s: &'a [char], pattern: &[char]) -> (parts: (&'a [char], Option<&'a [char]>))
    ensures
        (match parts.1 {
            Some(tail) => {
                &&& pattern@.len() > 0
                &&& first_occurrence(s@, pattern@) matches Some(i)
                &&& occurs_at(s@, pattern@, i)
                &&& parts.0@ == s@.take(i)
                &&& tail@ == s@.skip(i + pattern@.len())
            },
            None => {
                &&& pattern@.len() == 0 || first_occurrence(s@, pattern@) is None
                &&& parts.0@ == s@
            },
        }),
        split(s@, pattern@) == (match parts.1 {
            Some(tail) => seq![parts.0@] + split(tail@, pattern@),
            None => seq![parts.0@],
        }),
{
    let n = s.len();
    let m = pattern.len();
    if m == 0 {
        return (s, None);
    }
    match find_first(s, pattern) {
        Some(i) => {
            let head = slice_subrange(s, 0, i);
            let tail = slice_subrange(s, i + m, n);
            (head, Some(tail))
        },
        None => (s, None),
    }
}

/// The characters of a string, in order.
pub fn collect_chars(text: &str) -> (chars: Vec<char>)
    ensures
        chars@ == text@,
{
    let mut chars: Vec<char> = Vec::new();
    for c in it: text.chars()
        invariant
            chars@ == it.seq().take(it.index() as int),
    {
        chars.push(c);
    }
    chars
}

} // verus!
