//! Counting and locating single characters in a character sequence.
//!
//! The image-reference grammar is decided entirely by where `/`, `.` and `:`
//! occur in the raw string, so these spec functions and lemmas carry the
//! whole parsing story.

use vstd::prelude::*;

verus! {

/// Number of occurrences of `c` among the first `n` characters of `s`.
pub open spec fn count_prefix(s: Seq<char>, c: char, n: int) -> nat
    decreases n,
{
    if n <= 0 {
        0
    } else {
        count_prefix(s, c, n - 1) + (if s[n - 1] == c {
            1nat
        } else {
            0nat
        })
    }
}

/// Number of occurrences of `c` in all of `s`.
pub open spec fn count_char(s: Seq<char>, c: char) -> nat {
    count_prefix(s, c, s.len() as int)
}

pub open spec fn contains_char(s: Seq<char>, c: char) -> bool {
    count_char(s, c) > 0
}

/// `i` is the position of the first occurrence of `c` in `s`.
pub open spec fn is_first_index(s: Seq<char>, c: char, i: int) -> bool {
    &&& 0 <= i < s.len()
    &&& s[i] == c
    &&& forall|k: int| 0 <= k < i ==> s[k] != c
}

/// The position of the first occurrence of `c` in `s`; meaningful only when
/// `contains_char(s, c)` holds.
pub open spec fn first_index_of(s: Seq<char>, c: char) -> int {
    choose|i: int| is_first_index(s, c, i)
}

/// A prefix holds no occurrence of `c` exactly when its count is zero.
pub proof fn lemma_count_zero(s: Seq<char>, c: char, n: int)
    requires
        n <= s.len(),
    ensures
        count_prefix(s, c, n) == 0 <==> (forall|k: int| 0 <= k < n ==> s[k] != c),
    decreases n,
{
    if n > 0 {
        lemma_count_zero(s, c, n - 1);
    }
}

/// A prefix count only looks at the characters inside the prefix.
pub proof fn lemma_count_congruent(s1: Seq<char>, s2: Seq<char>, c: char, n: int)
    requires
        n <= s1.len(),
        n <= s2.len(),
        forall|k: int| 0 <= k < n ==> s1[k] == s2[k],
    ensures
        count_prefix(s1, c, n) == count_prefix(s2, c, n),
    decreases n,
{
    if n > 0 {
        lemma_count_congruent(s1, s2, c, n - 1);
    }
}

/// Counting distributes over concatenation.
pub proof fn lemma_count_concat(a: Seq<char>, b: Seq<char>, c: char)
    ensures
        count_char(a + b, c) == count_char(a, c) + count_char(b, c),
    decreases b.len(),
{
    if b.len() == 0 {
        assert(forall|k: int| 0 <= k < a.len() ==> (a + b)[k] == a[k]);
        lemma_count_congruent(a + b, a, c, a.len() as int);
    } else {
        lemma_count_concat(a, b.drop_last(), c);
        let n = a.len() + b.len() - 1;
        assert(forall|k: int| 0 <= k < n ==> (a + b)[k] == (a + b.drop_last())[k]);
        lemma_count_congruent(a + b, a + b.drop_last(), c, n);
        assert(forall|k: int| 0 <= k < b.len() - 1 ==> b[k] == b.drop_last()[k]);
        lemma_count_congruent(b, b.drop_last(), c, b.len() - 1);
        assert(count_prefix(a + b, c, n + 1) == count_prefix(a + b, c, n) + (if (a + b)[n] == c {
            1nat
        } else {
            0nat
        }));
        assert((a + b)[n] == b[b.len() - 1]);
        assert(count_prefix(b, c, b.len() as int) == count_prefix(b, c, b.len() - 1) + (if b[b.len()
            - 1] == c {
            1nat
        } else {
            0nat
        }));
    }
}

/// Counting in a one-character sequence.
pub proof fn lemma_count_singleton(c: char, d: char)
    ensures
        count_char(seq![c], d) == (if c == d {
            1nat
        } else {
            0nat
        }),
{
    reveal_with_fuel(count_prefix, 2);
}

/// A character occurring anywhere in a prefix makes the count positive.
pub proof fn lemma_count_pos(s: Seq<char>, c: char, n: int, i: int)
    requires
        0 <= i < n <= s.len(),
        s[i] == c,
    ensures
        count_prefix(s, c, n) > 0,
{
    lemma_count_zero(s, c, n);
}

/// A sequence that holds `c` has a well-defined first occurrence.
pub proof fn lemma_contains_has_first(s: Seq<char>, c: char, n: int)
    requires
        0 < n <= s.len(),
        count_prefix(s, c, n) > 0,
    ensures
        exists|i: int| i < n && is_first_index(s, c, i),
    decreases n,
{
    if count_prefix(s, c, n - 1) > 0 {
        lemma_contains_has_first(s, c, n - 1);
        let i = choose|i: int| i < n - 1 && is_first_index(s, c, i);
        assert(i < n && is_first_index(s, c, i));
    } else {
        lemma_count_zero(s, c, n - 1);
        assert(is_first_index(s, c, n - 1));
    }
}

/// The first occurrence is unique, so witnessing one pins `first_index_of`.
pub proof fn lemma_first_index_unique(s: Seq<char>, c: char, i: int)
    requires
        is_first_index(s, c, i),
    ensures
        first_index_of(s, c) == i,
        is_first_index(s, c, first_index_of(s, c)),
{
    assert(exists|j: int| is_first_index(s, c, j));
    let j = first_index_of(s, c);
    assert(is_first_index(s, c, j));
    if j < i {
        assert(s[j] != c);
    } else if i < j {
        assert(s[i] != c);
    }
}

/// A sequence that holds `c` has `first_index_of` at an actual first
/// occurrence.
pub proof fn lemma_contains_first(s: Seq<char>, c: char)
    requires
        contains_char(s, c),
    ensures
        is_first_index(s, c, first_index_of(s, c)),
{
    lemma_contains_has_first(s, c, s.len() as int);
    let i = choose|i: int| i < s.len() && is_first_index(s, c, i);
    lemma_first_index_unique(s, c, i);
}

/// Find the first occurrence of `c` in `s`, if any.
pub fn find_first(s: &str, c: char) -> (r: Option<usize>)
    ensures
        match r {
            Some(i) => is_first_index(s@, c, i as int),
            None => !contains_char(s@, c),
        },
{
    let len: usize = s.unicode_len();
    let mut i: usize = 0;
    while i < len
        invariant
            i <= len,
            len == s@.len(),
            forall|k: int| 0 <= k < i ==> s@[k] != c,
        decreases len - i,
    {
        if s.get_char(i) == c {
            return Some(i);
        }
        i = i + 1;
    }
    proof {
        lemma_count_zero(s@, c, len as int);
    }
    None
}

} // verus!
