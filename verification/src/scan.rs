//! Locating the first occurrence of a character in a text, with the algebra
//! needed to reason about occurrences in concatenated texts.

use vstd::prelude::*;

verus! {

/// Index of the first occurrence of `c` in `s`, or -1 when `c` does not
/// occur.
pub open spec fn first_index_of(s: Seq<char>, c: char) -> int
    decreases s.len(),
{
    if s.len() == 0 {
        -1
    } else if s[0] == c {
        0
    } else {
        let r = first_index_of(s.skip(1), c);
        if r < 0 {
            -1
        } else {
            r + 1
        }
    }
}

/// What `first_index_of` returns: the first position of `c`, when it occurs.
pub proof fn lemma_first_index_of(s: Seq<char>, c: char)
    ensures
        first_index_of(s, c) >= 0 ==> {
            &&& first_index_of(s, c) < s.len()
            &&& s[first_index_of(s, c)] == c
            &&& forall|j: int| 0 <= j < first_index_of(s, c) ==> s[j] != c
        },
        first_index_of(s, c) < 0 ==> forall|j: int| 0 <= j < s.len() ==> s[j] != c,
    decreases s.len(),
{
    if s.len() > 0 && s[0] != c {
        lemma_first_index_of(s.skip(1), c);
        let r = first_index_of(s.skip(1), c);
        if r >= 0 {
            assert(s[r + 1] == s.skip(1)[r]);
            assert forall|j: int| 0 <= j < r + 1 implies s[j] != c by {
                if j > 0 {
                    assert(s[j] == s.skip(1)[j - 1]);
                }
            }
        } else {
            assert forall|j: int| 0 <= j < s.len() implies s[j] != c by {
                if j > 0 {
                    assert(s[j] == s.skip(1)[j - 1]);
                }
            }
        }
    }
}

/// `first_index_of` is determined by the first position of `c`.
pub proof fn lemma_first_index_of_is(s: Seq<char>, c: char, i: int)
    requires
        0 <= i < s.len(),
        s[i] == c,
        forall|j: int| 0 <= j < i ==> s[j] != c,
    ensures
        first_index_of(s, c) == i,
    decreases i,
{
    if i > 0 {
        assert(s.skip(1)[i - 1] == c);
        assert(forall|j: int| 0 <= j < i - 1 ==> s.skip(1)[j] == s[j + 1]);
        lemma_first_index_of_is(s.skip(1), c, i - 1);
    }
}

/// When `c` occurs nowhere in `s`, `first_index_of` is -1.
pub proof fn lemma_first_index_of_absent(s: Seq<char>, c: char)
    requires
        forall|j: int| 0 <= j < s.len() ==> s[j] != c,
    ensures
        first_index_of(s, c) == -1,
{
    lemma_first_index_of(s, c);
    if first_index_of(s, c) >= 0 {
        assert(s[first_index_of(s, c)] == c);
    }
}

/// The first occurrence in a concatenation: in the left part when it has one,
/// else shifted from the right part.
pub proof fn lemma_first_index_of_concat(a: Seq<char>, b: Seq<char>, c: char)
    ensures
        first_index_of(a + b, c) == (if first_index_of(a, c) >= 0 {
            first_index_of(a, c)
        } else if first_index_of(b, c) >= 0 {
            a.len() + first_index_of(b, c)
        } else {
            -1
        }),
{
    lemma_first_index_of(a, c);
    lemma_first_index_of(b, c);
    let s = a + b;
    if first_index_of(a, c) >= 0 {
        let i = first_index_of(a, c);
        assert(s[i] == c);
        assert(forall|j: int| 0 <= j < i ==> s[j] == a[j]);
        lemma_first_index_of_is(s, c, i);
    } else if first_index_of(b, c) >= 0 {
        let i = a.len() + first_index_of(b, c);
        assert(s[i] == b[first_index_of(b, c)]);
        assert(forall|j: int|
            0 <= j < i ==> s[j] == (if j < a.len() {
                a[j]
            } else {
                b[j - a.len()]
            }));
        lemma_first_index_of_is(s, c, i);
    } else {
        assert(forall|j: int|
            0 <= j < s.len() ==> s[j] == (if j < a.len() {
                a[j]
            } else {
                b[j - a.len()]
            }));
        lemma_first_index_of_absent(s, c);
    }
}

/// Finds the first occurrence of `c` in `s`.
pub fn find_char(s: &str, c: char) -> (r: Option<usize>)
    ensures
        match r {
            Some(i) => first_index_of(s@, c) == i,
            None => first_index_of(s@, c) == -1,
        },
{
    let n = s.unicode_len();
    let mut i: usize = 0;
    while i < n
        invariant
            0 <= i <= n,
            n == s@.len(),
            forall|j: int| 0 <= j < i ==> s@[j] != c,
        decreases n - i,
    {
        if s.get_char(i) == c {
            proof {
                lemma_first_index_of_is(s@, c, i as int);
            }
            return Some(i);
        }
        i = i + 1;
    }
    proof {
        lemma_first_index_of_absent(s@, c);
    }
    None
}

} // verus!
