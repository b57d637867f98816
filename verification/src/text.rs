//! Character-level scanning helpers for specifier strings.
use vstd::prelude::*;

verus! {

use vstd::string::StrSliceExecFns;

/// Index of the first occurrence of `c` in `s`, if any.
pub open spec fn first_index_of(s: Seq<char>, c: char) -> Option<int>
    decreases s.len(),
{
    if s.len() == 0 {
        None
    } else if s[0] == c {
        Some(0int)
    } else {
        match first_index_of(s.drop_first(), c) {
            Some(i) => Some(i + 1),
            None => None,
        }
    }
}

pub open spec fn seq_contains_char(s: Seq<char>, c: char) -> bool {
    first_index_of(s, c) is Some
}

/// `first_index_of` returns the leftmost occurrence of `c`, or `None` when
/// `c` does not occur at all.
pub proof fn lemma_first_index_of(s: Seq<char>, c: char)
    ensures
        match first_index_of(s, c) {
            Some(i) => 0 <= i < s.len() && s[i] == c && (forall|j: int| 0 <= j < i ==> s[j] != c),
            None => forall|j: int| 0 <= j < s.len() ==> s[j] != c,
        },
    decreases s.len(),
{
    if s.len() > 0 && s[0] != c {
        let t = s.drop_first();
        lemma_first_index_of(t, c);
        assert(forall|j: int| 0 <= j < t.len() ==> #[trigger] t[j] == s[j + 1]);
        match first_index_of(t, c) {
            Some(i) => {
                assert(s[i + 1] == t[i]);
                assert(forall|j: int| 1 <= j < i + 1 ==> #[trigger] s[j] == t[j - 1]);
            },
            None => {
                assert(forall|j: int| 1 <= j < s.len() ==> #[trigger] s[j] == t[j - 1]);
            },
        }
    }
}

/// Converse direction: a position that is an occurrence, with none before it,
/// is what `first_index_of` returns.
pub proof fn lemma_first_index_at(s: Seq<char>, c: char, i: int)
    requires
        0 <= i < s.len(),
        s[i] == c,
        forall|j: int| 0 <= j < i ==> s[j] != c,
    ensures
        first_index_of(s, c) == Some(i),
{
    lemma_first_index_of(s, c);
}

/// Finds the first occurrence of `c` in `s`.
pub fn find_char(s: &str, c: char) -> (r: Option<usize>)
    ensures
        r matches Some(i) ==> i < s@.len() && s@[i as int] == c && (forall|j: int|
            0 <= j < i ==> s@[j] != c) && first_index_of(s@, c) == Some(i as int),
        r is None ==> (forall|j: int| 0 <= j < s@.len() ==> s@[j] != c) && first_index_of(s@, c)
            is None,
{
    let n: usize = s.unicode_len();
    let mut i: usize = 0;
    while i < n
        invariant
            n == s@.len(),
            i <= n,
            forall|j: int| 0 <= j < i ==> s@[j] != c,
        decreases n - i,
    {
        if s.get_char(i) == c {
            proof {
                lemma_first_index_at(s@, c, i as int);
            }
            return Some(i);
        }
        i += 1;
    }
    proof {
        lemma_first_index_of(s@, c);
    }
    None
}

/// Whether `c` occurs in `s`.
pub fn contains_char(s: &str, c: char) -> (r: bool)
    ensures
        r == seq_contains_char(s@, c),
{
    find_char(s, c).is_some()
}

/// A character that occurs at no position does not occur at all.
pub proof fn lemma_no_occurrence(s: Seq<char>, c: char)
    requires
        forall|j: int| 0 <= j < s.len() ==> s[j] != c,
    ensures
        !seq_contains_char(s, c),
{
    lemma_first_index_of(s, c);
}

/// A character that occurs at some position occurs.
pub proof fn lemma_contains_at(s: Seq<char>, c: char, i: int)
    requires
        0 <= i < s.len(),
        s[i] == c,
    ensures
        seq_contains_char(s, c),
{
    lemma_first_index_of(s, c);
}

/// A character in neither part is not in the concatenation.
pub proof fn lemma_not_contains_concat(a: Seq<char>, b: Seq<char>, c: char)
    requires
        !seq_contains_char(a, c),
        !seq_contains_char(b, c),
    ensures
        !seq_contains_char(a + b, c),
{
    lemma_first_index_of(a, c);
    lemma_first_index_of(b, c);
    assert forall|j: int| 0 <= j < (a + b).len() implies (a + b)[j] != c by {
        if j < a.len() {
            assert((a + b)[j] == a[j]);
        } else {
            assert((a + b)[j] == b[j - a.len()]);
        }
    }
    lemma_no_occurrence(a + b, c);
}

/// A character in the left part is in the concatenation.
pub proof fn lemma_contains_concat_left(a: Seq<char>, b: Seq<char>, c: char)
    requires
        seq_contains_char(a, c),
    ensures
        seq_contains_char(a + b, c),
{
    lemma_first_index_of(a, c);
    let i = first_index_of(a, c)->Some_0;
    assert((a + b)[i] == a[i]);
    lemma_contains_at(a + b, c, i);
}

/// Appending text without `/` cannot create a `://` separator.
pub proof fn lemma_no_sep_concat(a: Seq<char>, b: Seq<char>)
    requires
        !has_scheme_sep(a),
        !seq_contains_char(b, '/'),
    ensures
        !has_scheme_sep(a + b),
{
    lemma_first_index_of(b, '/');
    assert forall|i: int|
        0 <= i && i + 2 < (a + b).len() implies !(#[trigger] (a + b)[i] == ':' && (a + b)[i + 1]
        == '/' && (a + b)[i + 2] == '/') by {
        if i + 2 < a.len() {
            assert((a + b)[i] == a[i] && (a + b)[i + 1] == a[i + 1] && (a + b)[i + 2] == a[i + 2]);
        } else {
            assert((a + b)[i + 2] == b[i + 2 - a.len()]);
            assert((a + b)[i + 2] != '/');
        }
    }
}

/// Whether two strings hold the same characters.
pub fn str_eq_chars(a: &str, b: &str) -> (r: bool)
    ensures
        r == (a@ == b@),
{
    let n: usize = a.unicode_len();
    if n != b.unicode_len() {
        return false;
    }
    let mut i: usize = 0;
    while i < n
        invariant
            n == a@.len(),
            n == b@.len(),
            i <= n,
            forall|j: int| 0 <= j < i ==> a@[j] == b@[j],
        decreases n - i,
    {
        if a.get_char(i) != b.get_char(i) {
            return false;
        }
        i += 1;
    }
    proof {
        assert(a@ =~= b@);
    }
    true
}

/// Whether `s` contains the three-character scheme separator `://`.
pub open spec fn has_scheme_sep(s: Seq<char>) -> bool {
    exists|i: int|
        0 <= i && i + 2 < s.len() && #[trigger] s[i] == ':' && s[i + 1] == '/' && s[i + 2] == '/'
}

/// Whether `s` contains the scheme separator `://`.
pub fn contains_scheme_sep(s: &str) -> (r: bool)
    ensures
        r == has_scheme_sep(s@),
{
    let n: usize = s.unicode_len();
    if n < 3 {
        return false;
    }
    let mut i: usize = 0;
    while i < n - 2
        invariant
            n == s@.len(),
            3 <= n,
            i <= n - 2,
            forall|j: int|
                0 <= j < i ==> !(#[trigger] s@[j] == ':' && s@[j + 1] == '/' && s@[j + 2] == '/'),
        decreases n - i,
    {
        if s.get_char(i) == ':' && s.get_char(i + 1) == '/' && s.get_char(i + 2) == '/' {
            return true;
        }
        i += 1;
    }
    false
}

} // verus!
