//! Character-level helpers on strings: locating the first colon of a
//! placeholder and comparing two string slices.

use vstd::prelude::*;

verus! {

/// Index of the first `':'` in `s` at or after position `i`; `s.len()` if
/// there is none.
pub open spec fn first_colon_from(s: Seq<char>, i: int) -> int
    decreases s.len() - i,
{
    if i < 0 || i >= s.len() {
        s.len() as int
    } else if s[i] == ':' {
        i
    } else {
        first_colon_from(s, i + 1)
    }
}

/// Index of the first `':'` in `s`; `s.len()` if there is none.
pub open spec fn first_colon(s: Seq<char>) -> int {
    first_colon_from(s, 0)
}

pub proof fn lemma_first_colon_from(s: Seq<char>, i: int)
    requires
        0 <= i <= s.len(),
    ensures
        i <= first_colon_from(s, i) <= s.len(),
        first_colon_from(s, i) < s.len() ==> s[first_colon_from(s, i)] == ':',
        forall|j: int| i <= j < first_colon_from(s, i) ==> s[j] != ':',
        (first_colon_from(s, i) < s.len()) <==> exists|j: int| i <= j < s.len() && s[j] == ':',
    decreases s.len() - i,
{
    if i < s.len() && s[i] != ':' {
        lemma_first_colon_from(s, i + 1);
    }
    if first_colon_from(s, i) < s.len() {
        assert(s[first_colon_from(s, i)] == ':');
    }
}

/// Scanning forward over non-colon characters does not change the result.
proof fn lemma_first_colon_skip(s: Seq<char>, i: int)
    requires
        0 <= i <= s.len(),
        forall|j: int| 0 <= j < i ==> s[j] != ':',
    ensures
        first_colon(s) == first_colon_from(s, i),
    decreases i,
{
    if i > 0 {
        lemma_first_colon_skip(s, i - 1);
        assert(first_colon_from(s, i - 1) == first_colon_from(s, i));
    }
}

/// Position of the first `':'` in `s`, if any.
pub fn find_colon(s: &str) -> (r: Option<usize>)
    ensures
        match r {
            Some(i) => i == first_colon(s@) && i < s@.len(),
            None => first_colon(s@) == s@.len(),
        },
{
    let n = s.unicode_len();
    let mut i: usize = 0;
    while i < n
        invariant
            0 <= i <= n,
            n == s@.len(),
            forall|j: int| 0 <= j < i ==> s@[j] != ':',
        decreases n - i,
    {
        if s.get_char(i) == ':' {
            proof {
                lemma_first_colon_skip(s@, i as int);
            }
            return Some(i);
        }
        i = i + 1;
    }
    proof {
        lemma_first_colon_skip(s@, n as int);
    }
    None
}

/// Character-by-character equality of two string slices.
pub fn str_eq(a: &str, b: &str) -> (r: bool)
    ensures
        r == (a@ == b@),
{
    let na = a.unicode_len();
    let nb = b.unicode_len();
    if na != nb {
        return false;
    }
    let mut i: usize = 0;
    while i < na
        invariant
            0 <= i <= na,
            na == a@.len(),
            na == b@.len(),
            forall|j: int| 0 <= j < i ==> a@[j] == b@[j],
        decreases na - i,
    {
        if a.get_char(i) != b.get_char(i) {
            return false;
        }
        i = i + 1;
    }
    proof {
        assert(a@ =~= b@);
    }
    true
}

} // verus!
