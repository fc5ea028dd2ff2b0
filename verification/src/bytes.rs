//! Byte-sequence scanning shared by the parsers.

use vstd::prelude::*;

verus! {

/// The first position of `b` in `s`, if any.
pub open spec fn find_byte(s: Seq<u8>, b: u8) -> Option<nat>
    decreases s.len(),
{
    if s.len() == 0 {
        None
    } else if s[0] == b {
        Some(0)
    } else {
        match find_byte(s.drop_first(), b) {
            None => None,
            Some(i) => Some((i + 1) as nat),
        }
    }
}

/// `find_byte` returns the least position holding `b`, or `None` when `b`
/// does not occur.
pub proof fn lemma_find_byte(s: Seq<u8>, b: u8)
    ensures
        match find_byte(s, b) {
            Some(i) => i < s.len() && s[i as int] == b && forall|j: int|
                0 <= j < i ==> s[j] != b,
            None => forall|j: int| 0 <= j < s.len() ==> s[j] != b,
        },
    decreases s.len(),
{
    if s.len() == 0 {
    } else if s[0] == b {
    } else {
        lemma_find_byte(s.drop_first(), b);
        assert(forall|j: int| 1 <= j < s.len() ==> s[j] == s.drop_first()[j - 1]);
    }
}

/// Finds the first occurrence of `b` in `s`.
pub fn find_byte_in(s: &[u8], b: u8) -> (r: Option<usize>)
    ensures
        match r {
            Some(i) => find_byte(s@, b) == Some(i as nat),
            None => find_byte(s@, b).is_none(),
        },
{
    proof {
        lemma_find_byte(s@, b);
    }
    let n = s.len();
    let mut i: usize = 0;
    while i < n
        invariant
            0 <= i <= n,
            n == s@.len(),
            forall|j: int| 0 <= j < i ==> s@[j] != b,
            match find_byte(s@, b) {
                Some(k) => k < s@.len() && s@[k as int] == b && forall|j: int|
                    0 <= j < k ==> s@[j] != b,
                None => forall|j: int| 0 <= j < s@.len() ==> s@[j] != b,
            },
        decreases n - i,
    {
        if s[i] == b {
            return Some(i);
        }
        i = i + 1;
    }
    None
}

/// Compares two byte slices for equality.
pub fn bytes_eq(a: &[u8], c: &[u8]) -> (r: bool)
    ensures
        r == (a@ == c@),
{
    if a.len() != c.len() {
        return false;
    }
    let n = a.len();
    let mut i: usize = 0;
    while i < n
        invariant
            0 <= i <= n,
            n == a@.len() == c@.len(),
            forall|j: int| 0 <= j < i ==> a@[j] == c@[j],
        decreases n - i,
    {
        if a[i] != c[i] {
            return false;
        }
        i = i + 1;
    }
    proof {
        assert(a@ =~= c@);
    }
    true
}

} // verus!
