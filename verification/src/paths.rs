//! Path strings: absoluteness, joining a mount destination under the
//! container root, and the "strictly under the root" property that every
//! planned mount target satisfies.

use vstd::prelude::*;

verus! {

/// Whether the path begins with `/`.
pub open spec fn is_absolute_path(s: Seq<char>) -> bool {
    s.len() > 0 && s[0] == '/'
}

/// Tests whether `s` is an absolute path.
pub fn path_is_absolute(s: &str) -> (r: bool)
    ensures
        r == is_absolute_path(s@),
{
    let n = s.unicode_len();
    n > 0 && s.get_char(0) == '/'
}

/// The path with one leading `/` removed, if it has one.
pub open spec fn stripped(s: Seq<char>) -> Seq<char> {
    if is_absolute_path(s) {
        s.subrange(1, s.len() as int)
    } else {
        s
    }
}

/// The mount target for destination `inside` under `root`: `root`, a
/// separator, then `inside` without its leading slash.
pub open spec fn joined_under(root: Seq<char>, inside: Seq<char>) -> Seq<char> {
    root + seq!['/'] + stripped(inside)
}

/// Joins `inside` under `root`, stripping one leading `/` from `inside`.
pub fn join_under(root: &str, inside: &str) -> (r: String)
    ensures
        r@ == joined_under(root@, inside@),
{
    proof {
        reveal_strlit("/");
    }
    let mut out = String::from_str(root);
    out.append("/");
    let n = inside.unicode_len();
    if path_is_absolute(inside) {
        out.append(inside.substring_char(1, n));
    } else {
        out.append(inside.substring_char(0, n));
    }
    out
}

/// Whether `t` lies strictly below the directory `root`: it extends `root`
/// past a separator by at least one character.
pub open spec fn strictly_under(t: Seq<char>, root: Seq<char>) -> bool {
    &&& t.len() > root.len() + 1
    &&& t.subrange(0, root.len() as int) == root
    &&& t[root.len() as int] == '/'
}

/// Every mount destination that still names something once its leading
/// slash is stripped lands strictly under the container root.
pub proof fn lemma_join_strictly_under(root: Seq<char>, inside: Seq<char>)
    requires
        stripped(inside).len() > 0,
    ensures
        strictly_under(joined_under(root, inside), root),
{
    let t = joined_under(root, inside);
    assert(t.subrange(0, root.len() as int) =~= root);
}

/// The first position of `c` in `s`, if any.
pub open spec fn find_char(s: Seq<char>, c: char) -> Option<nat>
    decreases s.len(),
{
    if s.len() == 0 {
        None
    } else if s[0] == c {
        Some(0)
    } else {
        match find_char(s.drop_first(), c) {
            None => None,
            Some(i) => Some((i + 1) as nat),
        }
    }
}

/// `find_char` returns the least position holding `c`, or `None` when `c`
/// does not occur.
pub proof fn lemma_find_char(s: Seq<char>, c: char)
    ensures
        match find_char(s, c) {
            Some(i) => i < s.len() && s[i as int] == c && forall|j: int|
                0 <= j < i ==> s[j] != c,
            None => forall|j: int| 0 <= j < s.len() ==> s[j] != c,
        },
    decreases s.len(),
{
    if s.len() == 0 {
    } else if s[0] == c {
    } else {
        lemma_find_char(s.drop_first(), c);
        assert(forall|j: int| 1 <= j < s.len() ==> s[j] == s.drop_first()[j - 1]);
    }
}

/// Finds the first occurrence of `c` in `s`.
pub fn find_char_in(s: &str, c: char) -> (r: Option<usize>)
    ensures
        match r {
            Some(i) => find_char(s@, c) == Some(i as nat),
            None => find_char(s@, c).is_none(),
        },
{
    proof {
        lemma_find_char(s@, c);
    }
    let n = s.unicode_len();
    let mut i: usize = 0;
    while i < n
        invariant
            0 <= i <= n,
            n == s@.len(),
            forall|j: int| 0 <= j < i ==> s@[j] != c,
            match find_char(s@, c) {
                Some(k) => k < s@.len() && s@[k as int] == c && forall|j: int|
                    0 <= j < k ==> s@[j] != c,
                None => forall|j: int| 0 <= j < s@.len() ==> s@[j] != c,
            },
        decreases n - i,
    {
        if s.get_char(i) == c {
            return Some(i);
        }
        i = i + 1;
    }
    None
}

} // verus!
