//! Path strings as the library reads them.
//!
//! Paths cross the library boundary as plain strings. The library only ever
//! reads two things out of them: the base name (the part after the last
//! separator) and the parent prefix (everything up to and including the last
//! separator). Both are defined here over the character sequence, with `/` as
//! the separator.

use vstd::prelude::*;

verus! {

/// Index one past the last `/` in `path`; `0` when there is none.
pub open spec fn spec_base_start(path: Seq<char>) -> int
    decreases path.len(),
{
    if path.len() == 0 {
        0
    } else if path[path.len() - 1] == '/' {
        path.len() as int
    } else {
        spec_base_start(path.drop_last())
    }
}

/// The part of `path` after its last `/`; the whole of it when it has none.
pub open spec fn spec_base_name(path: Seq<char>) -> Seq<char> {
    path.skip(spec_base_start(path))
}

/// Everything up to and including the last `/`; empty when there is none.
pub open spec fn spec_parent_prefix(path: Seq<char>) -> Seq<char> {
    path.take(spec_base_start(path))
}

pub proof fn lemma_base_start_bounds(path: Seq<char>)
    ensures
        0 <= spec_base_start(path) <= path.len(),
        forall|k: int| spec_base_start(path) <= k < path.len() ==> path[k] != '/',
        spec_base_start(path) > 0 ==> path[spec_base_start(path) - 1] == '/',
    decreases path.len(),
{
    if path.len() == 0 {
    } else if path[path.len() - 1] == '/' {
    } else {
        lemma_base_start_bounds(path.drop_last());
        assert forall|k: int| spec_base_start(path) <= k < path.len() implies path[k] != '/' by {
            if k < path.len() - 1 {
                assert(path.drop_last()[k] != '/');
            }
        }
    }
}

/// When `path[j]` is the last `/`, the base name starts right after it.
pub proof fn lemma_base_start_at(path: Seq<char>, j: int)
    requires
        0 <= j < path.len(),
        path[j] == '/',
        forall|k: int| j < k < path.len() ==> path[k] != '/',
    ensures
        spec_base_start(path) == j + 1,
    decreases path.len(),
{
    if j == path.len() - 1 {
    } else {
        assert(path[path.len() - 1] != '/');
        lemma_base_start_at(path.drop_last(), j);
    }
}

/// A path without any `/` is all base name.
pub proof fn lemma_base_start_none(path: Seq<char>)
    requires
        forall|k: int| 0 <= k < path.len() ==> path[k] != '/',
    ensures
        spec_base_start(path) == 0,
    decreases path.len(),
{
    if path.len() > 0 {
        lemma_base_start_none(path.drop_last());
    }
}

/// Appending separator-free characters does not move the base-name start.
pub proof fn lemma_base_start_append(prefix: Seq<char>, name: Seq<char>)
    requires
        spec_base_start(prefix) == prefix.len(),
        forall|k: int| 0 <= k < name.len() ==> name[k] != '/',
    ensures
        spec_base_start(prefix + name) == prefix.len(),
        spec_parent_prefix(prefix + name) == prefix,
        spec_base_name(prefix + name) == name,
    decreases name.len(),
{
    if name.len() == 0 {
        assert(prefix + name =~= prefix);
        assert(spec_parent_prefix(prefix + name) =~= prefix);
        assert(spec_base_name(prefix + name) =~= name);
    } else {
        lemma_base_start_append(prefix, name.drop_last());
        let whole = prefix + name;
        assert(whole[whole.len() - 1] == name[name.len() - 1]);
        assert(whole.drop_last() =~= prefix + name.drop_last());
        assert(spec_base_start(whole) == prefix.len());
        assert(spec_parent_prefix(whole) =~= prefix);
        assert(spec_base_name(whole) =~= name);
    }
}

/// The parent prefix itself ends at its own base-name start.
pub proof fn lemma_parent_prefix_full(path: Seq<char>)
    ensures
        spec_base_start(spec_parent_prefix(path)) == spec_parent_prefix(path).len(),
    decreases path.len(),
{
    lemma_base_start_bounds(path);
    let s = spec_base_start(path);
    let prefix = spec_parent_prefix(path);
    if s == 0 {
    } else {
        assert(prefix[prefix.len() - 1] == path[s - 1]);
    }
}

/// Finds where the base name of `path` starts.
pub fn base_start(path: &str) -> (r: usize)
    ensures
        r == spec_base_start(path@),
{
    let n = path.unicode_len();
    let mut i = n;
    while i > 0
        invariant
            0 <= i <= n == path@.len(),
            forall|k: int| i <= k < n ==> path@[k] != '/',
        decreases i,
    {
        if path.get_char(i - 1) == '/' {
            proof {
                lemma_base_start_at(path@, i - 1);
            }
            return i;
        }
        i -= 1;
    }
    proof {
        lemma_base_start_none(path@);
    }
    0
}

/// The base name of `path`: the part after its last `/`.
pub fn base_name(path: &str) -> (r: &str)
    ensures
        r@ == spec_base_name(path@),
{
    let s = base_start(path);
    let n = path.unicode_len();
    proof {
        lemma_base_start_bounds(path@);
    }
    path.substring_char(s, n)
}

/// Index of the first occurrence of `c` in `s`; `s.len()` when absent.
pub open spec fn spec_find_first(s: Seq<char>, c: char) -> int
    decreases s.len(),
{
    if s.len() == 0 {
        0
    } else if s[0] == c {
        0
    } else {
        1 + spec_find_first(s.skip(1), c)
    }
}

pub proof fn lemma_find_first_bounds(s: Seq<char>, c: char)
    ensures
        0 <= spec_find_first(s, c) <= s.len(),
        forall|k: int| 0 <= k < spec_find_first(s, c) ==> s[k] != c,
        spec_find_first(s, c) < s.len() ==> s[spec_find_first(s, c)] == c,
    decreases s.len(),
{
    if s.len() > 0 && s[0] != c {
        lemma_find_first_bounds(s.skip(1), c);
        assert forall|k: int| 0 <= k < spec_find_first(s, c) implies s[k] != c by {
            if k > 0 {
                assert(s.skip(1)[k - 1] != c);
            }
        }
    }
}

/// When `s[j]` is the first occurrence of `c`, the search finds exactly `j`.
pub proof fn lemma_find_first_at(s: Seq<char>, c: char, j: int)
    requires
        0 <= j < s.len(),
        s[j] == c,
        forall|k: int| 0 <= k < j ==> s[k] != c,
    ensures
        spec_find_first(s, c) == j,
    decreases s.len(),
{
    if j > 0 {
        assert(s[0] != c);
        assert forall|k: int| 0 <= k < j - 1 implies s.skip(1)[k] != c by {
            assert(s[k + 1] != c);
        }
        assert(s.skip(1)[j - 1] == c);
        lemma_find_first_at(s.skip(1), c, j - 1);
    }
}

/// When `c` is absent from `s`, the search runs to the end.
pub proof fn lemma_find_first_none(s: Seq<char>, c: char)
    requires
        forall|k: int| 0 <= k < s.len() ==> s[k] != c,
    ensures
        spec_find_first(s, c) == s.len(),
    decreases s.len(),
{
    if s.len() > 0 {
        assert forall|k: int| 0 <= k < s.skip(1).len() implies s.skip(1)[k] != c by {
            assert(s[k + 1] != c);
        }
        lemma_find_first_none(s.skip(1), c);
    }
}

/// Finds the first occurrence of `c` in `s`.
pub fn find_first(s: &str, c: char) -> (r: usize)
    ensures
        r == spec_find_first(s@, c),
{
    let n = s.unicode_len();
    let mut i: usize = 0;
    while i < n
        invariant
            0 <= i <= n == s@.len(),
            forall|k: int| 0 <= k < i ==> s@[k] != c,
        decreases n - i,
    {
        if s.get_char(i) == c {
            proof {
                lemma_find_first_at(s@, c, i as int);
            }
            return i;
        }
        i += 1;
    }
    proof {
        lemma_find_first_none(s@, c);
    }
    n
}

/// Character-wise string equality.
pub fn str_eq(a: &str, b: &str) -> (r: bool)
    ensures
        r == (a@ == b@),
{
    let na = a.unicode_len();
    let nb = b.unicode_len();
    if na != nb {
        return false;
    }
    let mut i: usize = 0;
    while i < na
        invariant
            0 <= i <= na == a@.len(),
            na == b@.len(),
            forall|k: int| 0 <= k < i ==> a@[k] == b@[k],
        decreases na - i,
    {
        if a.get_char(i) != b.get_char(i) {
            return false;
        }
        i += 1;
    }
    proof {
        assert(a@ =~= b@);
    }
    true
}

} // verus!
