//! Character-level text utilities used by the payload classifiers: substring
//! search, leading-whitespace trimming and first/last occurrence scans.

use vstd::prelude::*;
use vstd::string::StrSliceExecFns;

verus! {

/// `pat` occurs in `s` at position `i`.
pub open spec fn match_at(s: Seq<char>, pat: Seq<char>, i: int) -> bool {
    0 <= i && i + pat.len() <= s.len() && s.subrange(i, i + pat.len()) == pat
}

/// `pat` occurs somewhere in `s`.
pub open spec fn contains_pat(s: Seq<char>, pat: Seq<char>) -> bool {
    exists|i: int| match_at(s, pat, i)
}

/// ASCII whitespace, as trimmed from the front of a script text.
pub open spec fn is_ws(c: char) -> bool {
    c == ' ' || c == '\t' || c == '\n' || c == '\r'
}

/// `i` is the boundary where the leading whitespace of `s` ends.
pub open spec fn is_trim_point(s: Seq<char>, i: int) -> bool {
    &&& 0 <= i <= s.len()
    &&& forall|j: int| 0 <= j < i ==> is_ws(#[trigger] s[j])
    &&& i < s.len() ==> !is_ws(s[i])
}

/// `s`, with leading whitespace removed, starts with `pat`.
pub open spec fn trimmed_starts_with(s: Seq<char>, pat: Seq<char>) -> bool {
    exists|i: int| #[trigger] is_trim_point(s, i) && match_at(s, pat, i)
}

/// `i` is the first position of `s` holding a character drawn from `cs`.
pub open spec fn is_first_of(s: Seq<char>, cs: Seq<char>, i: int) -> bool {
    &&& 0 <= i < s.len()
    &&& cs.contains(s[i])
    &&& forall|j: int| 0 <= j < i ==> !cs.contains(#[trigger] s[j])
}

/// `i` is the last position of `s` holding a character drawn from `cs`.
pub open spec fn is_last_of(s: Seq<char>, cs: Seq<char>, i: int) -> bool {
    &&& 0 <= i < s.len()
    &&& cs.contains(s[i])
    &&& forall|j: int| i < j < s.len() ==> !cs.contains(#[trigger] s[j])
}

/// The first position of `s` holding a character drawn from `cs`, if any.
pub open spec fn first_index_of(s: Seq<char>, cs: Seq<char>) -> Option<int> {
    if exists|i: int| is_first_of(s, cs, i) {
        Some(choose|i: int| is_first_of(s, cs, i))
    } else {
        None
    }
}

/// The last position of `s` holding a character drawn from `cs`, if any.
pub open spec fn last_index_of(s: Seq<char>, cs: Seq<char>) -> Option<int> {
    if exists|i: int| is_last_of(s, cs, i) {
        Some(choose|i: int| is_last_of(s, cs, i))
    } else {
        None
    }
}

pub proof fn lemma_first_of_unique(s: Seq<char>, cs: Seq<char>, i1: int, i2: int)
    requires
        is_first_of(s, cs, i1),
        is_first_of(s, cs, i2),
    ensures
        i1 == i2,
{
    if i1 < i2 {
        assert(!cs.contains(s[i1]));
    } else if i2 < i1 {
        assert(!cs.contains(s[i2]));
    }
}

pub proof fn lemma_last_of_unique(s: Seq<char>, cs: Seq<char>, i1: int, i2: int)
    requires
        is_last_of(s, cs, i1),
        is_last_of(s, cs, i2),
    ensures
        i1 == i2,
{
    if i1 < i2 {
        assert(!cs.contains(s[i2]));
    } else if i2 < i1 {
        assert(!cs.contains(s[i1]));
    }
}

pub proof fn lemma_first_index_of(s: Seq<char>, cs: Seq<char>, i: int)
    requires
        is_first_of(s, cs, i),
    ensures
        first_index_of(s, cs) == Some(i),
{
    let w = choose|k: int| is_first_of(s, cs, k);
    lemma_first_of_unique(s, cs, i, w);
}

pub proof fn lemma_last_index_of(s: Seq<char>, cs: Seq<char>, i: int)
    requires
        is_last_of(s, cs, i),
    ensures
        last_index_of(s, cs) == Some(i),
{
    let w = choose|k: int| is_last_of(s, cs, k);
    lemma_last_of_unique(s, cs, i, w);
}

pub proof fn lemma_first_index_of_inv(s: Seq<char>, cs: Seq<char>, i: int)
    requires
        first_index_of(s, cs) == Some(i),
    ensures
        is_first_of(s, cs, i),
{
    if exists|k: int| is_first_of(s, cs, k) {
        let w = choose|k: int| is_first_of(s, cs, k);
        assert(i == w);
    }
}

pub proof fn lemma_last_index_of_inv(s: Seq<char>, cs: Seq<char>, i: int)
    requires
        last_index_of(s, cs) == Some(i),
    ensures
        is_last_of(s, cs, i),
{
    if exists|k: int| is_last_of(s, cs, k) {
        let w = choose|k: int| is_last_of(s, cs, k);
        assert(i == w);
    }
}

pub proof fn lemma_trim_point_unique(s: Seq<char>, i1: int, i2: int)
    requires
        is_trim_point(s, i1),
        is_trim_point(s, i2),
    ensures
        i1 == i2,
{
    if i1 < i2 {
        assert(is_ws(s[i1]));
    } else if i2 < i1 {
        assert(is_ws(s[i2]));
    }
}

/// Does `cs` hold the character `c`?
pub fn char_in(cs: &str, c: char) -> (r: bool)
    ensures
        r == cs@.contains(c),
{
    let n = cs.unicode_len();
    let mut i: usize = 0;
    while i < n
        invariant
            i <= n,
            n == cs@.len(),
            forall|k: int| 0 <= k < i ==> cs@[k] != c,
        decreases n - i,
    {
        if cs.get_char(i) == c {
            return true;
        }
        i = i + 1;
    }
    false
}

/// Does `pat` occur in `s` at position `i`?
pub fn match_at_exec(s: &str, pat: &str, i: usize, n: usize, m: usize) -> (r: bool)
    requires
        n == s@.len(),
        m == pat@.len(),
        i + m <= n,
    ensures
        r == match_at(s@, pat@, i as int),
{
    let mut j: usize = 0;
    while j < m
        invariant
            j <= m,
            n == s@.len(),
            m == pat@.len(),
            i + m <= n,
            forall|k: int| 0 <= k < j ==> s@[i + k] == pat@[k],
        decreases m - j,
    {
        if s.get_char(i + j) != pat.get_char(j) {
            proof {
                assert(s@.subrange(i as int, i + m) != pat@) by {
                    assert(s@.subrange(i as int, i + m)[j as int] == s@[i + j]);
                }
            }
            return false;
        }
        j = j + 1;
    }
    proof {
        assert(s@.subrange(i as int, i + m) =~= pat@);
    }
    true
}

/// Does `pat` occur anywhere in `s`?
pub fn str_contains(s: &str, pat: &str) -> (r: bool)
    ensures
        r == contains_pat(s@, pat@),
{
    let n = s.unicode_len();
    let m = pat.unicode_len();
    if m == 0 {
        proof {
            assert(match_at(s@, pat@, 0)) by {
                assert(s@.subrange(0, 0) =~= pat@);
            }
        }
        return true;
    }
    if m > n {
        proof {
            assert(forall|i: int| !match_at(s@, pat@, i)) by {
                assert forall|i: int| !match_at(s@, pat@, i) by {
                    if 0 <= i && i + pat@.len() <= s@.len() {
                        assert(false);
                    }
                }
            }
        }
        return false;
    }
    let mut i: usize = 0;
    while i <= n - m
        invariant
            1 <= m <= n,
            n == s@.len(),
            m == pat@.len(),
            i <= n - m + 1,
            forall|k: int| 0 <= k < i ==> !match_at(s@, pat@, k),
        decreases n - m + 1 - i,
    {
        if match_at_exec(s, pat, i, n, m) {
            return true;
        }
        i = i + 1;
    }
    proof {
        assert(forall|k: int| match_at(s@, pat@, k) ==> 0 <= k < i);
    }
    false
}

/// `s`, with leading ASCII whitespace ignored, starts with `pat`.
pub fn str_trimmed_starts_with(s: &str, pat: &str) -> (r: bool)
    ensures
        r == trimmed_starts_with(s@, pat@),
{
    let n = s.unicode_len();
    let m = pat.unicode_len();
    let mut i: usize = 0;
    while i < n && is_ws_exec(s.get_char(i))
        invariant
            i <= n,
            n == s@.len(),
            forall|j: int| 0 <= j < i ==> is_ws(#[trigger] s@[j]),
        decreases n - i,
    {
        i = i + 1;
    }
    proof {
        assert(is_trim_point(s@, i as int));
    }
    let matched = if m <= n - i {
        match_at_exec(s, pat, i, n, m)
    } else {
        false
    };
    proof {
        if matched {
            assert(trimmed_starts_with(s@, pat@));
        } else {
            assert forall|k: int| !(#[trigger] is_trim_point(s@, k) && match_at(s@, pat@, k)) by {
                if is_trim_point(s@, k) {
                    lemma_trim_point_unique(s@, k, i as int);
                }
            }
        }
    }
    matched
}

/// Is `c` ASCII whitespace?
pub fn is_ws_exec(c: char) -> (r: bool)
    ensures
        r == is_ws(c),
{
    c == ' ' || c == '\t' || c == '\n' || c == '\r'
}

/// The first position of the character `c` in `s`.
pub fn find_char(s: &str, c: char) -> (r: Option<usize>)
    ensures
        match r {
            Some(i) => first_index_of(s@, seq![c]) == Some(i as int),
            None => first_index_of(s@, seq![c]) is None,
        },
{
    let n = s.unicode_len();
    let mut i: usize = 0;
    while i < n
        invariant
            i <= n,
            n == s@.len(),
            forall|j: int| 0 <= j < i ==> s@[j] != c,
        decreases n - i,
    {
        if s.get_char(i) == c {
            proof {
                assert(seq![c][0] == c);
                assert(seq![c].contains(s@[i as int]));
                assert(forall|j: int| 0 <= j < i ==> !seq![c].contains(#[trigger] s@[j]));
                lemma_first_index_of(s@, seq![c], i as int);
            }
            return Some(i);
        }
        i = i + 1;
    }
    proof {
        if exists|k: int| is_first_of(s@, seq![c], k) {
            let k = choose|k: int| is_first_of(s@, seq![c], k);
            assert(seq![c].contains(s@[k]));
            assert(s@[k] == c);
        }
    }
    None
}

/// The last position of the character `c` in `s`.
pub fn find_last_char(s: &str, c: char) -> (r: Option<usize>)
    ensures
        match r {
            Some(i) => last_index_of(s@, seq![c]) == Some(i as int),
            None => last_index_of(s@, seq![c]) is None,
        },
{
    let n = s.unicode_len();
    let mut i: usize = n;
    while i > 0
        invariant
            i <= n,
            n == s@.len(),
            forall|j: int| i <= j < n ==> s@[j] != c,
        decreases i,
    {
        i = i - 1;
        if s.get_char(i) == c {
            proof {
                assert(seq![c][0] == c);
                assert(seq![c].contains(s@[i as int]));
                assert(forall|j: int| i < j < n ==> !seq![c].contains(#[trigger] s@[j]));
                lemma_last_index_of(s@, seq![c], i as int);
            }
            return Some(i);
        }
    }
    proof {
        if exists|k: int| is_last_of(s@, seq![c], k) {
            let k = choose|k: int| is_last_of(s@, seq![c], k);
            assert(seq![c].contains(s@[k]));
            assert(s@[k] == c);
        }
    }
    None
}

/// The first position of `s` holding a character drawn from `cs`.
pub fn find_first_of(s: &str, cs: &str) -> (r: Option<usize>)
    ensures
        match r {
            Some(i) => first_index_of(s@, cs@) == Some(i as int),
            None => first_index_of(s@, cs@) is None,
        },
{
    let n = s.unicode_len();
    let mut i: usize = 0;
    while i < n
        invariant
            i <= n,
            n == s@.len(),
            forall|j: int| 0 <= j < i ==> !cs@.contains(#[trigger] s@[j]),
        decreases n - i,
    {
        if char_in(cs, s.get_char(i)) {
            proof {
                lemma_first_index_of(s@, cs@, i as int);
            }
            return Some(i);
        }
        i = i + 1;
    }
    proof {
        if exists|k: int| is_first_of(s@, cs@, k) {
            let k = choose|k: int| is_first_of(s@, cs@, k);
            assert(!cs@.contains(s@[k]));
        }
    }
    None
}

/// The last position of `s` holding a character drawn from `cs`.
pub fn find_last_of(s: &str, cs: &str) -> (r: Option<usize>)
    ensures
        match r {
            Some(i) => last_index_of(s@, cs@) == Some(i as int),
            None => last_index_of(s@, cs@) is None,
        },
{
    let n = s.unicode_len();
    let mut i: usize = n;
    while i > 0
        invariant
            i <= n,
            n == s@.len(),
            forall|j: int| i <= j < n ==> !cs@.contains(#[trigger] s@[j]),
        decreases i,
    {
        i = i - 1;
        if char_in(cs, s.get_char(i)) {
            proof {
                lemma_last_index_of(s@, cs@, i as int);
            }
            return Some(i);
        }
    }
    proof {
        if exists|k: int| is_last_of(s@, cs@, k) {
            let k = choose|k: int| is_last_of(s@, cs@, k);
            assert(!cs@.contains(s@[k]));
        }
    }
    None
}

} // verus!
