//! Character-level helpers on strings: locating a character, comparing
//! strings, prefix tests, and splitting on a separator. Contracts are stated
//! over the `Seq<char>` view of `&str`.

use vstd::prelude::*;
use vstd::string::StrSliceExecFns;

verus! {

/// Index of the first occurrence of `c` in `s`, if any.
pub open spec fn find_char(s: Seq<char>, c: char) -> Option<int>
    decreases s.len(),
{
    if s.len() == 0 {
        None
    } else if s[0] == c {
        Some(0int)
    } else {
        match find_char(s.subrange(1, s.len() as int), c) {
            None => None,
            Some(i) => Some(i + 1),
        }
    }
}

/// What `find_char` returns: an in-range position holding `c` with no
/// earlier occurrence, or nothing when `c` does not occur at all.
pub proof fn lemma_find_char(s: Seq<char>, c: char)
    ensures
        match find_char(s, c) {
            Some(i) => 0 <= i < s.len() && s[i] == c && (forall|j: int| 0 <= j < i ==> s[j] != c),
            None => forall|j: int| 0 <= j < s.len() ==> s[j] != c,
        },
    decreases s.len(),
{
    if s.len() == 0 {
    } else if s[0] == c {
    } else {
        let rest = s.subrange(1, s.len() as int);
        lemma_find_char(rest, c);
        match find_char(rest, c) {
            None => {
                assert forall|j: int| 0 <= j < s.len() implies s[j] != c by {
                    if j > 0 {
                        assert(s[j] == rest[j - 1]);
                    }
                }
            },
            Some(i) => {
                assert(s[i + 1] == rest[i]);
                assert forall|j: int| 0 <= j < i + 1 implies s[j] != c by {
                    if j > 0 {
                        assert(s[j] == rest[j - 1]);
                    }
                }
            },
        }
    }
}

/// A position holding `c` with no earlier occurrence is what `find_char` returns.
pub proof fn lemma_find_char_at(s: Seq<char>, c: char, i: int)
    requires
        0 <= i < s.len(),
        s[i] == c,
        forall|j: int| 0 <= j < i ==> s[j] != c,
    ensures
        find_char(s, c) == Some(i),
    decreases s.len(),
{
    if i > 0 {
        lemma_find_char_at(s.subrange(1, s.len() as int), c, i - 1);
    }
}

/// When `c` occurs nowhere in `s`, `find_char` returns nothing.
pub proof fn lemma_find_char_none(s: Seq<char>, c: char)
    requires
        forall|j: int| 0 <= j < s.len() ==> s[j] != c,
    ensures
        find_char(s, c) is None,
    decreases s.len(),
{
    if s.len() > 0 {
        lemma_find_char_none(s.subrange(1, s.len() as int), c);
    }
}

/// Position of the first occurrence of `c` in `s`, counted in characters.
pub fn find_char_in(s: &str, c: char) -> (r: Option<usize>)
    ensures
        match r {
            Some(i) => find_char(s@, c) == Some(i as int),
            None => find_char(s@, c) is None,
        },
{
    let n = s.unicode_len();
    let mut i: usize = 0;
    while i < n
        invariant
            n == s@.len(),
            0 <= i <= n,
            forall|j: int| 0 <= j < i ==> s@[j] != c,
        decreases n - i,
    {
        if s.get_char(i) == c {
            proof {
                lemma_find_char_at(s@, c, i as int);
            }
            return Some(i);
        }
        i = i + 1;
    }
    proof {
        lemma_find_char_none(s@, c);
    }
    None
}

/// Index of the last occurrence of `c` in `s`, if any.
pub open spec fn find_last(s: Seq<char>, c: char) -> Option<int>
    decreases s.len(),
{
    if s.len() == 0 {
        None
    } else if s[s.len() - 1] == c {
        Some(s.len() - 1)
    } else {
        find_last(s.subrange(0, s.len() - 1), c)
    }
}

/// What `find_last` returns: an in-range position holding `c` with no
/// later occurrence, or nothing when `c` does not occur at all.
pub proof fn lemma_find_last(s: Seq<char>, c: char)
    ensures
        match find_last(s, c) {
            Some(i) => 0 <= i < s.len() && s[i] == c && (forall|j: int|
                i < j < s.len() ==> s[j] != c),
            None => forall|j: int| 0 <= j < s.len() ==> s[j] != c,
        },
    decreases s.len(),
{
    if s.len() == 0 {
    } else if s[s.len() - 1] == c {
    } else {
        let head = s.subrange(0, s.len() - 1);
        lemma_find_last(head, c);
        assert(forall|j: int| 0 <= j < head.len() ==> s[j] == head[j]);
    }
}

/// A position holding `c` with no later occurrence is what `find_last` returns.
pub proof fn lemma_find_last_at(s: Seq<char>, c: char, i: int)
    requires
        0 <= i < s.len(),
        s[i] == c,
        forall|j: int| i < j < s.len() ==> s[j] != c,
    ensures
        find_last(s, c) == Some(i),
    decreases s.len(),
{
    if i < s.len() - 1 {
        let head = s.subrange(0, s.len() - 1);
        assert(forall|j: int| 0 <= j < head.len() ==> s[j] == head[j]);
        lemma_find_last_at(head, c, i);
    }
}

/// When `c` occurs nowhere in `s`, `find_last` returns nothing.
pub proof fn lemma_find_last_none(s: Seq<char>, c: char)
    requires
        forall|j: int| 0 <= j < s.len() ==> s[j] != c,
    ensures
        find_last(s, c) is None,
    decreases s.len(),
{
    if s.len() > 0 {
        let head = s.subrange(0, s.len() - 1);
        assert(forall|j: int| 0 <= j < head.len() ==> s[j] == head[j]);
        lemma_find_last_none(head, c);
    }
}

/// Position of the last occurrence of `c` in `s`, counted in characters.
pub fn find_last_in(s: &str, c: char) -> (r: Option<usize>)
    ensures
        match r {
            Some(i) => find_last(s@, c) == Some(i as int),
            None => find_last(s@, c) is None,
        },
{
    let n = s.unicode_len();
    let mut i: usize = n;
    while i > 0
        invariant
            n == s@.len(),
            0 <= i <= n,
            forall|j: int| i <= j < n ==> s@[j] != c,
        decreases i,
    {
        i = i - 1;
        if s.get_char(i) == c {
            proof {
                lemma_find_last_at(s@, c, i as int);
            }
            return Some(i);
        }
    }
    proof {
        lemma_find_last_none(s@, c);
    }
    None
}

/// Character-for-character equality of two strings.
pub fn str_eq(a: &str, b: &str) -> (r: bool)
    ensures
        r == (a@ == b@),
{
    let na = a.unicode_len();
    let nb = b.unicode_len();
    if na != nb {
        return false;
    }
    let mut i: usize = 0;
    while i < na
        invariant
            na == a@.len(),
            nb == b@.len(),
            na == nb,
            0 <= i <= na,
            forall|j: int| 0 <= j < i ==> a@[j] == b@[j],
        decreases na - i,
    {
        if chars_differ_at(a, b, i) {
            return false;
        }
        i = i + 1;
    }
    proof {
        assert(a@ =~= b@);
    }
    true
}

/// Whether the two strings differ at position `i`.
fn chars_differ_at(a: &str, b: &str, i: usize) -> (r: bool)
    requires
        i < a@.len(),
        i < b@.len(),
    ensures
        r == (a@[i as int] != b@[i as int]),
{
    a.get_char(i) != b.get_char(i)
}

/// Whether `p` is a prefix of `s`.
pub open spec fn starts_with(s: Seq<char>, p: Seq<char>) -> bool {
    p.len() <= s.len() && s.subrange(0, p.len() as int) == p
}

/// Whether the characters of `p` open the string `s`.
pub fn str_starts_with(s: &str, p: &str) -> (r: bool)
    ensures
        r == starts_with(s@, p@),
{
    let ns = s.unicode_len();
    let np = p.unicode_len();
    if np > ns {
        return false;
    }
    let mut i: usize = 0;
    while i < np
        invariant
            ns == s@.len(),
            np == p@.len(),
            np <= ns,
            0 <= i <= np,
            forall|j: int| 0 <= j < i ==> s@[j] == p@[j],
        decreases np - i,
    {
        if chars_differ_at(s, p, i) {
            proof {
                assert(s@.subrange(0, p@.len() as int)[i as int] != p@[i as int]);
            }
            return false;
        }
        i = i + 1;
    }
    proof {
        assert(s@.subrange(0, p@.len() as int) =~= p@);
    }
    true
}

/// The pieces of `s` between occurrences of `sep`, in order. There is always
/// at least one piece; a leading, trailing or doubled separator contributes
/// an empty piece, as `str::split` does.
pub open spec fn split_on(s: Seq<char>, sep: char) -> Seq<Seq<char>>
    decreases s.len(),
{
    if s.len() == 0 {
        seq![Seq::<char>::empty()]
    } else if s[0] == sep {
        seq![Seq::<char>::empty()] + split_on(s.subrange(1, s.len() as int), sep)
    } else {
        let rest = split_on(s.subrange(1, s.len() as int), sep);
        seq![seq![s[0]] + rest[0]] + rest.subrange(1, rest.len() as int)
    }
}

/// A split always has at least one piece.
pub proof fn lemma_split_on_len(s: Seq<char>, sep: char)
    ensures
        split_on(s, sep).len() >= 1,
    decreases s.len(),
{
    if s.len() > 0 {
        lemma_split_on_len(s.subrange(1, s.len() as int), sep);
    }
}

/// The first piece of a split is everything before the first separator, and
/// the remaining pieces are the split of everything after it.
pub proof fn lemma_split_on_first(s: Seq<char>, sep: char)
    ensures
        match find_char(s, sep) {
            None => split_on(s, sep) == seq![s],
            Some(i) => split_on(s, sep) == seq![s.subrange(0, i)] + split_on(
                s.subrange(i + 1, s.len() as int),
                sep,
            ),
        },
    decreases s.len(),
{
    lemma_find_char(s, sep);
    if s.len() == 0 {
        assert(split_on(s, sep) =~~= seq![s]);
    } else if s[0] == sep {
        assert(find_char(s, sep) == Some(0int));
        assert(s.subrange(0, 0) =~= Seq::<char>::empty());
        assert(split_on(s, sep) =~~= seq![s.subrange(0, 0)] + split_on(
            s.subrange(1, s.len() as int),
            sep,
        ));
    } else {
        let tail = s.subrange(1, s.len() as int);
        let rest = split_on(tail, sep);
        lemma_split_on_len(tail, sep);
        lemma_split_on_first(tail, sep);
        match find_char(tail, sep) {
            None => {
                assert(find_char(s, sep) is None);
                assert(rest == seq![tail]);
                assert(seq![s[0]] + rest[0] =~= s);
                assert(rest.subrange(1, rest.len() as int) =~~= Seq::<Seq<char>>::empty());
                assert(split_on(s, sep) =~~= seq![s]);
            },
            Some(i) => {
                assert(find_char(s, sep) == Some(i + 1));
                assert(rest == seq![tail.subrange(0, i)] + split_on(
                    tail.subrange(i + 1, tail.len() as int),
                    sep,
                ));
                assert(seq![s[0]] + rest[0] =~= s.subrange(0, i + 1));
                assert(tail.subrange(i + 1, tail.len() as int) =~= s.subrange(
                    i + 2,
                    s.len() as int,
                ));
                assert(rest.subrange(1, rest.len() as int) =~~= split_on(
                    s.subrange(i + 2, s.len() as int),
                    sep,
                ));
                assert(split_on(s, sep) =~~= seq![s.subrange(0, i + 1)] + split_on(
                    s.subrange(i + 2, s.len() as int),
                    sep,
                ));
            },
        }
    }
}

/// The pieces of `s` between occurrences of `sep`, as owned strings.
pub fn split_str(s: &str, sep: char) -> (r: Vec<String>)
    ensures
        r.deep_view() == split_on(s@, sep),
{
    let n = s.unicode_len();
    let mut r: Vec<String> = Vec::new();
    let mut start: usize = 0;
    proof {
        assert(s@.subrange(0, n as int) =~= s@);
        assert(r.deep_view() + split_on(s@, sep) =~~= split_on(s@, sep));
    }
    loop
        invariant
            n == s@.len(),
            0 <= start <= n,
            split_on(s@, sep) == r.deep_view() + split_on(
                s@.subrange(start as int, n as int),
                sep,
            ),
        decreases n - start,
    {
        let rem = s.substring_char(start, n);
        let ghost prev = r.deep_view();
        match find_char_in(rem, sep) {
            Some(i) => {
                proof {
                    lemma_find_char(rem@, sep);
                    lemma_split_on_first(rem@, sep);
                }
                let piece = rem.substring_char(0, i);
                r.push(String::from_str(piece));
                proof {
                    assert(r.deep_view() =~~= prev.push(piece@));
                    assert(rem@.subrange(i + 1, rem@.len() as int) =~= s@.subrange(
                        start + i + 1,
                        n as int,
                    ));
                    assert(prev.push(piece@) + split_on(
                        s@.subrange(start + i + 1, n as int),
                        sep,
                    ) =~~= prev + split_on(s@.subrange(start as int, n as int), sep));
                }
                start = start + i + 1;
            },
            None => {
                proof {
                    lemma_split_on_first(rem@, sep);
                }
                r.push(String::from_str(rem));
                proof {
                    assert(r.deep_view() =~~= prev.push(rem@));
                    assert(prev.push(rem@) =~~= prev + seq![rem@]);
                }
                return r;
            },
        }
    }
}

} // verus!
