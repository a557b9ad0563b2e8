//! Operations on text, stated over sequences of characters.
//!
//! Type names reach the library as text in which spaces part the tokens,
//! such as `Result < Foo , () >`. The functions here take such text apart.

use vstd::prelude::*;
use vstd::string::*;

verus! {

/// Whether `c` is white space: the code points with the Unicode property
/// `White_Space`.
pub open spec fn is_whitespace(c: char) -> bool {
    let n = c as u32;
    ||| 0x09 <= n <= 0x0D
    ||| n == 0x20
    ||| n == 0x85
    ||| n == 0xA0
    ||| n == 0x1680
    ||| 0x2000 <= n <= 0x200A
    ||| n == 0x2028
    ||| n == 0x2029
    ||| n == 0x202F
    ||| n == 0x205F
    ||| n == 0x3000
}

/// `s` without the white space at its start.
pub open spec fn trim_start(s: Seq<char>) -> Seq<char>
    decreases s.len(),
{
    if s.len() > 0 && is_whitespace(s[0]) {
        trim_start(s.skip(1))
    } else {
        s
    }
}

/// `s` without the white space at its end.
pub open spec fn trim_end(s: Seq<char>) -> Seq<char>
    decreases s.len(),
{
    if s.len() > 0 && is_whitespace(s.last()) {
        trim_end(s.drop_last())
    } else {
        s
    }
}

/// `s` without the white space at either end.
pub open spec fn trim(s: Seq<char>) -> Seq<char> {
    trim_end(trim_start(s))
}

/// Whether `pat` stands in `s` at position `at`.
pub open spec fn occurs_at(s: Seq<char>, at: int, pat: Seq<char>) -> bool {
    0 <= at && at + pat.len() <= s.len() && s.subrange(at, at + pat.len()) == pat
}

/// `s` after `pat` has been taken from its start as often as it stands there.
pub open spec fn strip_prefixes(s: Seq<char>, pat: Seq<char>) -> Seq<char>
    decreases s.len(),
{
    if pat.len() > 0 && occurs_at(s, 0, pat) {
        strip_prefixes(s.skip(pat.len() as int), pat)
    } else {
        s
    }
}

/// `s` after `pat` has been taken from its end as often as it stands there.
pub open spec fn strip_suffixes(s: Seq<char>, pat: Seq<char>) -> Seq<char>
    decreases s.len(),
{
    if pat.len() > 0 && occurs_at(s, s.len() - pat.len(), pat) {
        strip_suffixes(s.take(s.len() - pat.len()), pat)
    } else {
        s
    }
}

/// The position of the first `x` in `s`, or the length of `s` where it holds
/// none.
pub open spec fn find<A>(s: Seq<A>, x: A) -> int
    decreases s.len(),
{
    if s.len() == 0 || s[0] == x {
        0
    } else {
        1 + find(s.skip(1), x)
    }
}

/// Whether `at` is where the first `x` of `s` stands, or the length of `s`
/// where it holds none.
pub open spec fn is_first<A>(s: Seq<A>, x: A, at: int) -> bool {
    &&& 0 <= at <= s.len()
    &&& at < s.len() ==> s[at] == x
    &&& forall|j: int| 0 <= j < at ==> s[j] != x
}

/// `find` gives the first position, and nothing else is the first position.
pub proof fn lemma_find<A>(s: Seq<A>, x: A)
    ensures
        is_first(s, x, find(s, x)),
        forall|at: int| is_first(s, x, at) ==> at == find(s, x),
    decreases s.len(),
{
    if s.len() == 0 || s[0] == x {
    } else {
        let t = s.skip(1);
        lemma_find(t, x);
        assert forall|j: int| 0 <= j < find(s, x) implies s[j] != x by {
            if j > 0 {
                assert(t[j - 1] == s[j]);
            }
        }
        assert forall|at: int| is_first(s, x, at) implies at == find(s, x) by {
            assert(at > 0);
            assert(is_first(t, x, at - 1)) by {
                assert forall|j: int| 0 <= j < at - 1 implies t[j] != x by {
                    assert(t[j] == s[j + 1]);
                }
            }
        }
    }
}

/// Whether `c` may stand in an identifier: a letter of the alphabet, a
/// digit, or `_`.
pub open spec fn is_ident_char(c: char) -> bool {
    let n = c as u32;
    ||| 0x30 <= n <= 0x39
    ||| 0x41 <= n <= 0x5A
    ||| 0x61 <= n <= 0x7A
    ||| n == 0x5F
}

/// Whether `s` is an identifier: one or more characters that may stand in
/// one, the first of them no digit.
pub open spec fn is_ident(s: Seq<char>) -> bool {
    &&& s.len() > 0
    &&& !(0x30 <= s[0] as u32 <= 0x39)
    &&& forall|i: int| 0 <= i < s.len() ==> is_ident_char(#[trigger] s[i])
}

/// Trimming takes characters away and adds none.
pub proof fn lemma_trim_len(s: Seq<char>)
    ensures
        trim_start(s).len() <= s.len(),
        trim_end(s).len() <= s.len(),
        trim(s).len() <= s.len(),
    decreases s.len(),
{
    if s.len() > 0 {
        lemma_trim_len(s.skip(1));
        lemma_trim_len(s.drop_last());
    }
    lemma_trim_end_len(trim_start(s));
}

proof fn lemma_trim_end_len(s: Seq<char>)
    ensures
        trim_end(s).len() <= s.len(),
    decreases s.len(),
{
    if s.len() > 0 {
        lemma_trim_end_len(s.drop_last());
    }
}

/// Stripping takes characters away and adds none, and takes some away where
/// the pattern stands at that end.
pub proof fn lemma_strip_len(s: Seq<char>, pat: Seq<char>)
    ensures
        strip_prefixes(s, pat).len() <= s.len(),
        strip_suffixes(s, pat).len() <= s.len(),
        pat.len() > 0 && occurs_at(s, 0, pat) ==> strip_prefixes(s, pat).len() < s.len(),
    decreases s.len(),
{
    if pat.len() > 0 && occurs_at(s, 0, pat) {
        lemma_strip_len(s.skip(pat.len() as int), pat);
    }
    if pat.len() > 0 && occurs_at(s, s.len() - pat.len(), pat) {
        lemma_strip_len(s.take(s.len() - pat.len()), pat);
    }
}

/// Whether `c` is white space.
pub fn char_is_whitespace(c: char) -> (b: bool)
    ensures
        b == is_whitespace(c),
{
    let n: u32 = c as u32;
    (0x09 <= n && n <= 0x0D) || n == 0x20 || n == 0x85 || n == 0xA0 || n == 0x1680 || (0x2000 <= n
        && n <= 0x200A) || n == 0x2028 || n == 0x2029 || n == 0x202F || n == 0x205F || n == 0x3000
}

/// Whether two texts hold the same characters.
pub fn str_eq(a: &str, b: &str) -> (same: bool)
    ensures
        same == (a@ == b@),
{
    let x = String::from_str(a);
    let y = String::from_str(b);
    x == y
}

/// Whether `pat` stands in `s` at position `at`.
pub fn has_at(s: &str, at: usize, pat: &str) -> (b: bool)
    ensures
        b == occurs_at(s@, at as int, pat@),
{
    let n = s.unicode_len();
    let m = pat.unicode_len();
    if at > n || m > n - at {
        return false;
    }
    let mut i: usize = 0;
    while i < m
        invariant
            i <= m,
            at + m <= n,
            n == s@.len(),
            m == pat@.len(),
            forall|j: int| 0 <= j < i ==> s@[at + j] == pat@[j],
        decreases m - i,
    {
        if s.get_char(at + i) != pat.get_char(i) {
            assert(s@.subrange(at as int, at + m)[i as int] == s@[at + i]);
            return false;
        }
        i += 1;
    }
    assert(s@.subrange(at as int, at + m) =~= pat@);
    true
}

/// Takes `pat` from the start of `s` as often as it stands there. An empty
/// `pat` takes nothing.
pub fn trim_start_matches<'a>(s: &'a str, pat: &str) -> (r: &'a str)
    ensures
        r@ == strip_prefixes(s@, pat@),
{
    let n = s.unicode_len();
    let m = pat.unicode_len();
    if m == 0 {
        return s;
    }
    let mut at: usize = 0;
    assert(s@.skip(0) =~= s@);
    loop
        invariant
            at <= n,
            n == s@.len(),
            m == pat@.len(),
            m > 0,
            strip_prefixes(s@, pat@) == strip_prefixes(s@.skip(at as int), pat@),
        ensures
            at <= n,
            strip_prefixes(s@, pat@) == s@.skip(at as int),
        decreases n - at,
    {
        let here = has_at(s, at, pat);
        proof {
            let rest = s@.skip(at as int);
            assert(occurs_at(rest, 0, pat@) == here) by {
                if at + m <= n {
                    assert(rest.subrange(0, m as int) =~= s@.subrange(at as int, at + m));
                }
            }
            if here {
                assert(rest.skip(m as int) =~= s@.skip(at + m));
            }
        }
        if !here {
            break ;
        }
        at = at + m;
    }
    let r = s.substring_char(at, n);
    assert(s@.subrange(at as int, n as int) =~= s@.skip(at as int));
    r
}

/// Takes `pat` from the end of `s` as often as it stands there. An empty
/// `pat` takes nothing.
pub fn trim_end_matches<'a>(s: &'a str, pat: &str) -> (r: &'a str)
    ensures
        r@ == strip_suffixes(s@, pat@),
{
    let n = s.unicode_len();
    let m = pat.unicode_len();
    if m == 0 {
        return s;
    }
    let mut end: usize = n;
    assert(s@.take(n as int) =~= s@);
    loop
        invariant
            end <= n,
            n == s@.len(),
            m == pat@.len(),
            m > 0,
            strip_suffixes(s@, pat@) == strip_suffixes(s@.take(end as int), pat@),
        ensures
            end <= n,
            strip_suffixes(s@, pat@) == s@.take(end as int),
        decreases end,
    {
        let here = end >= m && has_at(s, end - m, pat);
        proof {
            let rest = s@.take(end as int);
            assert(occurs_at(rest, rest.len() - m, pat@) == here) by {
                if end >= m {
                    assert(rest.subrange(end - m, end as int) =~= s@.subrange(
                        end - m,
                        end as int,
                    ));
                }
            }
            if here {
                assert(rest.take(end - m) =~= s@.take(end - m));
            }
        }
        if !here {
            break ;
        }
        end = end - m;
    }
    let r = s.substring_char(0, end);
    assert(s@.subrange(0, end as int) =~= s@.take(end as int));
    r
}

/// Takes the white space from both ends of `s`.
pub fn trim_whitespace<'a>(s: &'a str) -> (r: &'a str)
    ensures
        r@ == trim(s@),
{
    let n = s.unicode_len();
    let mut lo: usize = 0;
    assert(s@.skip(0) =~= s@);
    while lo < n && char_is_whitespace(s.get_char(lo))
        invariant
            lo <= n,
            n == s@.len(),
            trim_start(s@) == trim_start(s@.skip(lo as int)),
        decreases n - lo,
    {
        proof {
            assert(s@.skip(lo as int)[0] == s@[lo as int]);
            assert(s@.skip(lo as int).skip(1) =~= s@.skip(lo + 1));
        }
        lo += 1;
    }
    proof {
        if lo < n {
            assert(s@.skip(lo as int)[0] == s@[lo as int]);
        }
        assert(trim_start(s@) == s@.skip(lo as int));
    }
    let ghost body = s@.skip(lo as int);
    let mut hi: usize = n;
    assert(body.take(n - lo) =~= body);
    while hi > lo && char_is_whitespace(s.get_char(hi - 1))
        invariant
            lo <= hi <= n,
            n == s@.len(),
            body == s@.skip(lo as int),
            trim_end(body) == trim_end(body.take(hi - lo)),
        decreases hi,
    {
        proof {
            assert(body.take(hi - lo).last() == s@[hi - 1]);
            assert(body.take(hi - lo).drop_last() =~= body.take(hi - 1 - lo));
        }
        hi -= 1;
    }
    proof {
        if hi > lo {
            assert(body.take(hi - lo).last() == s@[hi - 1]);
        }
        assert(trim_end(body) == body.take(hi - lo));
        assert(s@.subrange(lo as int, hi as int) =~= body.take(hi - lo));
    }
    s.substring_char(lo, hi)
}

/// The position of the first `c` in `s` at or after `from`, or the length
/// of `s` where none follows; a `from` behind the end of `s` counts as the
/// end.
pub fn find_from(s: &str, from: usize, c: char) -> (at: usize)
    ensures
        from <= s@.len() ==> at == from + find(s@.skip(from as int), c) && from <= at,
        from > s@.len() ==> at == s@.len(),
        at <= s@.len(),
{
    let n = s.unicode_len();
    if from > n {
        return n;
    }
    let mut at: usize = from;
    while at < n && s.get_char(at) != c
        invariant
            from <= at <= n,
            n == s@.len(),
            from + find(s@.skip(from as int), c) == at + find(s@.skip(at as int), c),
        decreases n - at,
    {
        proof {
            assert(s@.skip(at as int)[0] == s@[at as int]);
            assert(s@.skip(at as int).skip(1) =~= s@.skip(at + 1));
        }
        at += 1;
    }
    proof {
        if at < n {
            assert(s@.skip(at as int)[0] == s@[at as int]);
        }
    }
    at
}

} // verus!
