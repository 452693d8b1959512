//! Character-sequence utilities shared by the filter engine, the renderer and
//! the detail parser: whitespace trimming, substring containment, decimal
//! digit counts, and first-occurrence search in a sequence.

use vstd::prelude::*;

verus! {

/// The whitespace characters recognised when a query is trimmed.
pub open spec fn is_space(c: char) -> bool {
    c == ' ' || c == '\t' || c == '\n' || c == '\r'
}

/// Executable test for [`is_space`].
pub fn space_char(c: char) -> (r: bool)
    ensures
        r == is_space(c),
{
    c == ' ' || c == '\t' || c == '\n' || c == '\r'
}

/// `s` with its maximal whitespace prefix removed.
pub open spec fn trim_start_spec(s: Seq<char>) -> Seq<char>
    decreases s.len(),
{
    if s.len() == 0 {
        s
    } else if is_space(s[0]) {
        trim_start_spec(s.drop_first())
    } else {
        s
    }
}

/// `s` with its maximal whitespace suffix removed.
pub open spec fn trim_end_spec(s: Seq<char>) -> Seq<char>
    decreases s.len(),
{
    if s.len() == 0 {
        s
    } else if is_space(s.last()) {
        trim_end_spec(s.drop_last())
    } else {
        s
    }
}

/// `s` with whitespace removed from both ends.
pub open spec fn trim_spec(s: Seq<char>) -> Seq<char> {
    trim_end_spec(trim_start_spec(s))
}

/// A scan that saw only whitespace before `lo` pins down the trimmed
/// prefix.
pub proof fn lemma_trim_start_prefix(s: Seq<char>, lo: int)
    requires
        0 <= lo <= s.len(),
        forall|i: int| 0 <= i < lo ==> is_space(#[trigger] s[i]),
        lo < s.len() ==> !is_space(s[lo]),
    ensures
        trim_start_spec(s) == s.subrange(lo, s.len() as int),
    decreases lo,
{
    if lo == 0 {
        if s.len() == 0 || !is_space(s[0]) {
            assert(s.subrange(0, s.len() as int) =~= s);
        } else {
            assert(false);
        }
    } else {
        assert(is_space(s[0]));
        let t = s.drop_first();
        lemma_trim_start_prefix(t, lo - 1);
        assert(t.subrange(lo - 1, t.len() as int) =~= s.subrange(lo, s.len() as int));
    }
}

/// A scan that saw only whitespace from `hi` on pins down the trimmed
/// suffix.
pub proof fn lemma_trim_end_suffix(s: Seq<char>, hi: int)
    requires
        0 <= hi <= s.len(),
        forall|i: int| hi <= i < s.len() ==> is_space(#[trigger] s[i]),
        hi > 0 ==> !is_space(s[hi - 1]),
    ensures
        trim_end_spec(s) == s.subrange(0, hi),
    decreases s.len() - hi,
{
    if hi == s.len() {
        if s.len() == 0 || !is_space(s.last()) {
            assert(s.subrange(0, hi) =~= s);
        } else {
            assert(false);
        }
    } else {
        assert(is_space(s.last()));
        let t = s.drop_last();
        lemma_trim_end_suffix(t, hi);
        assert(t.subrange(0, hi) =~= s.subrange(0, hi));
    }
}

/// A sequence of whitespace alone trims to the empty sequence.
pub proof fn lemma_trim_all_space(s: Seq<char>)
    requires
        forall|i: int| 0 <= i < s.len() ==> is_space(#[trigger] s[i]),
    ensures
        trim_spec(s).len() == 0,
{
    lemma_trim_start_prefix(s, s.len() as int);
    assert(s.subrange(s.len() as int, s.len() as int) =~= Seq::<char>::empty());
}

/// The least index that does not hold whitespace, or the length if all of `s`
/// is whitespace.
spec fn first_non_space(s: Seq<char>) -> int
    decreases s.len(),
{
    if s.len() == 0 {
        0
    } else if !is_space(s[0]) {
        0
    } else {
        1 + first_non_space(s.drop_first())
    }
}

proof fn lemma_first_non_space(s: Seq<char>)
    ensures
        0 <= first_non_space(s) <= s.len(),
        forall|i: int| 0 <= i < first_non_space(s) ==> is_space(#[trigger] s[i]),
        first_non_space(s) < s.len() ==> !is_space(s[first_non_space(s)]),
    decreases s.len(),
{
    if s.len() > 0 && is_space(s[0]) {
        let t = s.drop_first();
        lemma_first_non_space(t);
        assert forall|i: int| 0 <= i < first_non_space(s) implies is_space(#[trigger] s[i]) by {
            if i > 0 {
                assert(s[i] == t[i - 1]);
            }
        }
        if first_non_space(s) < s.len() {
            assert(s[first_non_space(s)] == t[first_non_space(t)]);
        }
    }
}

/// One past the last index that does not hold whitespace, or zero if all of
/// `s` is whitespace.
spec fn last_non_space_end(s: Seq<char>) -> int
    decreases s.len(),
{
    if s.len() == 0 {
        0
    } else if !is_space(s.last()) {
        s.len() as int
    } else {
        last_non_space_end(s.drop_last())
    }
}

proof fn lemma_last_non_space_end(s: Seq<char>)
    ensures
        0 <= last_non_space_end(s) <= s.len(),
        forall|i: int| last_non_space_end(s) <= i < s.len() ==> is_space(#[trigger] s[i]),
        last_non_space_end(s) > 0 ==> !is_space(s[last_non_space_end(s) - 1]),
    decreases s.len(),
{
    if s.len() > 0 && is_space(s.last()) {
        let t = s.drop_last();
        lemma_last_non_space_end(t);
        assert forall|i: int| last_non_space_end(s) <= i < s.len() implies is_space(
            #[trigger] s[i],
        ) by {
            if i < s.len() - 1 {
                assert(s[i] == t[i]);
            }
        }
        if last_non_space_end(s) > 0 {
            assert(s[last_non_space_end(s) - 1] == t[last_non_space_end(t) - 1]);
        }
    }
}

/// Returns `s` with leading and trailing whitespace removed.
pub fn trim_str<'a>(s: &'a str) -> (r: &'a str)
    ensures
        r@ == trim_spec(s@),
{
    let n = s.unicode_len();
    let mut lo: usize = 0;
    while lo < n && space_char(s.get_char(lo))
        invariant
            n == s@.len(),
            0 <= lo <= n,
            forall|i: int| 0 <= i < lo ==> is_space(#[trigger] s@[i]),
        decreases n - lo,
    {
        lo = lo + 1;
    }
    proof {
        lemma_trim_start_prefix(s@, lo as int);
    }
    if lo == n {
        proof {
            assert(s@.subrange(n as int, n as int) =~= Seq::<char>::empty());
            reveal_strlit("");
            assert(""@ =~= Seq::<char>::empty());
        }
        return "";
    }
    let mut hi: usize = n;
    while hi > lo + 1 && space_char(s.get_char(hi - 1))
        invariant
            n == s@.len(),
            0 <= lo < hi <= n,
            !is_space(s@[lo as int]),
            forall|i: int| hi <= i < n ==> is_space(#[trigger] s@[i]),
        decreases hi,
    {
        hi = hi - 1;
    }
    let r = s.substring_char(lo, hi);
    proof {
        let t = s@.subrange(lo as int, n as int);
        assert(!is_space(t[(hi - lo - 1) as int]) ==> !is_space(s@[hi as int - 1]));
        assert(!is_space(s@[hi as int - 1])) by {
            if hi > lo + 1 {
            } else {
                assert(hi == lo + 1);
            }
        }
        lemma_trim_end_suffix(t, hi - lo);
        assert(t.subrange(0, hi - lo) =~= s@.subrange(lo as int, hi as int));
    }
    r
}

/// The needle occurs in the haystack starting at position `k`.
pub open spec fn contains_at(hay: Seq<char>, needle: Seq<char>, k: int) -> bool {
    0 <= k && k + needle.len() <= hay.len() && hay.subrange(k, k + needle.len() as int) == needle
}

/// The needle occurs somewhere in the haystack.
pub open spec fn seq_contains(hay: Seq<char>, needle: Seq<char>) -> bool {
    exists|k: int| contains_at(hay, needle, k)
}

fn match_at(hay: &str, needle: &str, k: usize, hn: usize, nn: usize) -> (r: bool)
    requires
        hn == hay@.len(),
        nn == needle@.len(),
        k + nn <= hn,
    ensures
        r == contains_at(hay@, needle@, k as int),
{
    let mut j: usize = 0;
    while j < nn
        invariant
            hn == hay@.len(),
            nn == needle@.len(),
            k + nn <= hn,
            0 <= j <= nn,
            forall|t: int| 0 <= t < j ==> hay@[k + t] == #[trigger] needle@[t],
        decreases nn - j,
    {
        if hay.get_char(k + j) != needle.get_char(j) {
            proof {
                let sub = hay@.subrange(k as int, k as int + nn as int);
                assert(sub[j as int] == hay@[k + j]);
            }
            return false;
        }
        j = j + 1;
    }
    proof {
        assert(hay@.subrange(k as int, k as int + nn as int) =~= needle@);
    }
    true
}

/// Case-sensitive substring test: does `needle` occur anywhere in `hay`?
pub fn str_contains(hay: &str, needle: &str) -> (r: bool)
    ensures
        r == seq_contains(hay@, needle@),
{
    let hn = hay.unicode_len();
    let nn = needle.unicode_len();
    if nn > hn {
        proof {
            assert(forall|k: int| !contains_at(hay@, needle@, k));
        }
        return false;
    }
    if nn == 0 {
        proof {
            assert(hay@.subrange(0, 0) =~= needle@);
            assert(contains_at(hay@, needle@, 0));
        }
        return true;
    }
    let mut k: usize = 0;
    while k <= hn - nn
        invariant
            hn == hay@.len(),
            nn == needle@.len(),
            1 <= nn <= hn,
            0 <= k <= hn - nn + 1,
            forall|k2: int| 0 <= k2 < k ==> !contains_at(hay@, needle@, k2),
        decreases hn - nn + 1 - k,
    {
        if match_at(hay, needle, k, hn, nn) {
            return true;
        }
        k = k + 1;
    }
    proof {
        assert(forall|k2: int| k2 > hn - nn ==> !contains_at(hay@, needle@, k2));
    }
    false
}

/// The number of decimal digits of `n` (one digit for zero).
pub open spec fn digits10(n: nat) -> nat
    decreases n,
{
    if n < 10 {
        1
    } else {
        1 + digits10(n / 10)
    }
}

proof fn lemma_digits10_le(n: nat)
    ensures
        n >= 1 ==> digits10(n) <= n,
        digits10(n) >= 1,
    decreases n,
{
    if n >= 10 {
        lemma_digits10_le(n / 10);
        assert(n / 10 >= 1);
        assert(n / 10 + 1 <= n) by (nonlinear_arith)
            requires
                n >= 10,
        ;
    }
}

/// Counts the decimal digits of `n`.
pub fn count_digits(n: usize) -> (r: usize)
    ensures
        r == digits10(n as nat),
{
    let mut m: usize = n;
    let mut d: usize = 1;
    while m >= 10
        invariant
            d >= 1,
            d - 1 + digits10(m as nat) == digits10(n as nat),
        decreases m,
    {
        proof {
            lemma_digits10_le(n as nat);
            lemma_digits10_le(m as nat);
            assert(digits10(m as nat) == 1 + digits10((m / 10) as nat));
        }
        m = m / 10;
        d = d + 1;
    }
    d
}

/// The least index at which `x` occurs in `s`, if any.
pub open spec fn find_index<T>(s: Seq<T>, x: T) -> Option<int>
    decreases s.len(),
{
    if s.len() == 0 {
        None
    } else if s[0] == x {
        Some(0)
    } else {
        match find_index(s.drop_first(), x) {
            None => None,
            Some(k) => Some(k + 1),
        }
    }
}

/// Relates a scan that saw no occurrence of `x` before `k` to [`find_index`].
pub proof fn lemma_find_index_at<T>(s: Seq<T>, x: T, k: int)
    requires
        0 <= k <= s.len(),
        forall|i: int| 0 <= i < k ==> s[i] != x,
        k < s.len() ==> s[k] == x,
    ensures
        k < s.len() ==> find_index(s, x) == Some(k),
        k == s.len() ==> find_index(s, x) is None,
    decreases k,
{
    if k == 0 {
        if s.len() == 0 {
        } else {
            assert(s[0] == x);
        }
    } else {
        assert(s[0] != x);
        let t = s.drop_first();
        assert(forall|i: int| 0 <= i < k - 1 ==> t[i] == s[i + 1] && #[trigger] t[i] != x);
        lemma_find_index_at(t, x, k - 1);
    }
}

/// Where [`find_index`] reports an occurrence, it is the first one.
pub proof fn lemma_find_index_found<T>(s: Seq<T>, x: T)
    ensures
        match find_index(s, x) {
            Some(k) => 0 <= k < s.len() && s[k] == x && forall|i: int| 0 <= i < k ==> s[i] != x,
            None => forall|i: int| 0 <= i < s.len() ==> s[i] != x,
        },
    decreases s.len(),
{
    if s.len() > 0 && s[0] != x {
        let t = s.drop_first();
        lemma_find_index_found(t, x);
        match find_index(t, x) {
            Some(k) => {
                assert forall|i: int| 0 <= i < k + 1 implies s[i] != x by {
                    if i > 0 {
                        assert(s[i] == t[i - 1]);
                    }
                }
            },
            None => {
                assert forall|i: int| 0 <= i < s.len() implies s[i] != x by {
                    if i > 0 {
                        assert(s[i] == t[i - 1]);
                    }
                }
            },
        }
    }
}


/// `s` with every newline character removed.
pub open spec fn strip_newlines(s: Seq<char>) -> Seq<char>
    decreases s.len(),
{
    if s.len() == 0 {
        Seq::empty()
    } else {
        strip_newlines(s.drop_last()) + (if s.last() == '\n' {
            Seq::<char>::empty()
        } else {
            seq![s.last()]
        })
    }
}

} // verus!
