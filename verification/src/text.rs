//! Character-level text operations: white space, trimming, searching.
//!
//! Text is modelled as `Seq<char>`. The executable functions work on a
//! `Vec<char>` and on index ranges into it, so that a scan never copies.

use vstd::prelude::*;
use vstd::string::*;

verus! {

/// White space: the characters with the Unicode property `White_Space`.
pub open spec fn is_space(c: char) -> bool {
    let n = c as u32;
    ||| 0x09 <= n <= 0x0d
    ||| n == 0x20
    ||| n == 0x85
    ||| n == 0xa0
    ||| n == 0x1680
    ||| 0x2000 <= n <= 0x200a
    ||| n == 0x2028
    ||| n == 0x2029
    ||| n == 0x202f
    ||| n == 0x205f
    ||| n == 0x3000
}

/// `s` without its leading white space.
pub open spec fn trim_start(s: Seq<char>) -> Seq<char>
    decreases s.len(),
{
    if s.len() > 0 && is_space(s[0]) {
        trim_start(s.drop_first())
    } else {
        s
    }
}

/// `s` without its trailing white space.
pub open spec fn trim_end(s: Seq<char>) -> Seq<char>
    decreases s.len(),
{
    if s.len() > 0 && is_space(s.last()) {
        trim_end(s.drop_last())
    } else {
        s
    }
}

/// `s` without leading and trailing white space.
pub open spec fn trim(s: Seq<char>) -> Seq<char> {
    trim_end(trim_start(s))
}

/// The number of characters of `s` that stand before the first `c`;
/// `s.len()` where `s` holds no `c`.
pub open spec fn first_index(s: Seq<char>, c: char) -> int
    decreases s.len(),
{
    if s.len() == 0 || s[0] == c {
        0
    } else {
        1 + first_index(s.drop_first(), c)
    }
}

/// `s` holds no `c`.
pub open spec fn free_of(s: Seq<char>, c: char) -> bool {
    forall|j: int| 0 <= j < s.len() ==> s[j] != c
}

/// `pat` occurs in `s` at position `i`.
pub open spec fn occurs_at(s: Seq<char>, pat: Seq<char>, i: int) -> bool {
    0 <= i && i + pat.len() <= s.len() && s.subrange(i, i + pat.len()) == pat
}

/// `pat` occurs somewhere in `s`.
pub open spec fn contains_text(s: Seq<char>, pat: Seq<char>) -> bool {
    exists|i: int| occurs_at(s, pat, i)
}

/// The pieces of `parts`, each two neighbours separated by `sep`.
pub open spec fn join(parts: Seq<Seq<char>>, sep: Seq<char>) -> Seq<char>
    decreases parts.len(),
{
    if parts.len() == 0 {
        Seq::empty()
    } else if parts.len() == 1 {
        parts[0]
    } else {
        join(parts.drop_last(), sep) + sep + parts.last()
    }
}

/// `first_index` stays within `s`, passes no `c`, and stops on one.
pub proof fn lemma_first_index(s: Seq<char>, c: char)
    ensures
        0 <= first_index(s, c) <= s.len(),
        forall|j: int| 0 <= j < first_index(s, c) ==> s[j] != c,
        first_index(s, c) < s.len() ==> s[first_index(s, c)] == c,
    decreases s.len(),
{
    if s.len() == 0 || s[0] == c {
    } else {
        let t = s.drop_first();
        lemma_first_index(t, c);
        assert forall|j: int| 0 <= j < first_index(s, c) implies s[j] != c by {
            if j > 0 {
                assert(s[j] == t[j - 1]);
            }
        }
        if first_index(s, c) < s.len() {
            assert(s[first_index(s, c)] == t[first_index(t, c)]);
        }
    }
}

/// The position at which the first `c` stands is the only one that
/// `first_index` can give.
pub proof fn lemma_first_index_is(s: Seq<char>, c: char, i: int)
    requires
        0 <= i <= s.len(),
        forall|j: int| 0 <= j < i ==> s[j] != c,
        i < s.len() ==> s[i] == c,
    ensures
        first_index(s, c) == i,
{
    lemma_first_index(s, c);
    let k = first_index(s, c);
    if k < i {
        assert(s[k] == c);
    } else if k > i {
        assert(s[i] != c);
    }
}

/// Trimming takes white space away at both ends and nothing else: the
/// result is the one stretch of `s` that is empty or starts and ends with
/// a character that is no white space, with only white space around it.
pub proof fn lemma_trim_bounds(s: Seq<char>) -> (r: (int, int))
    ensures
        0 <= r.0 <= r.1 <= s.len(),
        trim(s) == s.subrange(r.0, r.1),
        forall|j: int| 0 <= j < r.0 ==> is_space(s[j]),
        forall|j: int| r.1 <= j < s.len() ==> is_space(s[j]),
        r.0 < r.1 ==> !is_space(s[r.0]) && !is_space(s[r.1 - 1]),
{
    let a = lemma_trim_start_bounds(s);
    let t = s.subrange(a, s.len() as int);
    let b = lemma_trim_end_bounds(t);
    assert(t.subrange(0, b) =~= s.subrange(a, a + b));
    assert forall|j: int| a + b <= j < s.len() implies is_space(s[j]) by {
        assert(s[j] == t[j - a]);
    }
    if b > 0 {
        assert(t[0] == s[a]);
        assert(t[b - 1] == s[a + b - 1]);
        if is_space(s[a]) {
            assert(forall|j: int| 0 <= j < t.len() ==> is_space(#[trigger] t[j]));
            assert(is_space(t[b - 1]));
        }
    }
    (a, a + b)
}

/// The stretch that trimming leaves is the only one of its kind: where
/// `s[a..b]` has only white space around it, and is empty or starts and
/// ends with a character that is none, it is `trim(s)`.
pub proof fn lemma_trim_is(s: Seq<char>, a: int, b: int)
    requires
        0 <= a <= b <= s.len(),
        forall|j: int| 0 <= j < a ==> is_space(s[j]),
        forall|j: int| b <= j < s.len() ==> is_space(s[j]),
        a < b ==> !is_space(s[a]) && !is_space(s[b - 1]),
    ensures
        trim(s) == s.subrange(a, b),
{
    let r = lemma_trim_bounds(s);
    if a < b {
        // Both stretches start at the first character that is no white
        // space, and end behind the last.
        if r.0 < a {
            assert(is_space(s[r.0]));
            assert(is_space(s[a]));
        } else if r.0 > a {
            assert(is_space(s[a]));
        }
        if r.1 < b {
            assert(is_space(s[b - 1]));
        } else if r.1 > b {
            assert(is_space(s[r.1 - 1]));
        }
    } else {
        // All of `s` is white space, so both stretches are empty.
        if r.0 < r.1 {
            assert(is_space(s[r.0]));
        }
        assert(s.subrange(r.0, r.1) =~= s.subrange(a, b));
    }
}

/// A text that is empty, or starts and ends with a character that is no
/// white space, is its own trimmed form.
pub proof fn lemma_trim_of_trimmed(s: Seq<char>)
    requires
        s.len() > 0 ==> !is_space(s[0]) && !is_space(s.last()),
    ensures
        trim(s) == s,
{
    lemma_trim_is(s, 0, s.len() as int);
    assert(s.subrange(0, s.len() as int) =~= s);
}

/// `trim_start` drops a prefix made of white space, up to the first
/// character that is none.
proof fn lemma_trim_start_bounds(s: Seq<char>) -> (a: int)
    ensures
        0 <= a <= s.len(),
        trim_start(s) == s.subrange(a, s.len() as int),
        forall|j: int| 0 <= j < a ==> is_space(s[j]),
        a < s.len() ==> !is_space(s[a]),
    decreases s.len(),
{
    if s.len() > 0 && is_space(s[0]) {
        let t = s.drop_first();
        let b = lemma_trim_start_bounds(t);
        assert(t.subrange(b, t.len() as int) =~= s.subrange(b + 1, s.len() as int));
        assert forall|j: int| 0 <= j < b + 1 implies is_space(s[j]) by {
            if j > 0 {
                assert(s[j] == t[j - 1]);
            }
        }
        if b + 1 < s.len() {
            assert(s[b + 1] == t[b]);
        }
        b + 1
    } else {
        assert(s.subrange(0, s.len() as int) =~= s);
        0
    }
}

/// `trim_end` drops a suffix made of white space, down to the last
/// character that is none. Where all of `s` is white space, all of it goes.
proof fn lemma_trim_end_bounds(s: Seq<char>) -> (b: int)
    ensures
        0 <= b <= s.len(),
        trim_end(s) == s.subrange(0, b),
        forall|j: int| b <= j < s.len() ==> is_space(s[j]),
        b > 0 ==> !is_space(s[b - 1]),
        (forall|j: int| 0 <= j < s.len() ==> is_space(#[trigger] s[j])) ==> b == 0,
    decreases s.len(),
{
    if s.len() > 0 && is_space(s.last()) {
        let t = s.drop_last();
        let b = lemma_trim_end_bounds(t);
        assert(t.subrange(0, b) =~= s.subrange(0, b));
        assert forall|j: int| b <= j < s.len() implies is_space(s[j]) by {
            if j < t.len() {
                assert(s[j] == t[j]);
            }
        }
        if b > 0 {
            assert(s[b - 1] == t[b - 1]);
        }
        if forall|j: int| 0 <= j < s.len() ==> is_space(#[trigger] s[j]) {
            assert forall|j: int| 0 <= j < t.len() implies is_space(#[trigger] t[j]) by {
                assert(t[j] == s[j]);
            }
        }
        b
    } else {
        assert(s.subrange(0, s.len() as int) =~= s);
        if s.len() > 0 {
            assert(!is_space(s[s.len() - 1]));
        }
        s.len() as int
    }
}


/// The text that an optional string holds.
pub open spec fn opt_text(o: Option<String>) -> Option<Seq<char>> {
    match o {
        Some(s) => Some(s@),
        None => None,
    }
}

/// The texts that the strings of `parts` hold.
pub open spec fn views(parts: Seq<String>) -> Seq<Seq<char>> {
    parts.map_values(|s: String| s@)
}

/// Whether `c` is white space.
pub fn is_whitespace(c: char) -> (r: bool)
    ensures
        r == is_space(c),
{
    let n: u32 = c as u32;
    (0x09 <= n && n <= 0x0d) || n == 0x20 || n == 0x85 || n == 0xa0 || n == 0x1680 || (0x2000 <= n
        && n <= 0x200a) || n == 0x2028 || n == 0x2029 || n == 0x202f || n == 0x205f || n == 0x3000
}

/// The characters of `s`, one element each.
pub fn chars_of(s: &str) -> (v: Vec<char>)
    ensures
        v@ == s@,
{
    let mut v: Vec<char> = Vec::new();
    for c in it: s.chars()
        invariant
            it.seq() == s@,
            v@ == it.seq().take(it.index() as int),
    {
        v.push(c);
    }
    v
}

/// The bounds of what trimming leaves of `s[lo..hi]`.
pub(crate) fn trim_range(s: &Vec<char>, lo: usize, hi: usize) -> (r: (usize, usize))
    requires
        lo <= hi <= s.len(),
    ensures
        lo <= r.0 <= r.1 <= hi,
        s@.subrange(r.0 as int, r.1 as int) == trim(s@.subrange(lo as int, hi as int)),
{
    let mut a: usize = lo;
    while a < hi && is_whitespace(s[a])
        invariant
            lo <= a <= hi <= s.len(),
            trim_start(s@.subrange(lo as int, hi as int)) == trim_start(
                s@.subrange(a as int, hi as int),
            ),
        decreases hi - a,
    {
        proof {
            assert(s@.subrange(a as int, hi as int).drop_first() =~= s@.subrange(
                a as int + 1,
                hi as int,
            ));
        }
        a += 1;
    }
    let mut b: usize = hi;
    while b > a && is_whitespace(s[b - 1])
        invariant
            a <= b <= hi <= s.len(),
            trim_end(s@.subrange(a as int, hi as int)) == trim_end(s@.subrange(a as int, b as int)),
        decreases b - a,
    {
        proof {
            assert(s@.subrange(a as int, b as int).drop_last() =~= s@.subrange(
                a as int,
                b as int - 1,
            ));
        }
        b -= 1;
    }
    (a, b)
}

/// The position of the first `c` in `s[lo..hi]`, or `hi` where there is none.
pub(crate) fn find_char(s: &Vec<char>, lo: usize, hi: usize, c: char) -> (i: usize)
    requires
        lo <= hi <= s.len(),
    ensures
        lo <= i <= hi,
        i - lo == first_index(s@.subrange(lo as int, hi as int), c),
{
    let mut i: usize = lo;
    while i < hi && s[i] != c
        invariant
            lo <= i <= hi <= s.len(),
            first_index(s@.subrange(lo as int, hi as int), c) == (i - lo) + first_index(
                s@.subrange(i as int, hi as int),
                c,
            ),
        decreases hi - i,
    {
        proof {
            assert(s@.subrange(i as int, hi as int).drop_first() =~= s@.subrange(
                i as int + 1,
                hi as int,
            ));
        }
        i += 1;
    }
    i
}

/// Whether `s[lo..hi]` starts with `pat`.
pub(crate) fn starts_with_at(s: &Vec<char>, lo: usize, hi: usize, pat: &Vec<char>) -> (r: bool)
    requires
        lo <= hi <= s.len(),
    ensures
        r == pat@.is_prefix_of(s@.subrange(lo as int, hi as int)),
{
    let m: usize = pat.len();
    if m > hi - lo {
        return false;
    }
    let mut k: usize = 0;
    while k < m
        invariant
            lo <= hi <= s.len(),
            m == pat.len(),
            m <= hi - lo,
            k <= m,
            forall|j: int| 0 <= j < k ==> pat@[j] == s@[lo + j],
        decreases m - k,
    {
        if pat[k] != s[lo + k] {
            proof {
                let window = s@.subrange(lo as int, hi as int).subrange(0, m as int);
                assert(window[k as int] == s@[lo + k]);
            }
            return false;
        }
        k += 1;
    }
    proof {
        assert(pat@ =~= s@.subrange(lo as int, hi as int).subrange(0, m as int));
    }
    true
}

/// Whether `pat` occurs in `s`.
pub fn contains_chars(s: &Vec<char>, pat: &Vec<char>) -> (r: bool)
    ensures
        r == contains_text(s@, pat@),
{
    let n: usize = s.len();
    let m: usize = pat.len();
    if m > n {
        return false;
    }
    let last: usize = n - m;
    let mut i: usize = 0;
    while i <= last
        invariant
            n == s.len(),
            m == pat.len(),
            m <= n,
            last == n - m,
            i <= last + 1,
            forall|j: int| 0 <= j < i ==> !occurs_at(s@, pat@, j),
        decreases last + 1 - i,
    {
        let hit = starts_with_at(s, i, n, pat);
        proof {
            assert(s@.subrange(i as int, n as int).subrange(0, m as int) =~= s@.subrange(
                i as int,
                i + m,
            ));
        }
        if hit {
            assert(occurs_at(s@, pat@, i as int));
            return true;
        }
        i += 1;
    }
    false
}

/// Whether `pat` occurs in `s`.
pub fn contains(s: &str, pat: &str) -> (r: bool)
    ensures
        r == contains_text(s@, pat@),
{
    let hay = chars_of(s);
    let needle = chars_of(pat);
    contains_chars(&hay, &needle)
}

/// The strings of `parts` in one, each two neighbours separated by `sep`.
pub fn join_strings(parts: &Vec<String>, sep: &str) -> (r: String)
    ensures
        r@ == join(views(parts@), sep@),
{
    let mut out = String::new();
    let mut i: usize = 0;
    while i < parts.len()
        invariant
            i <= parts.len(),
            out@ == join(views(parts@).take(i as int), sep@),
        decreases parts.len() - i,
    {
        proof {
            let next = views(parts@).take(i as int + 1);
            assert(next.drop_last() =~= views(parts@).take(i as int));
            assert(next.last() == parts@[i as int]@);
            if i == 0 {
                assert(views(parts@).take(0).len() == 0);
            }
        }
        if i > 0 {
            out.append(sep);
        }
        out.append(parts[i].as_str());
        i += 1;
    }
    proof {
        assert(views(parts@).take(parts.len() as int) =~= views(parts@));
    }
    out
}

} // verus!
