//! Character-level text helpers: Unicode white space, trimming, equality,
//! the segment before a separator and character prefixes.

use vstd::prelude::*;

verus! {

/// The Unicode `White_Space` property, the set of characters that Rust's
/// `char::is_whitespace` and `str::trim` treat as white space.
pub open spec fn is_white_space(c: char) -> bool {
    let v = c as u32;
    ||| 9 <= v <= 13
    ||| v == 32
    ||| v == 0x85
    ||| v == 0xa0
    ||| v == 0x1680
    ||| 0x2000 <= v <= 0x200a
    ||| v == 0x2028
    ||| v == 0x2029
    ||| v == 0x202f
    ||| v == 0x205f
    ||| v == 0x3000
}

/// `s` without its leading white space.
pub open spec fn trim_start_seq(s: Seq<char>) -> Seq<char>
    decreases s.len(),
{
    if s.len() > 0 && is_white_space(s[0]) {
        trim_start_seq(s.drop_first())
    } else {
        s
    }
}

/// `s` without its trailing white space.
pub open spec fn trim_end_seq(s: Seq<char>) -> Seq<char>
    decreases s.len(),
{
    if s.len() > 0 && is_white_space(s.last()) {
        trim_end_seq(s.drop_last())
    } else {
        s
    }
}

/// `s` without its leading and trailing white space.
pub open spec fn trim_seq(s: Seq<char>) -> Seq<char> {
    trim_end_seq(trim_start_seq(s))
}

/// Whether `c` is white space.
pub fn is_white_space_char(c: char) -> (r: bool)
    ensures
        r == is_white_space(c),
{
    let v = c as u32;
    (9 <= v && v <= 13) || v == 32 || v == 0x85 || v == 0xa0 || v == 0x1680 || (0x2000 <= v
        && v <= 0x200a) || v == 0x2028 || v == 0x2029 || v == 0x202f || v == 0x205f || v
        == 0x3000
}

proof fn lemma_trim_start_skip(s: Seq<char>, i: int)
    requires
        0 <= i < s.len(),
        is_white_space(s[i]),
    ensures
        trim_start_seq(s.subrange(i, s.len() as int)) == trim_start_seq(
            s.subrange(i + 1, s.len() as int),
        ),
{
    assert(s.subrange(i, s.len() as int).drop_first() =~= s.subrange(i + 1, s.len() as int));
}

proof fn lemma_trim_end_skip(s: Seq<char>, j: int)
    requires
        0 < j <= s.len(),
        is_white_space(s[j - 1]),
    ensures
        trim_end_seq(s.subrange(0, j)) == trim_end_seq(s.subrange(0, j - 1)),
{
    assert(s.subrange(0, j).drop_last() =~= s.subrange(0, j - 1));
}

/// The string slice `s` without its leading white space.
pub fn trim_start(s: &str) -> (r: &str)
    ensures
        r@ == trim_start_seq(s@),
{
    let n = s.unicode_len();
    let mut i: usize = 0;
    assert(s@.subrange(0, n as int) =~= s@);
    loop
        invariant
            0 <= i <= n,
            n == s@.len(),
            trim_start_seq(s@) == trim_start_seq(s@.subrange(i as int, n as int)),
        ensures
            0 <= i <= n,
            trim_start_seq(s@) == trim_start_seq(s@.subrange(i as int, n as int)),
            i == n || !is_white_space(s@[i as int]),
        decreases n - i,
    {
        if i == n {
            break;
        }
        let c = s.get_char(i);
        if !is_white_space_char(c) {
            break;
        }
        proof {
            lemma_trim_start_skip(s@, i as int);
        }
        i = i + 1;
    }
    let r = s.substring_char(i, n);
    assert(i < n ==> r@[0] == s@[i as int]);
    r
}

/// The string slice `s` without its leading and trailing white space.
pub fn trim(s: &str) -> (r: &str)
    ensures
        r@ == trim_seq(s@),
{
    let t = trim_start(s);
    let n = t.unicode_len();
    let mut j: usize = n;
    assert(t@.subrange(0, n as int) =~= t@);
    loop
        invariant
            0 <= j <= n,
            n == t@.len(),
            trim_end_seq(t@) == trim_end_seq(t@.subrange(0, j as int)),
        ensures
            0 <= j <= n,
            trim_end_seq(t@) == trim_end_seq(t@.subrange(0, j as int)),
            j == 0 || !is_white_space(t@[j - 1]),
        decreases j,
    {
        if j == 0 {
            break;
        }
        let c = t.get_char(j - 1);
        if !is_white_space_char(c) {
            break;
        }
        proof {
            lemma_trim_end_skip(t@, j as int);
        }
        j = j - 1;
    }
    let r = t.substring_char(0, j);
    assert(j > 0 ==> r@.last() == t@[j - 1]);
    r
}

proof fn lemma_trim_end_prefix(s: Seq<char>)
    ensures
        trim_end_seq(s).len() <= s.len(),
        forall|i: int| 0 <= i < trim_end_seq(s).len() ==> trim_end_seq(s)[i] == s[i],
        trim_end_seq(s).len() > 0 ==> !is_white_space(trim_end_seq(s).last()),
    decreases s.len(),
{
    if s.len() > 0 && is_white_space(s.last()) {
        lemma_trim_end_prefix(s.drop_last());
        assert forall|i: int| 0 <= i < trim_end_seq(s).len() implies trim_end_seq(s)[i] == s[i] by {
            assert(s.drop_last()[i] == s[i]);
        }
    }
}

proof fn lemma_trim_start_edge(s: Seq<char>)
    ensures
        trim_start_seq(s).len() <= s.len(),
        trim_start_seq(s).len() > 0 ==> !is_white_space(trim_start_seq(s)[0]),
    decreases s.len(),
{
    if s.len() > 0 && is_white_space(s[0]) {
        lemma_trim_start_edge(s.drop_first());
    }
}

/// Trimmed text neither starts nor ends with white space, and is no longer
/// than the text it comes from.
pub proof fn lemma_trim_edges(s: Seq<char>)
    ensures
        trim_seq(s).len() <= s.len(),
        trim_seq(s).len() > 0 ==> !is_white_space(trim_seq(s)[0]) && !is_white_space(
            trim_seq(s).last(),
        ),
{
    lemma_trim_start_edge(s);
    lemma_trim_end_prefix(trim_start_seq(s));
}

/// Trimming twice is trimming once.
pub proof fn lemma_trim_idempotent(s: Seq<char>)
    ensures
        trim_seq(trim_seq(s)) == trim_seq(s),
{
    lemma_trim_edges(s);
    let t = trim_seq(s);
    assert(trim_start_seq(t) == t);
    assert(trim_end_seq(t) == t);
}

/// `c` is `m` with some white space taken off its two ends and nothing else
/// changed: a contiguous part of `m` outside which there is only white space,
/// and which, when non-empty, neither starts nor ends with white space.
pub open spec fn strips_outer_space(m: Seq<char>, c: Seq<char>) -> bool {
    exists|a: int, b: int|
        #![trigger m.subrange(a, b)]
        {
            &&& 0 <= a <= b <= m.len()
            &&& c == m.subrange(a, b)
            &&& forall|k: int| 0 <= k < a ==> is_white_space(#[trigger] m[k])
            &&& forall|k: int| b <= k < m.len() ==> is_white_space(#[trigger] m[k])
            &&& a < b ==> !is_white_space(m[a]) && !is_white_space(m[b - 1])
        }
}

/// Leading white space is all that trimming the start removes.
pub proof fn lemma_trim_start_bounds(s: Seq<char>) -> (i: int)
    ensures
        0 <= i <= s.len(),
        trim_start_seq(s) == s.subrange(i, s.len() as int),
        forall|k: int| 0 <= k < i ==> is_white_space(#[trigger] s[k]),
        i < s.len() ==> !is_white_space(s[i]),
    decreases s.len(),
{
    if s.len() > 0 && is_white_space(s[0]) {
        let t = s.drop_first();
        let i0 = lemma_trim_start_bounds(t);
        if i0 < t.len() {
            assert(s[i0 + 1] == t[i0]);
        }
        assert(t.subrange(i0, t.len() as int) =~= s.subrange(i0 + 1, s.len() as int));
        assert forall|k: int| 0 <= k < i0 + 1 implies is_white_space(#[trigger] s[k]) by {
            if k > 0 {
                assert(s[k] == t[k - 1]);
            }
        }
        i0 + 1
    } else {
        assert(s.subrange(0, s.len() as int) =~= s);
        0
    }
}

proof fn lemma_trim_end_bounds(s: Seq<char>) -> (j: int)
    ensures
        0 <= j <= s.len(),
        trim_end_seq(s) == s.subrange(0, j),
        forall|k: int| j <= k < s.len() ==> is_white_space(#[trigger] s[k]),
    decreases s.len(),
{
    if s.len() > 0 && is_white_space(s.last()) {
        let t = s.drop_last();
        let j0 = lemma_trim_end_bounds(t);
        assert(t.subrange(0, j0) =~= s.subrange(0, j0));
        assert forall|k: int| j0 <= k < s.len() implies is_white_space(#[trigger] s[k]) by {
            if k < s.len() - 1 {
                assert(s[k] == t[k]);
            }
        }
        j0
    } else {
        assert(s.subrange(0, s.len() as int) =~= s);
        s.len() as int
    }
}

/// Trimming removes white space at the two ends and nothing else: the
/// result is a contiguous part of the text, only white space lies outside
/// it, and it neither starts nor ends with white space. Every character
/// inside, line breaks included, is kept.
pub proof fn lemma_trim_strips_only_outer_space(s: Seq<char>)
    ensures
        strips_outer_space(s, trim_seq(s)),
{
    let i = lemma_trim_start_bounds(s);
    let u = trim_start_seq(s);
    let j0 = lemma_trim_end_bounds(u);
    let a = i;
    let b = i + j0;
    assert(u.subrange(0, j0) =~= s.subrange(a, b));
    assert forall|k: int| b <= k < s.len() implies is_white_space(#[trigger] s[k]) by {
        assert(s[k] == u[k - i]);
    }
    lemma_trim_edges(s);
    if a < b {
        assert(trim_seq(s)[0] == s[a]);
        assert(trim_seq(s).last() == s[b - 1]);
    }
    assert(s.subrange(a, b) == trim_seq(s));
}

/// Whether two string slices hold the same characters.
pub fn str_eq(a: &str, b: &str) -> (r: bool)
    ensures
        r == (a@ == b@),
{
    let x = String::from_str(a);
    let y = String::from_str(b);
    x == y
}

/// The number of characters of `s` before the first `sep`, or the length of
/// `s` where `sep` does not occur.
pub open spec fn segment_len(s: Seq<char>, sep: char) -> nat
    decreases s.len(),
{
    if s.len() == 0 || s[0] == sep {
        0
    } else {
        1 + segment_len(s.drop_first(), sep)
    }
}

/// The part of `s` before the first `sep`: the first item of `s.split(sep)`.
pub open spec fn first_segment(s: Seq<char>, sep: char) -> Seq<char> {
    s.take(segment_len(s, sep) as int)
}

/// The part before the first separator is a prefix of `s` that holds no
/// separator and is all of `s` or followed by a separator.
pub proof fn lemma_first_segment(s: Seq<char>, sep: char)
    ensures
        segment_len(s, sep) <= s.len(),
        first_segment(s, sep) == s.take(segment_len(s, sep) as int),
        !first_segment(s, sep).contains(sep),
        segment_len(s, sep) == s.len() || s[segment_len(s, sep) as int] == sep,
    decreases s.len(),
{
    if s.len() > 0 && s[0] != sep {
        let t = s.drop_first();
        lemma_first_segment(t, sep);
        let k = segment_len(s, sep) as int;
        assert(k == 1 + segment_len(t, sep));
        assert forall|i: int| 0 <= i < k implies s.take(k)[i] != sep by {
            if i > 0 {
                assert(s.take(k)[i] == t.take(k - 1)[i - 1]);
            }
        }
        if k < s.len() {
            assert(s[k] == t[k - 1]);
        }
    }
}

/// The first item that `s.split(sep)` yields, which always exists.
pub fn first_segment_of(s: &str, sep: char) -> (r: &str)
    ensures
        r@ == first_segment(s@, sep),
{
    let n = s.unicode_len();
    let mut i: usize = 0;
    assert(s@.subrange(0, n as int) =~= s@);
    loop
        invariant
            0 <= i <= n,
            n == s@.len(),
            segment_len(s@, sep) == i + segment_len(s@.subrange(i as int, n as int), sep),
        ensures
            0 <= i <= n,
            segment_len(s@, sep) == i + segment_len(s@.subrange(i as int, n as int), sep),
            i == n || s@[i as int] == sep,
        decreases n - i,
    {
        if i == n {
            break;
        }
        let c = s.get_char(i);
        if c == sep {
            break;
        }
        assert(s@.subrange(i as int, n as int).drop_first() =~= s@.subrange(i + 1, n as int));
        i = i + 1;
    }
    assert(i < n ==> s@.subrange(i as int, n as int)[0] == sep);
    s.substring_char(0, i)
}

/// The smaller of two naturals.
pub open spec fn min_nat(a: nat, b: nat) -> nat {
    if a <= b {
        a
    } else {
        b
    }
}

/// The first `max_chars` characters of `s` (all of `s` where it is shorter).
pub open spec fn char_prefix(s: Seq<char>, max_chars: nat) -> Seq<char> {
    s.take(min_nat(max_chars, s.len()) as int)
}

/// The first `max_chars` characters of `value`, cut at a character boundary.
pub fn safe_prefix(value: &str, max_chars: usize) -> (r: String)
    ensures
        r@ == char_prefix(value@, max_chars as nat),
{
    let n = value.unicode_len();
    let m = if max_chars <= n {
        max_chars
    } else {
        n
    };
    String::from_str(value.substring_char(0, m))
}

} // verus!
