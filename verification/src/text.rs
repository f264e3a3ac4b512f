//! Character-level text handling: the views of `str` and `String` are
//! sequences of `char`, and everything here is stated over those sequences.
use vstd::prelude::*;

verus! {

// ---------------------------------------------------------------------------
// Conversions between `str`, `String` and `Vec<char>`
// ---------------------------------------------------------------------------

/// The characters of `s`, in order.
pub fn to_chars(s: &str) -> (v: Vec<char>)
    ensures
        v@ == s@,
{
    let mut v: Vec<char> = Vec::new();
    for c in it: s.chars()
        invariant
            v@ == it.seq().take(it.index() as int),
    {
        v.push(c);
    }
    v
}

/// Appends one character to a `String` (std's `String::push`): the new
/// contents are the old ones followed by `c`.
#[verifier::external_body]
pub(crate) fn push_char(s: &mut String, c: char)
    ensures
        final(s)@ == old(s)@.push(c),
{
    s.push(c);
}

/// The string made of the characters `v[lo..hi]`.
pub fn from_chars(v: &Vec<char>, lo: usize, hi: usize) -> (s: String)
    requires
        lo <= hi <= v.len(),
    ensures
        s@ == v@.subrange(lo as int, hi as int),
{
    let mut s = String::new();
    let mut i = lo;
    while i < hi
        invariant
            lo <= i <= hi <= v.len(),
            s@ == v@.subrange(lo as int, i as int),
        decreases hi - i,
    {
        push_char(&mut s, v[i]);
        i += 1;
        assert(s@ =~= v@.subrange(lo as int, i as int));
    }
    s
}

/// Appends the characters `v[lo..hi]` to `s`.
pub fn append_chars(s: &mut String, v: &Vec<char>, lo: usize, hi: usize)
    requires
        lo <= hi <= v.len(),
    ensures
        final(s)@ == old(s)@ + v@.subrange(lo as int, hi as int),
{
    let mut i = lo;
    while i < hi
        invariant
            lo <= i <= hi <= v.len(),
            s@ == old(s)@ + v@.subrange(lo as int, i as int),
        decreases hi - i,
    {
        push_char(s, v[i]);
        i += 1;
        assert(s@ =~= old(s)@ + v@.subrange(lo as int, i as int));
    }
}

/// A copy of `s`.
pub fn copy_string(s: &String) -> (r: String)
    ensures
        r@ == s@,
{
    s.clone()
}

/// The views of a sequence of strings.
pub open spec fn views(v: Seq<String>) -> Seq<Seq<char>> {
    v.map_values(|s: String| s@)
}

/// The views of an optional string.
pub open spec fn opt_view(o: Option<String>) -> Option<Seq<char>> {
    match o {
        Some(s) => Some(s@),
        None => None,
    }
}

// ---------------------------------------------------------------------------
// Whitespace and trimming
// ---------------------------------------------------------------------------

/// Unicode `White_Space`, the property that `char::is_whitespace` tests.
pub open spec fn is_whitespace(c: char) -> bool {
    ||| '\u{9}' <= c <= '\u{d}'
    ||| c == ' '
    ||| c == '\u{85}'
    ||| c == '\u{a0}'
    ||| c == '\u{1680}'
    ||| '\u{2000}' <= c <= '\u{200a}'
    ||| c == '\u{2028}'
    ||| c == '\u{2029}'
    ||| c == '\u{202f}'
    ||| c == '\u{205f}'
    ||| c == '\u{3000}'
}

pub fn char_is_whitespace(c: char) -> (r: bool)
    ensures
        r == is_whitespace(c),
{
    ('\u{9}' <= c && c <= '\u{d}') || c == ' ' || c == '\u{85}' || c == '\u{a0}' || c == '\u{1680}'
        || ('\u{2000}' <= c && c <= '\u{200a}') || c == '\u{2028}' || c == '\u{2029}' || c
        == '\u{202f}' || c == '\u{205f}' || c == '\u{3000}'
}

/// `s` without its leading whitespace.
pub open spec fn trim_start(s: Seq<char>) -> Seq<char>
    decreases s.len(),
{
    if s.len() > 0 && is_whitespace(s[0]) {
        trim_start(s.drop_first())
    } else {
        s
    }
}

/// `s` without its trailing whitespace.
pub open spec fn trim_end(s: Seq<char>) -> Seq<char>
    decreases s.len(),
{
    if s.len() > 0 && is_whitespace(s.last()) {
        trim_end(s.drop_last())
    } else {
        s
    }
}

/// `s` without leading and trailing whitespace (`str::trim`).
pub open spec fn trim(s: Seq<char>) -> Seq<char> {
    trim_end(trim_start(s))
}

proof fn lemma_trim_start_at(s: Seq<char>, lo: int)
    requires
        0 <= lo <= s.len(),
        forall|j: int| 0 <= j < lo ==> is_whitespace(#[trigger] s[j]),
        lo < s.len() ==> !is_whitespace(s[lo]),
    ensures
        trim_start(s) == s.skip(lo),
    decreases lo,
{
    if lo == 0 {
        assert(s.skip(0) =~= s);
    } else {
        let t = s.drop_first();
        assert forall|j: int| 0 <= j < lo - 1 implies is_whitespace(#[trigger] t[j]) by {
            assert(t[j] == s[j + 1]);
        }
        lemma_trim_start_at(t, lo - 1);
        assert(t.skip(lo - 1) =~= s.skip(lo));
    }
}

proof fn lemma_trim_end_at(s: Seq<char>, hi: int)
    requires
        0 <= hi <= s.len(),
        forall|j: int| hi <= j < s.len() ==> is_whitespace(#[trigger] s[j]),
        hi > 0 ==> !is_whitespace(s[hi - 1]),
    ensures
        trim_end(s) == s.take(hi),
    decreases s.len() - hi,
{
    if hi == s.len() {
        assert(s.take(hi) =~= s);
    } else {
        let t = s.drop_last();
        assert forall|j: int| hi <= j < t.len() implies is_whitespace(#[trigger] t[j]) by {
            assert(t[j] == s[j]);
        }
        lemma_trim_end_at(t, hi);
        assert(t.take(hi) =~= s.take(hi));
    }
}

/// Bounds `[lo, hi)` of `trim(v[from..to])` inside `v`.
pub fn trim_bounds(v: &Vec<char>, from: usize, to: usize) -> (r: (usize, usize))
    requires
        from <= to <= v.len(),
    ensures
        from <= r.0 <= r.1 <= to,
        v@.subrange(r.0 as int, r.1 as int) == trim(v@.subrange(from as int, to as int)),
{
    let ghost s = v@.subrange(from as int, to as int);
    let mut lo = from;
    while lo < to && char_is_whitespace(v[lo])
        invariant
            from <= lo <= to <= v.len(),
            s == v@.subrange(from as int, to as int),
            forall|j: int| from <= j < lo ==> is_whitespace(#[trigger] v@[j]),
        decreases to - lo,
    {
        lo += 1;
    }
    proof {
        assert forall|j: int| 0 <= j < lo - from implies is_whitespace(#[trigger] s[j]) by {
            assert(s[j] == v@[from + j]);
        }
        lemma_trim_start_at(s, lo - from);
    }
    let ghost t = s.skip(lo - from);
    assert(t =~= v@.subrange(lo as int, to as int));
    let mut hi = to;
    while hi > lo && char_is_whitespace(v[hi - 1])
        invariant
            from <= lo <= hi <= to <= v.len(),
            forall|j: int| hi <= j < to ==> is_whitespace(#[trigger] v@[j]),
        decreases hi - lo,
    {
        hi -= 1;
    }
    proof {
        assert forall|j: int| hi - lo <= j < t.len() implies is_whitespace(#[trigger] t[j]) by {
            assert(t[j] == v@[lo + j]);
        }
        lemma_trim_end_at(t, hi - lo);
        assert(t.take(hi - lo) =~= v@.subrange(lo as int, hi as int));
    }
    (lo, hi)
}

/// `str::trim`, as an owned string.
pub fn trim_string(s: &str) -> (r: String)
    ensures
        r@ == trim(s@),
{
    let v = to_chars(s);
    let (lo, hi) = trim_bounds(&v, 0, v.len());
    assert(v@.subrange(0, v@.len() as int) =~= v@);
    from_chars(&v, lo, hi)
}

/// `str::trim_end`, as an owned string.
pub fn trim_end_string(s: &str) -> (r: String)
    ensures
        r@ == trim_end(s@),
{
    let v = to_chars(s);
    let mut hi = v.len();
    while hi > 0 && char_is_whitespace(v[hi - 1])
        invariant
            hi <= v.len(),
            forall|j: int| hi <= j < v.len() ==> is_whitespace(#[trigger] v@[j]),
        decreases hi,
    {
        hi -= 1;
    }
    proof {
        lemma_trim_end_at(v@, hi as int);
    }
    from_chars(&v, 0, hi)
}


// ---------------------------------------------------------------------------
// Searching
// ---------------------------------------------------------------------------

/// Index of the first element of `s` that satisfies `p`, or -1.
pub open spec fn first_match<T>(s: Seq<T>, p: spec_fn(T) -> bool) -> int
    decreases s.len(),
{
    if s.len() == 0 {
        -1
    } else if p(s[0]) {
        0
    } else {
        let r = first_match(s.drop_first(), p);
        if r < 0 {
            -1
        } else {
            r + 1
        }
    }
}

pub proof fn lemma_first_match_range<T>(s: Seq<T>, p: spec_fn(T) -> bool)
    ensures
        -1 <= first_match(s, p) < s.len(),
        first_match(s, p) >= 0 ==> p(s[first_match(s, p)]),
        first_match(s, p) < 0 ==> forall|j: int| 0 <= j < s.len() ==> !p(#[trigger] s[j]),
        forall|j: int| 0 <= j < first_match(s, p) ==> !p(#[trigger] s[j]),
    decreases s.len(),
{
    if s.len() > 0 && !p(s[0]) {
        let t = s.drop_first();
        lemma_first_match_range(t, p);
        assert forall|j: int| 1 <= j < s.len() && first_match(t, p) < 0 implies !p(#[trigger] s[j]) by {
            assert(s[j] == t[j - 1]);
        }
        assert forall|j: int| 1 <= j < first_match(s, p) implies !p(#[trigger] s[j]) by {
            assert(s[j] == t[j - 1]);
        }
    }
}

pub proof fn lemma_first_match_at<T>(s: Seq<T>, p: spec_fn(T) -> bool, k: int)
    requires
        0 <= k <= s.len(),
        forall|j: int| 0 <= j < k ==> !p(#[trigger] s[j]),
        k < s.len() ==> p(s[k]),
    ensures
        first_match(s, p) == if k < s.len() {
            k
        } else {
            -1
        },
    decreases k,
{
    if k > 0 {
        let t = s.drop_first();
        assert forall|j: int| 0 <= j < k - 1 implies !p(#[trigger] t[j]) by {
            assert(t[j] == s[j + 1]);
        }
        assert(!p(s[0]));
        lemma_first_match_at(t, p, k - 1);
    }
}

/// The predicate "is the character `c`".
pub open spec fn char_is(c: char) -> spec_fn(char) -> bool {
    |x: char| x == c
}

/// Index of the first occurrence of `c` in `s`, or -1.
pub open spec fn index_of_char(s: Seq<char>, c: char) -> int {
    first_match(s, char_is(c))
}

/// Index of the first occurrence of `c` in `v[from..]`, relative to `from`.
pub fn find_char_from(v: &Vec<char>, from: usize, c: char) -> (r: Option<usize>)
    requires
        from <= v.len(),
    ensures
        match r {
            Some(k) => from <= k < v.len() && index_of_char(v@.skip(from as int), c) == k - from,
            None => index_of_char(v@.skip(from as int), c) == -1,
        },
{
    let ghost s = v@.skip(from as int);
    let mut i = from;
    while i < v.len()
        invariant
            from <= i <= v.len(),
            s == v@.skip(from as int),
            forall|j: int| from <= j < i ==> v@[j] != c,
        decreases v.len() - i,
    {
        if v[i] == c {
            proof {
                assert forall|j: int| 0 <= j < i - from implies !(char_is(c)(#[trigger] s[j])) by {
                    assert(s[j] == v@[from + j]);
                }
                lemma_first_match_at(s, char_is(c), i - from);
            }
            return Some(i);
        }
        i += 1;
    }
    proof {
        assert forall|j: int| 0 <= j < s.len() implies !(char_is(c)(#[trigger] s[j])) by {
            assert(s[j] == v@[from + j]);
        }
        lemma_first_match_at(s, char_is(c), s.len() as int);
    }
    None
}

/// Whether `pat` occurs in `s` starting at index `i`.
pub open spec fn matches_at(s: Seq<char>, pat: Seq<char>, i: int) -> bool {
    0 <= i && i + pat.len() <= s.len() && s.subrange(i, i + pat.len()) == pat
}

/// Index of the first occurrence of `pat` in `s` (`str::find`, counted in
/// characters), or -1.
pub open spec fn find(s: Seq<char>, pat: Seq<char>) -> int
    decreases s.len(),
{
    if s.len() < pat.len() {
        -1
    } else if s.take(pat.len() as int) == pat {
        0
    } else if s.len() == 0 {
        -1
    } else {
        let r = find(s.drop_first(), pat);
        if r < 0 {
            -1
        } else {
            r + 1
        }
    }
}

/// Whether `pat` occurs in `s` (`str::contains`).
pub open spec fn contains(s: Seq<char>, pat: Seq<char>) -> bool {
    find(s, pat) >= 0
}

/// Whether `s` begins with `p`.
pub open spec fn starts_with(s: Seq<char>, p: Seq<char>) -> bool {
    p.len() <= s.len() && s.take(p.len() as int) == p
}

/// Whether `s` ends with `p`.
pub open spec fn ends_with(s: Seq<char>, p: Seq<char>) -> bool {
    p.len() <= s.len() && s.skip(s.len() - p.len()) == p
}

proof fn lemma_matches_shift(s: Seq<char>, pat: Seq<char>, i: int)
    requires
        s.len() > 0,
        0 <= i,
    ensures
        matches_at(s.drop_first(), pat, i) == matches_at(s, pat, i + 1),
{
    if i + pat.len() <= s.len() - 1 {
        assert(s.drop_first().subrange(i, i + pat.len()) =~= s.subrange(i + 1, i + 1 + pat.len()));
    }
}

pub proof fn lemma_find_at(s: Seq<char>, pat: Seq<char>, k: int)
    requires
        k == -1 || matches_at(s, pat, k),
        forall|j: int| 0 <= j && (k == -1 || j < k) ==> !#[trigger] matches_at(s, pat, j),
    ensures
        find(s, pat) == k,
    decreases s.len(),
{
    if s.len() < pat.len() {
    } else if s.take(pat.len() as int) == pat {
        assert(s.subrange(0, pat.len() as int) == s.take(pat.len() as int));
        assert(matches_at(s, pat, 0));
    } else if s.len() == 0 {
        assert(s.take(pat.len() as int) =~= pat);
    } else {
        assert(!matches_at(s, pat, 0)) by {
            assert(s.subrange(0, pat.len() as int) == s.take(pat.len() as int));
        }
        let t = s.drop_first();
        let k2 = if k == -1 {
            -1
        } else {
            k - 1
        };
        if k != -1 {
            assert(k != 0);
            lemma_matches_shift(s, pat, k - 1);
        }
        assert forall|j: int| 0 <= j && (k2 == -1 || j < k2) implies !#[trigger] matches_at(t, pat, j) by {
            lemma_matches_shift(s, pat, j);
        }
        lemma_find_at(t, pat, k2);
    }
}

pub proof fn lemma_find_range(s: Seq<char>, pat: Seq<char>)
    ensures
        find(s, pat) == -1 || matches_at(s, pat, find(s, pat)),
        forall|j: int| 0 <= j && (find(s, pat) == -1 || j < find(s, pat)) ==> !#[trigger] matches_at(s, pat, j),
    decreases s.len(),
{
    if s.len() < pat.len() {
    } else if s.take(pat.len() as int) == pat {
        assert(s.subrange(0, pat.len() as int) == s.take(pat.len() as int));
    } else if s.len() == 0 {
        assert(s.take(pat.len() as int) =~= pat);
    } else {
        let t = s.drop_first();
        lemma_find_range(t, pat);
        assert(!matches_at(s, pat, 0)) by {
            assert(s.subrange(0, pat.len() as int) == s.take(pat.len() as int));
        }
        if find(t, pat) >= 0 {
            lemma_matches_shift(s, pat, find(t, pat));
        }
        assert forall|j: int| 0 <= j && (find(s, pat) == -1 || j < find(s, pat)) implies !#[trigger] matches_at(s, pat, j) by {
            if j > 0 {
                lemma_matches_shift(s, pat, j - 1);
            }
        }
    }
}

fn matches_at_exec(v: &Vec<char>, pat: &Vec<char>, i: usize) -> (r: bool)
    requires
        i + pat.len() <= v.len(),
    ensures
        r == matches_at(v@, pat@, i as int),
{
    let mut j: usize = 0;
    while j < pat.len()
        invariant
            i + pat.len() <= v.len(),
            j <= pat.len(),
            forall|k: int| 0 <= k < j ==> v@[i + k] == pat@[k],
        decreases pat.len() - j,
    {
        if v[i + j] != pat[j] {
            assert(v@.subrange(i as int, i + pat.len())[j as int] != pat@[j as int]);
            return false;
        }
        j += 1;
    }
    assert(v@.subrange(i as int, i + pat.len()) =~= pat@);
    true
}

/// `str::find` on character vectors.
pub fn find_exec(v: &Vec<char>, pat: &Vec<char>) -> (r: Option<usize>)
    ensures
        match r {
            Some(k) => find(v@, pat@) == k,
            None => find(v@, pat@) == -1,
        },
{
    if pat.len() > v.len() {
        proof {
            lemma_find_at(v@, pat@, -1);
        }
        return None;
    }
    if pat.len() == 0 {
        proof {
            assert(v@.subrange(0, 0) =~= pat@);
            lemma_find_at(v@, pat@, 0);
        }
        return Some(0);
    }
    let mut i: usize = 0;
    let last = v.len() - pat.len();
    while i <= last
        invariant
            0 < pat.len() <= v.len(),
            last == v.len() - pat.len(),
            i <= last + 1,
            forall|j: int| 0 <= j < i ==> !#[trigger] matches_at(v@, pat@, j),
        decreases last + 1 - i,
    {
        if matches_at_exec(v, pat, i) {
            proof {
                lemma_find_at(v@, pat@, i as int);
            }
            return Some(i);
        }
        i += 1;
    }
    proof {
        assert forall|j: int| 0 <= j implies !#[trigger] matches_at(v@, pat@, j) by {
            if j >= i {
                assert(j + pat@.len() > v@.len());
            }
        }
        lemma_find_at(v@, pat@, -1);
    }
    None
}

/// `str::contains` on strings.
pub fn str_contains(s: &str, pat: &str) -> (r: bool)
    ensures
        r == contains(s@, pat@),
{
    let v = to_chars(s);
    let p = to_chars(pat);
    find_exec(&v, &p).is_some()
}

/// `str::starts_with` on character vectors.
pub fn starts_with_exec(v: &Vec<char>, p: &Vec<char>) -> (r: bool)
    ensures
        r == starts_with(v@, p@),
{
    if p.len() > v.len() {
        return false;
    }
    let r = matches_at_exec(v, p, 0);
    assert(v@.subrange(0, p@.len() as int) == v@.take(p@.len() as int));
    r
}

/// `str::ends_with` on character vectors.
pub fn ends_with_exec(v: &Vec<char>, p: &Vec<char>) -> (r: bool)
    ensures
        r == ends_with(v@, p@),
{
    if p.len() > v.len() {
        return false;
    }
    let r = matches_at_exec(v, p, v.len() - p.len());
    assert(v@.subrange(v@.len() - p@.len(), v@.len() as int) == v@.skip(v@.len() - p@.len()));
    r
}

// ---------------------------------------------------------------------------
// Lines
// ---------------------------------------------------------------------------

/// A line without the carriage return of a `\r\n` line ending.
pub open spec fn strip_cr(l: Seq<char>) -> Seq<char> {
    if l.len() > 0 && l.last() == '\r' {
        l.drop_last()
    } else {
        l
    }
}

/// The lines of `s`, as `str::lines` yields them: split after each `\n`,
/// the `\n` and a `\r` just before it removed, and no empty last line.
pub open spec fn lines(s: Seq<char>) -> Seq<Seq<char>>
    decreases s.len(),
{
    if s.len() == 0 {
        seq![]
    } else {
        let k = index_of_char(s, '\n');
        if k < 0 {
            seq![s]
        } else {
            proof {
                lemma_first_match_range(s, char_is('\n'));
            }
            seq![strip_cr(s.take(k))] + lines(s.skip(k + 1))
        }
    }
}

/// `str::lines`, each line owned.
pub fn lines_of(v: &Vec<char>) -> (r: Vec<String>)
    ensures
        views(r@) == lines(v@),
{
    let mut out: Vec<String> = Vec::new();
    let mut start: usize = 0;
    assert(v@.skip(0) =~= v@);
    while start < v.len()
        invariant
            start <= v.len(),
            views(out@) + lines(v@.skip(start as int)) == lines(v@),
        decreases v.len() - start,
    {
        let ghost s = v@.skip(start as int);
        match find_char_from(v, start, '\n') {
            Some(k) => {
                let end = if k > start && v[k - 1] == '\r' {
                    k - 1
                } else {
                    k
                };
                let line = from_chars(v, start, end);
                assert(line@ == strip_cr(s.take(k - start))) by {
                    assert(s.take(k - start) =~= v@.subrange(start as int, k as int));
                    if k > start && v@[k - 1] == '\r' {
                        assert(s.take(k - start).drop_last() =~= v@.subrange(start as int, k - 1));
                    }
                }
                assert(s.skip(k - start + 1) =~= v@.skip(k + 1));
                let ghost old_out = out@;
                out.push(line);
                assert(views(out@) =~= views(old_out).push(line@));
                assert(views(out@) + lines(v@.skip(k + 1)) =~= views(old_out) + lines(s));
                start = k + 1;
            },
            None => {
                let line = from_chars(v, start, v.len());
                assert(s =~= v@.subrange(start as int, v.len() as int));
                let ghost old_out = out@;
                out.push(line);
                assert(views(out@) =~= views(old_out).push(line@));
                assert(v@.skip(v.len() as int) =~= Seq::<char>::empty());
                assert(views(out@) + lines(v@.skip(v.len() as int)) =~= views(old_out) + lines(s));
                start = v.len();
            },
        }
    }
    assert(v@.skip(start as int) =~= Seq::<char>::empty());
    assert(views(out@) + lines(v@.skip(start as int)) =~= views(out@));
    out
}


// ---------------------------------------------------------------------------
// UTF-8 widths: `str::len` and byte slicing count bytes
// ---------------------------------------------------------------------------

/// Number of bytes of the UTF-8 encoding of `c`.
pub open spec fn utf8_width(c: char) -> nat {
    if (c as u32) < 0x80 {
        1
    } else if (c as u32) < 0x800 {
        2
    } else if (c as u32) < 0x10000 {
        3
    } else {
        4
    }
}

/// Number of bytes of the UTF-8 encoding of `s` (`str::len`).
pub open spec fn byte_len(s: Seq<char>) -> nat
    decreases s.len(),
{
    if s.len() == 0 {
        0
    } else {
        utf8_width(s[0]) + byte_len(s.drop_first())
    }
}

/// The number of characters whose encoding fills exactly the first `b` bytes
/// of `s`, or -1 when byte `b` does not start a character (slicing a `str`
/// at `b` would panic).
pub open spec fn char_offset(s: Seq<char>, b: int) -> int
    decreases s.len(),
{
    if b == 0 {
        0
    } else if b < 0 || s.len() == 0 {
        -1
    } else {
        let r = char_offset(s.drop_first(), b - utf8_width(s[0]));
        if r < 0 {
            -1
        } else {
            r + 1
        }
    }
}

pub fn char_utf8_width(c: char) -> (w: usize)
    ensures
        w == utf8_width(c),
{
    let u = c as u32;
    if u < 0x80 {
        1
    } else if u < 0x800 {
        2
    } else if u < 0x10000 {
        3
    } else {
        4
    }
}

pub proof fn lemma_byte_len_take(s: Seq<char>, k: int)
    requires
        0 <= k < s.len(),
    ensures
        byte_len(s.take(k + 1)) == byte_len(s.take(k)) + utf8_width(s[k]),
    decreases k,
{
    if k > 0 {
        let t = s.drop_first();
        lemma_byte_len_take(t, k - 1);
        assert(s.take(k + 1).drop_first() =~= t.take(k));
        assert(s.take(k).drop_first() =~= t.take(k - 1));
        assert(s.take(k + 1)[0] == s[0]);
        assert(s.take(k)[0] == s[0]);
        assert(t[k - 1] == s[k]);
    } else {
        assert(s.take(1).drop_first() =~= Seq::<char>::empty());
        assert(s.take(0) =~= Seq::<char>::empty());
        assert(s.take(1)[0] == s[0]);
    }
}

pub proof fn lemma_byte_len_prefix_le(s: Seq<char>, k: int)
    requires
        0 <= k <= s.len(),
    ensures
        byte_len(s.take(k)) <= byte_len(s),
    decreases s.len() - k,
{
    if k < s.len() {
        lemma_byte_len_take(s, k);
        lemma_byte_len_prefix_le(s, k + 1);
    } else {
        assert(s.take(k) =~= s);
    }
}

pub proof fn lemma_char_offset_take(s: Seq<char>, b: int, k: int)
    requires
        0 <= k <= s.len(),
        byte_len(s.take(k)) == b,
    ensures
        char_offset(s, b) == k,
    decreases k,
{
    if k > 0 {
        let t = s.drop_first();
        assert(s.take(k).drop_first() =~= t.take(k - 1));
        assert(s.take(k)[0] == s[0]);
        lemma_char_offset_take(t, b - utf8_width(s[0]), k - 1);
    } else {
        assert(s.take(0) =~= Seq::<char>::empty());
    }
}

pub proof fn lemma_char_offset_none(s: Seq<char>, b: int, k: int)
    requires
        0 <= k < s.len(),
        byte_len(s.take(k)) < b < byte_len(s.take(k + 1)),
    ensures
        char_offset(s, b) == -1,
    decreases k,
{
    let t = s.drop_first();
    lemma_byte_len_take(s, k);
    if k > 0 {
        assert(s.take(k).drop_first() =~= t.take(k - 1));
        assert(s.take(k + 1).drop_first() =~= t.take(k));
        assert(s.take(k)[0] == s[0]);
        assert(s.take(k + 1)[0] == s[0]);
        assert(byte_len(s.take(k)) == utf8_width(s[0]) + byte_len(t.take(k - 1)));
        assert(byte_len(s.take(k + 1)) == utf8_width(s[0]) + byte_len(t.take(k)));
        lemma_char_offset_none(t, b - utf8_width(s[0]), k - 1);
    } else {
        assert(s.take(0) =~= Seq::<char>::empty());
        assert(s.take(1).drop_first() =~= Seq::<char>::empty());
        assert(char_offset(t, b - utf8_width(s[0])) == -1);
    }
}

proof fn lemma_char_offset_beyond(s: Seq<char>, b: int)
    requires
        b > byte_len(s),
    ensures
        char_offset(s, b) == -1,
    decreases s.len(),
{
    if s.len() > 0 {
        lemma_char_offset_beyond(s.drop_first(), b - utf8_width(s[0]));
    }
}

pub proof fn lemma_byte_len_split(s: Seq<char>, n: int)
    requires
        0 <= n <= s.len(),
    ensures
        byte_len(s) == byte_len(s.take(n)) + byte_len(s.skip(n)),
    decreases n,
{
    if n == 0 {
        assert(s.skip(0) =~= s);
        assert(s.take(0) =~= Seq::<char>::empty());
    } else {
        let t = s.drop_first();
        lemma_byte_len_split(t, n - 1);
        assert(s.take(n).drop_first() =~= t.take(n - 1));
        assert(s.take(n)[0] == s[0]);
        assert(t.skip(n - 1) =~= s.skip(n));
    }
}

pub proof fn lemma_byte_len_ascii(s: Seq<char>)
    requires
        forall|i: int| 0 <= i < s.len() ==> (#[trigger] s[i] as u32) < 0x80,
    ensures
        byte_len(s) == s.len(),
    decreases s.len(),
{
    if s.len() > 0 {
        let t = s.drop_first();
        assert forall|i: int| 0 <= i < t.len() implies (#[trigger] t[i] as u32) < 0x80 by {
            assert(t[i] == s[i + 1]);
        }
        lemma_byte_len_ascii(t);
    }
}

/// The character index at which byte `b` of `v` starts, if it starts one.
pub fn char_offset_exec(v: &Vec<char>, b: usize) -> (r: Option<usize>)
    ensures
        match r {
            Some(k) => char_offset(v@, b as int) == k && k <= v.len(),
            None => char_offset(v@, b as int) == -1,
        },
{
    let mut k: usize = 0;
    let mut sum: usize = 0;
    assert(v@.take(0) =~= Seq::<char>::empty());
    while k < v.len() && sum < b
        invariant
            k <= v.len(),
            sum == byte_len(v@.take(k as int)),
            sum <= b,
        decreases v.len() - k,
    {
        let w = char_utf8_width(v[k]);
        proof {
            lemma_byte_len_take(v@, k as int);
        }
        if w > b - sum {
            proof {
                lemma_char_offset_none(v@, b as int, k as int);
            }
            return None;
        }
        sum = sum + w;
        k += 1;
    }
    if sum == b {
        proof {
            lemma_char_offset_take(v@, b as int, k as int);
        }
        Some(k)
    } else {
        proof {
            assert(v@.take(k as int) =~= v@);
            lemma_char_offset_beyond(v@, b as int);
        }
        None
    }
}

/// Whether `byte_len(v) < limit`.
pub fn byte_len_below(v: &Vec<char>, limit: usize) -> (r: bool)
    ensures
        r == (byte_len(v@) < limit),
{
    if limit == 0 {
        return false;
    }
    let mut k: usize = 0;
    let mut sum: usize = 0;
    assert(v@.take(0) =~= Seq::<char>::empty());
    while k < v.len()
        invariant
            k <= v.len(),
            sum == byte_len(v@.take(k as int)),
            sum < limit,
        decreases v.len() - k,
    {
        proof {
            lemma_byte_len_take(v@, k as int);
        }
        let w = char_utf8_width(v[k]);
        if w >= limit - sum {
            proof {
                lemma_byte_len_prefix_le(v@, k + 1);
            }
            return false;
        }
        sum = sum + w;
        k += 1;
    }
    assert(v@.take(k as int) =~= v@);
    true
}

// ---------------------------------------------------------------------------
// Decimal numbers
// ---------------------------------------------------------------------------

pub open spec fn is_digit(c: char) -> bool {
    '0' <= c <= '9'
}

pub open spec fn digit_value(c: char) -> nat {
    ((c as u32) - ('0' as u32)) as nat
}

/// Value of a sequence of decimal digits.
pub open spec fn digits_value(d: Seq<char>) -> nat
    decreases d.len(),
{
    if d.len() == 0 {
        0
    } else {
        10 * digits_value(d.drop_last()) + digit_value(d.last())
    }
}

/// Whether every character of `d` is an ASCII decimal digit.
pub open spec fn all_digits(d: Seq<char>) -> bool {
    forall|i: int| 0 <= i < d.len() ==> is_digit(#[trigger] d[i])
}

/// `s` without one leading `+`.
pub open spec fn unsigned_digits(s: Seq<char>) -> Seq<char> {
    if s.len() > 0 && s[0] == '+' {
        s.drop_first()
    } else {
        s
    }
}

/// The number that `FromStr` for an unsigned integer type reads from `s`
/// before its range check: an optional `+`, then one or more ASCII digits.
pub open spec fn parse_unsigned(s: Seq<char>) -> Option<nat> {
    let d = unsigned_digits(s);
    if d.len() > 0 && all_digits(d) {
        Some(digits_value(d))
    } else {
        None
    }
}

proof fn lemma_digits_value_mono(d: Seq<char>, i: int, j: int)
    requires
        0 <= i <= j <= d.len(),
    ensures
        digits_value(d.take(i)) <= digits_value(d.take(j)),
    decreases j - i,
{
    if i < j {
        lemma_digits_value_mono(d, i, j - 1);
        assert(d.take(j).drop_last() =~= d.take(j - 1));
    }
}

/// `s.parse::<u64>().ok()`.
pub fn parse_u64(v: &Vec<char>) -> (r: Option<u64>)
    ensures
        r is Some <==> (parse_unsigned(v@) is Some && parse_unsigned(v@)->0 <= u64::MAX),
        r is Some ==> r->0 == parse_unsigned(v@)->0,
{
    let start: usize = if v.len() > 0 && v[0] == '+' {
        1
    } else {
        0
    };
    let ghost d = unsigned_digits(v@);
    assert(d =~= v@.skip(start as int));
    if start == v.len() {
        return None;
    }
    let mut acc: u64 = 0;
    let mut i: usize = start;
    assert(d.take(0) =~= Seq::<char>::empty());
    while i < v.len()
        invariant
            start <= i <= v.len(),
            d =~= v@.skip(start as int),
            d == unsigned_digits(v@),
            start < v.len(),
            forall|j: int| start <= j < i ==> is_digit(#[trigger] v@[j]),
            acc == digits_value(d.take(i - start)),
        decreases v.len() - i,
    {
        let c = v[i];
        if !('0' <= c && c <= '9') {
            assert(!is_digit(d[i - start]));
            assert(!all_digits(d));
            return None;
        }
        let dv = (c as u32 - '0' as u32) as u64;
        assert(d.take(i - start + 1).drop_last() =~= d.take(i - start));
        assert(d.take(i - start + 1).last() == c);
        let next = match acc.checked_mul(10) {
            Some(m) => m.checked_add(dv),
            None => None,
        };
        match next {
            Some(n) => {
                acc = n;
            },
            None => {
                proof {
                    assert(digits_value(d.take(i - start + 1)) > u64::MAX);
                    lemma_digits_value_mono(d, i - start + 1, d.len() as int);
                    assert(d.take(d.len() as int) =~= d);
                }
                return None;
            },
        }
        i += 1;
    }
    assert(d.take(i - start) =~= d);
    Some(acc)
}


/// The ASCII digit for `d < 10`.
pub open spec fn digit_char(d: nat) -> char {
    if d == 0 {
        '0'
    } else if d == 1 {
        '1'
    } else if d == 2 {
        '2'
    } else if d == 3 {
        '3'
    } else if d == 4 {
        '4'
    } else if d == 5 {
        '5'
    } else if d == 6 {
        '6'
    } else if d == 7 {
        '7'
    } else if d == 8 {
        '8'
    } else {
        '9'
    }
}

/// The decimal representation of `n`, as `Display` writes it.
pub open spec fn decimal(n: nat) -> Seq<char>
    decreases n,
{
    if n < 10 {
        seq![digit_char(n)]
    } else {
        decimal(n / 10).push(digit_char(n % 10))
    }
}

fn digit_char_exec(d: u64) -> (c: char)
    requires
        d < 10,
    ensures
        c == digit_char(d as nat),
{
    if d == 0 {
        '0'
    } else if d == 1 {
        '1'
    } else if d == 2 {
        '2'
    } else if d == 3 {
        '3'
    } else if d == 4 {
        '4'
    } else if d == 5 {
        '5'
    } else if d == 6 {
        '6'
    } else if d == 7 {
        '7'
    } else if d == 8 {
        '8'
    } else {
        '9'
    }
}

/// Appends the decimal representation of `n` to `s`.
pub fn push_decimal(s: &mut String, n: u64)
    ensures
        final(s)@ == old(s)@ + decimal(n as nat),
    decreases n,
{
    if n < 10 {
        push_char(s, digit_char_exec(n));
        assert(old(s)@.push(digit_char(n as nat)) =~= old(s)@ + decimal(n as nat));
    } else {
        push_decimal(s, n / 10);
        push_char(s, digit_char_exec(n % 10));
        assert(old(s)@ + decimal((n / 10) as nat) + seq![digit_char((n % 10) as nat)] =~= old(s)@
            + decimal(n as nat));
    }
}


// ---------------------------------------------------------------------------
// Joining
// ---------------------------------------------------------------------------

/// The parts separated by single spaces (`[&str]::join(" ")`).
pub open spec fn join_spaces(parts: Seq<Seq<char>>) -> Seq<char>
    decreases parts.len(),
{
    if parts.len() == 0 {
        seq![]
    } else if parts.len() == 1 {
        parts[0]
    } else {
        join_spaces(parts.drop_last()) + " "@ + parts.last()
    }
}

/// The arguments separated by single spaces.
pub fn join_args(args: &Vec<String>) -> (r: String)
    ensures
        r@ == join_spaces(views(args@)),
{
    let ghost vs = views(args@);
    let mut out = String::new();
    let mut i: usize = 0;
    while i < args.len()
        invariant
            i <= args.len(),
            vs == views(args@),
            out@ == join_spaces(vs.take(i as int)),
        decreases args.len() - i,
    {
        assert(vs.take(i + 1).drop_last() =~= vs.take(i as int));
        assert(vs.take(i + 1).last() == args@[i as int]@);
        if i == 0 {
            out = copy_string(&args[0]);
            assert(vs.take(1) =~= seq![args@[0]@]);
        } else {
            out.append(" ");
            out.append(args[i].as_str());
        }
        i += 1;
    }
    assert(vs.take(args.len() as int) =~= vs);
    out
}

/// The predicate "equals `x`".
pub open spec fn seq_is(x: Seq<char>) -> spec_fn(Seq<char>) -> bool {
    |a: Seq<char>| a == x
}

/// The position of the first string of `v` equal to `x`.
pub fn position_of_string(v: &Vec<String>, x: &String) -> (r: Option<usize>)
    ensures
        match r {
            Some(k) => k < v.len() && first_match(views(v@), seq_is(x@)) == k,
            None => first_match(views(v@), seq_is(x@)) == -1,
        },
{
    let ghost vv = views(v@);
    let mut i: usize = 0;
    while i < v.len()
        invariant
            i <= v.len(),
            vv == views(v@),
            forall|j: int| 0 <= j < i ==> !seq_is(x@)(#[trigger] vv[j]),
        decreases v.len() - i,
    {
        if v[i] == *x {
            proof {
                lemma_first_match_at(vv, seq_is(x@), i as int);
            }
            return Some(i);
        }
        i += 1;
    }
    proof {
        lemma_first_match_at(vv, seq_is(x@), vv.len() as int);
    }
    None
}

/// Appends `s` to `v`.
pub fn push_string(v: &mut Vec<String>, s: String)
    ensures
        views(final(v)@) == views(old(v)@).push(s@),
{
    let ghost sv = s@;
    v.push(s);
    assert(views(v@) =~= views(old(v)@).push(sv));
}

/// Appends an owned copy of `s` to `v`.
pub fn push_str(v: &mut Vec<String>, s: &str)
    ensures
        views(final(v)@) == views(old(v)@).push(s@),
{
    v.push(String::from_str(s));
    assert(views(v@) =~= views(old(v)@).push(s@));
}


/// Whether `s` holds a whitespace character.
pub open spec fn has_whitespace(s: Seq<char>) -> bool {
    exists|i: int| 0 <= i < s.len() && is_whitespace(#[trigger] s[i])
}

/// Whether `s` holds a whitespace character.
pub fn str_has_whitespace(s: &str) -> (r: bool)
    ensures
        r == has_whitespace(s@),
{
    let v = to_chars(s);
    let mut i: usize = 0;
    while i < v.len()
        invariant
            i <= v.len(),
            v@ == s@,
            forall|j: int| 0 <= j < i ==> !is_whitespace(#[trigger] v@[j]),
        decreases v.len() - i,
    {
        if char_is_whitespace(v[i]) {
            return true;
        }
        i += 1;
    }
    false
}

/// Whether nothing but whitespace is in `s`.
pub fn is_blank(s: &str) -> (r: bool)
    ensures
        r == (trim(s@).len() == 0),
{
    let t = trim_string(s);
    t.as_str().is_empty()
}


// ---------------------------------------------------------------------------
// Laws
// ---------------------------------------------------------------------------

proof fn lemma_trim_start_shape(s: Seq<char>)
    ensures
        exists|k: int| 0 <= k <= s.len() && trim_start(s) == s.skip(k),
        trim_start(s).len() == 0 || !is_whitespace(trim_start(s)[0]),
    decreases s.len(),
{
    if s.len() > 0 && is_whitespace(s[0]) {
        let t = s.drop_first();
        lemma_trim_start_shape(t);
        let k = choose|k: int| 0 <= k <= t.len() && trim_start(t) == t.skip(k);
        assert(t.skip(k) =~= s.skip(k + 1));
    } else {
        assert(s.skip(0) =~= s);
    }
}

proof fn lemma_trim_end_shape(s: Seq<char>)
    ensures
        exists|k: int| 0 <= k <= s.len() && trim_end(s) == s.take(k),
        trim_end(s).len() == 0 || !is_whitespace(trim_end(s).last()),
    decreases s.len(),
{
    if s.len() > 0 && is_whitespace(s.last()) {
        let t = s.drop_last();
        lemma_trim_end_shape(t);
        let k = choose|k: int| 0 <= k <= t.len() && trim_end(t) == t.take(k);
        assert(t.take(k) =~= s.take(k));
    } else {
        assert(s.take(s.len() as int) =~= s);
    }
}

/// Trimming twice is trimming once.
pub proof fn law_trim_idempotent(s: Seq<char>)
    ensures
        trim(trim(s)) == trim(s),
{
    let t = trim_start(s);
    lemma_trim_start_shape(s);
    let u = trim_end(t);
    lemma_trim_end_shape(t);
    let k = choose|k: int| 0 <= k <= t.len() && trim_end(t) == t.take(k);
    if u.len() > 0 {
        assert(u[0] == t[0]);
    }
    assert(trim_start(u) == u);
    assert(trim_end(u) == u);
}

/// A trimmed string neither begins nor ends with whitespace.
pub proof fn law_trim_edges(s: Seq<char>)
    ensures
        trim(s).len() > 0 ==> !is_whitespace(trim(s)[0]) && !is_whitespace(trim(s).last()),
{
    let t = trim_start(s);
    lemma_trim_start_shape(s);
    lemma_trim_end_shape(t);
    let k = choose|k: int| 0 <= k <= t.len() && trim_end(t) == t.take(k);
    if trim(s).len() > 0 {
        assert(trim(s)[0] == t[0]);
    }
}

/// No line holds a newline.
pub proof fn law_lines_have_no_newline(s: Seq<char>)
    ensures
        forall|i: int, j: int|
            0 <= i < lines(s).len() && 0 <= j < lines(s)[i].len() ==> lines(s)[i][j] != '\n',
    decreases s.len(),
{
    if s.len() > 0 {
        let k = index_of_char(s, '\n');
        lemma_first_match_range(s, char_is('\n'));
        if k < 0 {
            assert forall|i: int, j: int|
                0 <= i < lines(s).len() && 0 <= j < lines(s)[i].len() implies lines(s)[i][j]
                != '\n' by {
                assert(!char_is('\n')(s[j]));
            }
        } else {
            law_lines_have_no_newline(s.skip(k + 1));
            let first = strip_cr(s.take(k));
            assert forall|i: int, j: int|
                0 <= i < lines(s).len() && 0 <= j < lines(s)[i].len() implies lines(s)[i][j]
                != '\n' by {
                if i == 0 {
                    assert(lines(s)[0] == first);
                    assert(first[j] == s[j]);
                    assert(!char_is('\n')(s[j]));
                } else {
                    assert(lines(s)[i] == lines(s.skip(k + 1))[i - 1]);
                }
            }
        }
    }
}

proof fn lemma_digit_char(d: nat)
    requires
        d < 10,
    ensures
        is_digit(digit_char(d)),
        digit_value(digit_char(d)) == d,
{
}

proof fn lemma_decimal_digits(n: nat)
    ensures
        decimal(n).len() > 0,
        all_digits(decimal(n)),
        digits_value(decimal(n)) == n,
    decreases n,
{
    if n < 10 {
        lemma_digit_char(n);
        let d = decimal(n);
        assert(d.drop_last() =~= Seq::<char>::empty());
        assert(digits_value(d.drop_last()) == 0);
        assert(d.last() == digit_char(n));
        assert(digits_value(d) == 10 * digits_value(d.drop_last()) + digit_value(d.last()));
    } else {
        lemma_decimal_digits(n / 10);
        lemma_digit_char(n % 10);
        let d = decimal(n);
        assert(d.drop_last() =~= decimal(n / 10));
        assert(d.last() == digit_char(n % 10));
        assert(digits_value(d) == 10 * digits_value(decimal(n / 10)) + digit_value(d.last()));
        assert(10 * (n / 10) + n % 10 == n);
        assert forall|i: int| 0 <= i < d.len() implies is_digit(#[trigger] d[i]) by {
            if i < d.len() - 1 {
                assert(d[i] == decimal(n / 10)[i]);
            }
        }
    }
}

/// Reading back a number written in decimal gives the number.
pub proof fn law_decimal_round_trip(n: nat)
    ensures
        parse_unsigned(decimal(n)) == Some(n),
{
    lemma_decimal_digits(n);
    lemma_digit_char(if n < 10 {
        n
    } else {
        0
    });
    if n >= 10 {
        lemma_decimal_starts_with_digit(n);
    }
    assert(decimal(n)[0] != '+') by {
        lemma_decimal_starts_with_digit(n);
    }
    assert(unsigned_digits(decimal(n)) == decimal(n));
}

proof fn lemma_decimal_starts_with_digit(n: nat)
    ensures
        is_digit(decimal(n)[0]),
{
    lemma_decimal_digits(n);
}

} // verus!
