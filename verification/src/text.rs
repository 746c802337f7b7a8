//! Character-level string helpers shared by the parsers of the crate.
//!
//! Every helper works on the `Seq<char>` view of a string; the spec
//! functions below define the meaning that the exec helpers implement.

use vstd::prelude::*;

verus! {

/// `String::push` (std): appends `ch` to the end of `s`, as its
/// documentation says; believed, not proved.
pub assume_specification[ String::push ](s: &mut String, ch: char)
    ensures
        final(s)@ == old(s)@.push(ch),
;

// ───────────────────────────── specs ─────────────────────────────

/// No two entries of `s` share a key: `s` holds a map.
pub open spec fn keys_distinct<V>(s: Seq<(String, V)>) -> bool {
    forall|i: int, j: int| 0 <= i < j < s.len() ==> (#[trigger] s[i]).0@ != (#[trigger] s[j]).0@
}

/// `p` is a prefix of `s`.
pub open spec fn is_prefix(p: Seq<char>, s: Seq<char>) -> bool {
    p.len() <= s.len() && s.take(p.len() as int) == p
}

/// `p` is a suffix of `s`.
pub open spec fn is_suffix(p: Seq<char>, s: Seq<char>) -> bool {
    p.len() <= s.len() && s.skip(s.len() - p.len()) == p
}

/// `p` occurs in `s` starting at index `i`.
pub open spec fn occurs_at(s: Seq<char>, p: Seq<char>, i: int) -> bool {
    0 <= i && i + p.len() <= s.len() && s.subrange(i, i + p.len()) == p
}

/// `p` occurs somewhere in `s`.
pub open spec fn contains_seq(s: Seq<char>, p: Seq<char>) -> bool {
    exists|i: int| occurs_at(s, p, i)
}

/// The index of the first occurrence of `p` in `s`, or `-1`.
pub open spec fn find_seq(s: Seq<char>, p: Seq<char>) -> int
    decreases s.len(),
{
    if p.len() > s.len() {
        -1
    } else if s.take(p.len() as int) == p {
        0
    } else if s.len() == 0 {
        -1
    } else {
        let r = find_seq(s.drop_first(), p);
        if r < 0 { -1 } else { r + 1 }
    }
}

/// The index of the first `c` in `s`, or `-1`.
pub open spec fn find_char(s: Seq<char>, c: char) -> int
    decreases s.len(),
{
    if s.len() == 0 {
        -1
    } else if s[0] == c {
        0
    } else {
        let r = find_char(s.drop_first(), c);
        if r < 0 { -1 } else { r + 1 }
    }
}

/// Unicode `White_Space`, as `char::is_whitespace` decides it.
pub open spec fn is_ws(c: char) -> bool {
    c == '\t' || c == '\n' || c == '\u{0B}' || c == '\u{0C}' || c == '\r' || c == ' '
        || c == '\u{85}' || c == '\u{A0}' || c == '\u{1680}' || ('\u{2000}' <= c
        && c <= '\u{200A}') || c == '\u{2028}' || c == '\u{2029}' || c == '\u{202F}'
        || c == '\u{205F}' || c == '\u{3000}'
}

/// `s` without its leading whitespace.
pub open spec fn trim_start(s: Seq<char>) -> Seq<char>
    decreases s.len(),
{
    if s.len() > 0 && is_ws(s[0]) {
        trim_start(s.drop_first())
    } else {
        s
    }
}

/// `s` without its trailing whitespace.
pub open spec fn trim_end(s: Seq<char>) -> Seq<char>
    decreases s.len(),
{
    if s.len() > 0 && is_ws(s.last()) {
        trim_end(s.drop_last())
    } else {
        s
    }
}

/// `s` without leading and trailing whitespace (`str::trim`).
pub open spec fn trim(s: Seq<char>) -> Seq<char> {
    trim_end(trim_start(s))
}

// ───────────────────────────── lemmas ─────────────────────────────

/// `find_char` is the index of the first `c`, or `-1` when there is none.
pub proof fn lemma_find_char_props(s: Seq<char>, c: char)
    ensures
        -1 <= find_char(s, c) < s.len(),
        find_char(s, c) >= 0 ==> s[find_char(s, c)] == c,
        forall|j: int| 0 <= j < find_char(s, c) ==> s[j] != c,
        find_char(s, c) < 0 ==> forall|j: int| 0 <= j < s.len() ==> s[j] != c,
    decreases s.len(),
{
    if s.len() > 0 && s[0] != c {
        lemma_find_char_props(s.drop_first(), c);
        assert forall|j: int| 0 < j < s.len() implies s[j] == s.drop_first()[j - 1] by {}
    }
}

/// The first `c` of `s` is found by scanning from its start.
pub proof fn lemma_find_char_is(s: Seq<char>, c: char, k: int)
    requires
        0 <= k <= s.len(),
        forall|j: int| 0 <= j < k ==> s[j] != c,
        k < s.len() ==> s[k] == c,
    ensures
        find_char(s, c) == (if k < s.len() { k } else { -1 }),
    decreases k,
{
    if k > 0 {
        lemma_find_char_is(s.drop_first(), c, k - 1);
    }
}

proof fn lemma_trim_start_skip(s: Seq<char>, k: int)
    requires
        0 <= k <= s.len(),
        forall|i: int| 0 <= i < k ==> is_ws(s[i]),
    ensures
        trim_start(s) == trim_start(s.skip(k)),
    decreases k,
{
    if k > 0 {
        assert(s.drop_first().skip(k - 1) == s.skip(k));
        lemma_trim_start_skip(s.drop_first(), k - 1);
    } else {
        assert(s.skip(0) == s);
    }
}

proof fn lemma_trim_end_take(s: Seq<char>, k: int)
    requires
        0 <= k <= s.len(),
        forall|i: int| k <= i < s.len() ==> is_ws(s[i]),
    ensures
        trim_end(s) == trim_end(s.take(k)),
    decreases s.len() - k,
{
    if k < s.len() {
        assert(s.drop_last().take(k) == s.take(k));
        lemma_trim_end_take(s.drop_last(), k);
    } else {
        assert(s.take(k) == s);
    }
}

// ───────────────────────────── exec helpers ─────────────────────────────

/// The characters of `s`, as a vector.
pub fn to_chars(s: &str) -> (v: Vec<char>)
    ensures
        v@ == s@,
{
    let mut v: Vec<char> = Vec::new();
    for c in it: s.chars()
        invariant
            v@ == it.seq().take(it.index() as int),
    {
        v.push(c);
    }
    v
}

/// The string made of the characters `v[lo..hi]`.
pub fn string_of(v: &[char], lo: usize, hi: usize) -> (s: String)
    requires
        lo <= hi <= v@.len(),
    ensures
        s@ == v@.subrange(lo as int, hi as int),
{
    let mut s = String::new();
    let mut i = lo;
    while i < hi
        invariant
            lo <= i <= hi <= v@.len(),
            s@ == v@.subrange(lo as int, i as int),
        decreases hi - i,
    {
        s.push(v[i]);
        i = i + 1;
    }
    s
}

/// The string made of all of `v`.
pub fn from_chars(v: &[char]) -> (s: String)
    ensures
        s@ == v@,
{
    let s = string_of(v, 0, v.len());
    assert(v@.subrange(0, v@.len() as int) == v@);
    s
}

/// A fresh copy of the characters `v[lo..hi]`.
pub fn sub_chars(v: &[char], lo: usize, hi: usize) -> (r: Vec<char>)
    requires
        lo <= hi <= v@.len(),
    ensures
        r@ == v@.subrange(lo as int, hi as int),
{
    let mut r: Vec<char> = Vec::new();
    let mut i = lo;
    while i < hi
        invariant
            lo <= i <= hi <= v@.len(),
            r@ == v@.subrange(lo as int, i as int),
        decreases hi - i,
    {
        r.push(v[i]);
        i = i + 1;
    }
    r
}

/// `p` occurs in `s` at index `at`.
pub fn occurs_at_exec(s: &[char], p: &[char], at: usize) -> (b: bool)
    ensures
        b == occurs_at(s@, p@, at as int),
{
    if at > s.len() || p.len() > s.len() - at {
        return false;
    }
    let mut i: usize = 0;
    while i < p.len()
        invariant
            at + p@.len() <= s@.len(),
            s@.len() == s.len(),
            i <= p@.len(),
            forall|j: int| 0 <= j < i ==> s@[at + j] == p@[j],
        decreases p@.len() - i,
    {
        if s[at + i] != p[i] {
            assert(s@.subrange(at as int, at + p@.len())[i as int] != p@[i as int]);
            return false;
        }
        i = i + 1;
    }
    assert(s@.subrange(at as int, at + p@.len()) == p@);
    true
}

/// `s` starts with `p`.
pub fn starts_with(s: &[char], p: &[char]) -> (b: bool)
    ensures
        b == is_prefix(p@, s@),
{
    let b = occurs_at_exec(s, p, 0);
    assert(b == is_prefix(p@, s@)) by {
        if p@.len() <= s@.len() {
            assert(s@.subrange(0, p@.len() as int) == s@.take(p@.len() as int));
        }
    }
    b
}

/// `s` ends with `p`.
pub fn ends_with(s: &[char], p: &[char]) -> (b: bool)
    ensures
        b == is_suffix(p@, s@),
{
    if p.len() > s.len() {
        return false;
    }
    let b = occurs_at_exec(s, p, s.len() - p.len());
    assert(s@.subrange(s@.len() - p@.len(), s@.len() as int) == s@.skip(s@.len() - p@.len()));
    b
}

/// Index of the first occurrence of `p` in `s`.
pub fn find(s: &[char], p: &[char]) -> (r: Option<usize>)
    ensures
        match r {
            Some(i) => occurs_at(s@, p@, i as int) && forall|j: int|
                0 <= j < i ==> !occurs_at(s@, p@, j),
            None => !contains_seq(s@, p@),
        },
{
    if p.len() > s.len() {
        return None;
    }
    let last = s.len() - p.len();
    let mut i: usize = 0;
    loop
        invariant
            last + p@.len() == s@.len(),
            i <= last,
            forall|j: int| 0 <= j < i ==> !occurs_at(s@, p@, j),
        decreases last - i,
    {
        if occurs_at_exec(s, p, i) {
            return Some(i);
        }
        if i == last {
            assert forall|j: int| #![trigger occurs_at(s@, p@, j)] occurs_at(s@, p@, j) implies false by {
                assert(0 <= j <= last);
            }
            return None;
        }
        i = i + 1;
    }
}

/// `p` occurs in `s`.
pub fn contains(s: &[char], p: &[char]) -> (b: bool)
    ensures
        b == contains_seq(s@, p@),
{
    match find(s, p) {
        Some(_) => true,
        None => false,
    }
}

/// `s` starts with the string `p`.
pub fn str_starts_with(s: &str, p: &str) -> (b: bool)
    ensures
        b == is_prefix(p@, s@),
{
    let sv = to_chars(s);
    let pv = to_chars(p);
    starts_with(sv.as_slice(), pv.as_slice())
}

/// `s` ends with the string `p`.
pub fn str_ends_with(s: &str, p: &str) -> (b: bool)
    ensures
        b == is_suffix(p@, s@),
{
    let sv = to_chars(s);
    let pv = to_chars(p);
    ends_with(sv.as_slice(), pv.as_slice())
}

/// The two character slices are equal.
pub fn chars_eq(a: &[char], b: &[char]) -> (r: bool)
    ensures
        r == (a@ == b@),
{
    if a.len() != b.len() {
        return false;
    }
    let r = starts_with(a, b);
    assert(r == (a@ == b@)) by {
        assert(a@.take(b@.len() as int) == a@);
    }
    r
}

/// The two strings hold the same characters.
pub fn str_eq(a: &str, b: &str) -> (r: bool)
    ensures
        r == (a@ == b@),
{
    let av = to_chars(a);
    let bv = to_chars(b);
    chars_eq(av.as_slice(), bv.as_slice())
}

/// Index of the first `c` in `s[from..]`, counted from the start of `s`.
pub fn find_char_from(s: &[char], c: char, from: usize) -> (r: Option<usize>)
    requires
        from <= s@.len(),
    ensures
        match r {
            Some(i) => from <= i < s@.len() && s@[i as int] == c && forall|j: int|
                from <= j < i ==> s@[j] != c,
            None => forall|j: int| from <= j < s@.len() ==> s@[j] != c,
        },
{
    let mut i = from;
    while i < s.len()
        invariant
            from <= i <= s@.len(),
            forall|j: int| from <= j < i ==> s@[j] != c,
        decreases s@.len() - i,
    {
        if s[i] == c {
            return Some(i);
        }
        i = i + 1;
    }
    None
}

/// `c` is whitespace.
pub fn is_ws_exec(c: char) -> (b: bool)
    ensures
        b == is_ws(c),
{
    c == '\t' || c == '\n' || c == '\u{0B}' || c == '\u{0C}' || c == '\r' || c == ' '
        || c == '\u{85}' || c == '\u{A0}' || c == '\u{1680}' || ('\u{2000}' <= c && c
        <= '\u{200A}') || c == '\u{2028}' || c == '\u{2029}' || c == '\u{202F}' || c
        == '\u{205F}' || c == '\u{3000}'
}

/// The bounds `(lo, hi)` of `s` with surrounding whitespace removed.
pub fn trim_bounds(s: &[char]) -> (r: (usize, usize))
    ensures
        r.0 <= r.1 <= s@.len(),
        s@.subrange(r.0 as int, r.1 as int) == trim(s@),
{
    let mut lo: usize = 0;
    while lo < s.len() && is_ws_exec(s[lo])
        invariant
            lo <= s@.len(),
            forall|i: int| 0 <= i < lo ==> is_ws(s@[i]),
        decreases s@.len() - lo,
    {
        lo = lo + 1;
    }
    proof {
        lemma_trim_start_skip(s@, lo as int);
    }
    let ghost t = s@.skip(lo as int);
    assert(trim_start(t) == t);
    let mut hi: usize = s.len();
    while hi > lo && is_ws_exec(s[hi - 1])
        invariant
            lo <= hi <= s@.len(),
            forall|i: int| hi <= i < s@.len() ==> is_ws(s@[i]),
        decreases hi,
    {
        hi = hi - 1;
    }
    proof {
        assert forall|i: int| hi - lo <= i < t.len() implies is_ws(t[i]) by {
            assert(t[i] == s@[i + lo]);
        }
        lemma_trim_end_take(t, hi - lo);
        let u = t.take(hi - lo);
        assert(u == s@.subrange(lo as int, hi as int));
        if u.len() > 0 {
            assert(!is_ws(u.last()));
        }
        assert(trim_end(u) == u);
    }
    (lo, hi)
}

/// `s` with surrounding whitespace removed.
pub fn trim_chars(s: &[char]) -> (r: Vec<char>)
    ensures
        r@ == trim(s@),
{
    let (lo, hi) = trim_bounds(s);
    sub_chars(s, lo, hi)
}

/// `s` with every non-overlapping occurrence of `pat`, scanned from the left,
/// replaced by `rep` (`str::replace`); `pat` is non-empty.
pub open spec fn replace_seq(s: Seq<char>, pat: Seq<char>, rep: Seq<char>) -> Seq<char>
    decreases s.len(),
{
    if pat.len() == 0 || s.len() < pat.len() {
        s
    } else if s.take(pat.len() as int) == pat {
        rep + replace_seq(s.skip(pat.len() as int), pat, rep)
    } else {
        seq![s[0]] + replace_seq(s.drop_first(), pat, rep)
    }
}

/// Replacing a pattern that does not occur leaves the string unchanged.
pub proof fn lemma_replace_absent(s: Seq<char>, pat: Seq<char>, rep: Seq<char>)
    requires
        !contains_seq(s, pat),
    ensures
        replace_seq(s, pat, rep) == s,
    decreases s.len(),
{
    if pat.len() > 0 && s.len() >= pat.len() {
        if s.take(pat.len() as int) == pat {
            assert(occurs_at(s, pat, 0));
        } else {
            assert forall|i: int| #![trigger occurs_at(s.drop_first(), pat, i)] occurs_at(s.drop_first(), pat, i) implies false by {
                assert(s.drop_first().subrange(i, i + pat.len()) == s.subrange(i + 1, i + 1 + pat.len()));
                assert(occurs_at(s, pat, i + 1));
            }
            lemma_replace_absent(s.drop_first(), pat, rep);
            assert(seq![s[0]] + s.drop_first() == s);
        }
    }
}

/// `s` with every occurrence of `pat` replaced by `rep` (`str::replace`).
pub fn replace_chars(s: &[char], pat: &[char], rep: &[char]) -> (r: Vec<char>)
    requires
        pat@.len() > 0,
    ensures
        r@ == replace_seq(s@, pat@, rep@),
{
    let mut out: Vec<char> = Vec::new();
    let mut i: usize = 0;
    assert(s@.skip(0) == s@);
    while i < s.len()
        invariant
            i <= s@.len(),
            pat@.len() > 0,
            out@ + replace_seq(s@.skip(i as int), pat@, rep@) == replace_seq(s@, pat@, rep@),
        decreases s@.len() - i,
    {
        let ghost t = s@.skip(i as int);
        if pat.len() <= s.len() - i && occurs_at_exec(s, pat, i) {
            assert(t.take(pat@.len() as int) == s@.subrange(i as int, i + pat@.len()));
            assert(t.skip(pat@.len() as int) == s@.skip(i + pat@.len()));
            let mut k: usize = 0;
            let ghost out0 = out@;
            while k < rep.len()
                invariant
                    k <= rep@.len(),
                    out@ == out0 + rep@.take(k as int),
                decreases rep@.len() - k,
            {
                out.push(rep[k]);
                k = k + 1;
                assert(rep@.take(k as int) == rep@.take(k - 1).push(rep@[k - 1]));
            }
            assert(rep@.take(rep@.len() as int) == rep@);
            assert(out@ + replace_seq(t.skip(pat@.len() as int), pat@, rep@) == out0 + replace_seq(t, pat@, rep@));
            i = i + pat.len();
        } else {
            proof {
                if t.len() >= pat@.len() {
                    assert(t.take(pat@.len() as int) == s@.subrange(i as int, i + pat@.len()));
                }
                assert(t.drop_first() == s@.skip(i + 1));
            }
            out.push(s[i]);
            i = i + 1;
        }
    }
    proof {
        assert(s@.skip(i as int).len() == 0);
        assert(out@ + Seq::<char>::empty() == out@);
    }
    out
}


// ───────────────────────────── lines ─────────────────────────────

/// A line with one trailing `\r` removed.
pub open spec fn strip_cr(l: Seq<char>) -> Seq<char> {
    if l.len() > 0 && l.last() == '\r' {
        l.drop_last()
    } else {
        l
    }
}

/// The lines of `s`, as `str::lines` yields them: split at `\n`, a `\r`
/// before the `\n` removed, no final empty line.
pub open spec fn lines_spec(s: Seq<char>) -> Seq<Seq<char>>
    decreases s.len(),
{
    if s.len() == 0 {
        Seq::empty()
    } else {
        let i = find_char(s, '\n');
        if i < 0 {
            seq![s]
        } else {
            proof {
                lemma_find_char_props(s, '\n');
            }
            seq![strip_cr(s.take(i))] + lines_spec(s.skip(i + 1))
        }
    }
}

/// The views of a vector of character vectors.
pub open spec fn views(v: Seq<Vec<char>>) -> Seq<Seq<char>> {
    v.map_values(|x: Vec<char>| x@)
}

/// The lines of `s` (`str::lines`).
pub fn split_lines(s: &[char]) -> (r: Vec<Vec<char>>)
    ensures
        views(r@) == lines_spec(s@),
{
    let mut r: Vec<Vec<char>> = Vec::new();
    let mut start: usize = 0;
    assert(s@.skip(0) == s@);
    while start < s.len()
        invariant
            start <= s@.len(),
            views(r@) + lines_spec(s@.skip(start as int)) == lines_spec(s@),
        decreases s@.len() - start,
    {
        let ghost t = s@.skip(start as int);
        match find_char_from(s, '\n', start) {
            None => {
                proof {
                    lemma_find_char_is(t, '\n', t.len() as int);
                }
                let line = sub_chars(s, start, s.len());
                assert(line@ == t);
                let ghost r0 = views(r@);
                r.push(line);
                assert(views(r@) == r0.push(t));
                start = s.len();
                assert(s@.skip(start as int).len() == 0);
                assert(lines_spec(s@.skip(start as int)) == Seq::<Seq<char>>::empty());
                assert(r0 + seq![t] == r0.push(t));
            },
            Some(i) => {
                proof {
                    lemma_find_char_is(t, '\n', i - start);
                    assert(t.skip(i - start + 1) == s@.skip(i + 1));
                    assert(t.take(i - start) == s@.subrange(start as int, i as int));
                }
                let end = if i > start && s[i - 1] == '\r' { i - 1 } else { i };
                let line = sub_chars(s, start, end);
                assert(line@ == strip_cr(t.take(i - start)));
                let ghost r0 = views(r@);
                r.push(line);
                assert(views(r@) == r0.push(line@));
                assert(r0 + (seq![line@] + lines_spec(s@.skip(i + 1))) == r0.push(line@) + lines_spec(s@.skip(i + 1)));
                start = i + 1;
            },
        }
    }
    proof {
        assert(s@.skip(start as int).len() == 0);
        assert(lines_spec(s@.skip(start as int)) == Seq::<Seq<char>>::empty());
        assert(views(r@) + Seq::<Seq<char>>::empty() == views(r@));
    }
    r
}

/// The index of the first whitespace character of `s`, or its length.
pub open spec fn ws_index(s: Seq<char>) -> int
    decreases s.len(),
{
    if s.len() == 0 {
        0
    } else if is_ws(s[0]) {
        0
    } else {
        1 + ws_index(s.drop_first())
    }
}

proof fn lemma_ws_index(s: Seq<char>, k: int)
    requires
        0 <= k <= s.len(),
        forall|j: int| 0 <= j < k ==> !is_ws(s[j]),
        k < s.len() ==> is_ws(s[k]),
    ensures
        ws_index(s) == k,
    decreases k,
{
    if k > 0 {
        lemma_ws_index(s.drop_first(), k - 1);
    }
}

/// The first whitespace-separated token of `s` (`split_whitespace().next()`).
pub open spec fn first_token(s: Seq<char>) -> Option<Seq<char>> {
    let t = trim_start(s);
    if t.len() == 0 {
        None
    } else {
        Some(t.take(ws_index(t)))
    }
}

/// The first whitespace-separated token of `s`.
pub fn first_token_chars(s: &[char]) -> (r: Option<Vec<char>>)
    ensures
        match r {
            Some(v) => first_token(s@) == Some(v@),
            None => first_token(s@) is None,
        },
{
    let mut lo: usize = 0;
    while lo < s.len() && is_ws_exec(s[lo])
        invariant
            lo <= s@.len(),
            forall|i: int| 0 <= i < lo ==> is_ws(s@[i]),
        decreases s@.len() - lo,
    {
        lo = lo + 1;
    }
    proof {
        lemma_trim_start_skip(s@, lo as int);
    }
    let ghost t = s@.skip(lo as int);
    assert(trim_start(t) == t);
    if lo == s.len() {
        assert(t.len() == 0);
        return None;
    }
    let mut hi = lo;
    while hi < s.len() && !is_ws_exec(s[hi])
        invariant
            lo <= hi <= s@.len(),
            forall|i: int| lo <= i < hi ==> !is_ws(s@[i]),
        decreases s@.len() - hi,
    {
        hi = hi + 1;
    }
    proof {
        lemma_ws_index(t, hi - lo);
        assert(t.take(hi - lo) == s@.subrange(lo as int, hi as int));
    }
    Some(sub_chars(s, lo, hi))
}

/// `s` without leading and trailing `c` characters (`trim_matches(c)`).
pub open spec fn trim_char_start(s: Seq<char>, c: char) -> Seq<char>
    decreases s.len(),
{
    if s.len() > 0 && s[0] == c {
        trim_char_start(s.drop_first(), c)
    } else {
        s
    }
}

/// `s` without trailing `c` characters.
pub open spec fn trim_char_end(s: Seq<char>, c: char) -> Seq<char>
    decreases s.len(),
{
    if s.len() > 0 && s.last() == c {
        trim_char_end(s.drop_last(), c)
    } else {
        s
    }
}

proof fn lemma_trim_char_start_skip(s: Seq<char>, c: char, k: int)
    requires
        0 <= k <= s.len(),
        forall|i: int| 0 <= i < k ==> s[i] == c,
    ensures
        trim_char_start(s, c) == trim_char_start(s.skip(k), c),
    decreases k,
{
    if k > 0 {
        assert(s.drop_first().skip(k - 1) == s.skip(k));
        lemma_trim_char_start_skip(s.drop_first(), c, k - 1);
    } else {
        assert(s.skip(0) == s);
    }
}

proof fn lemma_trim_char_end_take(s: Seq<char>, c: char, k: int)
    requires
        0 <= k <= s.len(),
        forall|i: int| k <= i < s.len() ==> s[i] == c,
    ensures
        trim_char_end(s, c) == trim_char_end(s.take(k), c),
    decreases s.len() - k,
{
    if k < s.len() {
        assert(s.drop_last().take(k) == s.take(k));
        lemma_trim_char_end_take(s.drop_last(), c, k);
    } else {
        assert(s.take(k) == s);
    }
}

/// `s` without leading and trailing `c` characters (`str::trim_matches(c)`).
pub fn trim_matches_char(s: &[char], c: char) -> (r: Vec<char>)
    ensures
        r@ == trim_char_end(trim_char_start(s@, c), c),
{
    let mut lo: usize = 0;
    while lo < s.len() && s[lo] == c
        invariant
            lo <= s@.len(),
            forall|i: int| 0 <= i < lo ==> s@[i] == c,
        decreases s@.len() - lo,
    {
        lo = lo + 1;
    }
    proof {
        lemma_trim_char_start_skip(s@, c, lo as int);
    }
    let ghost t = s@.skip(lo as int);
    assert(trim_char_start(t, c) == t);
    let mut hi: usize = s.len();
    while hi > lo && s[hi - 1] == c
        invariant
            lo <= hi <= s@.len(),
            forall|i: int| hi <= i < s@.len() ==> s@[i] == c,
        decreases hi,
    {
        hi = hi - 1;
    }
    proof {
        assert forall|i: int| hi - lo <= i < t.len() implies t[i] == c by {
            assert(t[i] == s@[i + lo]);
        }
        lemma_trim_char_end_take(t, c, hi - lo);
        let u = t.take(hi - lo);
        assert(u == s@.subrange(lo as int, hi as int));
        assert(trim_char_end(u, c) == u);
    }
    sub_chars(s, lo, hi)
}

/// `s` without trailing `c` characters (`str::trim_end_matches(c)`).
pub fn trim_matches_end_char(s: &[char], c: char) -> (r: Vec<char>)
    ensures
        r@ == trim_char_end(s@, c),
{
    let mut hi: usize = s.len();
    while hi > 0 && s[hi - 1] == c
        invariant
            hi <= s@.len(),
            forall|i: int| hi <= i < s@.len() ==> s@[i] == c,
        decreases hi,
    {
        hi = hi - 1;
    }
    proof {
        lemma_trim_char_end_take(s@, c, hi as int);
        assert(s@.take(hi as int) == s@.subrange(0, hi as int));
    }
    sub_chars(s, 0, hi)
}

/// `s` without leading `c` characters (`str::trim_start_matches(c)`).
pub fn trim_matches_start_char(s: &[char], c: char) -> (r: Vec<char>)
    ensures
        r@ == trim_char_start(s@, c),
{
    let mut lo: usize = 0;
    while lo < s.len() && s[lo] == c
        invariant
            lo <= s@.len(),
            forall|i: int| 0 <= i < lo ==> s@[i] == c,
        decreases s@.len() - lo,
    {
        lo = lo + 1;
    }
    proof {
        lemma_trim_char_start_skip(s@, c, lo as int);
        assert(s@.skip(lo as int) == s@.subrange(lo as int, s@.len() as int));
    }
    sub_chars(s, lo, s.len())
}

/// The pieces of `s` between occurrences of `c` (`str::split(c)`).
pub open spec fn split_on(s: Seq<char>, c: char) -> Seq<Seq<char>>
    decreases s.len(),
{
    let i = find_char(s, c);
    if i < 0 {
        seq![s]
    } else {
        proof {
            lemma_find_char_props(s, c);
        }
        seq![s.take(i)] + split_on(s.skip(i + 1), c)
    }
}

/// The pieces of `s` between occurrences of `c`.
pub fn split_on_char(s: &[char], c: char) -> (r: Vec<Vec<char>>)
    ensures
        views(r@) == split_on(s@, c),
{
    let mut r: Vec<Vec<char>> = Vec::new();
    let mut start: usize = 0;
    assert(s@.skip(0) == s@);
    loop
        invariant
            start <= s@.len(),
            views(r@) + split_on(s@.skip(start as int), c) == split_on(s@, c),
        decreases s@.len() - start,
    {
        let ghost t = s@.skip(start as int);
        match find_char_from(s, c, start) {
            None => {
                proof {
                    lemma_find_char_is(t, c, t.len() as int);
                }
                let piece = sub_chars(s, start, s.len());
                assert(piece@ == t);
                let ghost r0 = views(r@);
                r.push(piece);
                assert(views(r@) == r0.push(t));
                assert(r0 + seq![t] == r0.push(t));
                return r;
            },
            Some(i) => {
                let n = s.len();
                assert(start <= i < n);
                proof {
                    lemma_find_char_is(t, c, i - start);
                    assert(t.skip(i - start + 1) == s@.skip(i + 1));
                    assert(t.take(i - start) == s@.subrange(start as int, i as int));
                }
                let piece = sub_chars(s, start, i);
                let ghost r0 = views(r@);
                r.push(piece);
                assert(views(r@) == r0.push(piece@));
                assert(r0 + (seq![piece@] + split_on(s@.skip(i + 1), c)) == r0.push(piece@)
                    + split_on(s@.skip(i + 1), c));
                start = i + 1;
            },
        }
    }
}

/// The decimal value of a digit string.
pub open spec fn dec_value(s: Seq<char>) -> nat
    decreases s.len(),
{
    if s.len() == 0 {
        0
    } else {
        dec_value(s.drop_last()) * 10 + ((s.last() as u32) - ('0' as u32)) as nat
    }
}

/// Every character of `s` is an ASCII digit.
pub open spec fn all_digits(s: Seq<char>) -> bool {
    forall|i: int| 0 <= i < s.len() ==> '0' <= #[trigger] s[i] <= '9'
}

/// What `str::parse::<u8>` gives for a string of digits and no sign:
/// its value when it is a non-empty digit string of value at most 255.
pub open spec fn parse_u8_spec(s: Seq<char>) -> Option<u8> {
    if s.len() > 0 && all_digits(s) && dec_value(s) <= 255 {
        Some(dec_value(s) as u8)
    } else {
        None
    }
}

/// A prefix of a digit string has a value no larger than the whole.
pub proof fn lemma_dec_value_mono(s: Seq<char>, k: int)
    requires
        0 <= k <= s.len(),
        all_digits(s),
    ensures
        dec_value(s.take(k)) <= dec_value(s),
    decreases s.len() - k,
{
    if k < s.len() {
        assert(s.drop_last().take(k) == s.take(k));
        assert(all_digits(s.drop_last())) by {
            assert forall|i: int| 0 <= i < s.drop_last().len() implies '0' <= #[trigger] s.drop_last()[i] <= '9' by {
                assert(s.drop_last()[i] == s[i]);
            }
        }
        lemma_dec_value_mono(s.drop_last(), k);
    } else {
        assert(s.take(k) == s);
    }
}

/// Parses `s` as a `u8` written in decimal digits (no sign).
pub fn parse_u8_digits(s: &[char]) -> (r: Option<u8>)
    ensures
        r == parse_u8_spec(s@),
{
    if s.len() == 0 {
        return None;
    }
    let mut v: u32 = 0;
    let mut i: usize = 0;
    while i < s.len()
        invariant
            i <= s@.len(),
            v as nat == dec_value(s@.take(i as int)),
            v <= 255,
            all_digits(s@.take(i as int)),
        decreases s@.len() - i,
    {
        let c = s[i];
        assert(s@.take(i + 1).drop_last() == s@.take(i as int));
        if !('0' <= c && c <= '9') {
            assert(!all_digits(s@)) by {
                assert(s@[i as int] == c);
            }
            return None;
        }
        let d = (c as u32) - ('0' as u32);
        v = v * 10 + d;
        i = i + 1;
        assert(all_digits(s@.take(i as int))) by {
            assert forall|j: int| 0 <= j < i implies '0' <= #[trigger] s@.take(i as int)[j] <= '9' by {
                if j < i - 1 {
                    assert(s@.take(i as int)[j] == s@.take(i - 1)[j]);
                }
            }
        }
        if v > 255 {
            proof {
                if all_digits(s@) {
                    lemma_dec_value_mono(s@, i as int);
                }
            }
            return None;
        }
    }
    assert(s@.take(i as int) == s@);
    Some(v as u8)
}


/// `find_seq` is the index of the first occurrence.
pub proof fn lemma_find_seq_is(s: Seq<char>, p: Seq<char>, i: int)
    requires
        occurs_at(s, p, i),
        forall|j: int| 0 <= j < i ==> !occurs_at(s, p, j),
    ensures
        find_seq(s, p) == i,
    decreases i,
{
    if i == 0 {
        assert(s.take(p.len() as int) == s.subrange(0, p.len() as int));
    } else {
        assert(!occurs_at(s, p, 0));
        assert(s.take(p.len() as int) != p) by {
            assert(s.take(p.len() as int) == s.subrange(0, p.len() as int));
        }
        let t = s.drop_first();
        assert(t.subrange(i - 1, i - 1 + p.len()) == s.subrange(i, i + p.len()));
        assert forall|j: int| 0 <= j < i - 1 implies !occurs_at(t, p, j) by {
            if occurs_at(t, p, j) {
                assert(t.subrange(j, j + p.len()) == s.subrange(j + 1, j + 1 + p.len()));
                assert(occurs_at(s, p, j + 1));
            }
        }
        lemma_find_seq_is(t, p, i - 1);
    }
}

/// `find_seq` is `-1` when there is no occurrence.
pub proof fn lemma_find_seq_absent(s: Seq<char>, p: Seq<char>)
    requires
        !contains_seq(s, p),
    ensures
        find_seq(s, p) == -1,
    decreases s.len(),
{
    if p.len() <= s.len() {
        assert(s.take(p.len() as int) != p) by {
            assert(s.take(p.len() as int) == s.subrange(0, p.len() as int));
            assert(!occurs_at(s, p, 0));
        }
        if s.len() > 0 {
            let t = s.drop_first();
            assert forall|j: int| #![trigger occurs_at(t, p, j)] occurs_at(t, p, j) implies false by {
                assert(t.subrange(j, j + p.len()) == s.subrange(j + 1, j + 1 + p.len()));
                assert(occurs_at(s, p, j + 1));
            }
            lemma_find_seq_absent(t, p);
        }
    }
}

/// The part of `s` before the first occurrence of `p` (all of `s` without one),
/// as `s.split(p).next()` gives it.
pub open spec fn before_first(s: Seq<char>, p: Seq<char>) -> Seq<char> {
    let i = find_seq(s, p);
    if i < 0 { s } else { s.take(i) }
}

/// The part of `s` before the first occurrence of `p`.
pub fn before_first_chars(s: &[char], p: &[char]) -> (r: Vec<char>)
    ensures
        r@ == before_first(s@, p@),
{
    match find(s, p) {
        Some(i) => {
            proof {
                lemma_find_seq_is(s@, p@, i as int);
            }
            let r = sub_chars(s, 0, i);
            assert(r@ == s@.take(i as int));
            r
        },
        None => {
            proof {
                lemma_find_seq_absent(s@, p@);
            }
            let r = sub_chars(s, 0, s.len());
            assert(r@ == s@);
            r
        },
    }
}


// ───────────────────────────── tokens, case, numbers, joins ─────────────────────────────

/// Trimming leading whitespace shortens a string and leaves it starting
/// with a non-whitespace character, if any.
pub proof fn lemma_trim_start_len(s: Seq<char>)
    ensures
        trim_start(s).len() <= s.len(),
        trim_start(s).len() > 0 ==> !is_ws(trim_start(s)[0]),
    decreases s.len(),
{
    if s.len() > 0 && is_ws(s[0]) {
        lemma_trim_start_len(s.drop_first());
    }
}

/// The first whitespace lies within the string, after its first character
/// when that one is not whitespace.
pub proof fn lemma_ws_index_bounds(s: Seq<char>)
    ensures
        0 <= ws_index(s) <= s.len(),
        s.len() > 0 && !is_ws(s[0]) ==> ws_index(s) >= 1,
    decreases s.len(),
{
    if s.len() > 0 && !is_ws(s[0]) {
        lemma_ws_index_bounds(s.drop_first());
    }
}

/// The whitespace-separated tokens of `s` (`str::split_whitespace`).
pub open spec fn tokens(s: Seq<char>) -> Seq<Seq<char>>
    decreases s.len(),
{
    let t = trim_start(s);
    if t.len() == 0 {
        Seq::empty()
    } else {
        let w = ws_index(t);
        proof {
            lemma_trim_start_len(s);
            lemma_ws_index_bounds(t);
        }
        seq![t.take(w)] + tokens(t.skip(w))
    }
}

/// The whitespace-separated tokens of `s`.
pub fn split_whitespace_chars(s: &[char]) -> (r: Vec<Vec<char>>)
    ensures
        views(r@) == tokens(s@),
{
    let mut r: Vec<Vec<char>> = Vec::new();
    let mut pos: usize = 0;
    assert(s@.skip(0) == s@);
    while pos < s.len()
        invariant
            pos <= s@.len(),
            views(r@) + tokens(s@.skip(pos as int)) == tokens(s@),
        decreases s@.len() - pos,
    {
        let ghost u0 = s@.skip(pos as int);
        let mut lo = pos;
        while lo < s.len() && is_ws_exec(s[lo])
            invariant
                pos <= lo <= s@.len(),
                forall|i: int| pos <= i < lo ==> is_ws(s@[i]),
            decreases s@.len() - lo,
        {
            lo = lo + 1;
        }
        proof {
            assert forall|i: int| 0 <= i < lo - pos implies is_ws(u0[i]) by {
                assert(u0[i] == s@[i + pos]);
            }
            lemma_trim_start_skip(u0, lo - pos);
            assert(u0.skip(lo - pos) == s@.skip(lo as int));
        }
        let ghost u = s@.skip(lo as int);
        assert(trim_start(u0) == trim_start(u));
        if lo == s.len() {
            assert(u.len() == 0);
            assert(tokens(u0) == Seq::<Seq<char>>::empty());
            pos = lo;
        } else {
            assert(trim_start(u) == u);
            let mut hi = lo;
            while hi < s.len() && !is_ws_exec(s[hi])
                invariant
                    lo <= hi <= s@.len(),
                    forall|i: int| lo <= i < hi ==> !is_ws(s@[i]),
                decreases s@.len() - hi,
            {
                hi = hi + 1;
            }
            proof {
                assert forall|j: int| 0 <= j < hi - lo implies !is_ws(u[j]) by {
                    assert(u[j] == s@[j + lo]);
                }
                if hi < s.len() {
                    assert(u[hi - lo] == s@[hi as int]);
                }
                lemma_ws_index(u, hi - lo);
                assert(u.take(hi - lo) == s@.subrange(lo as int, hi as int));
                assert(u.skip(hi - lo) == s@.skip(hi as int));
            }
            let tok = sub_chars(s, lo, hi);
            let ghost r0 = views(r@);
            r.push(tok);
            assert(views(r@) == r0.push(tok@));
            assert(r0 + (seq![tok@] + tokens(s@.skip(hi as int))) == r0.push(tok@) + tokens(s@.skip(hi as int)));
            pos = hi;
        }
    }
    proof {
        assert(s@.skip(pos as int).len() == 0);
        lemma_trim_start_len(s@.skip(pos as int));
        assert(tokens(s@.skip(pos as int)) == Seq::<Seq<char>>::empty());
        assert(views(r@) + Seq::<Seq<char>>::empty() == views(r@));
    }
    r
}

/// `c` in lower case when it is an ASCII capital letter.
pub open spec fn ascii_lower(c: char) -> char {
    if 'A' <= c && c <= 'Z' {
        ((c as u32) + 32) as char
    } else {
        c
    }
}

/// `s` with ASCII capitals lowered (`to_ascii_lowercase`).
pub open spec fn lower_seq(s: Seq<char>) -> Seq<char> {
    s.map_values(|c: char| ascii_lower(c))
}

/// `s` with ASCII capitals lowered.
pub fn ascii_lowercase(s: &[char]) -> (r: Vec<char>)
    ensures
        r@ == lower_seq(s@),
{
    let mut r: Vec<char> = Vec::new();
    let mut i: usize = 0;
    while i < s.len()
        invariant
            i <= s@.len(),
            r@ == lower_seq(s@.take(i as int)),
        decreases s@.len() - i,
    {
        let c = s[i];
        let l = if 'A' <= c && c <= 'Z' { ((c as u8) + 32) as char } else { c };
        r.push(l);
        i = i + 1;
        assert(lower_seq(s@.take(i as int)) == lower_seq(s@.take(i - 1)).push(ascii_lower(c)));
    }
    assert(s@.take(i as int) == s@);
    r
}

/// The decimal digit of `d < 10`.
pub open spec fn digit_char(d: nat) -> char {
    ((d + ('0' as u32)) as u32) as char
}

/// The decimal notation of `n`, without leading zeros (`u32`'s `Display`).
pub open spec fn dec_string(n: nat) -> Seq<char>
    decreases n,
{
    if n < 10 {
        seq![digit_char(n)]
    } else {
        dec_string(n / 10).push(digit_char(n % 10))
    }
}

fn push_decimal(n: u32, out: &mut Vec<char>)
    ensures
        final(out)@ == old(out)@ + dec_string(n as nat),
    decreases n,
{
    if n >= 10 {
        push_decimal(n / 10, out);
    }
    let d = n % 10;
    out.push(((d as u8) + 48) as char);
    proof {
        assert(old(out)@ + dec_string(n as nat) == old(out)@ + dec_string((n / 10) as nat) + seq![digit_char((n % 10) as nat)] || n < 10);
    }
}

/// The decimal notation of `n`.
pub fn decimal(n: u32) -> (s: String)
    ensures
        s@ == dec_string(n as nat),
{
    let mut v: Vec<char> = Vec::new();
    push_decimal(n, &mut v);
    assert(v@ == Seq::<char>::empty() + dec_string(n as nat));
    from_chars(v.as_slice())
}

/// The views of a sequence of strings.
pub open spec fn sviews(v: Seq<String>) -> Seq<Seq<char>> {
    v.map_values(|x: String| x@)
}

/// The parts joined with `sep` between consecutive ones (`[..].join(sep)`).
pub open spec fn join_seq(parts: Seq<Seq<char>>, sep: Seq<char>) -> Seq<char>
    decreases parts.len(),
{
    if parts.len() == 0 {
        Seq::empty()
    } else if parts.len() == 1 {
        parts[0]
    } else {
        join_seq(parts.drop_last(), sep) + sep + parts.last()
    }
}

/// The strings joined with `sep`.
pub fn join_strings(parts: &Vec<String>, sep: &str) -> (r: String)
    ensures
        r@ == join_seq(sviews(parts@), sep@),
{
    let mut r = String::new();
    let mut i: usize = 0;
    while i < parts.len()
        invariant
            i <= parts@.len(),
            r@ == join_seq(sviews(parts@.take(i as int)), sep@),
        decreases parts@.len() - i,
    {
        let ghost pre = sviews(parts@.take(i as int));
        assert(sviews(parts@.take(i + 1)) == pre.push(parts@[i as int]@));
        assert(pre.push(parts@[i as int]@).drop_last() == pre);
        if i > 0 {
            r.append(sep);
        }
        r.append(parts[i].as_str());
        i = i + 1;
    }
    assert(parts@.take(i as int) == parts@);
    r
}

/// What `str::parse::<u64>` gives: an optional `+`, then a non-empty digit
/// string of value at most `u64::MAX`.
pub open spec fn parse_u64_spec(s: Seq<char>) -> Option<u64> {
    let d = if s.len() > 0 && s[0] == '+' { s.drop_first() } else { s };
    if d.len() > 0 && all_digits(d) && dec_value(d) <= u64::MAX {
        Some(dec_value(d) as u64)
    } else {
        None
    }
}

/// Parses `s` as a `u64` (`str::parse::<u64>`).
pub fn parse_u64(s: &[char]) -> (r: Option<u64>)
    ensures
        r == parse_u64_spec(s@),
{
    let start: usize = if s.len() > 0 && s[0] == '+' { 1 } else { 0 };
    let ghost d = s@.skip(start as int);
    assert(start == 1 ==> d == s@.drop_first());
    assert(start == 0 ==> d == s@);
    if start >= s.len() {
        return None;
    }
    let mut v: u128 = 0;
    let mut i: usize = start;
    while i < s.len()
        invariant
            start <= i <= s@.len(),
            d == s@.skip(start as int),
            d.len() > 0,
            parse_u64_spec(s@) == (if d.len() > 0 && all_digits(d) && dec_value(d) <= u64::MAX {
                Some(dec_value(d) as u64)
            } else {
                None
            }),
            v as nat == dec_value(d.take(i - start)),
            v <= u64::MAX,
            all_digits(d.take(i - start)),
        decreases s@.len() - i,
    {
        let c = s[i];
        assert(d.take(i + 1 - start).drop_last() == d.take(i - start));
        assert(d.take(i + 1 - start).last() == c);
        if !('0' <= c && c <= '9') {
            assert(!all_digits(d)) by {
                assert(d[i - start] == c);
            }
            return None;
        }
        let dig = (c as u32) - ('0' as u32);
        v = v * 10 + dig as u128;
        i = i + 1;
        assert(all_digits(d.take(i - start))) by {
            assert forall|j: int| 0 <= j < i - start implies '0' <= #[trigger] d.take(i - start)[j] <= '9' by {
                if j < i - start - 1 {
                    assert(d.take(i - start)[j] == d.take(i - start - 1)[j]);
                }
            }
        }
        if v > u64::MAX as u128 {
            proof {
                if all_digits(d) {
                    lemma_dec_value_mono(d, i - start);
                }
            }
            return None;
        }
    }
    assert(d.take(i - start) == d);
    Some(v as u64)
}

} // verus!
