//! Character-level text primitives shared by every renderer and parser of
//! the crate: conversions between `&str`, `String` and `Vec<char>`, the
//! Unicode `White_Space` set, trimming, substring search and splitting.
use vstd::prelude::*;

verus! {

// ---------------------------------------------------------------------
// Conversions
// ---------------------------------------------------------------------

/// The characters of `s`, in order.
pub fn chars_of(s: &str) -> (v: Vec<char>)
    ensures
        v@ == s@,
{
    let mut v: Vec<char> = Vec::new();
    for c in it: s.chars()
        invariant
            it.seq() == s@,
            v@ == it.seq().take(it.index() as int),
    {
        v.push(c);
    }
    v
}

/// Appends one character (`String::push`).
#[verifier::external_body]
pub(crate) fn push_char(s: &mut String, c: char)
    ensures
        final(s)@ == old(s)@.push(c),
{
    s.push(c);
}

/// Appends a string slice (`String::push_str`).
#[verifier::external_body]
pub(crate) fn push_str(s: &mut String, t: &str)
    ensures
        final(s)@ == old(s)@ + t@,
{
    s.push_str(t);
}

/// The texts of a list of strings (for instance, output lines).
pub open spec fn line_texts(v: Seq<String>) -> Seq<Seq<char>> {
    v.map_values(|s: String| s@)
}

/// Pushing a line adds its text.
pub proof fn lemma_line_texts_push(v: Seq<String>, s: String)
    ensures
        line_texts(v.push(s)) == line_texts(v).push(s@),
{
    assert(line_texts(v.push(s)) =~= line_texts(v).push(s@));
}

/// Mapping one more element of a prefix.
pub proof fn lemma_map_take_push<A, B>(s: Seq<A>, i: int, f: spec_fn(A) -> B)
    requires
        0 <= i < s.len(),
    ensures
        s.take(i + 1).map_values(f) == s.take(i).map_values(f).push(f(s[i])),
{
    assert(s.take(i + 1).map_values(f) =~= s.take(i).map_values(f).push(f(s[i])));
}

/// An owned copy of a string slice.
pub fn owned(s: &str) -> (r: String)
    ensures
        r@ == s@,
{
    let mut r = String::new();
    push_str(&mut r, s);
    r
}

/// Appends `v[lo..hi]` to `out`.
pub fn push_range(out: &mut String, v: &Vec<char>, lo: usize, hi: usize)
    requires
        lo <= hi <= v@.len(),
    ensures
        final(out)@ == old(out)@ + v@.subrange(lo as int, hi as int),
{
    let mut i = lo;
    while i < hi
        invariant
            lo <= i <= hi <= v@.len(),
            out@ == old(out)@ + v@.subrange(lo as int, i as int),
        decreases hi - i,
    {
        push_char(out, v[i]);
        proof {
            assert(v@.subrange(lo as int, i + 1) =~= v@.subrange(lo as int, i as int).push(v@[i as int]));
        }
        i = i + 1;
    }
}

/// A new `String` holding `v[lo..hi]`.
pub fn string_of_range(v: &Vec<char>, lo: usize, hi: usize) -> (r: String)
    requires
        lo <= hi <= v@.len(),
    ensures
        r@ == v@.subrange(lo as int, hi as int),
{
    let mut r = String::new();
    push_range(&mut r, v, lo, hi);
    r
}

/// Character-wise equality of two string slices.
pub fn str_eq(a: &str, b: &str) -> (r: bool)
    ensures
        r == (a@ == b@),
{
    let x = chars_of(a);
    let y = chars_of(b);
    seq_eq(&x, &y)
}

/// Element-wise equality of two character vectors.
pub fn seq_eq(x: &Vec<char>, y: &Vec<char>) -> (r: bool)
    ensures
        r == (x@ == y@),
{
    if x.len() != y.len() {
        return false;
    }
    let mut i: usize = 0;
    while i < x.len()
        invariant
            x@.len() == y@.len(),
            i <= x@.len(),
            forall|k: int| 0 <= k < i ==> x@[k] == y@[k],
        decreases x@.len() - i,
    {
        if x[i] != y[i] {
            return false;
        }
        i = i + 1;
    }
    proof {
        assert(x@ =~= y@);
    }
    true
}

// ---------------------------------------------------------------------
// Whitespace and trimming
// ---------------------------------------------------------------------

/// Unicode `White_Space`, the set used by `char::is_whitespace` and
/// `str::trim`.
pub open spec fn is_ws(c: char) -> bool {
    let u = c as u32;
    ||| 0x09 <= u <= 0x0D
    ||| u == 0x20
    ||| u == 0x85
    ||| u == 0xA0
    ||| u == 0x1680
    ||| 0x2000 <= u <= 0x200A
    ||| u == 0x2028
    ||| u == 0x2029
    ||| u == 0x202F
    ||| u == 0x205F
    ||| u == 0x3000
}

/// Executable `char::is_whitespace`.
pub fn is_whitespace(c: char) -> (r: bool)
    ensures
        r == is_ws(c),
{
    let u = c as u32;
    (0x09 <= u && u <= 0x0D) || u == 0x20 || u == 0x85 || u == 0xA0 || u == 0x1680 || (0x2000
        <= u && u <= 0x200A) || u == 0x2028 || u == 0x2029 || u == 0x202F || u == 0x205F || u
        == 0x3000
}

/// Index of the first non-whitespace character (or `s.len()`).
pub open spec fn lead_ws(s: Seq<char>) -> int
    decreases s.len(),
{
    if s.len() > 0 && is_ws(s[0]) {
        1 + lead_ws(s.drop_first())
    } else {
        0
    }
}

/// Length of `s` without its trailing whitespace.
pub open spec fn trail_end(s: Seq<char>) -> int
    decreases s.len(),
{
    if s.len() > 0 && is_ws(s.last()) {
        trail_end(s.drop_last())
    } else {
        s.len() as int
    }
}

/// `str::trim_start`.
pub open spec fn trim_start(s: Seq<char>) -> Seq<char> {
    s.skip(lead_ws(s))
}

/// `str::trim_end`.
pub open spec fn trim_end(s: Seq<char>) -> Seq<char> {
    s.take(trail_end(s))
}

/// `str::trim`.
pub open spec fn trim(s: Seq<char>) -> Seq<char> {
    trim_end(trim_start(s))
}

pub proof fn lemma_lead_ws(s: Seq<char>)
    ensures
        0 <= lead_ws(s) <= s.len(),
        forall|k: int| 0 <= k < lead_ws(s) ==> is_ws(#[trigger] s[k]),
        lead_ws(s) < s.len() ==> !is_ws(s[lead_ws(s)]),
    decreases s.len(),
{
    if s.len() > 0 && is_ws(s[0]) {
        lemma_lead_ws(s.drop_first());
        assert forall|k: int| 0 <= k < lead_ws(s) implies is_ws(#[trigger] s[k]) by {
            if k > 0 {
                assert(s[k] == s.drop_first()[k - 1]);
            }
        }
    }
}

pub proof fn lemma_trail_end(s: Seq<char>)
    ensures
        0 <= trail_end(s) <= s.len(),
        forall|k: int| trail_end(s) <= k < s.len() ==> is_ws(#[trigger] s[k]),
        trail_end(s) > 0 ==> !is_ws(s[trail_end(s) - 1]),
    decreases s.len(),
{
    if s.len() > 0 && is_ws(s.last()) {
        lemma_trail_end(s.drop_last());
        assert forall|k: int| trail_end(s) <= k < s.len() implies is_ws(#[trigger] s[k]) by {
            if k < s.len() - 1 {
                assert(s[k] == s.drop_last()[k]);
            }
        }
    }
}

/// Characterises `lead_ws` by its defining property.
pub proof fn lemma_lead_ws_unique(s: Seq<char>, i: int)
    requires
        0 <= i <= s.len(),
        forall|k: int| 0 <= k < i ==> is_ws(#[trigger] s[k]),
        i < s.len() ==> !is_ws(s[i]),
    ensures
        lead_ws(s) == i,
{
    lemma_lead_ws(s);
    if lead_ws(s) < i {
        assert(is_ws(s[lead_ws(s)]));
    }
    if lead_ws(s) > i {
        assert(is_ws(s[i]));
    }
}

/// Characterises `trail_end` by its defining property.
pub proof fn lemma_trail_end_unique(s: Seq<char>, j: int)
    requires
        0 <= j <= s.len(),
        forall|k: int| j <= k < s.len() ==> is_ws(#[trigger] s[k]),
        j > 0 ==> !is_ws(s[j - 1]),
    ensures
        trail_end(s) == j,
{
    lemma_trail_end(s);
    if trail_end(s) < j {
        assert(is_ws(s[j - 1]));
    }
    if trail_end(s) > j {
        assert(is_ws(s[trail_end(s) - 1]));
    }
}

/// Bounds `[lo, hi)` of `trim(v)` inside `v`.
pub fn trim_bounds(v: &Vec<char>) -> (r: (usize, usize))
    ensures
        r.0 <= r.1 <= v@.len(),
        v@.subrange(r.0 as int, r.1 as int) == trim(v@),
        r.0 as int == lead_ws(v@),
{
    let mut lo: usize = 0;
    while lo < v.len() && is_whitespace(v[lo])
        invariant
            lo <= v@.len(),
            forall|k: int| 0 <= k < lo ==> is_ws(#[trigger] v@[k]),
        decreases v@.len() - lo,
    {
        lo = lo + 1;
    }
    let mut hi: usize = v.len();
    while hi > lo && is_whitespace(v[hi - 1])
        invariant
            lo <= hi <= v@.len(),
            forall|k: int| hi <= k < v@.len() ==> is_ws(#[trigger] v@[k]),
        decreases hi,
    {
        hi = hi - 1;
    }
    proof {
        lemma_lead_ws_unique(v@, lo as int);
        let t = trim_start(v@);
        assert(t =~= v@.skip(lo as int));
        assert forall|k: int| hi - lo <= k < t.len() implies is_ws(#[trigger] t[k]) by {
            assert(t[k] == v@[k + lo]);
        }
        if hi - lo > 0 {
            assert(t[hi - lo - 1] == v@[hi - 1]);
        }
        lemma_trail_end_unique(t, hi - lo);
        assert(trim(v@) =~= v@.subrange(lo as int, hi as int));
    }
    (lo, hi)
}

/// `str::trim`, as an owned string.
pub fn trimmed(s: &str) -> (r: String)
    ensures
        r@ == trim(s@),
{
    let v = chars_of(s);
    let (lo, hi) = trim_bounds(&v);
    string_of_range(&v, lo, hi)
}

// ---------------------------------------------------------------------
// Substring search
// ---------------------------------------------------------------------

/// `needle` occurs in `hay` at position `i`.
pub open spec fn matches_at(hay: Seq<char>, needle: Seq<char>, i: int) -> bool {
    0 <= i && i + needle.len() <= hay.len() && hay.subrange(i, i + needle.len()) == needle
}

/// First occurrence of `needle` in `hay` at or after `i`.
pub open spec fn find_from(hay: Seq<char>, needle: Seq<char>, i: int) -> Option<int>
    decreases hay.len() + 1 - i,
{
    if i < 0 || i + needle.len() > hay.len() {
        None
    } else if matches_at(hay, needle, i) {
        Some(i)
    } else {
        find_from(hay, needle, i + 1)
    }
}

/// `str::find`: the first occurrence of `needle`.
pub open spec fn find(hay: Seq<char>, needle: Seq<char>) -> Option<int> {
    find_from(hay, needle, 0)
}

/// `str::contains`.
pub open spec fn contains(hay: Seq<char>, needle: Seq<char>) -> bool {
    exists|i: int| matches_at(hay, needle, i)
}

/// `str::starts_with`.
pub open spec fn starts_with(s: Seq<char>, p: Seq<char>) -> bool {
    p.len() <= s.len() && s.take(p.len() as int) == p
}

pub proof fn lemma_find_from(hay: Seq<char>, needle: Seq<char>, i: int)
    requires
        0 <= i,
    ensures
        find_from(hay, needle, i) matches Some(j) ==> i <= j && matches_at(hay, needle, j)
            && forall|k: int| i <= k < j ==> !matches_at(hay, needle, k),
        find_from(hay, needle, i) is None ==> forall|k: int|
            i <= k ==> !matches_at(hay, needle, k),
    decreases hay.len() + 1 - i,
{
    if i + needle.len() > hay.len() {
    } else if matches_at(hay, needle, i) {
    } else {
        lemma_find_from(hay, needle, i + 1);
    }
}

/// `find(hay, needle)` is the least matching position.
pub proof fn lemma_find(hay: Seq<char>, needle: Seq<char>)
    ensures
        find(hay, needle) matches Some(j) ==> matches_at(hay, needle, j) && forall|k: int|
            0 <= k < j ==> !matches_at(hay, needle, k),
        find(hay, needle) is None <==> !contains(hay, needle),
{
    lemma_find_from(hay, needle, 0);
}

/// The first occurrence of `needle` is at `i` when it occurs there and at
/// no earlier position.
pub proof fn lemma_find_is(hay: Seq<char>, needle: Seq<char>, i: int)
    requires
        matches_at(hay, needle, i),
        forall|k: int| 0 <= k < i ==> !matches_at(hay, needle, k),
    ensures
        find(hay, needle) == Some(i),
{
    lemma_find(hay, needle);
    assert(contains(hay, needle));
}

/// Does `needle` occur in `hay` at `i`?
pub fn matches_at_exec(hay: &Vec<char>, needle: &Vec<char>, i: usize) -> (r: bool)
    ensures
        r == matches_at(hay@, needle@, i as int),
{
    if i > hay.len() || needle.len() > hay.len() - i {
        return false;
    }
    let mut k: usize = 0;
    while k < needle.len()
        invariant
            i + needle@.len() <= hay@.len(),
            hay@.len() <= usize::MAX,
            k <= needle@.len(),
            forall|m: int| 0 <= m < k ==> hay@[i + m] == needle@[m],
        decreases needle@.len() - k,
    {
        if hay[i + k] != needle[k] {
            proof {
                assert(hay@.subrange(i as int, i + needle@.len())[k as int] != needle@[k as int]);
            }
            return false;
        }
        k = k + 1;
    }
    proof {
        assert(hay@.subrange(i as int, i + needle@.len()) =~= needle@);
    }
    true
}

/// `str::find` over character vectors, searching from `from`.
pub fn find_exec(hay: &Vec<char>, needle: &Vec<char>, from: usize) -> (r: Option<usize>)
    ensures
        r matches Some(j) ==> find_from(hay@, needle@, from as int) == Some(j as int),
        r is None ==> find_from(hay@, needle@, from as int) is None,
{
    if from > hay.len() || needle.len() > hay.len() - from {
        return None;
    }
    if needle.len() == 0 {
        proof {
            assert(hay@.subrange(from as int, from as int) =~= needle@);
        }
        return Some(from);
    }
    let mut i = from;
    while i <= hay.len() && needle.len() <= hay.len() - i
        invariant
            from <= i,
            from + needle@.len() <= hay@.len(),
            needle@.len() > 0,
            find_from(hay@, needle@, from as int) == find_from(hay@, needle@, i as int),
        decreases hay@.len() - i,
    {
        if matches_at_exec(hay, needle, i) {
            return Some(i);
        }
        i = i + 1;
    }
    None
}

/// `str::contains`.
pub fn contains_str(hay: &str, needle: &str) -> (r: bool)
    ensures
        r == contains(hay@, needle@),
{
    let h = chars_of(hay);
    let n = chars_of(needle);
    let f = find_exec(&h, &n, 0);
    proof {
        lemma_find(h@, n@);
    }
    f.is_some()
}

// ---------------------------------------------------------------------
// Single-character positions and splitting
// ---------------------------------------------------------------------

/// First position `>= i` holding `c`.
pub open spec fn char_from(s: Seq<char>, c: char, i: int) -> Option<int>
    decreases s.len() - i,
{
    if i < 0 || i >= s.len() {
        None
    } else if s[i] == c {
        Some(i)
    } else {
        char_from(s, c, i + 1)
    }
}

/// Last position `< j` holding `c`.
pub open spec fn char_before(s: Seq<char>, c: char, j: int) -> Option<int>
    decreases j,
{
    if j <= 0 || j > s.len() {
        None
    } else if s[j - 1] == c {
        Some(j - 1)
    } else {
        char_before(s, c, j - 1)
    }
}

pub proof fn lemma_char_from(s: Seq<char>, c: char, i: int)
    requires
        0 <= i,
    ensures
        char_from(s, c, i) matches Some(j) ==> i <= j < s.len() && s[j] == c && forall|k: int|
            i <= k < j ==> s[k] != c,
        char_from(s, c, i) is None ==> forall|k: int| i <= k < s.len() ==> s[k] != c,
    decreases s.len() - i,
{
    if i < s.len() && s[i] != c {
        lemma_char_from(s, c, i + 1);
    }
}

pub proof fn lemma_char_before(s: Seq<char>, c: char, j: int)
    requires
        j <= s.len(),
    ensures
        char_before(s, c, j) matches Some(i) ==> 0 <= i < j && s[i] == c && forall|k: int|
            i < k < j ==> s[k] != c,
        char_before(s, c, j) is None ==> forall|k: int| 0 <= k < j ==> s[k] != c,
    decreases j,
{
    if j > 0 && s[j - 1] != c {
        lemma_char_before(s, c, j - 1);
    }
}

/// Position of the first `c` in `v` at or after `from`.
pub fn char_from_exec(v: &Vec<char>, c: char, from: usize) -> (r: Option<usize>)
    requires
        from <= v@.len(),
    ensures
        r matches Some(j) ==> char_from(v@, c, from as int) == Some(j as int),
        r is None ==> char_from(v@, c, from as int) is None,
{
    let mut i = from;
    while i < v.len()
        invariant
            from <= i <= v@.len(),
            char_from(v@, c, from as int) == char_from(v@, c, i as int),
        decreases v@.len() - i,
    {
        if v[i] == c {
            return Some(i);
        }
        i = i + 1;
    }
    None
}

/// Position of the last `c` in `v[..to]`.
pub fn char_before_exec(v: &Vec<char>, c: char, to: usize) -> (r: Option<usize>)
    requires
        to <= v@.len(),
    ensures
        r matches Some(j) ==> char_before(v@, c, to as int) == Some(j as int),
        r is None ==> char_before(v@, c, to as int) is None,
{
    let mut j = to;
    while j > 0
        invariant
            j <= to <= v@.len(),
            char_before(v@, c, to as int) == char_before(v@, c, j as int),
        decreases j,
    {
        if v[j - 1] == c {
            return Some(j - 1);
        }
        j = j - 1;
    }
    None
}

/// The text before the first `c` (all of `s` when there is none): the
/// first item of `s.split(c)`.
pub open spec fn before_char(s: Seq<char>, c: char) -> Seq<char> {
    match char_from(s, c, 0) {
        Some(i) => s.take(i),
        None => s,
    }
}

/// `s.split_once(p)`.
pub open spec fn split_once(s: Seq<char>, p: Seq<char>) -> Option<(Seq<char>, Seq<char>)> {
    match find(s, p) {
        Some(i) => Some((s.take(i), s.skip(i + p.len()))),
        None => None,
    }
}

/// `s.rsplit_once(c)`.
pub open spec fn rsplit_once_char(s: Seq<char>, c: char) -> Option<(Seq<char>, Seq<char>)> {
    match char_before(s, c, s.len() as int) {
        Some(i) => Some((s.take(i), s.skip(i + 1))),
        None => None,
    }
}

// ---------------------------------------------------------------------
// Lines
// ---------------------------------------------------------------------

/// A line without the `'\r'` that preceded its `'\n'`.
pub open spec fn strip_cr(l: Seq<char>) -> Seq<char> {
    if l.len() > 0 && l.last() == '\r' {
        l.drop_last()
    } else {
        l
    }
}

#[verifier::opaque]
/// `str::lines`: split at `"\n"` or `"\r\n"`; a final line ending is
/// optional and does not produce an empty last line.
pub open spec fn lines(s: Seq<char>) -> Seq<Seq<char>>
    decreases s.len(),
{
    if s.len() == 0 {
        Seq::empty()
    } else {
        match char_from(s, '\n', 0) {
            Some(i) => {
                if 0 <= i < s.len() {
                    seq![strip_cr(s.take(i))] + lines(s.skip(i + 1))
                } else {
                    seq![s]
                }
            },
            None => seq![s],
        }
    }
}

/// A range `[lo, hi)` of `v`.
pub open spec fn range_of(v: Seq<char>, r: (usize, usize)) -> Seq<char> {
    v.subrange(r.0 as int, r.1 as int)
}

pub proof fn lemma_char_from_shift(s: Seq<char>, c: char, p: int, i: int)
    requires
        0 <= p <= i,
        p <= s.len(),
    ensures
        char_from(s.skip(p), c, i - p) == match char_from(s, c, i) {
            Some(j) => Some(j - p),
            None => None::<int>,
        },
    decreases s.len() - i,
{
    if i < s.len() && s[i] != c {
        lemma_char_from_shift(s, c, p, i + 1);
    }
}

/// The lines of `v`, as ranges into `v`.
pub fn line_ranges(v: &Vec<char>) -> (r: Vec<(usize, usize)>)
    ensures
        r@.len() == lines(v@).len(),
        forall|k: int|
            0 <= k < r@.len() ==> #[trigger] r@[k].0 <= r@[k].1 <= v@.len() && range_of(
                v@,
                r@[k],
            ) == lines(v@)[k],
{
    let mut r: Vec<(usize, usize)> = Vec::new();
    let mut pos: usize = 0;
    proof {
        reveal(lines);
        assert(v@.skip(0) =~= v@);
        assert(r@.map_values(|x: (usize, usize)| range_of(v@, x)) + lines(v@) =~= lines(v@));
    }
    while pos < v.len()
        invariant
            pos <= v@.len(),
            lines(v@) == r@.map_values(|x: (usize, usize)| range_of(v@, x)) + lines(v@.skip(
                pos as int,
            )),
            forall|k: int| 0 <= k < r@.len() ==> #[trigger] r@[k].0 <= r@[k].1 <= v@.len(),
        decreases v@.len() - pos,
    {
        let ghost rest = v@.skip(pos as int);
        let nl = char_from_exec(v, '\n', pos);
        proof {
            reveal(lines);
            lemma_char_from_shift(v@, '\n', pos as int, pos as int);
        }
        match nl {
            Some(i) => {
                proof {
                    lemma_char_from(v@, '\n', pos as int);
                }
                let hi = if i > pos && v[i - 1] == '\r' {
                    i - 1
                } else {
                    i
                };
                let ghost old_r = r@;
                r.push((pos, hi));
                proof {
                    let li = i - pos;
                    assert(rest.take(li) =~= v@.subrange(pos as int, i as int));
                    assert(strip_cr(rest.take(li)) =~= v@.subrange(pos as int, hi as int));
                    assert(rest.skip(li + 1) =~= v@.skip(i + 1));
                    assert(r@.map_values(|x: (usize, usize)| range_of(v@, x)) =~= old_r.map_values(
                        |x: (usize, usize)| range_of(v@, x),
                    ).push(v@.subrange(pos as int, hi as int)));
                }
                pos = i + 1;
            },
            None => {
                let ghost old_r = r@;
                r.push((pos, v.len()));
                proof {
                    assert(rest =~= v@.subrange(pos as int, v@.len() as int));
                    assert(v@.skip(v@.len() as int) =~= Seq::<char>::empty());
                    assert(r@.map_values(|x: (usize, usize)| range_of(v@, x)) =~= old_r.map_values(
                        |x: (usize, usize)| range_of(v@, x),
                    ).push(rest));
                }
                pos = v.len();
            },
        }
    }
    proof {
        reveal(lines);
        assert(v@.skip(pos as int) =~= Seq::<char>::empty());
        assert(lines(v@) =~= r@.map_values(|x: (usize, usize)| range_of(v@, x)));
        assert forall|k: int| 0 <= k < r@.len() implies #[trigger] r@[k].0 <= r@[k].1 <= v@.len()
            && range_of(v@, r@[k]) == lines(v@)[k] by {
            assert(lines(v@)[k] == r@.map_values(|x: (usize, usize)| range_of(v@, x))[k]);
        }
    }
    r
}


/// A new vector holding `v[lo..hi]`.
pub fn sub_vec(v: &Vec<char>, lo: usize, hi: usize) -> (r: Vec<char>)
    requires
        lo <= hi <= v@.len(),
    ensures
        r@ == v@.subrange(lo as int, hi as int),
{
    let mut r: Vec<char> = Vec::new();
    let mut i = lo;
    while i < hi
        invariant
            lo <= i <= hi <= v@.len(),
            r@ == v@.subrange(lo as int, i as int),
        decreases hi - i,
    {
        r.push(v[i]);
        proof {
            assert(v@.subrange(lo as int, i + 1) =~= v@.subrange(lo as int, i as int).push(v@[i as int]));
        }
        i = i + 1;
    }
    r
}

/// A `String` holding the characters of `v`.
pub fn string_of(v: &Vec<char>) -> (r: String)
    ensures
        r@ == v@,
{
    let r = string_of_range(v, 0, v.len());
    proof {
        assert(v@.subrange(0, v@.len() as int) =~= v@);
    }
    r
}


/// The texts of an optional string.
pub open spec fn opt_text(o: Option<String>) -> Option<Seq<char>> {
    match o {
        Some(s) => Some(s@),
        None => None,
    }
}

/// An optional text, or `d` when there is none.
pub open spec fn or_text(o: Option<String>, d: Seq<char>) -> Seq<char> {
    match o {
        Some(s) => s@,
        None => d,
    }
}

/// Appends an optional text, or `d` when there is none.
pub fn push_or(out: &mut String, o: &Option<String>, d: &str)
    ensures
        final(out)@ == old(out)@ + or_text(*o, d@),
{
    match o {
        Some(s) => push_str(out, s.as_str()),
        None => push_str(out, d),
    }
}

} // verus!
