//! Route drift: the HTTP routes that the server's code declares, set
//! against the routes its documentation lists, sorted into three buckets
//! (`missing_in_docs`, `missing_in_code`, `method_mismatch`).
use vstd::prelude::*;
use crate::cells::{join, push_join};
use crate::order::{TextKeyed, key_lt, text_lt, sorted_keys, insert_sorted, lemma_text_lt_irreflexive, lemma_sorted_texts_unique, lemma_sorted_unique_keys};
use crate::text::{lemma_find_is, chars_of, owned, push_str, str_eq, sub_vec, string_of, find, find_exec, line_texts, lemma_line_texts_push};
use crate::numeric::{dec, dec_string, push_dec};

verus! {

/// One routing declaration: a path, the HTTP methods it answers, and the
/// file it was read from.
pub struct RouteEntry {
    pub path: String,
    pub methods: Vec<String>,
    pub file: String,
}

/// One drift item.
pub struct Violation {
    /// `missing_in_docs`, `missing_in_code` or `method_mismatch`.
    pub kind: String,
    pub path: String,
    /// The method, empty for `method_mismatch`.
    pub method: String,
    pub file: String,
    pub detail: String,
}

/// A violation as plain texts: (kind, path, method, file, detail).
pub type ViolationView = (Seq<char>, Seq<char>, Seq<char>, Seq<char>, Seq<char>);

impl View for Violation {
    type V = ViolationView;

    open spec fn view(&self) -> ViolationView {
        (self.kind@, self.path@, self.method@, self.file@, self.detail@)
    }
}

/// A (method, path) pair.
pub struct RoutePair {
    pub method: String,
    pub path: String,
}

impl TextKeyed for RoutePair {
    open spec fn key(&self) -> Seq<Seq<char>> {
        seq![self.method@, self.path@]
    }

    fn key_chars(&self) -> (r: Vec<Vec<char>>) {
        let mut r: Vec<Vec<char>> = Vec::new();
        r.push(chars_of(self.method.as_str()));
        r.push(chars_of(self.path.as_str()));
        r
    }
}

impl TextKeyed for Violation {
    /// Violations are ordered by kind, then path, then method.
    open spec fn key(&self) -> Seq<Seq<char>> {
        seq![self.kind@, self.path@, self.method@]
    }

    fn key_chars(&self) -> (r: Vec<Vec<char>>) {
        let mut r: Vec<Vec<char>> = Vec::new();
        r.push(chars_of(self.kind.as_str()));
        r.push(chars_of(self.path.as_str()));
        r.push(chars_of(self.method.as_str()));
        r
    }
}

// ---------------------------------------------------------------------
// The model of a route list
// ---------------------------------------------------------------------

/// Some entry declares method `m` on path `p`.
pub open spec fn declares(entries: Seq<RouteEntry>, m: Seq<char>, p: Seq<char>) -> bool {
    exists|i: int, k: int|
        #![trigger entries[i].methods@[k]]
        0 <= i < entries.len() && 0 <= k < entries[i].methods@.len() && entries[i].methods@[k]@
            == m && entries[i].path@ == p
}

/// Some entry is about path `p` (even one with no method).
pub open spec fn has_path(entries: Seq<RouteEntry>, p: Seq<char>) -> bool {
    exists|i: int| 0 <= i < entries.len() && (#[trigger] entries[i]).path@ == p
}

/// The methods declared on `p`.
pub open spec fn path_methods(entries: Seq<RouteEntry>, p: Seq<char>) -> Set<Seq<char>> {
    Set::new(|m: Seq<char>| declares(entries, m, p))
}

/// The file of the first entry at or after `i` about `p`, empty if none.
pub open spec fn path_file_from(entries: Seq<RouteEntry>, p: Seq<char>, i: int) -> Seq<char>
    decreases entries.len() - i,
{
    if i < 0 || i >= entries.len() {
        Seq::empty()
    } else if entries[i].path@ == p {
        entries[i].file@
    } else {
        path_file_from(entries, p, i + 1)
    }
}

/// The file of the first entry about `p`, empty if none.
pub open spec fn path_file(entries: Seq<RouteEntry>, p: Seq<char>) -> Seq<char> {
    path_file_from(entries, p, 0)
}

/// `s` lists the texts of `set` in strictly increasing order.
pub open spec fn lists_sorted(s: Seq<Seq<char>>, set: Set<Seq<char>>) -> bool {
    &&& forall|i: int, j: int| 0 <= i < j < s.len() ==> text_lt(#[trigger] s[i], #[trigger] s[j])
    &&& s.to_set() == set
}

/// The texts of a list of strings.
pub open spec fn texts(v: Seq<String>) -> Seq<Seq<char>> {
    v.map_values(|s: String| s@)
}

/// A string list is strictly sorted by its texts.
pub open spec fn sorted_strings(v: Seq<String>) -> bool {
    forall|i: int, j: int| 0 <= i < j < v.len() ==> text_lt(#[trigger] v[i]@, #[trigger] v[j]@)
}

pub proof fn lemma_singleton_key_lt(a: Seq<char>, b: Seq<char>)
    ensures
        key_lt(seq![a], seq![b]) == text_lt(a, b),
{
    reveal_with_fuel(key_lt, 2);
    assert(seq![a].drop_first() =~= Seq::<Seq<char>>::empty());
    assert(seq![b].drop_first() =~= Seq::<Seq<char>>::empty());
    if a == b {
        lemma_text_lt_irreflexive(a);
    }
}

/// A string vector sorted as `TextKeyed` is sorted by its texts.
pub proof fn lemma_sorted_strings(v: Seq<String>)
    ensures
        sorted_keys(v) == sorted_strings(v),
{
    if sorted_keys(v) {
        assert forall|i: int, j: int| 0 <= i < j < v.len() implies text_lt(
            #[trigger] v[i]@,
            #[trigger] v[j]@,
        ) by {
            lemma_singleton_key_lt(v[i]@, v[j]@);
            assert(key_lt(v[i].key(), v[j].key()));
        }
    }
    if sorted_strings(v) {
        assert forall|i: int, j: int| 0 <= i < j < v.len() implies key_lt(
            #[trigger] v[i].key(),
            #[trigger] v[j].key(),
        ) by {
            lemma_singleton_key_lt(v[i]@, v[j]@);
            assert(text_lt(v[i]@, v[j]@));
        }
    }
}

/// Some pair of `out` is `(m, p)`.
pub open spec fn covered(out: Seq<RoutePair>, m: Seq<char>, p: Seq<char>) -> bool {
    exists|k: int| 0 <= k < out.len() && (#[trigger] out[k]).method@ == m && out[k].path@ == p
}

// ---------------------------------------------------------------------
// Queries on a route list
// ---------------------------------------------------------------------

/// Does some entry speak of `p`?
pub fn has_path_exec(entries: &Vec<RouteEntry>, p: &String) -> (r: bool)
    ensures
        r == has_path(entries@, p@),
{
    let mut i: usize = 0;
    while i < entries.len()
        invariant
            i <= entries@.len(),
            forall|k: int| 0 <= k < i ==> (#[trigger] entries@[k]).path@ != p@,
        decreases entries@.len() - i,
    {
        if str_eq(entries[i].path.as_str(), p.as_str()) {
            return true;
        }
        i = i + 1;
    }
    false
}

/// The file of the first entry about `p`, empty when there is none.
pub fn file_of_path(entries: &Vec<RouteEntry>, p: &String) -> (r: String)
    ensures
        r@ == path_file(entries@, p@),
{
    let mut i: usize = 0;
    while i < entries.len()
        invariant
            i <= entries@.len(),
            path_file(entries@, p@) == path_file_from(entries@, p@, i as int),
        decreases entries@.len() - i,
    {
        if str_eq(entries[i].path.as_str(), p.as_str()) {
            return entries[i].file.clone();
        }
        i = i + 1;
    }
    String::new()
}

/// The distinct (method, path) pairs that the entries declare, in
/// increasing order.
pub fn pairs(entries: &Vec<RouteEntry>) -> (out: Vec<RoutePair>)
    ensures
        sorted_keys(out@),
        forall|k: int|
            0 <= k < out@.len() ==> declares(entries@, (#[trigger] out@[k]).method@, out@[k].path@),
        forall|m: Seq<char>, p: Seq<char>| declares(entries@, m, p) ==> covered(out@, m, p),
{
    let mut out: Vec<RoutePair> = Vec::new();
    let mut i: usize = 0;
    while i < entries.len()
        invariant
            i <= entries@.len(),
            sorted_keys(out@),
            forall|k: int|
                0 <= k < out@.len() ==> declares(entries@, (#[trigger] out@[k]).method@, out@[k].path@),
            forall|a: int, b: int|
                0 <= a < i && 0 <= b < entries@[a].methods@.len() ==> covered(
                    out@,
                    (#[trigger] entries@[a].methods@[b])@,
                    entries@[a].path@,
                ),
        decreases entries@.len() - i,
    {
        let e = &entries[i];
        let mut j: usize = 0;
        while j < e.methods.len()
            invariant
                i < entries@.len(),
                *e == entries@[i as int],
                j <= e.methods@.len(),
                sorted_keys(out@),
                forall|k: int|
                    0 <= k < out@.len() ==> declares(entries@, (#[trigger] out@[k]).method@, out@[k].path@),
                forall|a: int, b: int|
                    0 <= a < i && 0 <= b < entries@[a].methods@.len() ==> covered(
                        out@,
                        (#[trigger] entries@[a].methods@[b])@,
                        entries@[a].path@,
                    ),
                forall|b: int|
                    0 <= b < j ==> covered(out@, (#[trigger] e.methods@[b])@, e.path@),
            decreases e.methods@.len() - j,
        {
            let x = RoutePair { method: e.methods[j].clone(), path: e.path.clone() };
            proof {
                assert(declares(entries@, x.method@, x.path@)) by {
                    assert(entries@[i as int].methods@[j as int]@ == x.method@);
                }
            }
            let ghost before = out@;
            let inserted = insert_sorted(&mut out, x);
            proof {
                if inserted {
                    let q = choose|q: int| 0 <= q <= before.len() && out@ == before.insert(q, x);
                    assert(out@[q] == x);
                    assert forall|k: int| 0 <= k < out@.len() implies declares(
                        entries@,
                        (#[trigger] out@[k]).method@,
                        out@[k].path@,
                    ) by {
                        if k < q {
                            assert(out@[k] == before[k]);
                        } else if k > q {
                            assert(out@[k] == before[k - 1]);
                        }
                    }
                    assert forall|m: Seq<char>, p: Seq<char>| covered(before, m, p) implies covered(
                        out@,
                        m,
                        p,
                    ) by {
                        let k = choose|k: int|
                            0 <= k < before.len() && (#[trigger] before[k]).method@ == m && before[k].path@ == p;
                        if k < q {
                            assert(out@[k] == before[k]);
                        } else {
                            assert(out@[k + 1] == before[k]);
                        }
                    }
                    assert(covered(out@, x.method@, x.path@));
                } else {
                    let k = choose|k: int| 0 <= k < before.len() && (#[trigger] before[k]).key() == x.key();
                    assert(before[k].key()[0] == x.method@);
                    assert(before[k].key()[1] == x.path@);
                    assert(covered(out@, x.method@, x.path@));
                }
            }
            j = j + 1;
        }
        i = i + 1;
    }
    out
}

/// Some string of `v` holds the text `t`.
pub open spec fn has_text(v: Seq<String>, t: Seq<char>) -> bool {
    exists|k: int| 0 <= k < v.len() && (#[trigger] v[k])@ == t
}

/// Adds a text to a strictly sorted string list, unless it is there.
pub fn add_text(v: &mut Vec<String>, x: String)
    requires
        sorted_strings(old(v)@),
    ensures
        sorted_strings(final(v)@),
        forall|t: Seq<char>| has_text(final(v)@, t) == (has_text(old(v)@, t) || t == x@),
{
    proof {
        lemma_sorted_strings(v@);
    }
    let ghost before = v@;
    let ghost xv = x@;
    let inserted = insert_sorted(v, x);
    proof {
        lemma_sorted_strings(v@);
        if inserted {
            let q = choose|q: int| 0 <= q <= before.len() && v@ == before.insert(q, x);
            assert forall|t: Seq<char>| has_text(v@, t) == (has_text(before, t) || t == xv) by {
                if has_text(v@, t) {
                    let k = choose|k: int| 0 <= k < v@.len() && (#[trigger] v@[k])@ == t;
                    if k < q {
                        assert(v@[k] == before[k]);
                    } else if k > q {
                        assert(v@[k] == before[k - 1]);
                    }
                }
                if has_text(before, t) {
                    let k = choose|k: int| 0 <= k < before.len() && (#[trigger] before[k])@ == t;
                    if k < q {
                        assert(v@[k] == before[k]);
                    } else {
                        assert(v@[k + 1] == before[k]);
                    }
                }
                if t == xv {
                    assert(v@[q]@ == t);
                }
            }
        } else {
            let k = choose|k: int| 0 <= k < before.len() && (#[trigger] before[k]).key() == x.key();
            assert(before[k].key()[0] == xv);
            assert(has_text(before, xv));
        }
    }
}

/// The texts of a strictly sorted string list list them in order.
pub proof fn lemma_texts_list(v: Seq<String>, set: Set<Seq<char>>)
    requires
        sorted_strings(v),
        forall|t: Seq<char>| has_text(v, t) == set.contains(t),
    ensures
        lists_sorted(texts(v), set),
{
    let tv = texts(v);
    assert forall|i: int, j: int| 0 <= i < j < tv.len() implies text_lt(#[trigger] tv[i], #[trigger] tv[j]) by {
        assert(text_lt(v[i]@, v[j]@));
    }
    assert forall|t: Seq<char>| tv.to_set().contains(t) == set.contains(t) by {
        if tv.to_set().contains(t) {
            let k = choose|k: int| 0 <= k < tv.len() && tv[k] == t;
            assert(v[k]@ == t);
        }
        if set.contains(t) {
            let k = choose|k: int| 0 <= k < v.len() && (#[trigger] v[k])@ == t;
            assert(tv[k] == t);
        }
    }
    assert(tv.to_set() =~= set);
}

/// The distinct paths that the entries speak of, in increasing order.
pub fn paths(entries: &Vec<RouteEntry>) -> (out: Vec<String>)
    ensures
        sorted_strings(out@),
        forall|p: Seq<char>| has_text(out@, p) == has_path(entries@, p),
{
    let mut out: Vec<String> = Vec::new();
    let mut i: usize = 0;
    while i < entries.len()
        invariant
            i <= entries@.len(),
            sorted_strings(out@),
            forall|p: Seq<char>|
                has_text(out@, p) == exists|a: int| 0 <= a < i && (#[trigger] entries@[a]).path@ == p,
        decreases entries@.len() - i,
    {
        add_text(&mut out, entries[i].path.clone());
        proof {
            assert forall|p: Seq<char>|
                has_text(out@, p) == exists|a: int| 0 <= a < i + 1 && (#[trigger] entries@[a]).path@ == p by {
                if p == entries@[i as int].path@ {
                    assert(entries@[i as int].path@ == p);
                }
            }
        }
        i = i + 1;
    }
    out
}

/// Some entry before index `n` declares `m` on `p`.
pub open spec fn declared_before(entries: Seq<RouteEntry>, m: Seq<char>, p: Seq<char>, n: int) -> bool {
    exists|a: int, b: int|
        #![trigger entries[a].methods@[b]]
        0 <= a < n && 0 <= b < entries[a].methods@.len() && entries[a].methods@[b]@ == m
            && entries[a].path@ == p
}

/// One of the first `n` methods of `e` is `m`.
pub open spec fn lists_method(e: RouteEntry, m: Seq<char>, n: int) -> bool {
    exists|b: int| 0 <= b < n && (#[trigger] e.methods@[b])@ == m
}

/// The distinct methods declared on `p`, in increasing order.
pub fn methods_of(entries: &Vec<RouteEntry>, p: &String) -> (out: Vec<String>)
    ensures
        sorted_strings(out@),
        lists_sorted(texts(out@), path_methods(entries@, p@)),
{
    let mut out: Vec<String> = Vec::new();
    let mut i: usize = 0;
    while i < entries.len()
        invariant
            i <= entries@.len(),
            sorted_strings(out@),
            forall|m: Seq<char>| has_text(out@, m) == declared_before(entries@, m, p@, i as int),
        decreases entries@.len() - i,
    {
        let e = &entries[i];
        if str_eq(e.path.as_str(), p.as_str()) {
            let mut j: usize = 0;
            while j < e.methods.len()
                invariant
                    i < entries@.len(),
                    *e == entries@[i as int],
                    e.path@ == p@,
                    j <= e.methods@.len(),
                    sorted_strings(out@),
                    forall|m: Seq<char>|
                        has_text(out@, m) == (declared_before(entries@, m, p@, i as int)
                            || lists_method(*e, m, j as int)),
                decreases e.methods@.len() - j,
            {
                add_text(&mut out, e.methods[j].clone());
                proof {
                    assert forall|m: Seq<char>|
                        has_text(out@, m) == (declared_before(entries@, m, p@, i as int)
                            || lists_method(*e, m, j + 1)) by {
                        if m == e.methods@[j as int]@ {
                            assert(e.methods@[j as int]@ == m);
                        }
                        if lists_method(*e, m, j + 1) && !lists_method(*e, m, j as int) {
                            assert(e.methods@[j as int]@ == m);
                        }
                    }
                }
                j = j + 1;
            }
            proof {
                assert forall|m: Seq<char>|
                    has_text(out@, m) == declared_before(entries@, m, p@, i + 1) by {
                    if lists_method(*e, m, e.methods@.len() as int) {
                        let b = choose|b: int| 0 <= b < e.methods@.len() && (#[trigger] e.methods@[b])@ == m;
                        assert(entries@[i as int].methods@[b]@ == m);
                    }
                    if declared_before(entries@, m, p@, i + 1) && !declared_before(entries@, m, p@, i as int) {
                        let (a, b) = choose|a: int, b: int|
                            #![trigger entries@[a].methods@[b]]
                            0 <= a < i + 1 && 0 <= b < entries@[a].methods@.len()
                                && entries@[a].methods@[b]@ == m && entries@[a].path@ == p@;
                        assert(a == i);
                        assert(e.methods@[b]@ == m);
                    }
                }
            }
        } else {
            proof {
                assert forall|m: Seq<char>|
                    has_text(out@, m) == declared_before(entries@, m, p@, i + 1) by {
                    if declared_before(entries@, m, p@, i + 1) && !declared_before(entries@, m, p@, i as int) {
                        let (a, b) = choose|a: int, b: int|
                            #![trigger entries@[a].methods@[b]]
                            0 <= a < i + 1 && 0 <= b < entries@[a].methods@.len()
                                && entries@[a].methods@[b]@ == m && entries@[a].path@ == p@;
                        assert(a == i);
                    }
                }
            }
        }
        i = i + 1;
    }
    proof {
        assert forall|m: Seq<char>| has_text(out@, m) == path_methods(entries@, p@).contains(m) by {
            if declares(entries@, m, p@) {
                let (a, b) = choose|a: int, b: int|
                    #![trigger entries@[a].methods@[b]]
                    0 <= a < entries@.len() && 0 <= b < entries@[a].methods@.len()
                        && entries@[a].methods@[b]@ == m && entries@[a].path@ == p@;
                assert(declared_before(entries@, m, p@, entries@.len() as int));
            }
        }
        lemma_texts_list(out@, path_methods(entries@, p@));
    }
    out
}

// ---------------------------------------------------------------------
// The drift between code and documentation
// ---------------------------------------------------------------------

/// What `missing_in_docs` says of method `m` on path `p`.
pub open spec fn missing_in_docs_view(code: Seq<RouteEntry>, m: Seq<char>, p: Seq<char>) -> ViolationView {
    (
        "missing_in_docs"@,
        p,
        m,
        path_file(code, p),
        m + " "@ + p + " declared in code but absent from ARCHITECTURE.md / AGENTS.md"@,
    )
}

/// What `missing_in_code` says of method `m` on path `p`.
pub open spec fn missing_in_code_view(docs: Seq<RouteEntry>, m: Seq<char>, p: Seq<char>) -> ViolationView {
    ("missing_in_code"@, p, m, path_file(docs, p), m + " "@ + p + " documented but no axum route declares it"@)
}

/// The detail of a `method_mismatch` on `p`, code methods `cs`, doc methods `ds`.
pub open spec fn mismatch_detail(p: Seq<char>, cs: Seq<Seq<char>>, ds: Seq<Seq<char>>) -> Seq<char> {
    p + ": code methods ["@ + join(cs, ","@) + "] differ from doc methods ["@ + join(ds, ","@) + "]"@
}

/// The texts of `set` in strictly increasing order (the one such list,
/// where `set` is finite).
pub open spec fn listing(set: Set<Seq<char>>) -> Seq<Seq<char>> {
    choose|s: Seq<Seq<char>>| lists_sorted(s, set)
}

/// What `method_mismatch` says of path `p`: both method sets, each listed
/// in increasing order and comma-separated.
pub open spec fn mismatch_view(code: Seq<RouteEntry>, docs: Seq<RouteEntry>, p: Seq<char>) -> ViolationView {
    (
        "method_mismatch"@,
        p,
        Seq::empty(),
        path_file(code, p),
        mismatch_detail(p, listing(path_methods(code, p)), listing(path_methods(docs, p))),
    )
}

/// `v` is a drift item between `code` and `docs`:
/// - a method declared in code on a path that no document mentions;
/// - a method documented on a path that no code declares;
/// - a path both sides know whose method sets differ.
pub open spec fn is_drift(code: Seq<RouteEntry>, docs: Seq<RouteEntry>, v: ViolationView) -> bool {
    ||| exists|m: Seq<char>, p: Seq<char>|
        declares(code, m, p) && !has_path(docs, p) && v == #[trigger] missing_in_docs_view(code, m, p)
    ||| exists|m: Seq<char>, p: Seq<char>|
        declares(docs, m, p) && !has_path(code, p) && v == #[trigger] missing_in_code_view(docs, m, p)
    ||| exists|p: Seq<char>|
        has_path(code, p) && has_path(docs, p) && path_methods(code, p) != path_methods(docs, p) && v
            == #[trigger] mismatch_view(code, docs, p)
}

/// The order key of a violation view: (kind, path, method).
pub open spec fn view_key(v: ViolationView) -> Seq<Seq<char>> {
    seq![v.0, v.1, v.2]
}

/// Some element of `s` has view `v`.
pub open spec fn has_view(s: Seq<Violation>, v: ViolationView) -> bool {
    exists|k: int| 0 <= k < s.len() && (#[trigger] s[k])@ == v
}

pub proof fn lemma_kinds_differ()
    ensures
        "missing_in_docs"@ != "missing_in_code"@,
        "missing_in_docs"@ != "method_mismatch"@,
        "missing_in_code"@ != "method_mismatch"@,
{
    reveal_strlit("missing_in_docs");
    reveal_strlit("missing_in_code");
    reveal_strlit("method_mismatch");
    assert("missing_in_docs"@[11] != "missing_in_code"@[11]);
    assert("missing_in_docs"@[1] != "method_mismatch"@[1]);
    assert("missing_in_code"@[1] != "method_mismatch"@[1]);
}

/// Two sorted listings of one set are the same list.
pub proof fn lemma_listing_unique(a: Seq<Seq<char>>, b: Seq<Seq<char>>, set: Set<Seq<char>>)
    requires
        lists_sorted(a, set),
        lists_sorted(b, set),
    ensures
        a == b,
{
    lemma_sorted_texts_unique(a, b);
}

/// A sorted listing of a set is its listing.
pub proof fn lemma_listing_is(s: Seq<Seq<char>>, set: Set<Seq<char>>)
    requires
        lists_sorted(s, set),
    ensures
        listing(set) == s,
{
    let c = listing(set);
    assert(lists_sorted(c, set));
    lemma_listing_unique(c, s, set);
}

/// Two drift items with one key are one item.
pub proof fn lemma_drift_key_unique(
    code: Seq<RouteEntry>,
    docs: Seq<RouteEntry>,
    v: ViolationView,
    w: ViolationView,
)
    requires
        is_drift(code, docs, v),
        is_drift(code, docs, w),
        view_key(v) == view_key(w),
    ensures
        v == w,
{
    lemma_kinds_differ();
    assert(view_key(v)[0] == v.0 && view_key(w)[0] == w.0);
    assert(view_key(v)[1] == v.1 && view_key(w)[1] == w.1);
    assert(view_key(v)[2] == v.2 && view_key(w)[2] == w.2);
}

/// Adds a drift item to the sorted output.
fn add_violation(out: &mut Vec<Violation>, v: Violation, code: &Vec<RouteEntry>, docs: &Vec<RouteEntry>)
    requires
        sorted_keys(old(out)@),
        forall|k: int| 0 <= k < old(out)@.len() ==> is_drift(code@, docs@, (#[trigger] old(out)@[k])@),
        is_drift(code@, docs@, v@),
    ensures
        sorted_keys(final(out)@),
        forall|k: int| 0 <= k < final(out)@.len() ==> is_drift(code@, docs@, (#[trigger] final(out)@[k])@),
        has_view(final(out)@, v@),
        forall|w: ViolationView| has_view(old(out)@, w) ==> has_view(final(out)@, w),
{
    let ghost before = out@;
    let ghost vv = v@;
    let ghost vk = v.key();
    let inserted = insert_sorted(out, v);
    proof {
        if inserted {
            let q = choose|q: int| 0 <= q <= before.len() && out@ == before.insert(q, v);
            assert(out@[q]@ == vv);
            assert forall|k: int| 0 <= k < out@.len() implies is_drift(code@, docs@, (#[trigger] out@[k])@) by {
                if k < q {
                    assert(out@[k] == before[k]);
                } else if k > q {
                    assert(out@[k] == before[k - 1]);
                }
            }
            assert forall|w: ViolationView| has_view(before, w) implies has_view(out@, w) by {
                let k = choose|k: int| 0 <= k < before.len() && (#[trigger] before[k])@ == w;
                if k < q {
                    assert(out@[k] == before[k]);
                } else {
                    assert(out@[k + 1] == before[k]);
                }
            }
        } else {
            let k = choose|k: int| 0 <= k < before.len() && (#[trigger] before[k]).key() == vk;
            assert(view_key(before[k]@) == before[k].key());
            assert(view_key(vv) == vk);
            lemma_drift_key_unique(code@, docs@, before[k]@, vv);
            assert(has_view(out@, vv));
        }
    }
}

/// `a` and `b` hold the same texts in the same order.
pub fn same_strings(a: &Vec<String>, b: &Vec<String>) -> (r: bool)
    ensures
        r == (texts(a@) == texts(b@)),
{
    if a.len() != b.len() {
        proof {
            assert(texts(a@).len() != texts(b@).len());
        }
        return false;
    }
    let mut i: usize = 0;
    while i < a.len()
        invariant
            a@.len() == b@.len(),
            i <= a@.len(),
            forall|k: int| 0 <= k < i ==> (#[trigger] a@[k])@ == b@[k]@,
        decreases a@.len() - i,
    {
        if !str_eq(a[i].as_str(), b[i].as_str()) {
            proof {
                assert(texts(a@)[i as int] != texts(b@)[i as int]);
            }
            return false;
        }
        i = i + 1;
    }
    proof {
        assert(texts(a@) =~= texts(b@));
    }
    true
}

/// A `missing_in_docs` or `missing_in_code` item: `kind`, then
/// `"{m} {p}{tail}"` as its detail.
fn missing_item(kind: &str, m: &String, p: &String, file: String, tail: &str) -> (v: Violation)
    ensures
        v@ == (kind@, p@, m@, file@, m@ + " "@ + p@ + tail@),
{
    let mut detail = m.clone();
    push_str(&mut detail, " ");
    push_str(&mut detail, p.as_str());
    push_str(&mut detail, tail);
    Violation { kind: owned(kind), path: p.clone(), method: m.clone(), file, detail }
}

/// The `method_mismatch` detail of `p`.
fn mismatch_text(p: &String, cs: &Vec<String>, ds: &Vec<String>) -> (r: String)
    ensures
        r@ == mismatch_detail(p@, texts(cs@), texts(ds@)),
{
    let mut r = p.clone();
    push_str(&mut r, ": code methods [");
    push_join(&mut r, cs, ",");
    push_str(&mut r, "] differ from doc methods [");
    push_join(&mut r, ds, ",");
    push_str(&mut r, "]");
    r
}

/// The drift between the routes declared in code and those documented:
/// every item of [`is_drift`] once, ordered by kind, then path, then
/// method.
pub fn diff(code: &Vec<RouteEntry>, docs: &Vec<RouteEntry>) -> (out: Vec<Violation>)
    ensures
        sorted_keys(out@),
        forall|v: ViolationView| #[trigger] has_view(out@, v) == is_drift(code@, docs@, v),
{
    let mut out: Vec<Violation> = Vec::new();
    // Methods declared in code on paths the documents never mention.
    let code_pairs = pairs(code);
    let mut k: usize = 0;
    while k < code_pairs.len()
        invariant
            k <= code_pairs@.len(),
            forall|j: int|
                0 <= j < code_pairs@.len() ==> declares(code@, (#[trigger] code_pairs@[j]).method@, code_pairs@[j].path@),
            forall|m: Seq<char>, p: Seq<char>| declares(code@, m, p) ==> covered(code_pairs@, m, p),
            sorted_keys(out@),
            forall|j: int| 0 <= j < out@.len() ==> is_drift(code@, docs@, (#[trigger] out@[j])@),
            forall|j: int|
                0 <= j < k && !has_path(docs@, (#[trigger] code_pairs@[j]).path@) ==> has_view(
                    out@,
                    missing_in_docs_view(code@, code_pairs@[j].method@, code_pairs@[j].path@),
                ),
        decreases code_pairs@.len() - k,
    {
        let pr = &code_pairs[k];
        if !has_path_exec(docs, &pr.path) {
            let file = file_of_path(code, &pr.path);
            let v = missing_item(
                "missing_in_docs",
                &pr.method,
                &pr.path,
                file,
                " declared in code but absent from ARCHITECTURE.md / AGENTS.md",
            );
            proof {
                assert(v@ == missing_in_docs_view(code@, pr.method@, pr.path@));
            }
            add_violation(&mut out, v, code, docs);
        }
        k = k + 1;
    }
    // Methods documented on paths the code never declares.
    let doc_pairs = pairs(docs);
    let mut k: usize = 0;
    while k < doc_pairs.len()
        invariant
            k <= doc_pairs@.len(),
            forall|j: int|
                0 <= j < doc_pairs@.len() ==> declares(docs@, (#[trigger] doc_pairs@[j]).method@, doc_pairs@[j].path@),
            forall|m: Seq<char>, p: Seq<char>| declares(code@, m, p) ==> covered(code_pairs@, m, p),
            forall|m: Seq<char>, p: Seq<char>| declares(docs@, m, p) ==> covered(doc_pairs@, m, p),
            sorted_keys(out@),
            forall|j: int| 0 <= j < out@.len() ==> is_drift(code@, docs@, (#[trigger] out@[j])@),
            forall|j: int|
                0 <= j < code_pairs@.len() && !has_path(docs@, (#[trigger] code_pairs@[j]).path@) ==> has_view(
                    out@,
                    missing_in_docs_view(code@, code_pairs@[j].method@, code_pairs@[j].path@),
                ),
            forall|j: int|
                0 <= j < k && !has_path(code@, (#[trigger] doc_pairs@[j]).path@) ==> has_view(
                    out@,
                    missing_in_code_view(docs@, doc_pairs@[j].method@, doc_pairs@[j].path@),
                ),
        decreases doc_pairs@.len() - k,
    {
        let pr = &doc_pairs[k];
        if !has_path_exec(code, &pr.path) {
            let file = file_of_path(docs, &pr.path);
            let v = missing_item(
                "missing_in_code",
                &pr.method,
                &pr.path,
                file,
                " documented but no axum route declares it",
            );
            proof {
                assert(v@ == missing_in_code_view(docs@, pr.method@, pr.path@));
            }
            add_violation(&mut out, v, code, docs);
        }
        k = k + 1;
    }
    // Paths both sides know, whose method sets differ.
    let code_paths = paths(code);
    let mut k: usize = 0;
    while k < code_paths.len()
        invariant
            k <= code_paths@.len(),
            forall|p: Seq<char>| has_text(code_paths@, p) == has_path(code@, p),
            forall|m: Seq<char>, p: Seq<char>| declares(code@, m, p) ==> covered(code_pairs@, m, p),
            forall|m: Seq<char>, p: Seq<char>| declares(docs@, m, p) ==> covered(doc_pairs@, m, p),
            sorted_keys(out@),
            forall|j: int| 0 <= j < out@.len() ==> is_drift(code@, docs@, (#[trigger] out@[j])@),
            forall|j: int|
                0 <= j < code_pairs@.len() && !has_path(docs@, (#[trigger] code_pairs@[j]).path@) ==> has_view(
                    out@,
                    missing_in_docs_view(code@, code_pairs@[j].method@, code_pairs@[j].path@),
                ),
            forall|j: int|
                0 <= j < doc_pairs@.len() && !has_path(code@, (#[trigger] doc_pairs@[j]).path@) ==> has_view(
                    out@,
                    missing_in_code_view(docs@, doc_pairs@[j].method@, doc_pairs@[j].path@),
                ),
            forall|j: int|
                0 <= j < k && has_path(docs@, (#[trigger] code_paths@[j])@) && path_methods(code@, code_paths@[j]@)
                    != path_methods(docs@, code_paths@[j]@) ==> has_view(
                    out@,
                    mismatch_view(code@, docs@, code_paths@[j]@),
                ),
        decreases code_paths@.len() - k,
    {
        let p = &code_paths[k];
        proof {
            assert(has_text(code_paths@, p@));
        }
        if has_path_exec(docs, p) {
            let cs = methods_of(code, p);
            let ds = methods_of(docs, p);
            let same = same_strings(&cs, &ds);
            proof {
                if same {
                    assert(path_methods(code@, p@) == path_methods(docs@, p@));
                } else if path_methods(code@, p@) == path_methods(docs@, p@) {
                    lemma_listing_unique(texts(cs@), texts(ds@), path_methods(code@, p@));
                }
            }
            if !same {
                let detail = mismatch_text(p, &cs, &ds);
                let v = Violation {
                    kind: owned("method_mismatch"),
                    path: p.clone(),
                    method: String::new(),
                    file: file_of_path(code, p),
                    detail,
                };
                let ghost vv = mismatch_view(code@, docs@, p@);
                proof {
                    lemma_listing_is(texts(cs@), path_methods(code@, p@));
                    lemma_listing_is(texts(ds@), path_methods(docs@, p@));
                    assert(v@ == vv);
                    assert(is_drift(code@, docs@, vv));
                }
                add_violation(&mut out, v, code, docs);
            }
        }
        k = k + 1;
    }
    proof {
        assert forall|v: ViolationView| #[trigger] has_view(out@, v) == is_drift(code@, docs@, v) by {
            if has_view(out@, v) {
                let j = choose|j: int| 0 <= j < out@.len() && (#[trigger] out@[j])@ == v;
                assert(is_drift(code@, docs@, out@[j]@));
            }
            if is_drift(code@, docs@, v) {
                if exists|m: Seq<char>, p: Seq<char>|
                    declares(code@, m, p) && !has_path(docs@, p) && v == #[trigger] missing_in_docs_view(code@, m, p) {
                    let (m, p) = choose|m: Seq<char>, p: Seq<char>|
                        declares(code@, m, p) && !has_path(docs@, p) && v == #[trigger] missing_in_docs_view(code@, m, p);
                    let j = choose|j: int|
                        0 <= j < code_pairs@.len() && (#[trigger] code_pairs@[j]).method@ == m && code_pairs@[j].path@ == p;
                    assert(!has_path(docs@, code_pairs@[j].path@));
                } else if exists|m: Seq<char>, p: Seq<char>|
                    declares(docs@, m, p) && !has_path(code@, p) && v == #[trigger] missing_in_code_view(docs@, m, p) {
                    let (m, p) = choose|m: Seq<char>, p: Seq<char>|
                        declares(docs@, m, p) && !has_path(code@, p) && v == #[trigger] missing_in_code_view(docs@, m, p);
                    let j = choose|j: int|
                        0 <= j < doc_pairs@.len() && (#[trigger] doc_pairs@[j]).method@ == m && doc_pairs@[j].path@ == p;
                    assert(!has_path(code@, doc_pairs@[j].path@));
                } else {
                    let p = choose|p: Seq<char>|
                        has_path(code@, p) && has_path(docs@, p) && path_methods(code@, p) != path_methods(docs@, p)
                            && v == #[trigger] mismatch_view(code@, docs@, p);
                    assert(has_text(code_paths@, p));
                    let j = choose|j: int| 0 <= j < code_paths@.len() && (#[trigger] code_paths@[j])@ == p;
                    assert(has_path(docs@, code_paths@[j]@));
                }
            }
        }
    }
    out
}

/// The distinct (method, path) pairs that the entries declare.
pub open spec fn declared_pairs(entries: Seq<RouteEntry>) -> Set<(Seq<char>, Seq<char>)> {
    Set::new(|mp: (Seq<char>, Seq<char>)| declares(entries, mp.0, mp.1))
}

/// The number of distinct (method, path) pairs the entries declare.
pub fn distinct_pairs(entries: &Vec<RouteEntry>) -> (n: usize)
    ensures
        n == declared_pairs(entries@).len(),
        declared_pairs(entries@).finite(),
{
    let out = pairs(entries);
    proof {
        let vs = out@.map_values(|x: RoutePair| (x.method@, x.path@));
        assert forall|i: int, j: int| 0 <= i < vs.len() && 0 <= j < vs.len() && i != j implies vs[i]
            != vs[j] by {
            if vs[i] == vs[j] {
                assert(out@[i].key() =~= out@[j].key());
                lemma_sorted_unique_keys(out@, i, j);
            }
        }
        assert(vs.no_duplicates());
        assert forall|mp: (Seq<char>, Seq<char>)| vs.to_set().contains(mp) == declared_pairs(
            entries@,
        ).contains(mp) by {
            if vs.to_set().contains(mp) {
                let k = choose|k: int| 0 <= k < vs.len() && vs[k] == mp;
                assert(declares(entries@, out@[k].method@, out@[k].path@));
            }
            if declared_pairs(entries@).contains(mp) {
                assert(covered(out@, mp.0, mp.1));
                let k = choose|k: int|
                    0 <= k < out@.len() && (#[trigger] out@[k]).method@ == mp.0 && out@[k].path@ == mp.1;
                assert(vs[k] == mp);
            }
        }
        assert(vs.to_set() =~= declared_pairs(entries@));
        vs.unique_seq_to_set();
    }
    out.len()
}

/// A declaration names its path.
pub proof fn lemma_declares_has_path(entries: Seq<RouteEntry>, m: Seq<char>, p: Seq<char>)
    requires
        declares(entries, m, p),
    ensures
        has_path(entries, p),
{
    let (i, k) = choose|i: int, k: int|
        #![trigger entries[i].methods@[k]]
        0 <= i < entries.len() && 0 <= k < entries[i].methods@.len() && entries[i].methods@[k]@ == m
            && entries[i].path@ == p;
    assert(entries[i].path@ == p);
}

/// Code and documents are free of drift exactly when they declare the
/// same (method, path) pairs.
pub proof fn drift_free_iff_same_pairs(code: Seq<RouteEntry>, docs: Seq<RouteEntry>)
    ensures
        (forall|v: ViolationView| !is_drift(code, docs, v)) <==> declared_pairs(code) == declared_pairs(
            docs,
        ),
{
    if declared_pairs(code) == declared_pairs(docs) {
        assert forall|v: ViolationView| !is_drift(code, docs, v) by {
            if is_drift(code, docs, v) {
                if exists|m: Seq<char>, p: Seq<char>|
                    declares(code, m, p) && !has_path(docs, p) && v == #[trigger] missing_in_docs_view(code, m, p) {
                    let (m, p) = choose|m: Seq<char>, p: Seq<char>|
                        declares(code, m, p) && !has_path(docs, p) && v == #[trigger] missing_in_docs_view(code, m, p);
                    assert(declared_pairs(code).contains((m, p)));
                    assert(declared_pairs(docs).contains((m, p)));
                    lemma_declares_has_path(docs, m, p);
                } else if exists|m: Seq<char>, p: Seq<char>|
                    declares(docs, m, p) && !has_path(code, p) && v == #[trigger] missing_in_code_view(docs, m, p) {
                    let (m, p) = choose|m: Seq<char>, p: Seq<char>|
                        declares(docs, m, p) && !has_path(code, p) && v == #[trigger] missing_in_code_view(docs, m, p);
                    assert(declared_pairs(docs).contains((m, p)));
                    assert(declared_pairs(code).contains((m, p)));
                    lemma_declares_has_path(code, m, p);
                } else {
                    let p = choose|p: Seq<char>|
                        has_path(code, p) && has_path(docs, p) && path_methods(code, p) != path_methods(docs, p)
                            && v == #[trigger] mismatch_view(code, docs, p);
                    assert forall|m: Seq<char>| path_methods(code, p).contains(m) == path_methods(docs, p).contains(m) by {
                        assert(declared_pairs(code).contains((m, p)) == declared_pairs(docs).contains((m, p)));
                    }
                    assert(path_methods(code, p) =~= path_methods(docs, p));
                }
            }
        }
    }
    if forall|v: ViolationView| !is_drift(code, docs, v) {
        assert forall|mp: (Seq<char>, Seq<char>)| declared_pairs(code).contains(mp) == declared_pairs(docs).contains(mp) by {
            let (m, p) = mp;
            if declares(code, m, p) && !declares(docs, m, p) {
                lemma_declares_has_path(code, m, p);
                if !has_path(docs, p) {
                    assert(!is_drift(code, docs, missing_in_docs_view(code, m, p)));
                } else {
                    assert(path_methods(code, p).contains(m));
                    assert(!path_methods(docs, p).contains(m));
                    assert(!is_drift(code, docs, mismatch_view(code, docs, p)));
                }
            }
            if declares(docs, m, p) && !declares(code, m, p) {
                lemma_declares_has_path(docs, m, p);
                if !has_path(code, p) {
                    assert(!is_drift(code, docs, missing_in_code_view(docs, m, p)));
                } else {
                    assert(path_methods(docs, p).contains(m));
                    assert(!path_methods(code, p).contains(m));
                    assert(!is_drift(code, docs, mismatch_view(code, docs, p)));
                }
            }
        }
        assert(declared_pairs(code) =~= declared_pairs(docs));
    }
}

/// The routes check: how many distinct routes each side has, and the drift.
pub struct Report {
    /// Distinct (method, path) pairs in code.
    pub code_routes: usize,
    /// Distinct (method, path) pairs in the documents.
    pub doc_routes: usize,
    /// The drift items, ordered by kind, path and method.
    pub violations: Vec<Violation>,
}

/// The report on `code` against `docs`.
pub fn report(code: &Vec<RouteEntry>, docs: &Vec<RouteEntry>) -> (r: Report)
    ensures
        r.code_routes == declared_pairs(code@).len(),
        r.doc_routes == declared_pairs(docs@).len(),
        sorted_keys(r.violations@),
        forall|v: ViolationView| #[trigger] has_view(r.violations@, v) == is_drift(code@, docs@, v),
        r.violations@.len() == 0 <==> declared_pairs(code@) == declared_pairs(docs@),
{
    let violations = diff(code, docs);
    proof {
        drift_free_iff_same_pairs(code@, docs@);
        if violations@.len() > 0 {
            assert(has_view(violations@, violations@[0]@));
        }
        if violations@.len() == 0 {
            assert forall|v: ViolationView| !is_drift(code@, docs@, v) by {
                assert(!has_view(violations@, v));
            }
        }
    }
    Report { code_routes: distinct_pairs(code), doc_routes: distinct_pairs(docs), violations }
}

/// The text strictly between the first `start` and the next `end`.
pub open spec fn between_text(s: Seq<char>, start: Seq<char>, end: Seq<char>) -> Option<Seq<char>> {
    match find(s, start) {
        Some(i) => {
            let rest = s.skip(i + start.len());
            match find(rest, end) {
                Some(j) => Some(rest.take(j)),
                None => None,
            }
        },
        None => None,
    }
}

/// The text strictly between the first `start` in `s` and the next `end`.
pub fn between(s: &str, start: &str, end: &str) -> (r: Option<String>)
    ensures
        r matches Some(t) ==> between_text(s@, start@, end@) == Some(t@),
        r is None ==> between_text(s@, start@, end@) is None,
{
    let sv = chars_of(s);
    let st = chars_of(start);
    let en = chars_of(end);
    match find_exec(&sv, &st, 0) {
        None => None,
        Some(i) => {
            proof {
                crate::text::lemma_find_from(sv@, st@, 0);
                assert(crate::text::matches_at(sv@, st@, i as int));
                assert(i + st@.len() <= sv@.len());
                assert(sv@.len() == sv.len());
                assert(st@.len() == st.len());
            }
            let rest = sub_vec(&sv, i + st.len(), sv.len());
            proof {
                assert(rest@ =~= s@.skip(i + start@.len()));
            }
            match find_exec(&rest, &en, 0) {
                None => None,
                Some(j) => {
                    proof {
                        crate::text::lemma_find_from(rest@, en@, 0);
                    }
                    let r = sub_vec(&rest, 0, j);
                    proof {
                        assert(r@ =~= rest@.take(j as int));
                    }
                    Some(string_of(&r))
                },
            }
        },
    }
}

/// The text a lookup gave, or the empty text.
pub open spec fn or_empty(t: Option<Seq<char>>) -> Seq<char> {
    match t {
        Some(x) => x,
        None => Seq::empty(),
    }
}

/// A join holds a character only if an item or the separator does.
pub proof fn lemma_join_lacks(items: Seq<Seq<char>>, sep: Seq<char>, c: char)
    requires
        !sep.contains(c),
        forall|i: int| 0 <= i < items.len() ==> !(#[trigger] items[i]).contains(c),
    ensures
        !join(items, sep).contains(c),
    decreases items.len(),
{
    if items.len() > 1 {
        lemma_join_lacks(items.drop_last(), sep, c);
        let a = join(items.drop_last(), sep);
        let b = items.last();
        assert(!b.contains(c)) by {
            assert(items[items.len() - 1] == b);
        }
        assert forall|k: int| 0 <= k < join(items, sep).len() implies join(items, sep)[k] != c by {
            if k < a.len() {
                assert(join(items, sep)[k] == a[k]);
            } else if k < a.len() + sep.len() {
                assert(join(items, sep)[k] == sep[k - a.len()]);
            } else {
                assert(join(items, sep)[k] == b[k - a.len() - sep.len()]);
            }
        }
    } else if items.len() == 1 {
        assert(!items[0].contains(c));
    }
}

/// The method lists of a `method_mismatch` detail come back out of it
/// (as `split_methods_from_detail` takes them), as long as the path holds
/// no `[`, the code methods no bracket, and the doc methods no `]`.
pub proof fn mismatch_detail_splits(p: Seq<char>, cs: Seq<Seq<char>>, ds: Seq<Seq<char>>)
    requires
        !p.contains('['),
        forall|i: int| 0 <= i < cs.len() ==> !(#[trigger] cs[i]).contains('[') && !cs[i].contains(']'),
        forall|i: int| 0 <= i < ds.len() ==> !(#[trigger] ds[i]).contains(']'),
    ensures
        between_text(mismatch_detail(p, cs, ds), "code methods ["@, "]"@) == Some(join(cs, ","@)),
        between_text(mismatch_detail(p, cs, ds), "doc methods ["@, "]"@) == Some(join(ds, ","@)),
{
    reveal_strlit(": code methods [");
    reveal_strlit("] differ from doc methods [");
    reveal_strlit("]");
    reveal_strlit("code methods [");
    reveal_strlit("doc methods [");
    reveal_strlit(",");
    let a = ": code methods ["@;
    let b = "] differ from doc methods ["@;
    let c = "]"@;
    let n1 = "code methods ["@;
    let n2 = "doc methods ["@;
    let j1 = join(cs, ","@);
    let j2 = join(ds, ","@);
    assert(!","@.contains('[')) by {
        assert(","@[0] == ',');
    }
    assert(!","@.contains(']')) by {
        assert(","@[0] == ',');
    }
    lemma_join_lacks(cs, ","@, '[');
    lemma_join_lacks(cs, ","@, ']');
    lemma_join_lacks(ds, ","@, ']');
    let d = mismatch_detail(p, cs, ds);
    assert(d == p + a + j1 + b + j2 + c);
    // The code list.
    let i1: int = p.len() as int + 2;
    assert(d.subrange(i1, i1 + 14) =~= n1);
    assert forall|k: int| 0 <= k < i1 implies !crate::text::matches_at(d, n1, k) by {
        if crate::text::matches_at(d, n1, k) {
            assert(d.subrange(k, k + 14)[13] == n1[13]);
            assert(d[k + 13] == '[');
            if k + 13 < p.len() {
                assert(d[k + 13] == p[k + 13]);
            } else {
                assert(d[k + 13] == a[k + 13 - p.len()]);
            }
        }
    }
    lemma_find_is(d, n1, i1);
    let rest1 = d.skip(i1 + 14);
    assert(rest1 =~= j1 + b + j2 + c);
    assert forall|k: int| 0 <= k < j1.len() implies !crate::text::matches_at(rest1, c, k) by {
        if crate::text::matches_at(rest1, c, k) {
            assert(rest1.subrange(k, k + 1)[0] == c[0]);
            assert(rest1[k] == j1[k]);
        }
    }
    assert(rest1.subrange(j1.len() as int, j1.len() + 1int) =~= c);
    lemma_find_is(rest1, c, j1.len() as int);
    assert(rest1.take(j1.len() as int) =~= j1);
    // The doc list.
    let i2: int = p.len() as int + 16 + j1.len() as int + 14;
    assert(d.subrange(i2, i2 + 13) =~= n2);
    assert forall|k: int| 0 <= k < i2 implies !crate::text::matches_at(d, n2, k) by {
        if crate::text::matches_at(d, n2, k) {
            assert(d.subrange(k, k + 13)[12] == n2[12]);
            assert(d[k + 12] == '[');
            assert(d.subrange(k, k + 13)[0] == n2[0]);
            if k + 12 < p.len() {
                assert(d[k + 12] == p[k + 12]);
            } else if k + 12 < p.len() + 16 {
                assert(d[k + 12] == a[k + 12 - p.len()]);
                assert(k == p.len() + 3);
                assert(d[k] == a[3]);
            } else if k + 12 < p.len() + 16 + j1.len() {
                assert(d[k + 12] == j1[k + 12 - p.len() - 16]);
            } else {
                assert(d[k + 12] == b[k + 12 - p.len() - 16 - j1.len()]);
            }
        }
    }
    lemma_find_is(d, n2, i2);
    let rest2 = d.skip(i2 + 13);
    assert(rest2 =~= j2 + c);
    assert forall|k: int| 0 <= k < j2.len() implies !crate::text::matches_at(rest2, c, k) by {
        if crate::text::matches_at(rest2, c, k) {
            assert(rest2.subrange(k, k + 1)[0] == c[0]);
            assert(rest2[k] == j2[k]);
        }
    }
    assert(rest2.subrange(j2.len() as int, j2.len() + 1int) =~= c);
    lemma_find_is(rest2, c, j2.len() as int);
    assert(rest2.take(j2.len() as int) =~= j2);
}

/// No path or method of the entries holds a square bracket.
pub open spec fn bracket_free(entries: Seq<RouteEntry>) -> bool {
    forall|i: int|
        0 <= i < entries.len() ==> {
            &&& !(#[trigger] entries[i]).path@.contains('[')
            &&& !entries[i].path@.contains(']')
            &&& forall|k: int|
                0 <= k < entries[i].methods@.len() ==> !(#[trigger] entries[i].methods@[k]@).contains('[')
                    && !entries[i].methods@[k]@.contains(']')
        }
}

/// The methods listed for a path hold no bracket when no entry does.
proof fn lemma_listed_methods_bracket_free(entries: Seq<RouteEntry>, p: Seq<char>, ms: Seq<Seq<char>>)
    requires
        bracket_free(entries),
        lists_sorted(ms, path_methods(entries, p)),
    ensures
        forall|i: int| 0 <= i < ms.len() ==> !(#[trigger] ms[i]).contains('[') && !ms[i].contains(']'),
{
    assert forall|i: int| 0 <= i < ms.len() implies !(#[trigger] ms[i]).contains('[') && !ms[i].contains(']') by {
        assert(ms.to_set().contains(ms[i]));
        assert(path_methods(entries, p).contains(ms[i]));
        assert(declares(entries, ms[i], p));
        let (e, k) = choose|e: int, k: int|
            #![trigger entries[e].methods@[k]]
            0 <= e < entries.len() && 0 <= k < entries[e].methods@.len() && entries[e].methods@[k]@
                == ms[i] && entries[e].path@ == p;
        assert(!entries[e].methods@[k]@.contains('['));
    }
}

/// What `diff` reports as a method mismatch gives its two method sets
/// back: `split_methods_from_detail` on the detail returns the methods
/// declared on the path in code and in the documents, each in increasing
/// order and comma-joined, as long as no path or method holds a bracket.
pub proof fn mismatch_methods_recovered(
    code: Seq<RouteEntry>,
    docs: Seq<RouteEntry>,
    v: ViolationView,
    code_methods: Seq<Seq<char>>,
    doc_methods: Seq<Seq<char>>,
)
    requires
        is_drift(code, docs, v),
        v.0 == "method_mismatch"@,
        bracket_free(code),
        bracket_free(docs),
        lists_sorted(code_methods, path_methods(code, v.1)),
        lists_sorted(doc_methods, path_methods(docs, v.1)),
    ensures
        or_empty(between_text(v.4, "code methods ["@, "]"@)) == join(code_methods, ","@),
        or_empty(between_text(v.4, "doc methods ["@, "]"@)) == join(doc_methods, ","@),
{
    lemma_kinds_differ();
    assert(!(exists|m: Seq<char>, p: Seq<char>|
        declares(code, m, p) && !has_path(docs, p) && v == #[trigger] missing_in_docs_view(code, m, p)));
    assert(!(exists|m: Seq<char>, p: Seq<char>|
        declares(docs, m, p) && !has_path(code, p) && v == #[trigger] missing_in_code_view(docs, m, p)));
    let p = choose|p: Seq<char>|
        has_path(code, p) && has_path(docs, p) && path_methods(code, p) != path_methods(docs, p) && v
            == #[trigger] mismatch_view(code, docs, p);
    assert(v.1 == p);
    lemma_listing_is(code_methods, path_methods(code, p));
    lemma_listing_is(doc_methods, path_methods(docs, p));
    let i = choose|i: int| 0 <= i < code.len() && (#[trigger] code[i]).path@ == p;
    assert(!code[i].path@.contains('['));
    lemma_listed_methods_bracket_free(code, p, code_methods);
    lemma_listed_methods_bracket_free(docs, p, doc_methods);
    mismatch_detail_splits(p, code_methods, doc_methods);
}

/// The code and doc method lists out of a `method_mismatch` detail, each
/// empty where its marker is missing.
pub fn split_methods_from_detail(detail: &str) -> (r: (String, String))
    ensures
        r.0@ == or_empty(between_text(detail@, "code methods ["@, "]"@)),
        r.1@ == or_empty(between_text(detail@, "doc methods ["@, "]"@)),
{
    let code = match between(detail, "code methods [", "]") {
        Some(t) => t,
        None => String::new(),
    };
    let doc = match between(detail, "doc methods [", "]") {
        Some(t) => t,
        None => String::new(),
    };
    (code, doc)
}

// ---------------------------------------------------------------------
// Output
// ---------------------------------------------------------------------

/// The plain line of one violation: kind, method, path and file.
pub open spec fn violation_plain_line(v: ViolationView) -> Seq<char> {
    v.0 + " "@ + v.2 + " "@ + v.1 + " "@ + v.3
}

/// The plain output: the counts, then one line per violation.
pub open spec fn report_plain_text(code_routes: nat, doc_routes: nat, vs: Seq<Violation>) -> Seq<Seq<char>> {
    seq![
        "code_routes="@ + dec(code_routes) + " doc_routes="@ + dec(doc_routes) + " violations="@
            + dec(vs.len()),
    ] + vs.map_values(|v: Violation| violation_plain_line(v@))
}

/// The plain output of `cvg coherence routes`.
pub fn report_plain_lines(r: &Report) -> (lines: Vec<String>)
    ensures
        line_texts(lines@) == report_plain_text(
            r.code_routes as nat,
            r.doc_routes as nat,
            r.violations@,
        ),
{
    let mut head = owned("code_routes=");
    push_dec(&mut head, r.code_routes as u64);
    push_str(&mut head, " doc_routes=");
    push_dec(&mut head, r.doc_routes as u64);
    push_str(&mut head, " violations=");
    push_dec(&mut head, r.violations.len() as u64);
    let mut lines: Vec<String> = Vec::new();
    lines.push(head);
    let ghost vs = r.violations@;
    let mut i: usize = 0;
    while i < r.violations.len()
        invariant
            i <= vs.len(),
            vs == r.violations@,
            line_texts(lines@) == seq![
                "code_routes="@ + dec(r.code_routes as nat) + " doc_routes="@ + dec(r.doc_routes as nat)
                    + " violations="@ + dec(vs.len()),
            ] + vs.take(i as int).map_values(|v: Violation| violation_plain_line(v@)),
        decreases vs.len() - i,
    {
        let v = &r.violations[i];
        let mut l = owned(v.kind.as_str());
        push_str(&mut l, " ");
        push_str(&mut l, v.method.as_str());
        push_str(&mut l, " ");
        push_str(&mut l, v.path.as_str());
        push_str(&mut l, " ");
        push_str(&mut l, v.file.as_str());
        let ghost prev = lines@;
        lines.push(l);
        proof {
            lemma_line_texts_push(prev, l);
            crate::text::lemma_map_take_push(vs, i as int, |v: Violation| violation_plain_line(v@));
            assert(line_texts(lines@) =~= seq![
                "code_routes="@ + dec(r.code_routes as nat) + " doc_routes="@ + dec(r.doc_routes as nat)
                    + " violations="@ + dec(vs.len()),
            ] + vs.take(i + 1).map_values(|v: Violation| violation_plain_line(v@)));
        }
        i = i + 1;
    }
    proof {
        assert(vs.take(vs.len() as int) =~= vs);
    }
    lines
}

/// A line of the human output: a message of the translation bundle, to be
/// printed alone or as a list item, or a raw list item.
pub enum HumanLine {
    Message { key: String, args: Vec<(String, String)> },
    Item { key: String, args: Vec<(String, String)> },
    RawItem { text: String },
}

/// The texts of message arguments.
pub open spec fn arg_views(args: Seq<(String, String)>) -> Seq<(Seq<char>, Seq<char>)> {
    args.map_values(|a: (String, String)| (a.0@, a.1@))
}

/// A human line as plain values: (0 message | 1 item | 2 raw item, key or
/// text, arguments).
pub open spec fn human_view(l: HumanLine) -> (int, Seq<char>, Seq<(Seq<char>, Seq<char>)>) {
    match l {
        HumanLine::Message { key, args } => (0, key@, arg_views(args@)),
        HumanLine::Item { key, args } => (1, key@, arg_views(args@)),
        HumanLine::RawItem { text } => (2, text@, Seq::empty()),
    }
}

/// The item of one violation: a message for each known kind (the code and
/// doc method lists of a mismatch taken back out of its detail), the raw
/// detail otherwise.
pub open spec fn violation_item(v: ViolationView) -> (int, Seq<char>, Seq<(Seq<char>, Seq<char>)>) {
    if v.0 == "missing_in_docs"@ {
        (1, "coherence-routes-missing-in-docs"@, seq![("method"@, v.2), ("path"@, v.1), ("file"@, v.3)])
    } else if v.0 == "missing_in_code"@ {
        (1, "coherence-routes-missing-in-code"@, seq![("method"@, v.2), ("path"@, v.1), ("file"@, v.3)])
    } else if v.0 == "method_mismatch"@ {
        (
            1,
            "coherence-routes-method-mismatch"@,
            seq![
                ("path"@, v.1),
                ("code_methods"@, or_empty(between_text(v.4, "code methods ["@, "]"@))),
                ("doc_methods"@, or_empty(between_text(v.4, "doc methods ["@, "]"@))),
            ],
        )
    } else {
        (2, v.4, Seq::empty())
    }
}

/// The human output: the summary; then either the all-clear, or a header
/// and one item per violation.
pub open spec fn report_human_view(code_routes: nat, doc_routes: nat, vs: Seq<Violation>) -> Seq<
    (int, Seq<char>, Seq<(Seq<char>, Seq<char>)>),
> {
    seq![
        (
            0,
            "coherence-routes-summary"@,
            seq![("code"@, dec(code_routes)), ("docs"@, dec(doc_routes)), ("violations"@, dec(vs.len()))],
        ),
    ] + if vs.len() == 0 {
        seq![(0, "coherence-routes-ok"@, Seq::<(Seq<char>, Seq<char>)>::empty())]
    } else {
        seq![(0, "coherence-routes-header"@, seq![("count"@, dec(vs.len()))])] + vs.map_values(
            |v: Violation| violation_item(v@),
        )
    }
}

fn pair(a: &str, b: String) -> (r: (String, String))
    ensures
        r.0@ == a@,
        r.1@ == b@,
{
    (owned(a), b)
}

fn human_item(v: &Violation) -> (l: HumanLine)
    ensures
        human_view(l) == violation_item(v@),
{
    let mut args: Vec<(String, String)> = Vec::new();
    if str_eq(v.kind.as_str(), "missing_in_docs") || str_eq(v.kind.as_str(), "missing_in_code") {
        args.push(pair("method", v.method.clone()));
        args.push(pair("path", v.path.clone()));
        args.push(pair("file", v.file.clone()));
        let key = if str_eq(v.kind.as_str(), "missing_in_docs") {
            owned("coherence-routes-missing-in-docs")
        } else {
            owned("coherence-routes-missing-in-code")
        };
        proof {
            lemma_kinds_differ();
            assert(arg_views(args@) =~= seq![("method"@, v.method@), ("path"@, v.path@), ("file"@, v.file@)]);
        }
        HumanLine::Item { key, args }
    } else if str_eq(v.kind.as_str(), "method_mismatch") {
        let (code_m, doc_m) = split_methods_from_detail(v.detail.as_str());
        args.push(pair("path", v.path.clone()));
        args.push(pair("code_methods", code_m));
        args.push(pair("doc_methods", doc_m));
        proof {
            lemma_kinds_differ();
            assert(arg_views(args@) =~= seq![
                ("path"@, v.path@),
                ("code_methods"@, or_empty(between_text(v.detail@, "code methods ["@, "]"@))),
                ("doc_methods"@, or_empty(between_text(v.detail@, "doc methods ["@, "]"@))),
            ]);
        }
        HumanLine::Item { key: owned("coherence-routes-method-mismatch"), args }
    } else {
        HumanLine::RawItem { text: v.detail.clone() }
    }
}

/// The lines of the human output of `cvg coherence routes`, as messages of
/// the translation bundle.
pub fn report_human_lines(r: &Report) -> (lines: Vec<HumanLine>)
    ensures
        lines@.map_values(|l: HumanLine| human_view(l)) == report_human_view(
            r.code_routes as nat,
            r.doc_routes as nat,
            r.violations@,
        ),
{
    let mut lines: Vec<HumanLine> = Vec::new();
    let mut args: Vec<(String, String)> = Vec::new();
    args.push(pair("code", dec_string(r.code_routes as u64)));
    args.push(pair("docs", dec_string(r.doc_routes as u64)));
    args.push(pair("violations", dec_string(r.violations.len() as u64)));
    proof {
        assert(arg_views(args@) =~= seq![
            ("code"@, dec(r.code_routes as nat)),
            ("docs"@, dec(r.doc_routes as nat)),
            ("violations"@, dec(r.violations@.len())),
        ]);
    }
    lines.push(HumanLine::Message { key: owned("coherence-routes-summary"), args });
    if r.violations.len() == 0 {
        lines.push(HumanLine::Message { key: owned("coherence-routes-ok"), args: Vec::new() });
        proof {
            assert(arg_views(Seq::<(String, String)>::empty()) =~= Seq::<(Seq<char>, Seq<char>)>::empty());
            assert(lines@.map_values(|l: HumanLine| human_view(l)) =~= report_human_view(
                r.code_routes as nat,
                r.doc_routes as nat,
                r.violations@,
            ));
        }
        return lines;
    }
    let mut hargs: Vec<(String, String)> = Vec::new();
    hargs.push(pair("count", dec_string(r.violations.len() as u64)));
    proof {
        assert(arg_views(hargs@) =~= seq![("count"@, dec(r.violations@.len()))]);
    }
    lines.push(HumanLine::Message { key: owned("coherence-routes-header"), args: hargs });
    let ghost head = lines@.map_values(|l: HumanLine| human_view(l));
    let ghost vs = r.violations@;
    let mut i: usize = 0;
    while i < r.violations.len()
        invariant
            i <= vs.len(),
            vs == r.violations@,
            lines@.map_values(|l: HumanLine| human_view(l)) == head + vs.take(i as int).map_values(
                |v: Violation| violation_item(v@),
            ),
        decreases vs.len() - i,
    {
        let item = human_item(&r.violations[i]);
        let ghost prev = lines@;
        lines.push(item);
        proof {
            assert(lines@.map_values(|l: HumanLine| human_view(l)) =~= prev.map_values(
                |l: HumanLine| human_view(l),
            ).push(human_view(item)));
            crate::text::lemma_map_take_push(vs, i as int, |v: Violation| violation_item(v@));
            assert(lines@.map_values(|l: HumanLine| human_view(l)) =~= head + vs.take(i + 1).map_values(
                |v: Violation| violation_item(v@),
            ));
        }
        i = i + 1;
    }
    proof {
        assert(vs.take(vs.len() as int) =~= vs);
        assert(lines@.map_values(|l: HumanLine| human_view(l)) =~= report_human_view(
            r.code_routes as nat,
            r.doc_routes as nat,
            r.violations@,
        ));
    }
    lines
}

} // verus!
