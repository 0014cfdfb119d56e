//! Lexicographic order on texts and on lists of texts (the order of
//! `String` and of tuples of `String`s), and sorted, duplicate-free
//! vectors kept in that order.
use vstd::prelude::*;

verus! {

/// `a < b` in the lexicographic order of code points (which is the order
/// of their UTF-8 bytes, the order of `String`).
pub open spec fn text_lt(a: Seq<char>, b: Seq<char>) -> bool
    decreases a.len(),
{
    if a.len() == 0 {
        b.len() > 0
    } else if b.len() == 0 {
        false
    } else if a[0] != b[0] {
        (a[0] as u32) < (b[0] as u32)
    } else {
        text_lt(a.drop_first(), b.drop_first())
    }
}

pub proof fn lemma_text_lt_irreflexive(a: Seq<char>)
    ensures
        !text_lt(a, a),
    decreases a.len(),
{
    if a.len() > 0 {
        lemma_text_lt_irreflexive(a.drop_first());
    }
}

pub proof fn lemma_text_lt_asymmetric(a: Seq<char>, b: Seq<char>)
    ensures
        text_lt(a, b) ==> !text_lt(b, a),
    decreases a.len(),
{
    if a.len() > 0 && b.len() > 0 && a[0] == b[0] {
        lemma_text_lt_asymmetric(a.drop_first(), b.drop_first());
    }
}

pub proof fn lemma_text_lt_transitive(a: Seq<char>, b: Seq<char>, c: Seq<char>)
    requires
        text_lt(a, b),
        text_lt(b, c),
    ensures
        text_lt(a, c),
    decreases a.len(),
{
    if a.len() > 0 && b.len() > 0 && c.len() > 0 && a[0] == b[0] && b[0] == c[0] {
        lemma_text_lt_transitive(a.drop_first(), b.drop_first(), c.drop_first());
    }
}

pub proof fn lemma_text_lt_total(a: Seq<char>, b: Seq<char>)
    ensures
        a == b || text_lt(a, b) || text_lt(b, a),
    decreases a.len(),
{
    if a.len() > 0 && b.len() > 0 {
        if a[0] == b[0] {
            lemma_text_lt_total(a.drop_first(), b.drop_first());
            if a.drop_first() == b.drop_first() {
                assert(a =~= seq![a[0]] + a.drop_first());
                assert(b =~= seq![b[0]] + b.drop_first());
            }
        } else {
            lemma_char_code_injective(a[0], b[0]);
        }
    } else if a.len() == 0 && b.len() == 0 {
        assert(a =~= b);
    }
}

/// Distinct characters have distinct code points.
pub proof fn lemma_char_code_injective(x: char, y: char)
    ensures
        x != y ==> (x as u32) != (y as u32),
{
    vstd::utf8::char_u32_cast(x, x as u32);
    vstd::utf8::char_u32_cast(y, y as u32);
}

/// `a < b` for lists of texts: lexicographic, comparing texts with
/// [`text_lt`] (the order of tuples of `String`s).
pub open spec fn key_lt(a: Seq<Seq<char>>, b: Seq<Seq<char>>) -> bool
    decreases a.len(),
{
    if a.len() == 0 {
        b.len() > 0
    } else if b.len() == 0 {
        false
    } else if a[0] != b[0] {
        text_lt(a[0], b[0])
    } else {
        key_lt(a.drop_first(), b.drop_first())
    }
}

pub proof fn lemma_key_lt_irreflexive(a: Seq<Seq<char>>)
    ensures
        !key_lt(a, a),
    decreases a.len(),
{
    if a.len() > 0 {
        lemma_key_lt_irreflexive(a.drop_first());
    }
}

pub proof fn lemma_key_lt_transitive(a: Seq<Seq<char>>, b: Seq<Seq<char>>, c: Seq<Seq<char>>)
    requires
        key_lt(a, b),
        key_lt(b, c),
    ensures
        key_lt(a, c),
    decreases a.len(),
{
    if a.len() > 0 && b.len() > 0 && c.len() > 0 {
        if a[0] == b[0] && b[0] == c[0] {
            lemma_key_lt_transitive(a.drop_first(), b.drop_first(), c.drop_first());
        } else if a[0] == b[0] {
        } else if b[0] == c[0] {
        } else {
            lemma_text_lt_transitive(a[0], b[0], c[0]);
            if a[0] == c[0] {
                lemma_text_lt_asymmetric(a[0], b[0]);
            }
        }
    }
}

pub proof fn lemma_key_lt_total(a: Seq<Seq<char>>, b: Seq<Seq<char>>)
    ensures
        a == b || key_lt(a, b) || key_lt(b, a),
    decreases a.len(),
{
    if a.len() > 0 && b.len() > 0 {
        if a[0] == b[0] {
            lemma_key_lt_total(a.drop_first(), b.drop_first());
            if a.drop_first() == b.drop_first() {
                assert(a =~= seq![a[0]] + a.drop_first());
                assert(b =~= seq![b[0]] + b.drop_first());
            }
        } else {
            lemma_text_lt_total(a[0], b[0]);
        }
    } else if a.len() == 0 && b.len() == 0 {
        assert(a =~= b);
    }
}

/// Compares two texts: negative, zero or positive as `a` is below, equal
/// to or above `b`.
pub fn compare_text(a: &Vec<char>, b: &Vec<char>) -> (r: i8)
    ensures
        (r == 0) == (a@ == b@),
        (r < 0) == text_lt(a@, b@),
        (r > 0) == text_lt(b@, a@),
{
    let mut i: usize = 0;
    proof {
        assert(a@.take(0) =~= b@.take(0));
        assert(a@.skip(0) =~= a@);
        assert(b@.skip(0) =~= b@);
    }
    while i < a.len() && i < b.len()
        invariant
            i <= a@.len(),
            i <= b@.len(),
            a@.take(i as int) == b@.take(i as int),
            text_lt(a@, b@) == text_lt(a@.skip(i as int), b@.skip(i as int)),
            text_lt(b@, a@) == text_lt(b@.skip(i as int), a@.skip(i as int)),
        decreases a@.len() - i,
    {
        let x = a[i];
        let y = b[i];
        proof {
            assert(a@.skip(i as int)[0] == x);
            assert(b@.skip(i as int)[0] == y);
            assert(a@.skip(i as int).drop_first() =~= a@.skip(i + 1));
            assert(b@.skip(i as int).drop_first() =~= b@.skip(i + 1));
        }
        if x != y {
            proof {
                lemma_char_code_injective(x, y);
            }
            if (x as u32) < (y as u32) {
                return -1;
            } else {
                return 1;
            }
        }
        proof {
            assert(a@.take(i + 1) =~= a@.take(i as int).push(x));
            assert(b@.take(i + 1) =~= b@.take(i as int).push(y));
        }
        i = i + 1;
    }
    proof {
        if i == a@.len() && i == b@.len() {
            assert(a@ =~= a@.take(i as int));
            assert(b@ =~= b@.take(i as int));
        }
        if a@ == b@ {
            lemma_text_lt_irreflexive(a@);
        }
        if i < a@.len() {
            assert(a@ != b@) by {
                if a@ == b@ {
                    assert(a@.len() == b@.len());
                }
            }
        }
        if i < b@.len() {
            assert(a@ != b@) by {
                if a@ == b@ {
                    assert(a@.len() == b@.len());
                }
            }
        }
    }
    if a.len() == b.len() {
        0
    } else if a.len() < b.len() {
        -1
    } else {
        1
    }
}

/// Values carrying a sort key made of texts.
pub trait TextKeyed: Sized {
    /// The sort key.
    spec fn key(&self) -> Seq<Seq<char>>;

    /// The sort key, character by character.
    fn key_chars(&self) -> (r: Vec<Vec<char>>)
        ensures
            r@.len() == self.key().len(),
            forall|i: int| 0 <= i < r@.len() ==> (#[trigger] r@[i])@ == self.key()[i];
}

/// The key of `r` is the one of `self`, seen character by character.
pub open spec fn key_of_chars(r: Seq<Vec<char>>) -> Seq<Seq<char>> {
    r.map_values(|v: Vec<char>| v@)
}

/// Compares two keys: negative, zero or positive as `a` is below, equal
/// to or above `b`.
pub fn compare_keys(a: &Vec<Vec<char>>, b: &Vec<Vec<char>>) -> (r: i8)
    ensures
        (r == 0) == (key_of_chars(a@) == key_of_chars(b@)),
        (r < 0) == key_lt(key_of_chars(a@), key_of_chars(b@)),
        (r > 0) == key_lt(key_of_chars(b@), key_of_chars(a@)),
{
    let ghost ka = key_of_chars(a@);
    let ghost kb = key_of_chars(b@);
    let mut i: usize = 0;
    proof {
        assert(ka.take(0) =~= kb.take(0));
        assert(ka.skip(0) =~= ka);
        assert(kb.skip(0) =~= kb);
    }
    while i < a.len() && i < b.len()
        invariant
            ka == key_of_chars(a@),
            kb == key_of_chars(b@),
            i <= a@.len(),
            i <= b@.len(),
            ka.take(i as int) == kb.take(i as int),
            key_lt(ka, kb) == key_lt(ka.skip(i as int), kb.skip(i as int)),
            key_lt(kb, ka) == key_lt(kb.skip(i as int), ka.skip(i as int)),
        decreases a@.len() - i,
    {
        let c = compare_text(&a[i], &b[i]);
        proof {
            assert(ka.skip(i as int)[0] == a@[i as int]@);
            assert(kb.skip(i as int)[0] == b@[i as int]@);
            assert(ka.skip(i as int).drop_first() =~= ka.skip(i + 1));
            assert(kb.skip(i as int).drop_first() =~= kb.skip(i + 1));
        }
        if c != 0 {
            proof {
                assert(ka[i as int] != kb[i as int]);
                lemma_text_lt_asymmetric(a@[i as int]@, b@[i as int]@);
                if ka == kb {
                    assert(ka[i as int] == kb[i as int]);
                }
            }
            return c;
        }
        proof {
            assert(ka.take(i + 1) =~= ka.take(i as int).push(ka[i as int]));
            assert(kb.take(i + 1) =~= kb.take(i as int).push(kb[i as int]));
        }
        i = i + 1;
    }
    proof {
        if i == a@.len() && i == b@.len() {
            assert(ka =~= ka.take(i as int));
            assert(kb =~= kb.take(i as int));
        }
        if ka == kb {
            lemma_key_lt_irreflexive(ka);
        }
        if i < a@.len() || i < b@.len() {
            if ka == kb {
                assert(ka.len() == kb.len());
            }
        }
    }
    if a.len() == b.len() {
        0
    } else if a.len() < b.len() {
        -1
    } else {
        1
    }
}

/// Keys strictly increase along `s`.
pub open spec fn sorted_keys<T: TextKeyed>(s: Seq<T>) -> bool {
    forall|i: int, j: int| 0 <= i < j < s.len() ==> key_lt(#[trigger] s[i].key(), #[trigger] s[j].key())
}

/// Inserts `x` into a strictly sorted vector at its place, unless an
/// element with the same key is already there. Returns whether it inserted.
pub fn insert_sorted<T: TextKeyed>(v: &mut Vec<T>, x: T) -> (inserted: bool)
    requires
        sorted_keys(old(v)@),
    ensures
        sorted_keys(final(v)@),
        inserted == !(exists|i: int| 0 <= i < old(v)@.len() && (#[trigger] old(v)@[i]).key() == x.key()),
        inserted ==> exists|p: int| 0 <= p <= old(v)@.len() && final(v)@ == old(v)@.insert(p, x),
        !inserted ==> final(v)@ == old(v)@,
{
    let kx = x.key_chars();
    let mut p: usize = 0;
    let mut above = false;
    while p < v.len() && !above
        invariant
            p <= v@.len(),
            sorted_keys(v@),
            key_of_chars(kx@) == x.key(),
            forall|k: int| 0 <= k < p ==> key_lt(#[trigger] v@[k].key(), x.key()),
            above ==> p < v@.len() && key_lt(x.key(), v@[p as int].key()),
        decreases v@.len() - p, (if above { 0int } else { 1int }),
    {
        let kp = v[p].key_chars();
        proof {
            assert(key_of_chars(kp@) =~= v@[p as int].key());
        }
        let c = compare_keys(&kp, &kx);
        if c == 0 {
            proof {
                assert(v@[p as int].key() == x.key());
            }
            return false;
        }
        if c > 0 {
            above = true;
        } else {
            p = p + 1;
        }
    }
    // Every element from `p` on is above `x`.
    proof {
        assert forall|k: int| p <= k < v@.len() implies key_lt(x.key(), #[trigger] v@[k].key()) by {
            if k > p {
                lemma_key_lt_transitive(x.key(), v@[p as int].key(), v@[k].key());
            }
        }
        assert(!(exists|i: int| 0 <= i < v@.len() && (#[trigger] v@[i]).key() == x.key())) by {
            if exists|i: int| 0 <= i < v@.len() && (#[trigger] v@[i]).key() == x.key() {
                let i = choose|i: int| 0 <= i < v@.len() && (#[trigger] v@[i]).key() == x.key();
                lemma_key_lt_irreflexive(x.key());
            }
        }
    }
    let ghost before = v@;
    v.insert(p, x);
    proof {
        assert(v@ == before.insert(p as int, x));
        assert forall|i: int, j: int| 0 <= i < j < v@.len() implies key_lt(
            #[trigger] v@[i].key(),
            #[trigger] v@[j].key(),
        ) by {
            if i < p && j < p {
                assert(v@[i] == before[i]);
                assert(v@[j] == before[j]);
            } else if i < p && j == p {
            } else if i < p && j > p {
                assert(v@[j] == before[j - 1]);
            } else if i == p {
                assert(v@[j] == before[j - 1]);
            } else {
                assert(v@[i] == before[i - 1]);
                assert(v@[j] == before[j - 1]);
            }
        }
    }
    true
}

/// In a strictly sorted sequence no two elements share a key.
pub proof fn lemma_sorted_unique_keys<T: TextKeyed>(s: Seq<T>, i: int, j: int)
    requires
        sorted_keys(s),
        0 <= i < s.len(),
        0 <= j < s.len(),
        s[i].key() == s[j].key(),
    ensures
        i == j,
{
    if i < j {
        lemma_key_lt_irreflexive(s[i].key());
    } else if j < i {
        lemma_key_lt_irreflexive(s[i].key());
    }
}

impl TextKeyed for String {
    open spec fn key(&self) -> Seq<Seq<char>> {
        seq![self@]
    }

    fn key_chars(&self) -> (r: Vec<Vec<char>>) {
        let mut r: Vec<Vec<char>> = Vec::new();
        r.push(crate::text::chars_of(self.as_str()));
        r
    }
}

/// Position `a` of `rows` comes before position `b` in a stable sort from
/// the highest key down: a higher key first, and among equal keys the
/// earlier position first.
pub open spec fn desc_before<T: TextKeyed>(rows: Seq<T>, a: int, b: int) -> bool {
    key_lt(rows[b].key(), rows[a].key()) || (rows[a].key() == rows[b].key() && a < b)
}

/// `order` lists every position of `rows` once, highest key first, ties in
/// their original order.
pub open spec fn desc_order<T: TextKeyed>(rows: Seq<T>, order: Seq<int>) -> bool {
    &&& order.len() == rows.len()
    &&& forall|k: int| 0 <= k < order.len() ==> 0 <= #[trigger] order[k] < rows.len()
    &&& forall|k: int, l: int|
        0 <= k < l < order.len() ==> desc_before(rows, #[trigger] order[k], #[trigger] order[l])
}

/// The elements of `rows` laid out in `order`.
pub open spec fn laid_out<T>(rows: Seq<T>, order: Seq<int>) -> Seq<T> {
    order.map_values(|k: int| rows[k])
}

/// Sorts by key from the highest down, keeping the original order among
/// equal keys (a stable sort in reverse key order).
pub fn sort_desc_stable<T: TextKeyed>(v: Vec<T>) -> (out: Vec<T>)
    ensures
        exists|order: Seq<int>| #[trigger] desc_order(v@, order) && out@ == laid_out(v@, order),
{
    let ghost orig = v@;
    let mut src = v;
    let mut out: Vec<T> = Vec::new();
    let ghost mut ord: Seq<int> = Seq::empty();
    // Take the elements from the last one back; each goes before the
    // equal-keyed ones already placed, which came later.
    while src.len() > 0
        invariant
            src@ == orig.take(src@.len() as int),
            src@.len() <= orig.len(),
            ord.len() == orig.len() - src@.len(),
            forall|k: int| 0 <= k < ord.len() ==> src@.len() <= #[trigger] ord[k] < orig.len(),
            forall|k: int, l: int|
                0 <= k < l < ord.len() ==> desc_before(orig, #[trigger] ord[k], #[trigger] ord[l]),
            out@ == laid_out(orig, ord),
        decreases src@.len(),
    {
        let ghost i = src@.len() - 1;
        let x = src.pop().unwrap();
        proof {
            assert(orig.take(i + 1).last() == orig[i]);
            assert(orig.take(i + 1).drop_last() =~= orig.take(i));
        }
        let kx = x.key_chars();
        let mut p: usize = 0;
        let mut stop = false;
        while p < out.len() && !stop
            invariant
                x == orig[i],
                0 <= i < orig.len(),
                key_of_chars(kx@) == x.key(),
                p <= out@.len(),
                out@ == laid_out(orig, ord),
                ord.len() == out@.len(),
                forall|k: int| 0 <= k < p ==> key_lt(x.key(), #[trigger] orig[ord[k]].key()),
                stop ==> p < out@.len() && !key_lt(x.key(), orig[ord[p as int]].key()),
            decreases out@.len() - p, (if stop { 0int } else { 1int }),
        {
            let kp = out[p].key_chars();
            proof {
                assert(out@[p as int] == orig[ord[p as int]]);
                assert(key_of_chars(kp@) =~= out@[p as int].key());
            }
            let c = compare_keys(&kp, &kx);
            if c > 0 {
                p = p + 1;
            } else {
                stop = true;
            }
        }
        proof {
            // Every element from `p` on ranks no higher than `x`, and comes
            // later in `orig`.
            assert forall|k: int| p <= k < ord.len() implies desc_before(orig, i, #[trigger] ord[k]) by {
                let q = ord[p as int];
                lemma_key_lt_total(x.key(), orig[q].key());
                if k > p {
                    assert(desc_before(orig, q, ord[k]));
                    if key_lt(orig[ord[k]].key(), orig[q].key()) {
                        if key_lt(orig[q].key(), x.key()) {
                            lemma_key_lt_transitive(orig[ord[k]].key(), orig[q].key(), x.key());
                        }
                    }
                }
                lemma_key_lt_total(x.key(), orig[ord[k]].key());
                if key_lt(x.key(), orig[ord[k]].key()) {
                    if k > p {
                        if key_lt(orig[ord[k]].key(), orig[q].key()) {
                            lemma_key_lt_transitive(x.key(), orig[ord[k]].key(), orig[q].key());
                        }
                    }
                }
            }
        }
        let ghost old_ord = ord;
        let ghost old_out = out@;
        out.insert(p, x);
        proof {
            ord = old_ord.insert(p as int, i);
            assert(out@ =~= laid_out(orig, ord)) by {
                assert forall|k: int| 0 <= k < ord.len() implies out@[k] == orig[ord[k]] by {
                    if k < p {
                    } else if k == p {
                    } else {
                        assert(ord[k] == old_ord[k - 1]);
                    }
                }
            }
            assert forall|k: int, l: int| 0 <= k < l < ord.len() implies desc_before(
                orig,
                #[trigger] ord[k],
                #[trigger] ord[l],
            ) by {
                if k < p && l == p {
                } else if k < p && l > p {
                    assert(ord[l] == old_ord[l - 1]);
                } else if k == p {
                    assert(ord[l] == old_ord[l - 1]);
                } else if k > p {
                    assert(ord[k] == old_ord[k - 1]);
                    assert(ord[l] == old_ord[l - 1]);
                }
            }
            assert forall|k: int| 0 <= k < ord.len() implies src@.len() <= #[trigger] ord[k]
                < orig.len() by {
                if k > p {
                    assert(ord[k] == old_ord[k - 1]);
                }
            }
        }
    }
    proof {
        assert(desc_order(orig, ord));
    }
    out
}

/// Values ranked by an integer.
pub trait Ranked: Sized {
    /// The rank.
    spec fn rank(&self) -> int;

    /// The rank, computed.
    fn rank_exec(&self) -> (r: i64)
        ensures
            r == self.rank();
}

/// Position `a` of `rows` comes before position `b` in a stable sort from
/// the highest rank down.
pub open spec fn rank_before<T: Ranked>(rows: Seq<T>, a: int, b: int) -> bool {
    rows[b].rank() < rows[a].rank() || (rows[a].rank() == rows[b].rank() && a < b)
}

/// `order` lists every position of `rows` once, highest rank first, ties
/// in their original order.
pub open spec fn rank_order<T: Ranked>(rows: Seq<T>, order: Seq<int>) -> bool {
    &&& order.len() == rows.len()
    &&& forall|k: int| 0 <= k < order.len() ==> 0 <= #[trigger] order[k] < rows.len()
    &&& forall|k: int, l: int|
        0 <= k < l < order.len() ==> rank_before(rows, #[trigger] order[k], #[trigger] order[l])
}

/// Sorts by rank from the highest down, keeping the original order among
/// equal ranks.
pub fn sort_rank_desc_stable<T: Ranked>(v: Vec<T>) -> (out: Vec<T>)
    ensures
        exists|order: Seq<int>| #[trigger] rank_order(v@, order) && out@ == laid_out(v@, order),
{
    let ghost orig = v@;
    let mut src = v;
    let mut out: Vec<T> = Vec::new();
    let ghost mut ord: Seq<int> = Seq::empty();
    while src.len() > 0
        invariant
            src@ == orig.take(src@.len() as int),
            src@.len() <= orig.len(),
            ord.len() == orig.len() - src@.len(),
            forall|k: int| 0 <= k < ord.len() ==> src@.len() <= #[trigger] ord[k] < orig.len(),
            forall|k: int, l: int|
                0 <= k < l < ord.len() ==> rank_before(orig, #[trigger] ord[k], #[trigger] ord[l]),
            out@ == laid_out(orig, ord),
        decreases src@.len(),
    {
        let ghost i = src@.len() - 1;
        let x = src.pop().unwrap();
        proof {
            assert(orig.take(i + 1).last() == orig[i]);
            assert(orig.take(i + 1).drop_last() =~= orig.take(i));
        }
        let rx = x.rank_exec();
        let mut p: usize = 0;
        while p < out.len() && out[p].rank_exec() > rx
            invariant
                x == orig[i],
                0 <= i < orig.len(),
                rx == x.rank(),
                p <= out@.len(),
                out@ == laid_out(orig, ord),
                ord.len() == out@.len(),
                forall|k: int| 0 <= k < p ==> x.rank() < #[trigger] orig[ord[k]].rank(),
            decreases out@.len() - p,
        {
            proof {
                assert(out@[p as int] == orig[ord[p as int]]);
            }
            p = p + 1;
        }
        proof {
            if p < out@.len() {
                assert(out@[p as int] == orig[ord[p as int]]);
            }
            assert forall|k: int| p <= k < ord.len() implies rank_before(orig, i, #[trigger] ord[k]) by {
                if k > p {
                    assert(rank_before(orig, ord[p as int], ord[k]));
                }
            }
        }
        let ghost old_ord = ord;
        out.insert(p, x);
        proof {
            ord = old_ord.insert(p as int, i);
            assert(out@ =~= laid_out(orig, ord)) by {
                assert forall|k: int| 0 <= k < ord.len() implies out@[k] == orig[ord[k]] by {
                    if k > p {
                        assert(ord[k] == old_ord[k - 1]);
                    }
                }
            }
            assert forall|k: int, l: int| 0 <= k < l < ord.len() implies rank_before(
                orig,
                #[trigger] ord[k],
                #[trigger] ord[l],
            ) by {
                if k < p && l > p {
                    assert(ord[l] == old_ord[l - 1]);
                } else if k == p {
                    assert(ord[l] == old_ord[l - 1]);
                } else if k > p {
                    assert(ord[k] == old_ord[k - 1]);
                    assert(ord[l] == old_ord[l - 1]);
                }
            }
            assert forall|k: int| 0 <= k < ord.len() implies src@.len() <= #[trigger] ord[k]
                < orig.len() by {
                if k > p {
                    assert(ord[k] == old_ord[k - 1]);
                }
            }
        }
    }
    proof {
        assert(rank_order(orig, ord));
    }
    out
}

/// Two strictly sorted sequences of strings holding the same texts are
/// the same sequence.
pub proof fn lemma_sorted_texts_unique(a: Seq<Seq<char>>, b: Seq<Seq<char>>)
    requires
        forall|i: int, j: int| 0 <= i < j < a.len() ==> text_lt(#[trigger] a[i], #[trigger] a[j]),
        forall|i: int, j: int| 0 <= i < j < b.len() ==> text_lt(#[trigger] b[i], #[trigger] b[j]),
        a.to_set() == b.to_set(),
    ensures
        a == b,
    decreases a.len(),
{
    if a.len() == 0 {
        if b.len() > 0 {
            assert(b.to_set().contains(b[0]));
        }
        assert(a =~= b);
    } else if b.len() == 0 {
        assert(a.to_set().contains(a[0]));
    } else {
        // Both start with the least element of the common set.
        assert(b.to_set().contains(a[0]));
        assert(a.to_set().contains(b[0]));
        let ia = choose|i: int| 0 <= i < b.len() && b[i] == a[0];
        let ib = choose|i: int| 0 <= i < a.len() && a[i] == b[0];
        if a[0] != b[0] {
            if ia > 0 && ib > 0 {
                assert(text_lt(b[0], b[ia]));
                assert(text_lt(a[0], a[ib]));
                lemma_text_lt_asymmetric(a[0], b[0]);
            }
        }
        let ra = a.drop_first();
        let rb = b.drop_first();
        assert forall|x: Seq<char>| ra.to_set().contains(x) implies rb.to_set().contains(x) by {
            let i = choose|i: int| 0 <= i < ra.len() && ra[i] == x;
            assert(a[i + 1] == x);
            assert(text_lt(a[0], x));
            assert(b.to_set().contains(x));
            let j = choose|j: int| 0 <= j < b.len() && b[j] == x;
            if j == 0 {
                lemma_text_lt_irreflexive(x);
            }
            assert(rb[j - 1] == x);
        }
        assert forall|x: Seq<char>| rb.to_set().contains(x) implies ra.to_set().contains(x) by {
            let i = choose|i: int| 0 <= i < rb.len() && rb[i] == x;
            assert(b[i + 1] == x);
            assert(text_lt(b[0], x));
            assert(a.to_set().contains(x));
            let j = choose|j: int| 0 <= j < a.len() && a[j] == x;
            if j == 0 {
                lemma_text_lt_irreflexive(x);
            }
            assert(ra[j - 1] == x);
        }
        assert(ra.to_set() =~= rb.to_set());
        lemma_sorted_texts_unique(ra, rb);
        assert(a =~= seq![a[0]] + ra);
        assert(b =~= seq![b[0]] + rb);
    }
}

} // verus!
