//! Stale end-to-end test processes (`doctor --kill-zombies`): parsing the
//! `ps -axo pid=,etimes=,command=` listing and picking long-running
//! `target/(debug|release)/deps/e2e_*` runs.
use crate::cells::{byte_len, clip_bytes, clipped};
use crate::numeric::{parse_unsigned, parse_unsigned_range};
use crate::text::{
    chars_of, contains, contains_str, is_whitespace, is_ws, lemma_lead_ws_unique,
    lemma_trail_end_unique, line_ranges, lines, range_of, string_of_range, trim_start,
};
use vstd::prelude::*;
use vstd::string::StringSliceAdditionalSpecFns;
use vstd::utf8::*;

verus! {

/// Minimum age, in minutes, of a process worth flagging.
pub const MIN_AGE_MINUTES: u64 = 30;

/// One stale process found in the listing.
pub struct Zombie {
    pub pid: u32,
    pub age_minutes: u64,
    pub cmd: String,
}

impl Zombie {
    /// The row as plain values: pid, age in minutes, command line.
    pub open spec fn row(self) -> (nat, nat, Seq<char>) {
        (self.pid as nat, self.age_minutes as nat, self.cmd@)
    }
}

/// The command line of an end-to-end test binary built by cargo.
pub open spec fn e2e_command(cmd: Seq<char>) -> bool {
    contains(cmd, "target/debug/deps/e2e_"@) || contains(cmd, "target/release/deps/e2e_"@)
}

/// A command counts as a test binary exactly when it runs an `e2e_*`
/// binary out of a cargo `deps` directory, debug or release.
pub proof fn e2e_binaries_only(cmd: Seq<char>)
    ensures
        e2e_command(cmd) <==> (contains(cmd, "target/debug/deps/e2e_"@) || contains(
            cmd,
            "target/release/deps/e2e_"@,
        )),
{
}

/// Whether a command line runs a cargo-built `e2e_*` test binary, debug or
/// release.
pub fn is_e2e(cmd: &str) -> (r: bool)
    ensures
        r == e2e_command(cmd@),
{
    contains_str(cmd, "target/debug/deps/e2e_") || contains_str(cmd, "target/release/deps/e2e_")
}

/// First whitespace position `>= i`.
pub open spec fn ws_from(s: Seq<char>, i: int) -> Option<int>
    decreases s.len() - i,
{
    if i < 0 || i >= s.len() {
        None
    } else if is_ws(s[i]) {
        Some(i)
    } else {
        ws_from(s, i + 1)
    }
}

pub proof fn lemma_ws_from(s: Seq<char>, i: int)
    requires
        0 <= i,
    ensures
        ws_from(s, i) matches Some(j) ==> i <= j < s.len() && is_ws(s[j]),
    decreases s.len() - i,
{
    if i < s.len() && !is_ws(s[i]) {
        lemma_ws_from(s, i + 1);
    }
}

pub proof fn lemma_ws_from_shift(s: Seq<char>, p: int, i: int)
    requires
        0 <= p <= i,
        p <= s.len(),
    ensures
        ws_from(s.skip(p), i - p) == match ws_from(s, i) {
            Some(j) => Some(j - p),
            None => None::<int>,
        },
    decreases s.len() - i,
{
    if i < s.len() && !is_ws(s[i]) {
        lemma_ws_from_shift(s, p, i + 1);
    }
}

/// `line.splitn(3, char::is_whitespace)` when it yields three fields:
/// the text up to the first whitespace, the text up to the second, and
/// everything after the second.
pub open spec fn three_fields(line: Seq<char>) -> Option<(Seq<char>, Seq<char>, Seq<char>)> {
    match ws_from(line, 0) {
        Some(a) => {
            let rest = line.skip(a + 1);
            match ws_from(rest, 0) {
                Some(b) => Some((line.take(a), rest.take(b), rest.skip(b + 1))),
                None => None,
            }
        },
        None => None,
    }
}

/// The candidate a listing line describes, if any: a `pid etimes
/// command` line whose numbers parse, whose command is an e2e binary and
/// whose age is at least [`MIN_AGE_MINUTES`].
pub open spec fn ps_row(raw: Seq<char>) -> Option<(nat, nat, Seq<char>)> {
    let line = trim_start(raw);
    if line.len() == 0 {
        None
    } else {
        match three_fields(line) {
            Some((pid_s, et_s, cmd)) => match (
                parse_unsigned(crate::text::trim(pid_s), 0xFFFF_FFFF),
                parse_unsigned(crate::text::trim(et_s), 0xFFFF_FFFF_FFFF_FFFF),
            ) {
                (Some(pid), Some(et)) => {
                    if e2e_command(cmd) && et / 60 >= 30 {
                        Some((pid, et / 60, crate::text::trim(cmd)))
                    } else {
                        None
                    }
                },
                _ => None,
            },
            None => None,
        }
    }
}

/// All candidates of a listing, in listing order.
pub open spec fn ps_rows(text: Seq<char>) -> Seq<(nat, nat, Seq<char>)> {
    rows_of(lines(text))
}

/// The candidates of some listing lines, in order.
pub open spec fn rows_of(ls: Seq<Seq<char>>) -> Seq<(nat, nat, Seq<char>)> {
    ls.filter_map(|l: Seq<char>| ps_row(l))
}

/// The candidates of some lines, and where each comes from.
proof fn lemma_rows_of_lines(ls: Seq<Seq<char>>)
    ensures
        forall|k: int|
            0 <= k < rows_of(ls).len() ==> exists|j: int|
                0 <= j < ls.len() && ps_row(#[trigger] ls[j]) == Some(#[trigger] rows_of(ls)[k]),
        forall|j: int|
            0 <= j < ls.len() && (#[trigger] ps_row(ls[j])) is Some ==> rows_of(ls).contains(
                ps_row(ls[j])->0,
            ),
    decreases ls.len(),
{
    let f = |l: Seq<char>| ps_row(l);
    if ls.len() > 0 {
        let init = ls.drop_last();
        lemma_rows_of_lines(init);
        let a = rows_of(init);
        let out = rows_of(ls);
        assert(out == match f(ls.last()) {
            Some(x) => a + seq![x],
            None => a,
        });
        assert forall|k: int| 0 <= k < out.len() implies exists|j: int|
            0 <= j < ls.len() && ps_row(#[trigger] ls[j]) == Some(#[trigger] out[k]) by {
            if k < a.len() {
                assert(out[k] == a[k]);
                let j = choose|j: int| 0 <= j < init.len() && ps_row(#[trigger] init[j]) == Some(a[k]);
                assert(ls[j] == init[j]);
            } else {
                assert(ps_row(ls[ls.len() - 1]) == Some(out[k]));
            }
        }
        assert forall|j: int| 0 <= j < ls.len() && (#[trigger] ps_row(ls[j])) is Some implies out.contains(
            ps_row(ls[j])->0,
        ) by {
            if j < init.len() {
                assert(init[j] == ls[j]);
                assert(ps_row(init[j]) is Some);
                let x = ps_row(ls[j])->0;
                assert(a.contains(x));
                let k = choose|k: int| 0 <= k < a.len() && a[k] == x;
                assert(out[k] == a[k]);
            } else {
                assert(out[out.len() - 1] == ps_row(ls[j])->0);
            }
        }
    }
}

/// The listing keeps exactly the stale test binaries: every row comes from
/// a listing line that describes an e2e binary running for at least 30
/// minutes, and no such line is dropped.
pub proof fn zombies_are_stale_e2e(text: Seq<char>)
    ensures
        forall|k: int| 0 <= k < ps_rows(text).len() ==> (#[trigger] ps_rows(text)[k]).1 >= 30,
        forall|k: int|
            0 <= k < ps_rows(text).len() ==> exists|j: int|
                0 <= j < lines(text).len() && ps_row(#[trigger] lines(text)[j]) == Some(
                    #[trigger] ps_rows(text)[k],
                ),
        forall|j: int|
            0 <= j < lines(text).len() && (#[trigger] ps_row(lines(text)[j])) is Some
                ==> ps_rows(text).contains(ps_row(lines(text)[j])->0),
{
    lemma_rows_of_lines(lines(text));
    assert forall|k: int| 0 <= k < ps_rows(text).len() implies (#[trigger] ps_rows(text)[k]).1 >= 30 by {
        let j = choose|j: int|
            0 <= j < lines(text).len() && ps_row(#[trigger] lines(text)[j]) == Some(ps_rows(text)[k]);
        assert(ps_row(lines(text)[j]) == Some(ps_rows(text)[k]));
    }
}

/// First whitespace position in `v[from..hi]`.
fn ws_from_exec(v: &Vec<char>, from: usize, hi: usize) -> (r: Option<usize>)
    requires
        from <= hi <= v@.len(),
    ensures
        r matches Some(j) ==> ws_from(v@.subrange(0, hi as int), from as int) == Some(j as int),
        r is None ==> ws_from(v@.subrange(0, hi as int), from as int) is None,
{
    let ghost s = v@.subrange(0, hi as int);
    let mut i = from;
    while i < hi
        invariant
            from <= i <= hi <= v@.len(),
            s == v@.subrange(0, hi as int),
            ws_from(s, from as int) == ws_from(s, i as int),
        decreases hi - i,
    {
        if is_whitespace(v[i]) {
            return Some(i);
        }
        i = i + 1;
    }
    None
}

/// The candidate described by the listing line `v[lo..hi]`.
fn row_at(v: &Vec<char>, lo: usize, hi: usize) -> (r: Option<Zombie>)
    requires
        lo <= hi <= v@.len(),
    ensures
        r matches Some(z) ==> ps_row(v@.subrange(lo as int, hi as int)) == Some(z.row()),
        r is None ==> ps_row(v@.subrange(lo as int, hi as int)) is None,
{
    let ghost raw = v@.subrange(lo as int, hi as int);
    let mut start = lo;
    while start < hi && is_whitespace(v[start])
        invariant
            lo <= start <= hi <= v@.len(),
            forall|k: int| lo <= k < start ==> is_ws(#[trigger] v@[k]),
        decreases hi - start,
    {
        start = start + 1;
    }
    let ghost line = v@.subrange(start as int, hi as int);
    proof {
        assert forall|k: int| 0 <= k < start - lo implies is_ws(#[trigger] raw[k]) by {
            assert(raw[k] == v@[lo + k]);
        }
        if start < hi {
            assert(raw[start - lo] == v@[start as int]);
        }
        lemma_lead_ws_unique(raw, start - lo);
        assert(trim_start(raw) =~= line);
    }
    if start == hi {
        return None;
    }
    // Fields are located inside `v[..hi]`; `line` is its suffix from `start`.
    let ghost whole = v@.subrange(0, hi as int);
    proof {
        assert(whole.skip(start as int) =~= line);
    }
    let a = match ws_from_exec(v, start, hi) {
        Some(a) => a,
        None => {
            proof {
                lemma_ws_from_shift(whole, start as int, start as int);
            }
            return None;
        },
    };
    proof {
        lemma_ws_from_shift(whole, start as int, start as int);
        lemma_ws_from(whole, start as int);
        assert(line.skip(a - start + 1) =~= whole.skip(a + 1));
        lemma_ws_from_shift(whole, a + 1, a + 1);
    }
    let b = match ws_from_exec(v, a + 1, hi) {
        Some(b) => b,
        None => {
            return None;
        },
    };
    proof {
        lemma_ws_from(whole, a + 1);
        let rest = line.skip(a - start + 1);
        assert(line.take(a - start) =~= v@.subrange(start as int, a as int));
        assert(rest.take(b - a - 1) =~= v@.subrange(a + 1, b as int));
        assert(rest.skip(b - a) =~= v@.subrange(b + 1, hi as int));
    }
    let (plo, phi) = trim_range(v, start, a);
    let pid = match parse_unsigned_range(v, plo, phi, 0xFFFF_FFFF) {
        Some(p) => p,
        None => {
            return None;
        },
    };
    let (elo, ehi) = trim_range(v, a + 1, b);
    let et = match parse_unsigned_range(v, elo, ehi, 0xFFFF_FFFF_FFFF_FFFF) {
        Some(e) => e,
        None => {
            return None;
        },
    };
    let cmd_all = string_of_range(v, b + 1, hi);
    if !is_e2e(cmd_all.as_str()) {
        return None;
    }
    let age = et / 60;
    if age < MIN_AGE_MINUTES {
        return None;
    }
    let (clo, chi) = trim_range(v, b + 1, hi);
    let cmd = string_of_range(v, clo, chi);
    Some(Zombie { pid: pid as u32, age_minutes: age, cmd })
}

/// Bounds of `trim(v[lo..hi])` inside `v`.
fn trim_range(v: &Vec<char>, lo: usize, hi: usize) -> (r: (usize, usize))
    requires
        lo <= hi <= v@.len(),
    ensures
        lo <= r.0 <= r.1 <= hi,
        v@.subrange(r.0 as int, r.1 as int) == crate::text::trim(v@.subrange(lo as int, hi as int)),
{
    let ghost s = v@.subrange(lo as int, hi as int);
    let mut a = lo;
    while a < hi && is_whitespace(v[a])
        invariant
            lo <= a <= hi <= v@.len(),
            forall|k: int| lo <= k < a ==> is_ws(#[trigger] v@[k]),
        decreases hi - a,
    {
        a = a + 1;
    }
    let mut b = hi;
    while b > a && is_whitespace(v[b - 1])
        invariant
            lo <= a <= b <= hi <= v@.len(),
            forall|k: int| b <= k < hi ==> is_ws(#[trigger] v@[k]),
        decreases b,
    {
        b = b - 1;
    }
    proof {
        assert forall|k: int| 0 <= k < a - lo implies is_ws(#[trigger] s[k]) by {
            assert(s[k] == v@[lo + k]);
        }
        if a < hi {
            assert(s[a - lo] == v@[a as int]);
        }
        lemma_lead_ws_unique(s, a - lo);
        let t = trim_start(s);
        assert(t =~= v@.subrange(a as int, hi as int));
        assert forall|k: int| b - a <= k < t.len() implies is_ws(#[trigger] t[k]) by {
            assert(t[k] == v@[a + k]);
        }
        if b > a {
            assert(t[b - a - 1] == v@[b - 1]);
        }
        lemma_trail_end_unique(t, b - a);
        assert(crate::text::trim(s) =~= v@.subrange(a as int, b as int));
    }
    (a, b)
}

/// Parses a `ps -axo pid=,etimes=,command=` listing into the stale
/// `e2e_*` processes it shows (at least [`MIN_AGE_MINUTES`] old), in
/// listing order.
pub fn parse_ps(text: &str) -> (rows: Vec<Zombie>)
    ensures
        rows@.map_values(|z: Zombie| z.row()) == ps_rows(text@),
{
    let v = chars_of(text);
    let ranges = line_ranges(&v);
    let ghost ls = lines(v@);
    let mut rows: Vec<Zombie> = Vec::new();
    let mut i: usize = 0;
    while i < ranges.len()
        invariant
            i <= ranges@.len(),
            ranges@.len() == ls.len(),
            ls == lines(v@),
            forall|k: int|
                0 <= k < ranges@.len() ==> #[trigger] ranges@[k].0 <= ranges@[k].1 <= v@.len()
                    && range_of(v@, ranges@[k]) == ls[k],
            rows@.map_values(|z: Zombie| z.row()) == ls.take(i as int).filter_map(
                |l: Seq<char>| ps_row(l),
            ),
        decreases ranges@.len() - i,
    {
        let (lo, hi) = ranges[i];
        let ghost before = rows@;
        let row = row_at(&v, lo, hi);
        proof {
            assert(ls.take(i + 1).drop_last() =~= ls.take(i as int));
            assert(ls.take(i + 1).last() == v@.subrange(lo as int, hi as int));
        }
        match row {
            Some(z) => {
                rows.push(z);
                proof {
                    assert(rows@.map_values(|z: Zombie| z.row()) =~= before.map_values(
                        |z: Zombie| z.row(),
                    ) + seq![rows@.last().row()]);
                }
            },
            None => {},
        }
        i = i + 1;
    }
    proof {
        assert(ls.take(ranges@.len() as int) =~= ls);
    }
    rows
}

/// A command line limited to `n` bytes, with an ellipsis when longer.
pub fn trim(s: &str, n: usize) -> (r: String)
    requires
        byte_len(s@) > n ==> is_char_boundary(s.spec_bytes(), n as int),
    ensures
        r@ == clipped(s@, n as nat),
{
    clip_bytes(s, n)
}

} // verus!
