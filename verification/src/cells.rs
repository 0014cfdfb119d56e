//! Table-cell formatting for the agent, audit and gate views: relative
//! ages, Unicode-aware truncation, ANSI status colouring, short ids.
use crate::numeric::{dec, push_dec};
use crate::text::{chars_of, owned, push_char, push_str, str_eq, string_of_range};
use vstd::prelude::*;
use vstd::string::StringSliceAdditionalSpecFns;
use vstd::utf8::*;

verus! {

broadcast use vstd::string::group_string_axioms, vstd::utf8::encode_utf8_decode_utf8;

// ---------------------------------------------------------------------
// Relative ages
// ---------------------------------------------------------------------

/// A number followed by its unit letter.
pub open spec fn amount(n: nat, unit: char) -> Seq<char> {
    dec(n).push(unit)
}

/// The largest day count the phrase shows; older ages read `99999d`, so
/// that the phrase never passes six characters.
pub const MAX_DAYS: u64 = 99999;

/// The short relative phrase for an age of `secs` seconds: seconds below a
/// minute, minutes below an hour, hours below a day, days beyond (capped at
/// `MAX_DAYS`); ages of zero or less (timestamps in the future) read `0s`.
pub open spec fn relative_text(secs: int) -> Seq<char> {
    if secs <= 0 {
        seq!['0', 's']
    } else if secs < 60 {
        amount(secs as nat, 's')
    } else if secs / 60 < 60 {
        amount((secs / 60) as nat, 'm')
    } else if secs / 3600 < 24 {
        amount((secs / 3600) as nat, 'h')
    } else if secs / 86400 <= MAX_DAYS {
        amount((secs / 86400) as nat, 'd')
    } else {
        amount(MAX_DAYS as nat, 'd')
    }
}

/// The phrase is short: at most six characters (`30s`, `2m`, `1h`,
/// `5d`, `99999d`) for every age; each unit gives way to the next at its
/// boundary.
pub proof fn relative_is_short(secs: int)
    ensures
        relative_text(secs).len() <= 6,
        secs >= 60 ==> relative_text(secs).last() != 's',
        secs >= 3600 ==> relative_text(secs).last() == 'h' || relative_text(secs).last() == 'd',
        secs >= 86400 ==> relative_text(secs).last() == 'd',
{
    reveal_with_fuel(crate::numeric::ten_pow, 6);
    if secs > 0 && secs < 60 {
        crate::numeric::lemma_dec_len(secs as nat, 2);
    } else if secs >= 60 && secs / 60 < 60 {
        crate::numeric::lemma_dec_len((secs / 60) as nat, 2);
    } else if secs >= 3600 && secs / 3600 < 24 {
        crate::numeric::lemma_dec_len((secs / 3600) as nat, 2);
    } else if secs >= 86400 && secs / 86400 <= MAX_DAYS {
        crate::numeric::lemma_dec_len((secs / 86400) as nat, 5);
    } else if secs >= 86400 {
        crate::numeric::lemma_dec_len(MAX_DAYS as nat, 5);
    }
}

/// Each age reads in its own unit: seconds below a minute, whole minutes
/// below an hour, whole hours below a day, whole days (at most 99999)
/// beyond, and `0s` for no age at all.
pub proof fn relative_buckets(secs: int)
    ensures
        secs <= 0 ==> relative_text(secs) == seq!['0', 's'],
        0 < secs < 60 ==> relative_text(secs) == dec(secs as nat).push('s'),
        60 <= secs < 3600 ==> relative_text(secs) == dec((secs / 60) as nat).push('m'),
        3600 <= secs < 86400 ==> relative_text(secs) == dec((secs / 3600) as nat).push('h'),
        86400 <= secs < 8640000000 ==> relative_text(secs) == dec((secs / 86400) as nat).push('d'),
        secs >= 8640000000 ==> relative_text(secs) == dec(99999).push('d'),
{
    if secs >= 3600 {
        assert(secs / 60 >= 60) by (nonlinear_arith)
            requires
                secs >= 3600,
        ;
    }
    if 60 <= secs < 3600 {
        assert(secs / 60 < 60) by (nonlinear_arith)
            requires
                secs < 3600,
        ;
    }
    if secs >= 86400 {
        assert(secs / 3600 >= 24) by (nonlinear_arith)
            requires
                secs >= 86400,
        ;
    }
    if 3600 <= secs < 86400 {
        assert(secs / 3600 < 24) by (nonlinear_arith)
            requires
                secs < 86400,
        ;
    }
    if secs >= 8640000000 {
        assert(secs / 86400 > 99999) by (nonlinear_arith)
            requires
                secs >= 8640000000,
        ;
    }
    if 86400 <= secs < 8640000000 {
        assert(secs / 86400 <= 99999) by (nonlinear_arith)
            requires
                secs < 8640000000,
        ;
    }
}

/// Formats an age given in whole seconds (`now - ts`, truncated toward
/// zero) as `30s`, `2m`, `1h`, `5d`.
pub fn relative_secs(secs: i64) -> (r: String)
    ensures
        r@ == relative_text(secs as int),
        r@.len() <= 6,
{
    proof {
        relative_is_short(secs as int);
    }
    let mut r = String::new();
    if secs <= 0 {
        push_char(&mut r, '0');
        push_char(&mut r, 's');
        proof {
            assert(r@ =~= seq!['0', 's']);
        }
        return r;
    }
    let s = secs as u64;
    if s < 60 {
        push_dec(&mut r, s);
        push_char(&mut r, 's');
        return r;
    }
    let mins = s / 60;
    if mins < 60 {
        push_dec(&mut r, mins);
        push_char(&mut r, 'm');
        return r;
    }
    let hours = mins / 60;
    proof {
        assert(hours == secs / 3600) by (nonlinear_arith)
            requires
                mins == s / 60,
                hours == mins / 60,
                s == secs,
                secs > 0,
        ;
    }
    if hours < 24 {
        push_dec(&mut r, hours);
        push_char(&mut r, 'h');
        return r;
    }
    let days = hours / 24;
    proof {
        assert(days == secs / 86400) by (nonlinear_arith)
            requires
                hours == secs / 3600,
                days == hours / 24,
                secs > 0,
        ;
    }
    let shown = if days <= MAX_DAYS {
        days
    } else {
        MAX_DAYS
    };
    push_dec(&mut r, shown);
    push_char(&mut r, 'd');
    r
}

/// `relative` followed by `" ago"`, or `-` when there is no timestamp.
pub open spec fn relative_ago_text(secs: Option<int>) -> Seq<char> {
    match secs {
        Some(s) => relative_text(s) + " ago"@,
        None => seq!['-'],
    }
}

/// Formats an optional age as `"<relative> ago"`, or `-` when absent.
pub fn relative_ago_secs(secs: Option<i64>) -> (r: String)
    ensures
        r@ == relative_ago_text(
            match secs {
                Some(s) => Some(s as int),
                None => None,
            },
        ),
{
    match secs {
        Some(s) => {
            let mut r = relative_secs(s);
            push_str(&mut r, " ago");
            r
        },
        None => {
            let mut r = String::new();
            push_char(&mut r, '-');
            proof {
                assert(r@ =~= seq!['-']);
            }
            r
        },
    }
}

// ---------------------------------------------------------------------
// Truncation
// ---------------------------------------------------------------------

/// The horizontal ellipsis appended to truncated cells.
pub open spec fn ellipsis() -> char {
    '\u{2026}'
}

/// At most `max` characters of `s`; when `s` is longer, its first
/// `max - 1` characters followed by an ellipsis. Nothing when `max` is 0.
pub open spec fn truncated(s: Seq<char>, max: nat) -> Seq<char> {
    if max == 0 {
        Seq::empty()
    } else if s.len() <= max {
        s
    } else {
        s.take(max - 1).push(ellipsis())
    }
}

/// Truncates `input` to `max` characters (Unicode scalar values),
/// appending an ellipsis when truncated.
pub fn truncate(input: &str, max: usize) -> (r: String)
    ensures
        r@ == truncated(input@, max as nat),
{
    if max == 0 {
        return String::new();
    }
    let v = chars_of(input);
    if v.len() <= max {
        return owned(input);
    }
    let take = max - 1;
    let mut out = string_of_range(&v, 0, take);
    push_char(&mut out, '\u{2026}');
    proof {
        assert(v@.subrange(0, take as int) =~= v@.take(take as int));
    }
    out
}

/// Truncating never yields more than `max` characters, and a text that
/// already fits is returned unchanged.
pub proof fn truncate_fits(s: Seq<char>, max: nat)
    ensures
        truncated(s, max).len() <= max,
        s.len() <= max && max > 0 ==> truncated(s, max) == s,
        s.len() > max && max > 0 ==> truncated(s, max).last() == ellipsis()
            && truncated(s, max).drop_last() == s.take(max - 1),
{
    if s.len() > max && max > 0 {
        assert(truncated(s, max).drop_last() =~= s.take(max - 1));
    }
}

/// Truncating twice to the same width is the same as truncating once.
pub proof fn truncate_idempotent(s: Seq<char>, max: nat)
    ensures
        truncated(truncated(s, max), max) == truncated(s, max),
{
    truncate_fits(s, max);
}

// ---------------------------------------------------------------------
// ANSI colouring
// ---------------------------------------------------------------------

/// SGR parameter for an agent status: green for `working`, cyan for
/// `idle`, yellow for `unhealthy`, dim for `terminated` / `retired`,
/// reset otherwise.
pub open spec fn status_code(status: Seq<char>) -> Seq<char> {
    if status == "working"@ {
        seq!['3', '2']
    } else if status == "idle"@ {
        seq!['3', '6']
    } else if status == "unhealthy"@ {
        seq!['3', '3']
    } else if status == "terminated"@ || status == "retired"@ {
        seq!['2']
    } else {
        seq!['0']
    }
}

/// The escape sequence that opens an SGR attribute.
pub open spec fn csi() -> Seq<char> {
    seq!['\u{1b}', '[']
}

/// The escape sequence that resets all attributes.
pub open spec fn sgr_reset() -> Seq<char> {
    seq!['\u{1b}', '[', '0', 'm']
}

/// `text` wrapped in the SGR attribute `code`.
pub open spec fn sgr(code: Seq<char>, text: Seq<char>) -> Seq<char> {
    csi() + code + seq!['m'] + text + sgr_reset()
}

fn push_csi(out: &mut String)
    ensures
        final(out)@ == old(out)@ + csi(),
{
    push_char(out, '\u{1b}');
    push_char(out, '[');
    proof {
        assert(old(out)@.push('\u{1b}').push('[') =~= old(out)@ + csi());
    }
}

fn push_reset(out: &mut String)
    ensures
        final(out)@ == old(out)@ + sgr_reset(),
{
    push_csi(out);
    push_char(out, '0');
    push_char(out, 'm');
    proof {
        assert(old(out)@ + csi() + seq!['0'] + seq!['m'] =~= old(out)@ + sgr_reset());
        assert((old(out)@ + csi()).push('0').push('m') =~= old(out)@ + csi() + seq!['0'] + seq!['m']);
    }
}

/// Colourises a status token for the human view with ANSI codes.
pub fn color_status(status: &str) -> (r: String)
    ensures
        r@ == sgr(status_code(status@), status@),
        status@ == "working"@ ==> r@ == seq!['\u{1b}', '[', '3', '2', 'm'] + status@ + seq!['\u{1b}', '[', '0', 'm'],
        status@ == "idle"@ ==> r@ == seq!['\u{1b}', '[', '3', '6', 'm'] + status@ + seq!['\u{1b}', '[', '0', 'm'],
        status@ == "unhealthy"@ ==> r@ == seq!['\u{1b}', '[', '3', '3', 'm'] + status@ + seq!['\u{1b}', '[', '0', 'm'],
        (status@ == "terminated"@ || status@ == "retired"@) ==> r@ == seq!['\u{1b}', '[', '2', 'm'] + status@
            + seq!['\u{1b}', '[', '0', 'm'],
        (status@ != "working"@ && status@ != "idle"@ && status@ != "unhealthy"@ && status@ != "terminated"@
            && status@ != "retired"@) ==> r@ == seq!['\u{1b}', '[', '0', 'm'] + status@ + seq!['\u{1b}', '[', '0', 'm'],
{
    let mut r = String::new();
    push_csi(&mut r);
    if str_eq(status, "working") {
        push_char(&mut r, '3');
        push_char(&mut r, '2');
    } else if str_eq(status, "idle") {
        push_char(&mut r, '3');
        push_char(&mut r, '6');
    } else if str_eq(status, "unhealthy") {
        push_char(&mut r, '3');
        push_char(&mut r, '3');
    } else if str_eq(status, "terminated") || str_eq(status, "retired") {
        push_char(&mut r, '2');
    } else {
        push_char(&mut r, '0');
    }
    let ghost code_end = r@;
    push_char(&mut r, 'm');
    push_str(&mut r, status);
    push_reset(&mut r);
    proof {
        assert(code_end =~= csi() + status_code(status@));
        assert(r@ =~= sgr(status_code(status@), status@));
        reveal_strlit("working");
        reveal_strlit("idle");
        reveal_strlit("unhealthy");
        reveal_strlit("terminated");
        reveal_strlit("retired");
        let w = seq!["working"@, "idle"@, "unhealthy"@, "terminated"@, "retired"@];
        assert forall|i: int, j: int| 0 <= i < j < 5 implies #[trigger] w[i] != #[trigger] w[j] by {
            if w[i].len() == w[j].len() {
                assert(w[i][0] != w[j][0]);
            }
        }
        assert(w[0] == "working"@ && w[1] == "idle"@ && w[2] == "unhealthy"@);
        assert(w[3] == "terminated"@ && w[4] == "retired"@);
        assert(r@ =~= seq!['\u{1b}', '['] + status_code(status@) + seq!['m'] + status@ + seq!['\u{1b}', '[', '0', 'm']);
        assert(seq!['\u{1b}', '['] + seq!['3', '2'] + seq!['m'] =~= seq!['\u{1b}', '[', '3', '2', 'm']);
        assert(seq!['\u{1b}', '['] + seq!['3', '6'] + seq!['m'] =~= seq!['\u{1b}', '[', '3', '6', 'm']);
        assert(seq!['\u{1b}', '['] + seq!['3', '3'] + seq!['m'] =~= seq!['\u{1b}', '[', '3', '3', 'm']);
        assert(seq!['\u{1b}', '['] + seq!['2'] + seq!['m'] =~= seq!['\u{1b}', '[', '2', 'm']);
        assert(seq!['\u{1b}', '['] + seq!['0'] + seq!['m'] =~= seq!['\u{1b}', '[', '0', 'm']);
    }
    r
}

/// A coloured status cell opens with an escape sequence, closes with the
/// reset sequence, and carries the status text unchanged in between.
pub proof fn color_status_shape(status: Seq<char>)
    ensures
        sgr(status_code(status), status).take(2) == csi(),
        sgr(status_code(status), status).skip(
            sgr(status_code(status), status).len() - 4,
        ) == sgr_reset(),
        crate::text::contains(sgr(status_code(status), status), status),
{
    let out = sgr(status_code(status), status);
    let k: int = 2 + status_code(status).len() as int + 1;
    assert(out.take(2) =~= csi());
    assert(out.skip(out.len() - 4) =~= sgr_reset());
    assert(out.subrange(k, k + status.len()) =~= status);
    assert(crate::text::matches_at(out, status, k));
}

/// Indents and dims the id of a `subagent` row; other ids pass through.
pub open spec fn indented_id(id: Seq<char>, kind: Seq<char>) -> Seq<char> {
    if kind == "subagent"@ {
        seq![' ', ' '] + sgr(seq!['2'], id)
    } else {
        id
    }
}

/// Indents and dims subagent rows in the human agent list.
pub fn maybe_indent_id(id: &str, kind: &str) -> (r: String)
    ensures
        r@ == indented_id(id@, kind@),
{
    if str_eq(kind, "subagent") {
        let mut r = String::new();
        push_char(&mut r, ' ');
        push_char(&mut r, ' ');
        push_csi(&mut r);
        push_char(&mut r, '2');
        push_char(&mut r, 'm');
        push_str(&mut r, id);
        push_reset(&mut r);
        proof {
            assert(r@ =~= seq![' ', ' '] + sgr(seq!['2'], id@));
        }
        r
    } else {
        owned(id)
    }
}

// ---------------------------------------------------------------------
// Short ids
// ---------------------------------------------------------------------

/// The first eight characters of an id.
pub fn short_id(id: &str) -> (r: String)
    ensures
        r@ == id@.take(if id@.len() < 8 { id@.len() as int } else { 8 }),
{
    let v = chars_of(id);
    let n = if v.len() < 8 {
        v.len()
    } else {
        8
    };
    proof {
        assert(v@.subrange(0, n as int) =~= v@.take(n as int));
    }
    string_of_range(&v, 0, n)
}

/// A pull-request link row of the agent details view.
pub struct PrRow {
    pub repo_slug: String,
    pub pr_number: i64,
    pub branch: Option<String>,
    pub plan_id: Option<String>,
}

/// `plan:<first 8 chars of the plan id>`, or nothing without a plan.
pub open spec fn plan_short_text(plan_id: Option<Seq<char>>) -> Seq<char> {
    match plan_id {
        Some(p) => "plan:"@ + p.take(if p.len() < 8 { p.len() as int } else { 8 }),
        None => Seq::empty(),
    }
}

/// The `plan:<id>` suffix of a PR row.
pub fn plan_short(p: &PrRow) -> (r: String)
    ensures
        r@ == plan_short_text(
            match p.plan_id {
                Some(s) => Some(s@),
                None => None,
            },
        ),
{
    match &p.plan_id {
        Some(id) => {
            let mut r = String::new();
            push_str(&mut r, "plan:");
            let s = short_id(id.as_str());
            push_str(&mut r, s.as_str());
            r
        },
        None => String::new(),
    }
}

/// Joins items with `,`, or `-` for an empty list.
pub open spec fn join_or_dash_text(items: Seq<Seq<char>>) -> Seq<char> {
    if items.len() == 0 {
        seq!['-']
    } else {
        join(items, seq![','])
    }
}

/// `items.join(sep)`.
pub open spec fn join(items: Seq<Seq<char>>, sep: Seq<char>) -> Seq<char>
    decreases items.len(),
{
    if items.len() == 0 {
        Seq::empty()
    } else if items.len() == 1 {
        items[0]
    } else {
        join(items.drop_last(), sep) + sep + items.last()
    }
}

/// Appends `items.join(sep)`.
pub fn push_join(out: &mut String, items: &Vec<String>, sep: &str)
    ensures
        final(out)@ == old(out)@ + join(items@.map_values(|s: String| s@), sep@),
{
    let ghost views = items@.map_values(|s: String| s@);
    let mut i: usize = 0;
    while i < items.len()
        invariant
            i <= items@.len(),
            views == items@.map_values(|s: String| s@),
            out@ == old(out)@ + join(views.take(i as int), sep@),
        decreases items@.len() - i,
    {
        if i > 0 {
            push_str(out, sep);
        }
        push_str(out, items[i].as_str());
        proof {
            assert(views.take(i + 1).drop_last() =~= views.take(i as int));
            assert(views.take(i + 1).last() == items@[i as int]@);
            if i == 0 {
                assert(join(views.take(0), sep@) =~= Seq::<char>::empty());
                assert(old(out)@ + Seq::<char>::empty() =~= old(out)@);
            }
        }
        i = i + 1;
    }
    proof {
        assert(views.take(items@.len() as int) =~= views);
    }
}

/// Joins a list of names with commas, or `-` when empty.
pub fn join_or_dash(items: &Vec<String>) -> (r: String)
    ensures
        r@ == join_or_dash_text(items@.map_values(|s: String| s@)),
{
    let mut r = String::new();
    if items.len() == 0 {
        push_char(&mut r, '-');
        proof {
            assert(r@ =~= seq!['-']);
        }
        return r;
    }
    push_join(&mut r, items, ",");
    proof {
        reveal_strlit(",");
        assert(","@ =~= seq![',']);
        assert(r@ =~= join(items@.map_values(|s: String| s@), seq![',']));
    }
    r
}

// ---------------------------------------------------------------------
// Byte-bounded shortening
// ---------------------------------------------------------------------

/// The UTF-8 length of a text (what `str::len` returns).
pub open spec fn byte_len(s: Seq<char>) -> nat {
    encode_utf8(s).len()
}

/// `s` when it fits in `n` bytes, else its first `n` bytes followed by an
/// ellipsis.
pub open spec fn clipped(s: Seq<char>, n: nat) -> Seq<char> {
    if byte_len(s) <= n {
        s
    } else {
        decode_utf8(encode_utf8(s).take(n as int)).push(ellipsis())
    }
}

/// `s` limited to `n` bytes, with an ellipsis when it was longer. The cut
/// must fall on a character boundary.
pub fn clip_bytes(s: &str, n: usize) -> (r: String)
    requires
        byte_len(s@) > n ==> is_char_boundary(s.spec_bytes(), n as int),
    ensures
        r@ == clipped(s@, n as nat),
{
    proof {
        assert(s.spec_bytes() == encode_utf8(s@));
    }
    if s.as_bytes().len() <= n {
        return owned(s);
    }
    let (head, _tail) = s.split_at(n);
    let mut r = owned(head);
    push_char(&mut r, '\u{2026}');
    proof {
        assert(head.spec_bytes() =~= encode_utf8(s@).take(n as int));
    }
    r
}

/// The first `n` bytes of a text, as characters.
pub open spec fn byte_prefix(s: Seq<char>, n: nat) -> Seq<char> {
    decode_utf8(encode_utf8(s).take(n as int))
}

/// Appends `&s[..n]`; `n` must fall on a character boundary within `s`.
pub fn push_byte_prefix(out: &mut String, s: &str, n: usize)
    requires
        n <= byte_len(s@),
        is_char_boundary(encode_utf8(s@), n as int),
    ensures
        final(out)@ == old(out)@ + byte_prefix(s@, n as nat),
{
    proof {
        assert(s.spec_bytes() == encode_utf8(s@));
    }
    let (head, _tail) = s.split_at(n);
    push_str(out, head);
    proof {
        assert(head.spec_bytes() =~= encode_utf8(s@).take(n as int));
    }
}

/// `s` followed by spaces up to `w` characters (`format!("{:<w$}")`).
pub open spec fn padded(s: Seq<char>, w: nat) -> Seq<char> {
    if s.len() >= w {
        s
    } else {
        s + Seq::new((w - s.len()) as nat, |i: int| ' ')
    }
}

/// Appends `s` left-aligned in a field of `w` characters.
pub fn push_padded(out: &mut String, s: &str, w: usize)
    ensures
        final(out)@ == old(out)@ + padded(s@, w as nat),
{
    let v = chars_of(s);
    push_str(out, s);
    let ghost mid = out@;
    if v.len() < w {
        let mut k: usize = v.len();
        while k < w
            invariant
                v@ == s@,
                v@.len() <= k <= w,
                out@ == mid + Seq::new((k - v@.len()) as nat, |i: int| ' '),
            decreases w - k,
        {
            push_char(out, ' ');
            proof {
                assert(Seq::new((k + 1 - v@.len()) as nat, |i: int| ' ') =~= Seq::new(
                    (k - v@.len()) as nat,
                    |i: int| ' ',
                ).push(' '));
            }
            k = k + 1;
        }
    }
    proof {
        if v@.len() >= w {
            assert(out@ =~= old(out)@ + padded(s@, w as nat));
        }
    }
}

/// `s` preceded by spaces up to `w` characters (`format!("{:>w$}")`).
pub open spec fn right_aligned(s: Seq<char>, w: nat) -> Seq<char> {
    if s.len() >= w {
        s
    } else {
        Seq::new((w - s.len()) as nat, |i: int| ' ') + s
    }
}

/// Appends `s` right-aligned in a field of `w` characters.
pub fn push_right(out: &mut String, s: &str, w: usize)
    ensures
        final(out)@ == old(out)@ + right_aligned(s@, w as nat),
{
    let v = chars_of(s);
    let ghost start = out@;
    if v.len() < w {
        let mut k: usize = v.len();
        while k < w
            invariant
                v@ == s@,
                v@.len() <= k <= w,
                out@ == start + Seq::new((k - v@.len()) as nat, |i: int| ' '),
            decreases w - k,
        {
            push_char(out, ' ');
            proof {
                assert(Seq::new((k + 1 - v@.len()) as nat, |i: int| ' ') =~= Seq::new(
                    (k - v@.len()) as nat,
                    |i: int| ' ',
                ).push(' '));
            }
            k = k + 1;
        }
    }
    push_str(out, s);
    proof {
        assert(out@ =~= start + right_aligned(s@, w as nat));
    }
}

} // verus!
