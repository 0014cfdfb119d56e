//! Glyphs, colours and id shortening for the live audit stream.
use crate::cells::{clip_bytes, clipped, byte_len, padded, push_padded, push_right, right_aligned};
use crate::numeric::{dec, dec_signed, push_dec, push_i64};
use crate::show::or_dash;
use crate::text::{
    char_from, char_from_exec, chars_of, contains, contains_str, owned, push_range, push_str,
};
use vstd::prelude::*;
use vstd::string::StringSliceAdditionalSpecFns;
use vstd::utf8::*;

verus! {

/// An entity id shortened to eight bytes (with an ellipsis when longer).
pub fn short(id: &str) -> (r: String)
    requires
        byte_len(id@) > 8 ==> is_char_boundary(id.spec_bytes(), 8),
    ensures
        r@ == clipped(id@, 8),
{
    clip_bytes(id, 8)
}

/// The glyph class of an audit transition, by the first keyword that
/// occurs in it.
pub open spec fn glyph_text(t: Seq<char>) -> Seq<char> {
    if contains(t, "refused"@) || contains(t, "failed"@) {
        "\u{2717}"@
    } else if contains(t, "done"@) || contains(t, "validated"@) {
        "\u{2713}"@
    } else if contains(t, "submitted"@) || contains(t, "transition"@) {
        "\u{25b6}"@
    } else if contains(t, "evidence"@) {
        "\u{25c6}"@
    } else if contains(t, "reaped"@) || contains(t, "cancelled"@) {
        "\u{2298}"@
    } else {
        "\u{b7}"@
    }
}

/// Glyph shown in front of an audit transition: a cross for refusals and
/// failures, a check for completions, a triangle for submissions, a
/// diamond for evidence, a slashed circle for reaping, a dot otherwise.
pub fn glyph_for(transition: &str) -> (r: &'static str)
    ensures
        r@ == glyph_text(transition@),
        r@ == "\u{2713}"@ <==> (!contains(transition@, "refused"@) && !contains(transition@, "failed"@)
            && (contains(transition@, "done"@) || contains(transition@, "validated"@))),
        (contains(transition@, "submitted"@) || contains(transition@, "transition"@)) && !contains(
            transition@,
            "refused"@,
        ) && !contains(transition@, "failed"@) && !contains(transition@, "done"@) && !contains(
            transition@,
            "validated"@,
        ) ==> r@ == "\u{25b6}"@,
{
    proof {
        glyphs_follow_the_transition(transition@);
    }
    if contains_str(transition, "refused") || contains_str(transition, "failed") {
        "\u{2717}"
    } else if contains_str(transition, "done") || contains_str(transition, "validated") {
        "\u{2713}"
    } else if contains_str(transition, "submitted") || contains_str(transition, "transition") {
        "\u{25b6}"
    } else if contains_str(transition, "evidence") {
        "\u{25c6}"
    } else if contains_str(transition, "reaped") || contains_str(transition, "cancelled") {
        "\u{2298}"
    } else {
        "\u{b7}"
    }
}

/// RGB colour of an audit transition: brand magenta for refusals and
/// failures, brand cyan for completions, info text for submissions, dim
/// otherwise.
pub open spec fn colour_rgb(t: Seq<char>) -> (u8, u8, u8) {
    if contains(t, "refused"@) || contains(t, "failed"@) {
        (255, 0, 180)
    } else if contains(t, "done"@) || contains(t, "validated"@) {
        (0, 200, 255)
    } else if contains(t, "submitted"@) || contains(t, "transition"@) {
        (192, 202, 245)
    } else {
        (169, 177, 214)
    }
}

/// Truecolor triple used to paint an audit line.
pub fn colour_for(transition: &str) -> (r: (u8, u8, u8))
    ensures
        r == colour_rgb(transition@),
        contains(transition@, "refused"@) || contains(transition@, "failed"@) ==> r == (255u8, 0u8, 180u8),
        !contains(transition@, "refused"@) && !contains(transition@, "failed"@) && (contains(
            transition@,
            "done"@,
        ) || contains(transition@, "validated"@)) ==> r == (0u8, 200u8, 255u8),
        !contains(transition@, "refused"@) && !contains(transition@, "failed"@) && !contains(
            transition@,
            "done"@,
        ) && !contains(transition@, "validated"@) && (contains(transition@, "submitted"@)
            || contains(transition@, "transition"@)) ==> r == (192u8, 202u8, 245u8),
{
    if contains_str(transition, "refused") || contains_str(transition, "failed") {
        (255, 0, 180)
    } else if contains_str(transition, "done") || contains_str(transition, "validated") {
        (0, 200, 255)
    } else if contains_str(transition, "submitted") || contains_str(transition, "transition") {
        (192, 202, 245)
    } else {
        (169, 177, 214)
    }
}

/// Each glyph marks its own kind of transition: the check mark only
/// completions (`done`, `validated`) that are no refusal or failure, the
/// triangle every submission or plain transition that is neither, and the
/// cross every refusal or failure.
pub proof fn glyphs_follow_the_transition(t: Seq<char>)
    ensures
        glyph_text(t) == "\u{2713}"@ <==> (!contains(t, "refused"@) && !contains(t, "failed"@) && (
        contains(t, "done"@) || contains(t, "validated"@))),
        glyph_text(t) == "\u{25b6}"@ <==> (!contains(t, "refused"@) && !contains(t, "failed"@)
            && !contains(t, "done"@) && !contains(t, "validated"@) && (contains(t, "submitted"@)
            || contains(t, "transition"@))),
        glyph_text(t) == "\u{2717}"@ <==> (contains(t, "refused"@) || contains(t, "failed"@)),
        glyph_text(t) == "\u{25c6}"@ <==> (!contains(t, "refused"@) && !contains(t, "failed"@)
            && !contains(t, "done"@) && !contains(t, "validated"@) && !contains(t, "submitted"@)
            && !contains(t, "transition"@) && contains(t, "evidence"@)),
        glyph_text(t) == "\u{2298}"@ <==> (!contains(t, "refused"@) && !contains(t, "failed"@)
            && !contains(t, "done"@) && !contains(t, "validated"@) && !contains(t, "submitted"@)
            && !contains(t, "transition"@) && !contains(t, "evidence"@) && (contains(t, "reaped"@)
            || contains(t, "cancelled"@))),
        glyph_text(t) == "\u{b7}"@ <==> (!contains(t, "refused"@) && !contains(t, "failed"@)
            && !contains(t, "done"@) && !contains(t, "validated"@) && !contains(t, "submitted"@)
            && !contains(t, "transition"@) && !contains(t, "evidence"@) && !contains(t, "reaped"@)
            && !contains(t, "cancelled"@)),
{
    reveal_strlit("\u{2717}");
    reveal_strlit("\u{2713}");
    reveal_strlit("\u{25b6}");
    reveal_strlit("\u{25c6}");
    reveal_strlit("\u{2298}");
    reveal_strlit("\u{b7}");
    let g = seq!["\u{2717}"@, "\u{2713}"@, "\u{25b6}"@, "\u{25c6}"@, "\u{2298}"@, "\u{b7}"@];
    assert forall|i: int, j: int| 0 <= i < j < 6 implies #[trigger] g[i] != #[trigger] g[j] by {
        assert(g[i][0] != g[j][0]);
    }
    assert(g[0] == "\u{2717}"@ && g[1] == "\u{2713}"@ && g[2] == "\u{25b6}"@);
    assert(g[3] == "\u{25c6}"@ && g[4] == "\u{2298}"@ && g[5] == "\u{b7}"@);
}

/// Refusals and failures are always painted magenta and marked with a
/// cross, whatever else the transition name says.
pub proof fn refusals_stand_out(t: Seq<char>)
    requires
        contains(t, "refused"@) || contains(t, "failed"@),
    ensures
        colour_rgb(t) == (255u8, 0u8, 180u8),
        glyph_text(t) == "\u{2717}"@,
{
}

// ---------------------------------------------------------------------
// The stream
// ---------------------------------------------------------------------

/// An entry of the audit log.
pub struct AuditEvent {
    pub seq: i64,
    pub entity_type: String,
    pub entity_id: String,
    pub transition: String,
    pub agent_id: Option<String>,
    /// RFC 3339 creation time.
    pub created_at: String,
}

/// The request for the current tail of the log.
pub const TAIL_PATH: &'static str = "/v1/audit/events?after_seq=0&limit=1000";

/// The polling period in seconds: the requested one held between 1 and 60.
pub fn poll_period(tick_secs: u64) -> (r: u64)
    ensures
        r == if tick_secs < 1 { 1 } else if tick_secs > 60 { 60 } else { tick_secs },
{
    if tick_secs < 1 {
        1
    } else if tick_secs > 60 {
        60
    } else {
        tick_secs
    }
}

/// The request for the entries after `after_seq`, 200 at a time.
pub open spec fn events_path_text(after_seq: int) -> Seq<char> {
    "/v1/audit/events?after_seq="@ + dec_signed(after_seq) + "&limit=200"@
}

/// The request for the entries after `after_seq`.
pub fn events_path(after_seq: i64) -> (r: String)
    ensures
        r@ == events_path_text(after_seq as int),
{
    let mut r = owned("/v1/audit/events?after_seq=");
    push_i64(&mut r, after_seq);
    push_str(&mut r, "&limit=200");
    r
}

/// The larger of `after` and every sequence number in `seqs`.
pub open spec fn max_seq(after: int, seqs: Seq<i64>) -> int
    decreases seqs.len(),
{
    if seqs.len() == 0 {
        after
    } else {
        let m = max_seq(after, seqs.drop_last());
        if seqs.last() > m {
            seqs.last() as int
        } else {
            m
        }
    }
}

/// The cursor after a batch: the highest sequence number seen so far.
pub fn advance_cursor(after: i64, seqs: &Vec<i64>) -> (r: i64)
    ensures
        r == max_seq(after as int, seqs@),
{
    let mut m = after;
    let mut i: usize = 0;
    while i < seqs.len()
        invariant
            i <= seqs@.len(),
            m == max_seq(after as int, seqs@.take(i as int)),
        decreases seqs@.len() - i,
    {
        proof {
            assert(seqs@.take(i + 1).drop_last() =~= seqs@.take(i as int));
        }
        if seqs[i] > m {
            m = seqs[i];
        }
        i = i + 1;
    }
    proof {
        assert(seqs@.take(i as int) =~= seqs@);
    }
    m
}

/// The cursor the stream starts from: the highest sequence number of the
/// current log (`None` when it could not be read), or 0.
pub open spec fn start_cursor_of(tail: Option<Seq<i64>>) -> int {
    match tail {
        Some(s) => if s.len() == 0 {
            0
        } else {
            max_seq(s[0] as int, s)
        },
        None => 0,
    }
}

/// The cursor the stream starts from, so that only entries written after
/// the start are shown.
pub fn start_cursor(tail: &Option<Vec<i64>>) -> (r: i64)
    ensures
        r == start_cursor_of(
            match tail {
                Some(v) => Some(v@),
                None => None,
            },
        ),
{
    match tail {
        Some(v) => if v.len() == 0 {
            0
        } else {
            advance_cursor(v[0], v)
        },
        None => 0,
    }
}

/// The time shown for an entry: the text after the first `T` (up to a
/// second `T`), cut at its first `.`.
pub open spec fn audit_time(s: Seq<char>) -> Seq<char> {
    let lo = match char_from(s, 'T', 0) {
        Some(i) => i + 1,
        None => 0,
    };
    let hi = match char_from(s, 'T', 0) {
        Some(i) => match char_from(s, 'T', i + 1) {
            Some(j) => j,
            None => s.len() as int,
        },
        None => s.len() as int,
    };
    let end = match char_from(s, '.', lo) {
        Some(d) => if d < hi {
            d
        } else {
            hi
        },
        None => hi,
    };
    s.subrange(lo, end)
}

fn push_audit_time(out: &mut String, s: &str)
    ensures
        final(out)@ == old(out)@ + audit_time(s@),
{
    let v = chars_of(s);
    let (lo, hi) = match char_from_exec(&v, 'T', 0) {
        Some(i) => {
            proof {
                crate::text::lemma_char_from(v@, 'T', 0);
            }
            let hi = match char_from_exec(&v, 'T', i + 1) {
                Some(j) => {
                    proof {
                        crate::text::lemma_char_from(v@, 'T', i + 1);
                    }
                    j
                },
                None => v.len(),
            };
            (i + 1, hi)
        },
        None => (0, v.len()),
    };
    let end = match char_from_exec(&v, '.', lo) {
        Some(d) => {
            proof {
                crate::text::lemma_char_from(v@, '.', lo as int);
            }
            if d < hi {
                d
            } else {
                hi
            }
        },
        None => hi,
    };
    push_range(out, &v, lo, end);
}

/// The text of an entry: time, glyph, transition, entity and its short
/// id, agent.
pub open spec fn entry_text(e: AuditEvent) -> Seq<char> {
    audit_time(e.created_at@) + "  "@ + glyph_text(e.transition@) + "  "@ + padded(
        e.transition@,
        24,
    ) + "  "@ + right_aligned(e.entity_type@, 12) + "="@ + clipped(e.entity_id@, 8) + "  agent="@
        + or_dash(e.agent_id)
}

/// An entry's line, painted in its truecolor when `color` is on.
pub open spec fn entry_line_text(e: AuditEvent, color: bool) -> Seq<char> {
    if color {
        let c = colour_rgb(e.transition@);
        "\u{1b}[38;2;"@ + dec(c.0 as nat) + ";"@ + dec(c.1 as nat) + ";"@ + dec(c.2 as nat) + "m"@
            + entry_text(e) + "\u{1b}[0m"@
    } else {
        entry_text(e)
    }
}

/// The line printed for an audit entry.
pub fn entry_line(e: &AuditEvent, color: bool) -> (r: String)
    requires
        byte_len(e.entity_id@) > 8 ==> is_char_boundary(encode_utf8(e.entity_id@), 8),
    ensures
        r@ == entry_line_text(*e, color),
{
    let mut line = String::new();
    push_audit_time(&mut line, e.created_at.as_str());
    push_str(&mut line, "  ");
    push_str(&mut line, glyph_for(e.transition.as_str()));
    push_str(&mut line, "  ");
    push_padded(&mut line, e.transition.as_str(), 24);
    push_str(&mut line, "  ");
    push_right(&mut line, e.entity_type.as_str(), 12);
    push_str(&mut line, "=");
    let eid = e.entity_id.as_str();
    proof {
        assert(eid.spec_bytes() == encode_utf8(eid@));
    }
    let id = short(eid);
    push_str(&mut line, id.as_str());
    push_str(&mut line, "  agent=");
    match &e.agent_id {
        Some(a) => push_str(&mut line, a.as_str()),
        None => push_str(&mut line, "-"),
    }
    proof {
        assert(line@ =~= entry_text(*e));
    }
    if color {
        let c = colour_for(e.transition.as_str());
        let mut r = owned("\u{1b}[38;2;");
        push_dec(&mut r, c.0 as u64);
        push_str(&mut r, ";");
        push_dec(&mut r, c.1 as u64);
        push_str(&mut r, ";");
        push_dec(&mut r, c.2 as u64);
        push_str(&mut r, "m");
        push_str(&mut r, line.as_str());
        push_str(&mut r, "\u{1b}[0m");
        proof {
            assert(r@ =~= entry_line_text(*e, color));
        }
        r
    } else {
        line
    }
}

/// The line under the banner, dimmed when colours are on.
pub open spec fn header_label_text(color: bool) -> Seq<char> {
    let label = "  Live audit stream \u{2014} Ctrl-C to exit."@;
    if color {
        "\u{1b}[2m"@ + label + "\u{1b}[0m"@
    } else {
        label
    }
}

/// The line under the banner.
pub fn header_label(color: bool) -> (r: String)
    ensures
        r@ == header_label_text(color),
{
    let label = "  Live audit stream \u{2014} Ctrl-C to exit.";
    if color {
        let mut r = owned("\u{1b}[2m");
        push_str(&mut r, label);
        push_str(&mut r, "\u{1b}[0m");
        r
    } else {
        owned(label)
    }
}

} // verus!
