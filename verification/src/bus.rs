//! `cvg bus`: output flavours, server-sent-event framing of the message
//! stream, and the bus request paths.
use crate::cli::OutputMode;
use crate::numeric::{dec_signed, push_i64};
use crate::text::{chars_of, contains, find, find_exec, lemma_find, line_ranges, lines, matches_at, matches_at_exec, push_str, range_of, starts_with, string_of_range, sub_vec, trim, trim_bounds};
use vstd::prelude::*;
use crate::cells::{byte_len, clip_bytes, clipped};
use crate::text::{owned, char_from, char_from_exec, lemma_char_from};
use crate::text::{line_texts, lemma_line_texts_push, lemma_map_take_push, or_text, push_or, str_eq};
use crate::cells::{push_right, right_aligned};
use crate::order::{compare_text, text_lt};
use vstd::string::StringSliceAdditionalSpecFns;
use vstd::utf8::{encode_utf8, is_char_boundary};

verus! {

/// Output flavour for `bus tail` and `bus list`.
#[derive(Clone, Copy, Debug, PartialEq, Eq, Structural)]
pub enum BusOutput {
    /// Localized human output, e.g. `[12:01:02] @sender -> topic: kind (seq 7)`.
    Human,
    /// One JSON object per line: the raw envelope.
    Json,
    /// Tab-separated `seq\tsender\ttopic\tkind` for shell pipelines.
    Plain,
}

impl BusOutput {
    /// Promotes the global output mode to the bus-specific one.
    pub fn from_global(m: OutputMode) -> (r: Self)
        ensures
            r == match m {
                OutputMode::Human => BusOutput::Human,
                OutputMode::Json => BusOutput::Json,
                OutputMode::Plain => BusOutput::Plain,
            },
    {
        match m {
            OutputMode::Human => BusOutput::Human,
            OutputMode::Json => BusOutput::Json,
            OutputMode::Plain => BusOutput::Plain,
        }
    }
}

/// `cvg bus` subcommands.
pub enum BusCommand {
    /// Print messages on a plan, oldest first; with `follow`, stream them.
    Tail {
        plan: Option<String>,
        project: String,
        topic: Option<String>,
        since: i64,
        limit: i64,
        follow: bool,
    },
    /// Print the latest messages on a plan and exit.
    List { plan: Option<String>, project: String, topic: Option<String>, since: i64, limit: i64 },
    /// Print every topic with at least one message on a plan.
    Topics { plan: Option<String>, project: String },
    /// Publish a JSON payload to a topic.
    Post {
        topic: String,
        payload: String,
        sender: Option<String>,
        plan: Option<String>,
        project: String,
    },
}

// ---------------------------------------------------------------------
// Server-sent events
// ---------------------------------------------------------------------

/// The payload of the last `data:` line among `ls` (trimmed), if any.
pub open spec fn last_data(ls: Seq<Seq<char>>) -> Option<Seq<char>>
    decreases ls.len(),
{
    if ls.len() == 0 {
        None
    } else if starts_with(ls.last(), "data:"@) {
        Some(trim(ls.last().skip("data:"@.len() as int)))
    } else {
        last_data(ls.drop_last())
    }
}

/// The complete blocks (each ending in a blank line) at the front of
/// `buf`, as the data they carry, and the partial text left after them.
pub open spec fn sse_split(buf: Seq<char>) -> (Seq<Option<Seq<char>>>, Seq<char>)
    decreases buf.len(),
{
    match find(buf, "\n\n"@) {
        Some(i) => {
            if 0 <= i && i + 2 <= buf.len() && "\n\n"@.len() == 2 {
                let rest = sse_split(buf.skip(i + 2));
                (seq![last_data(lines(buf.take(i + 2)))] + rest.0, rest.1)
            } else {
                (Seq::empty(), buf)
            }
        },
        None => (Seq::empty(), buf),
    }
}

/// The data payloads of the complete blocks of `buf`, skipping blocks that
/// carry none.
pub open spec fn sse_payloads(buf: Seq<char>) -> Seq<Seq<char>> {
    sse_split(buf).0.filter_map(|d: Option<Seq<char>>| d)
}

/// The payload of `line` when it is a `data:` line.
fn data_of_line(line: &Vec<char>, prefix: &Vec<char>) -> (r: Option<String>)
    requires
        prefix@ == "data:"@,
    ensures
        r matches Some(s) ==> starts_with(line@, "data:"@) && s@ == trim(
            line@.skip("data:"@.len() as int),
        ),
        r is None ==> !starts_with(line@, "data:"@),
{
    if matches_at_exec(line, prefix, 0) {
        proof {
            assert(line@.take(prefix@.len() as int) =~= line@.subrange(0, prefix@.len() as int));
        }
        let rest = sub_vec(line, prefix.len(), line.len());
        let (x, y) = trim_bounds(&rest);
        proof {
            assert(rest@ =~= line@.skip(prefix@.len() as int));
        }
        Some(string_of_range(&rest, x, y))
    } else {
        proof {
            if starts_with(line@, prefix@) {
                assert(line@.take(prefix@.len() as int) =~= line@.subrange(0, prefix@.len() as int));
            }
        }
        None
    }
}

/// The data payload of the block `v[lo..hi]`.
fn block_data(v: &Vec<char>, lo: usize, hi: usize) -> (r: Option<String>)
    requires
        lo <= hi <= v@.len(),
    ensures
        r matches Some(s) ==> last_data(lines(v@.subrange(lo as int, hi as int))) == Some(s@),
        r is None ==> last_data(lines(v@.subrange(lo as int, hi as int))) is None,
{
    let block = sub_vec(v, lo, hi);
    let ranges = line_ranges(&block);
    let ghost ls = lines(block@);
    let prefix = chars_of("data:");
    let mut k = ranges.len();
    proof {
        assert(ls.take(ls.len() as int) =~= ls);
    }
    while k > 0
        invariant
            k <= ranges@.len(),
            ranges@.len() == ls.len(),
            ls == lines(block@),
            lo <= hi <= v@.len(),
            block@ == v@.subrange(lo as int, hi as int),
            prefix@ == "data:"@,
            forall|m: int|
                0 <= m < ranges@.len() ==> #[trigger] ranges@[m].0 <= ranges@[m].1 <= block@.len()
                    && range_of(block@, ranges@[m]) == ls[m],
            last_data(ls) == last_data(ls.take(k as int)),
        decreases k,
    {
        let (a, b) = ranges[k - 1];
        let line = sub_vec(&block, a, b);
        proof {
            assert(range_of(block@, ranges@[k - 1]) == ls[k - 1]);
            assert(ls.take(k as int).last() == line@);
            assert(ls.take(k as int).drop_last() =~= ls.take(k - 1));
        }
        let d = data_of_line(&line, &prefix);
        if d.is_some() {
            let x = d.unwrap();
            proof {
                assert(last_data(ls.take(k as int)) == Some(
                    trim(line@.skip("data:"@.len() as int)),
                ));
                assert(x@ == trim(line@.skip("data:"@.len() as int)));
                assert(last_data(ls) == Some(x@));
                assert(block@ == v@.subrange(lo as int, hi as int));
            }
            return Some(x);
        }
        k = k - 1;
    }
    proof {
        assert(ls.take(0) =~= Seq::<Seq<char>>::empty());
    }
    None
}

/// Removes every complete server-sent-event block (ending in a blank line)
/// from the front of `buf` and returns the payload of the last `data:`
/// line of each, skipping blocks without one. A partial trailing block
/// stays in the buffer for the next chunk.
pub fn drain_event_data(buf: &mut String) -> (out: Vec<String>)
    ensures
        out@.map_values(|s: String| s@) == sse_payloads(old(buf)@),
        final(buf)@ == sse_split(old(buf)@).1,
{
    let v = chars_of(buf.as_str());
    let sep = chars_of("\n\n");
    let vlen = v.len();
    let ghost whole = v@;
    let mut out: Vec<String> = Vec::new();
    let mut pos: usize = 0;
    let ghost mut blocks: Seq<Option<Seq<char>>> = Seq::empty();
    proof {
        reveal_strlit("\n\n");
        assert(whole.skip(0) =~= whole);
        assert(blocks.filter_map(|d: Option<Seq<char>>| d) =~= Seq::<Seq<char>>::empty());
        assert(blocks + sse_split(whole).0 =~= sse_split(whole).0);
    }
    loop
        invariant
            pos <= v@.len(),
            v@ == whole,
            vlen == v@.len(),
            whole == old(buf)@,
            sep@ == "\n\n"@,
            sep@.len() == 2,
            sse_split(whole).0 == blocks + sse_split(whole.skip(pos as int)).0,
            sse_split(whole).1 == sse_split(whole.skip(pos as int)).1,
            out@.map_values(|s: String| s@) == blocks.filter_map(|d: Option<Seq<char>>| d),
        ensures
            pos <= v@.len(),
            v@ == whole,
            out@.map_values(|s: String| s@) == sse_payloads(whole),
            sse_split(whole).1 == whole.skip(pos as int),
        decreases v@.len() - pos,
    {
        let ghost rest = whole.skip(pos as int);
        let f = find_exec(&v, &sep, pos);
        proof {
            crate::text::lemma_find_from(whole, sep@, pos as int);
            lemma_find_shift(whole, sep@, pos as int);
        }
        match f {
            Some(i) => {
                proof {
                    assert(matches_at(whole, sep@, i as int));
                    assert(sep@.len() == 2);
                    assert(rest.take(i - pos + 2) =~= whole.subrange(pos as int, i + 2));
                    assert(rest.skip(i - pos + 2) =~= whole.skip(i + 2));
                }
                let d = block_data(&v, pos, i + 2);
                let ghost old_out = out@;
                let ghost bd = last_data(lines(whole.subrange(pos as int, i + 2)));
                match d {
                    Some(s) => {
                        out.push(s);
                    },
                    None => {},
                }
                proof {
                    let f = |x: Option<Seq<char>>| x;
                    assert(blocks.push(bd).drop_last() =~= blocks);
                    assert(out@.map_values(|s: String| s@) =~= blocks.push(bd).filter_map(f));
                    assert(seq![bd] + sse_split(whole.skip(i + 2)).0 == sse_split(rest).0);
                    assert(blocks.push(bd) + sse_split(whole.skip(i + 2)).0 =~= blocks + (seq![bd]
                        + sse_split(whole.skip(i + 2)).0));
                    blocks = blocks.push(bd);
                }
                pos = i + 2;
            },
            None => {
                proof {
                    assert(sse_split(rest).0 =~= Seq::<Option<Seq<char>>>::empty());
                    assert(blocks + Seq::<Option<Seq<char>>>::empty() =~= blocks);
                    assert(sse_split(rest).1 == rest);
                }
                break ;
            },
        }
    }
    *buf = string_of_range(&v, pos, v.len());
    proof {
        assert(whole.skip(pos as int) =~= whole.subrange(pos as int, whole.len() as int));
    }
    out
}

/// `find` on a suffix, in positions of the whole text.
proof fn lemma_find_shift(s: Seq<char>, p: Seq<char>, pos: int)
    requires
        0 <= pos <= s.len(),
    ensures
        find(s.skip(pos), p) == match crate::text::find_from(s, p, pos) {
            Some(j) => Some(j - pos),
            None => None::<int>,
        },
{
    lemma_find_from_shift(s, p, pos, pos);
}

proof fn lemma_find_from_shift(s: Seq<char>, p: Seq<char>, pos: int, i: int)
    requires
        0 <= pos <= i,
        pos <= s.len(),
    ensures
        crate::text::find_from(s.skip(pos), p, i - pos) == match crate::text::find_from(s, p, i) {
            Some(j) => Some(j - pos),
            None => None::<int>,
        },
    decreases s.len() + 1 - i,
{
    if i + p.len() <= s.len() {
        assert(s.skip(pos).subrange(i - pos, i - pos + p.len()) =~= s.subrange(i, i + p.len()));
        if !matches_at(s, p, i) {
            lemma_find_from_shift(s, p, pos, i + 1);
        }
    }
}

/// Every complete block is consumed, and only complete blocks: what
/// `drain_event_data` leaves in the buffer is the old buffer's tail and
/// holds no blank line, and what it took off the front is empty or ends in
/// a blank line.
pub proof fn drained_buffer_has_no_complete_block(buf: Seq<char>)
    ensures
        !contains(sse_split(buf).1, "\n\n"@),
        sse_split(buf).1.len() <= buf.len(),
        buf.skip(buf.len() - sse_split(buf).1.len()) == sse_split(buf).1,
        ({
            let n = buf.len() - sse_split(buf).1.len();
            n == 0 || (n >= 2 && buf[n - 2] == '\n' && buf[n - 1] == '\n')
        }),
    decreases buf.len(),
{
    reveal_strlit("\n\n");
    lemma_find(buf, "\n\n"@);
    match find(buf, "\n\n"@) {
        Some(i) => {
            if 0 <= i && i + 2 <= buf.len() && "\n\n"@.len() == 2 {
                let tail = buf.skip(i + 2);
                drained_buffer_has_no_complete_block(tail);
                assert(matches_at(buf, "\n\n"@, i));
                assert(buf.subrange(i, i + 2)[0] == buf[i]);
                assert(buf.subrange(i, i + 2)[1] == buf[i + 1]);
                let rest = sse_split(tail).1;
                assert(sse_split(buf).1 == rest);
                let m = tail.len() - rest.len();
                assert(buf.skip(buf.len() - rest.len()) =~= tail.skip(m));
                if m > 0 {
                    assert(buf[i + 2 + m - 2] == tail[m - 2]);
                    assert(buf[i + 2 + m - 1] == tail[m - 1]);
                }
            } else {
                assert(matches_at(buf, "\n\n"@, i));
                assert(false);
            }
        },
        None => {
            assert(buf.skip(0) =~= buf);
        },
    }
}

// ---------------------------------------------------------------------
// Request paths
// ---------------------------------------------------------------------

/// `/v1/plans/<plan>/messages/tail?cursor=<since>&limit=<limit>`, with
/// `&topic=<topic>` appended (verbatim) when a topic filter is given.
pub open spec fn tail_path_text(
    plan: Seq<char>,
    topic: Option<Seq<char>>,
    since: int,
    limit: int,
) -> Seq<char> {
    "/v1/plans/"@ + plan + "/messages/tail?cursor="@ + dec_signed(since) + "&limit="@
        + dec_signed(limit) + match topic {
        Some(t) => "&topic="@ + t,
        None => Seq::empty(),
    }
}

/// The request path that pages a plan's messages.
pub fn tail_path(plan: &str, topic: Option<&str>, since: i64, limit: i64) -> (r: String)
    ensures
        r@ == tail_path_text(
            plan@,
            match topic {
                Some(t) => Some(t@),
                None => None,
            },
            since as int,
            limit as int,
        ),
{
    let mut r = String::new();
    push_str(&mut r, "/v1/plans/");
    push_str(&mut r, plan);
    push_str(&mut r, "/messages/tail?cursor=");
    push_i64(&mut r, since);
    push_str(&mut r, "&limit=");
    push_i64(&mut r, limit);
    if let Some(t) = topic {
        push_str(&mut r, "&topic=");
        push_str(&mut r, t);
    }
    proof {
        assert(r@ =~= tail_path_text(
            plan@,
            match topic {
                Some(t) => Some(t@),
                None => None,
            },
            since as int,
            limit as int,
        ));
    }
    r
}

// ---------------------------------------------------------------------
// Rendering one message
// ---------------------------------------------------------------------

/// What the renderers read of a bus message.
pub struct EnvelopeView {
    pub seq: i64,
    pub topic: String,
    pub sender: Option<String>,
    /// The payload's `type` field, when it is a string.
    pub payload_type: Option<String>,
    /// The payload's `kind` field, when it is a string.
    pub payload_kind: Option<String>,
    /// The payload serialised as compact JSON.
    pub payload_json: String,
    /// The server timestamp (RFC 3339).
    pub created_at: String,
}

/// The kind of a payload: its `type`, else its `kind`.
pub open spec fn payload_kind_of(e: EnvelopeView) -> Option<Seq<char>> {
    match e.payload_type {
        Some(t) => Some(t@),
        None => match e.payload_kind {
            Some(k) => Some(k@),
            None => None,
        },
    }
}

/// The kind of a message's payload: its `type` string, else its `kind`
/// string.
pub fn payload_kind(e: &EnvelopeView) -> (r: Option<&str>)
    ensures
        match r {
            Some(k) => payload_kind_of(*e) == Some(k@),
            None => payload_kind_of(*e) is None,
        },
{
    match &e.payload_type {
        Some(t) => Some(t.as_str()),
        None => match &e.payload_kind {
            Some(k) => Some(k.as_str()),
            None => None,
        },
    }
}

/// The JSON of a payload cut to 60 bytes (with an ellipsis when cut).
pub fn short_payload(json: &str) -> (r: String)
    requires
        byte_len(json@) > 60 ==> is_char_boundary(encode_utf8(json@), 60),
    ensures
        r@ == clipped(json@, 60),
{
    proof {
        assert(json.spec_bytes() == encode_utf8(json@));
    }
    clip_bytes(json, 60)
}

/// `DateTime::parse_from_rfc3339(s)` rendered as `%H:%M:%S` in UTC, when
/// `s` parses (chrono).
pub uninterp spec fn rfc3339_hms(s: Seq<char>) -> Option<Seq<char>>;

/// Parses an RFC 3339 timestamp and renders its UTC time of day
/// (chrono's `parse_from_rfc3339`, `with_timezone(&Utc)` and
/// `format("%H:%M:%S")`); `None` when it does not parse.
#[verifier::external_body]
fn parse_hms(s: &str) -> (r: Option<String>)
    ensures
        match r {
            Some(t) => rfc3339_hms(s@) == Some(t@),
            None => rfc3339_hms(s@) is None,
        },
{
    match chrono::DateTime::parse_from_rfc3339(s) {
        Ok(dt) => Some(dt.with_timezone(&chrono::Utc).format("%H:%M:%S").to_string()),
        Err(_) => None,
    }
}

/// The text between the first `T` and the next `.` (or the end), or the
/// whole text when there is no `T`.
pub open spec fn time_part(s: Seq<char>) -> Seq<char> {
    match char_from(s, 'T', 0) {
        None => s,
        Some(i) => {
            let rest = s.skip(i + 1);
            match char_from(rest, '.', 0) {
                Some(j) => rest.take(j),
                None => rest,
            }
        },
    }
}

/// The time shown for a message: the parsed time of day when the
/// timestamp parsed (`parsed`), else the raw time part of the text.
pub open spec fn short_time_text(s: Seq<char>, parsed: Option<Seq<char>>) -> Seq<char> {
    match parsed {
        Some(t) => t,
        None => time_part(s),
    }
}

/// The time shown for a message, given what parsing its timestamp gave.
pub fn short_time_from(s: &str, parsed: Option<String>) -> (r: String)
    ensures
        r@ == short_time_text(
            s@,
            match parsed {
                Some(t) => Some(t@),
                None => None,
            },
        ),
{
    match parsed {
        Some(t) => t,
        None => {
            let v = chars_of(s);
            match char_from_exec(&v, 'T', 0) {
                None => owned(s),
                Some(i) => {
                    proof {
                        lemma_char_from(v@, 'T', 0);
                    }
                    let rest = sub_vec(&v, i + 1, v.len());
                    proof {
                        assert(rest@ =~= v@.skip(i + 1));
                    }
                    match char_from_exec(&rest, '.', 0) {
                        Some(j) => {
                            proof {
                                lemma_char_from(rest@, '.', 0);
                            }
                            let t = sub_vec(&rest, 0, j);
                            proof {
                                assert(t@ =~= rest@.take(j as int));
                            }
                            crate::text::string_of(&t)
                        },
                        None => crate::text::string_of(&rest),
                    }
                },
            }
        },
    }
}

/// The time of day shown for a message.
pub fn short_time(s: &str) -> (r: String)
    ensures
        r@ == short_time_text(s@, rfc3339_hms(s@)),
{
    let parsed = parse_hms(s);
    short_time_from(s, parsed)
}

/// The plain line of a message: seq, sender (`-`), topic, kind (`-`).
pub open spec fn envelope_plain_text(e: EnvelopeView) -> Seq<char> {
    dec_signed(e.seq as int) + "\t"@ + (match e.sender {
        Some(s) => s@,
        None => "-"@,
    }) + "\t"@ + e.topic@ + "\t"@ + match payload_kind_of(e) {
        Some(k) => k,
        None => "-"@,
    }
}

/// The plain line of a message.
pub fn envelope_plain(e: &EnvelopeView) -> (r: String)
    ensures
        r@ == envelope_plain_text(*e),
{
    let mut r = String::new();
    push_i64(&mut r, e.seq);
    push_str(&mut r, "\t");
    match &e.sender {
        Some(s) => push_str(&mut r, s.as_str()),
        None => push_str(&mut r, "-"),
    }
    push_str(&mut r, "\t");
    push_str(&mut r, e.topic.as_str());
    push_str(&mut r, "\t");
    match payload_kind(e) {
        Some(k) => push_str(&mut r, k),
        None => push_str(&mut r, "-"),
    }
    proof {
        assert(r@ =~= envelope_plain_text(*e));
    }
    r
}

/// The human line of a message: `[time] @sender → topic: kind (seq n)`,
/// with `system` for a message without sender and the payload's JSON
/// (cut to 60 bytes) when it names no kind.
pub open spec fn envelope_human_text(e: EnvelopeView, time: Seq<char>) -> Seq<char> {
    "["@ + time + "] @"@ + (match e.sender {
        Some(s) => s@,
        None => "system"@,
    }) + " → "@ + e.topic@ + ": "@ + (match payload_kind_of(e) {
        Some(k) => k,
        None => clipped(e.payload_json@, 60),
    }) + " (seq "@ + dec_signed(e.seq as int) + ")"@
}

/// The human line of a message.
pub fn envelope_human(e: &EnvelopeView) -> (r: String)
    requires
        byte_len(e.payload_json@) > 60 ==> is_char_boundary(encode_utf8(e.payload_json@), 60),
    ensures
        r@ == envelope_human_text(*e, short_time_text(e.created_at@, rfc3339_hms(e.created_at@))),
{
    let time = short_time(e.created_at.as_str());
    let mut r = owned("[");
    push_str(&mut r, time.as_str());
    push_str(&mut r, "] @");
    match &e.sender {
        Some(s) => push_str(&mut r, s.as_str()),
        None => push_str(&mut r, "system"),
    }
    push_str(&mut r, " → ");
    push_str(&mut r, e.topic.as_str());
    push_str(&mut r, ": ");
    match payload_kind(e) {
        Some(k) => push_str(&mut r, k),
        None => {
            let p = short_payload(e.payload_json.as_str());
            push_str(&mut r, p.as_str());
        },
    }
    push_str(&mut r, " (seq ");
    push_i64(&mut r, e.seq);
    push_str(&mut r, ")");
    proof {
        assert(r@ =~= envelope_human_text(*e, time@));
    }
    r
}


// ---------------------------------------------------------------------
// `bus tail` without follow, `bus topics`, `bus post`
// ---------------------------------------------------------------------

/// A message of a plan's bus as the tail shows it.
pub struct TailMessage {
    pub seq: Option<i64>,
    pub topic: Option<String>,
    pub sender: Option<String>,
    /// The message carries a `consumed_at` time.
    pub consumed: bool,
    /// `payload.kind`, when it is a string.
    pub kind: Option<String>,
}

/// An optional count, or zero.
pub open spec fn or_zero(n: Option<i64>) -> int {
    match n {
        Some(v) => v as int,
        None => 0,
    }
}

fn zero_or(n: Option<i64>) -> (r: i64)
    ensures
        r == or_zero(n),
{
    match n {
        Some(v) => v,
        None => 0,
    }
}

/// The plain line of a message: its seq, topic (`?`) and sender (`-`).
pub open spec fn tail_plain_text(m: TailMessage) -> Seq<char> {
    "seq="@ + dec_signed(or_zero(m.seq)) + " topic="@ + or_text(m.topic, "?"@) + " sender="@ + or_text(
        m.sender,
        "-"@,
    )
}

/// The plain line of a message.
pub fn tail_plain_line(m: &TailMessage) -> (r: String)
    ensures
        r@ == tail_plain_text(*m),
{
    let mut r = owned("seq=");
    push_i64(&mut r, zero_or(m.seq));
    push_str(&mut r, " topic=");
    push_or(&mut r, &m.topic, "?");
    push_str(&mut r, " sender=");
    push_or(&mut r, &m.sender, "-");
    r
}

/// The human line of a message: seq right-aligned in three columns,
/// topic, sender, the payload kind when it is not empty, and a mark when
/// it was acknowledged.
pub open spec fn tail_human_text(m: TailMessage) -> Seq<char> {
    "  seq "@ + right_aligned(dec_signed(or_zero(m.seq)), 3) + " ["@ + or_text(m.topic, "?"@)
        + "] sender="@ + or_text(m.sender, "-"@) + (match m.kind {
        Some(k) => if k@.len() > 0 {
            " "@ + k@
        } else {
            Seq::empty()
        },
        None => Seq::empty(),
    }) + if m.consumed {
        " [acked]"@
    } else {
        Seq::empty()
    }
}

/// The human tail of a plan's bus: a heading with the plan and the number
/// of messages, then a line per message.
pub open spec fn tail_human_text_all(plan: Seq<char>, ms: Seq<TailMessage>) -> Seq<Seq<char>> {
    seq!["Plan "@ + plan + " — "@ + dec_signed(ms.len() as int) + " message(s)"@] + ms.map_values(
        |m: TailMessage| tail_human_text(m),
    )
}

fn tail_human_line(m: &TailMessage) -> (r: String)
    ensures
        r@ == tail_human_text(*m),
{
    let mut n = String::new();
    push_i64(&mut n, zero_or(m.seq));
    let mut r = owned("  seq ");
    push_right(&mut r, n.as_str(), 3);
    push_str(&mut r, " [");
    push_or(&mut r, &m.topic, "?");
    push_str(&mut r, "] sender=");
    push_or(&mut r, &m.sender, "-");
    match &m.kind {
        Some(k) => if !k.as_str().is_empty() {
            push_str(&mut r, " ");
            push_str(&mut r, k.as_str());
        },
        None => {},
    }
    if m.consumed {
        push_str(&mut r, " [acked]");
    }
    proof {
        assert(r@ =~= tail_human_text(*m));
    }
    r
}

/// The human tail of a plan's bus.
pub fn tail_human_lines(plan: &str, ms: &Vec<TailMessage>) -> (lines: Vec<String>)
    requires
        ms@.len() <= i64::MAX,
    ensures
        line_texts(lines@) == tail_human_text_all(plan@, ms@),
{
    let mut head = owned("Plan ");
    push_str(&mut head, plan);
    push_str(&mut head, " — ");
    push_i64(&mut head, ms.len() as i64);
    push_str(&mut head, " message(s)");
    let mut lines: Vec<String> = Vec::new();
    lines.push(head);
    let ghost top = line_texts(lines@);
    proof {
        assert(top =~= seq![head@]);
    }
    let mut i: usize = 0;
    while i < ms.len()
        invariant
            i <= ms@.len(),
            line_texts(lines@) == top + ms@.take(i as int).map_values(|m: TailMessage| tail_human_text(m)),
        decreases ms@.len() - i,
    {
        let l = tail_human_line(&ms[i]);
        let ghost prev = lines@;
        lines.push(l);
        proof {
            lemma_line_texts_push(prev, l);
            lemma_map_take_push(ms@, i as int, |m: TailMessage| tail_human_text(m));
        }
        i = i + 1;
    }
    proof {
        assert(ms@.take(i as int) =~= ms@);
        assert(line_texts(lines@) =~= tail_human_text_all(plan@, ms@));
    }
    lines
}

/// A topic of a plan's bus as `bus topics` shows it.
pub struct TopicSummary {
    pub topic: Option<String>,
    pub count: Option<i64>,
    pub last_seq: Option<i64>,
    pub last_at: Option<String>,
}

/// The plain line of a topic.
pub open spec fn topic_plain_text(s: TopicSummary) -> Seq<char> {
    "topic="@ + or_text(s.topic, "?"@) + " count="@ + dec_signed(or_zero(s.count)) + " last_seq="@
        + dec_signed(or_zero(s.last_seq))
}

/// The plain line of a topic.
pub fn topic_plain_line(s: &TopicSummary) -> (r: String)
    ensures
        r@ == topic_plain_text(*s),
{
    let mut r = owned("topic=");
    push_or(&mut r, &s.topic, "?");
    push_str(&mut r, " count=");
    push_i64(&mut r, zero_or(s.count));
    push_str(&mut r, " last_seq=");
    push_i64(&mut r, zero_or(s.last_seq));
    r
}

/// The human line of a topic.
pub open spec fn topic_human_text(s: TopicSummary) -> Seq<char> {
    "  - "@ + or_text(s.topic, "?"@) + " ("@ + dec_signed(or_zero(s.count)) + " msgs, last seq="@
        + dec_signed(or_zero(s.last_seq)) + " at "@ + or_text(s.last_at, "?"@) + ")"@
}

/// The human listing of a plan's topics: a heading, then a line each.
pub open spec fn topics_human_text(plan: Seq<char>, ss: Seq<TopicSummary>) -> Seq<Seq<char>> {
    seq!["Plan "@ + plan + " ("@ + dec_signed(ss.len() as int) + " topics)"@] + ss.map_values(
        |s: TopicSummary| topic_human_text(s),
    )
}

/// The human listing of a plan's topics.
pub fn topics_human_lines(plan: &str, ss: &Vec<TopicSummary>) -> (lines: Vec<String>)
    requires
        ss@.len() <= i64::MAX,
    ensures
        line_texts(lines@) == topics_human_text(plan@, ss@),
{
    let mut head = owned("Plan ");
    push_str(&mut head, plan);
    push_str(&mut head, " (");
    push_i64(&mut head, ss.len() as i64);
    push_str(&mut head, " topics)");
    let mut lines: Vec<String> = Vec::new();
    lines.push(head);
    let ghost top = line_texts(lines@);
    proof {
        assert(top =~= seq![head@]);
    }
    let mut i: usize = 0;
    while i < ss.len()
        invariant
            i <= ss@.len(),
            line_texts(lines@) == top + ss@.take(i as int).map_values(|s: TopicSummary| topic_human_text(s)),
        decreases ss@.len() - i,
    {
        let s = &ss[i];
        let mut l = owned("  - ");
        push_or(&mut l, &s.topic, "?");
        push_str(&mut l, " (");
        push_i64(&mut l, zero_or(s.count));
        push_str(&mut l, " msgs, last seq=");
        push_i64(&mut l, zero_or(s.last_seq));
        push_str(&mut l, " at ");
        push_or(&mut l, &s.last_at, "?");
        push_str(&mut l, ")");
        let ghost prev = lines@;
        lines.push(l);
        proof {
            assert(l@ =~= topic_human_text(*s));
            lemma_line_texts_push(prev, l);
            lemma_map_take_push(ss@, i as int, |s: TopicSummary| topic_human_text(s));
        }
        i = i + 1;
    }
    proof {
        assert(ss@.take(i as int) =~= ss@);
        assert(line_texts(lines@) =~= topics_human_text(plan@, ss@));
    }
    lines
}

/// The request path of a plan's topics.
pub fn topics_path(plan: &str) -> (r: String)
    ensures
        r@ == "/v1/plans/"@ + plan@ + "/topics"@,
{
    let mut r = owned("/v1/plans/");
    push_str(&mut r, plan);
    push_str(&mut r, "/topics");
    r
}

/// The request path that posts to a plan's bus.
pub fn messages_path(plan: &str) -> (r: String)
    ensures
        r@ == "/v1/plans/"@ + plan@ + "/messages"@,
{
    let mut r = owned("/v1/plans/");
    push_str(&mut r, plan);
    push_str(&mut r, "/messages");
    r
}

/// The line confirming a post: plain `seq=… id=…`, or the human sentence.
pub open spec fn posted_text(topic: Seq<char>, plan: Seq<char>, seq: Option<i64>, id: Option<String>, human: bool) -> Seq<char> {
    if human {
        "Posted to "@ + topic + " on plan "@ + plan + " as seq "@ + dec_signed(or_zero(seq)) + "."@
    } else {
        "seq="@ + dec_signed(or_zero(seq)) + " id="@ + or_text(id, "?"@)
    }
}

/// The line confirming a post.
pub fn posted_line(topic: &str, plan: &str, seq: Option<i64>, id: &Option<String>, human: bool) -> (r: String)
    ensures
        r@ == posted_text(topic@, plan@, seq, *id, human),
{
    if human {
        let mut r = owned("Posted to ");
        push_str(&mut r, topic);
        push_str(&mut r, " on plan ");
        push_str(&mut r, plan);
        push_str(&mut r, " as seq ");
        push_i64(&mut r, zero_or(seq));
        push_str(&mut r, ".");
        r
    } else {
        let mut r = owned("seq=");
        push_i64(&mut r, zero_or(seq));
        push_str(&mut r, " id=");
        push_or(&mut r, id, "?");
        r
    }
}

// ---------------------------------------------------------------------
// Which plan the bus verbs talk to
// ---------------------------------------------------------------------

/// A plan as the daemon lists it.
pub struct PlanRecord {
    pub id: String,
    pub project: Option<String>,
    pub status: String,
    /// RFC 3339 time of the last update.
    pub updated_at: String,
}

/// A plan of `project` that is still open (draft or active).
pub open spec fn open_for(p: PlanRecord, project: Seq<char>) -> bool {
    &&& p.project matches Some(q) && q@ == project
    &&& (p.status@ == "draft"@ || p.status@ == "active"@)
}

/// The plan the bus verbs default to: among the open plans of `project`
/// the one updated last (by its time text), the later one in the list on
/// a tie; `None` when the project has no open plan.
pub fn open_plan(plans: &Vec<PlanRecord>, project: &str) -> (r: Option<usize>)
    ensures
        r is None <==> forall|i: int| 0 <= i < plans@.len() ==> !open_for(#[trigger] plans@[i], project@),
        r matches Some(k) ==> {
            &&& k < plans@.len()
            &&& open_for(plans@[k as int], project@)
            &&& forall|j: int|
                0 <= j < plans@.len() && open_for(#[trigger] plans@[j], project@) ==> !text_lt(
                    plans@[k as int].updated_at@,
                    plans@[j].updated_at@,
                )
            &&& forall|j: int|
                k < j < plans@.len() && open_for(#[trigger] plans@[j], project@) ==> text_lt(
                    plans@[j].updated_at@,
                    plans@[k as int].updated_at@,
                )
        },
{
    let mut best: Option<usize> = None;
    let mut best_at: Vec<char> = Vec::new();
    let mut i: usize = 0;
    while i < plans.len()
        invariant
            i <= plans@.len(),
            best is None <==> forall|j: int| 0 <= j < i ==> !open_for(#[trigger] plans@[j], project@),
            best matches Some(k) ==> {
                &&& k < i
                &&& open_for(plans@[k as int], project@)
                &&& best_at@ == plans@[k as int].updated_at@
                &&& forall|j: int|
                    0 <= j < i && open_for(#[trigger] plans@[j], project@) ==> !text_lt(
                        plans@[k as int].updated_at@,
                        plans@[j].updated_at@,
                    )
                &&& forall|j: int|
                    k < j < i && open_for(#[trigger] plans@[j], project@) ==> text_lt(
                        plans@[j].updated_at@,
                        plans@[k as int].updated_at@,
                    )
            },
        decreases plans@.len() - i,
    {
        let p = &plans[i];
        let mine = match &p.project {
            Some(q) => str_eq(q.as_str(), project),
            None => false,
        };
        let open = str_eq(p.status.as_str(), "draft") || str_eq(p.status.as_str(), "active");
        if mine && open {
            let at = crate::text::chars_of(p.updated_at.as_str());
            let take = match best {
                None => true,
                Some(_) => compare_text(&at, &best_at) >= 0,
            };
            if take {
                proof {
                    if let Some(k) = best {
                        assert forall|j: int|
                            0 <= j < i + 1 && open_for(#[trigger] plans@[j], project@) implies !text_lt(
                            plans@[i as int].updated_at@,
                            plans@[j].updated_at@,
                        ) by {
                            crate::order::lemma_text_lt_asymmetric(best_at@, at@);
                            if j < i && text_lt(at@, plans@[j].updated_at@) {
                                crate::order::lemma_text_lt_total(best_at@, at@);
                                if best_at@ != at@ {
                                    crate::order::lemma_text_lt_transitive(best_at@, at@, plans@[j].updated_at@);
                                }
                            }
                            if j == i {
                                crate::order::lemma_text_lt_irreflexive(at@);
                            }
                        }
                    } else {
                        crate::order::lemma_text_lt_irreflexive(at@);
                    }
                }
                best = Some(i);
                best_at = at;
            } else {
                proof {
                    crate::order::lemma_text_lt_asymmetric(at@, best_at@);
                }
            }
        }
        i = i + 1;
    }
    best
}

/// Why the bus verbs found no plan.
pub open spec fn no_open_plan_text(project: Seq<char>) -> Seq<char> {
    "no open plan found for project="@ + project
}

/// The message when `project` has no open plan.
pub fn no_open_plan(project: &str) -> (r: String)
    ensures
        r@ == no_open_plan_text(project@),
{
    let mut r = owned("no open plan found for project=");
    push_str(&mut r, project);
    r
}


// ---------------------------------------------------------------------
// `bus tail --follow`: reconnecting to the stream
// ---------------------------------------------------------------------

/// The stream request of a plan's messages from `since` on, on the daemon
/// at `base`, with `&topic=<topic>` appended (verbatim) for a topic.
pub open spec fn stream_url_text(base: Seq<char>, plan: Seq<char>, topic: Option<Seq<char>>, since: int) -> Seq<char> {
    base + "/v1/plans/"@ + plan + "/messages/stream?since="@ + dec_signed(since) + match topic {
        Some(t) => "&topic="@ + t,
        None => Seq::empty(),
    }
}

/// The stream request of a plan's messages.
pub fn stream_url(base: &str, plan: &str, topic: Option<&str>, since: i64) -> (r: String)
    ensures
        r@ == stream_url_text(
            base@,
            plan@,
            match topic {
                Some(t) => Some(t@),
                None => None,
            },
            since as int,
        ),
{
    let mut r = owned(base);
    push_str(&mut r, "/v1/plans/");
    push_str(&mut r, plan);
    push_str(&mut r, "/messages/stream?since=");
    push_i64(&mut r, since);
    if let Some(t) = topic {
        push_str(&mut r, "&topic=");
        push_str(&mut r, t);
    }
    r
}

/// How one connection to the stream ended.
pub enum StreamOutcome {
    /// The stream closed; the last message seen had this seq, if any.
    Ended(Option<i64>),
    /// The daemon does not stream (404 on the stream path).
    NotStreaming,
    /// The connection failed otherwise.
    Failed,
}

/// What the follower does next.
#[derive(PartialEq, Eq, Structural)]
pub enum FollowAction {
    /// Tell the operator (in the human view) that the stream dropped, wait
    /// `delay_ms` and connect again from `cursor`.
    Reconnect { cursor: i64, delay_ms: u64, notice: bool },
    /// Warn that streaming is unavailable and poll every second from
    /// `cursor`.
    Poll { cursor: i64 },
}

/// The follower's next step after a connection ended: resume after the
/// last message seen (the old cursor when none came), half a second
/// after a clean close and a second after a failure; fall back to
/// polling when the daemon does not stream.
pub open spec fn follow_next(cursor: i64, outcome: StreamOutcome, human: bool) -> FollowAction {
    match outcome {
        StreamOutcome::Ended(last) => FollowAction::Reconnect {
            cursor: match last {
                Some(s) => s,
                None => cursor,
            },
            delay_ms: 500,
            notice: human,
        },
        StreamOutcome::NotStreaming => FollowAction::Poll { cursor },
        StreamOutcome::Failed => FollowAction::Reconnect { cursor, delay_ms: 1000, notice: human },
    }
}

/// The follower's next step.
pub fn follow_step(cursor: i64, outcome: StreamOutcome, human: bool) -> (r: FollowAction)
    ensures
        r == follow_next(cursor, outcome, human),
{
    match outcome {
        StreamOutcome::Ended(last) => FollowAction::Reconnect {
            cursor: match last {
                Some(s) => s,
                None => cursor,
            },
            delay_ms: 500,
            notice: human,
        },
        StreamOutcome::NotStreaming => FollowAction::Poll { cursor },
        StreamOutcome::Failed => FollowAction::Reconnect { cursor, delay_ms: 1000, notice: human },
    }
}

/// The follower never moves its cursor back past a message it showed:
/// after a connection that showed messages it resumes right after the
/// last one, and otherwise it keeps its place.
pub proof fn follow_keeps_its_place(cursor: i64, outcome: StreamOutcome, human: bool)
    ensures
        match follow_next(cursor, outcome, human) {
            FollowAction::Reconnect { cursor: c, .. } => match outcome {
                StreamOutcome::Ended(Some(s)) => c == s,
                _ => c == cursor,
            },
            FollowAction::Poll { cursor: c } => c == cursor,
        },
{
}

} // verus!
