//! `cvg discover`: the one-shot snapshot of active peers, the busiest bus
//! topics and the caller's own plans.
use crate::discover::{unit_seconds, SinceWindow};
use crate::order::{
    desc_order, laid_out, rank_order, sort_desc_stable, sort_rank_desc_stable, Ranked, TextKeyed,
};
use crate::agents::age_secs_of;
use crate::cells::{
    byte_len, byte_prefix, join, padded, push_byte_prefix, push_join, push_padded,
    relative_ago_text, truncate, truncated,
};
use crate::numeric::{dec_signed, push_i64};
use crate::show::{
    ago_or_dash, line1, line2, lines_view, m, msg, msg1, or_dash, push_ago_or_dash, push_blank,
    push_line, t, text, Line, PartView,
};
use crate::text::{chars_of, line_texts, opt_text, owned, push_str, str_eq};
use vstd::string::StringSliceAdditionalSpecFns;
use vstd::utf8::{encode_utf8, is_char_boundary};
use vstd::prelude::*;

verus! {

// ---------------------------------------------------------------------
// Instants
// ---------------------------------------------------------------------

/// What `DateTime::parse_from_rfc3339` makes of a text (chrono): the
/// instant as whole seconds since the Unix epoch and the nanoseconds
/// past that second, or `None` when the text does not parse.
pub uninterp spec fn rfc3339_instant(text: Seq<char>) -> Option<(i64, u32)>;

/// Parses an RFC 3339 timestamp (chrono's `parse_from_rfc3339`) and
/// reads its instant with `timestamp` and `timestamp_subsec_nanos`.
#[verifier::external_body]
fn parse_instant(text: &str) -> (r: Option<(i64, u32)>)
    ensures
        r == rfc3339_instant(text@),
{
    match chrono::DateTime::parse_from_rfc3339(text) {
        Ok(t) => Some((t.timestamp(), t.timestamp_subsec_nanos())),
        Err(_) => None,
    }
}

/// An instant in nanoseconds since the Unix epoch.
pub open spec fn instant_ns(i: (i64, u32)) -> int {
    i.0 * 1_000_000_000 + i.1
}

/// The instant an optional timestamp text names, in nanoseconds.
pub open spec fn instant_of(text: Option<Seq<char>>) -> Option<int> {
    match text {
        Some(t) => match rfc3339_instant(t) {
            Some(i) => Some(instant_ns(i)),
            None => None,
        },
        None => None,
    }
}

/// An optional machine integer as a mathematical one.
pub open spec fn opt_int(o: Option<i128>) -> Option<int> {
    match o {
        Some(n) => Some(n as int),
        None => None,
    }
}

/// The instant of an optional RFC 3339 timestamp, in nanoseconds since the
/// Unix epoch; `None` when it is missing or does not parse.
pub fn instant(text: &Option<String>) -> (r: Option<i128>)
    ensures
        opt_int(r) == instant_of(opt_text(*text)),
{
    match text {
        Some(t) => match parse_instant(t.as_str()) {
            Some((secs, nanos)) => {
                let ns: i128 = secs as i128 * 1_000_000_000 + nanos as i128;
                Some(ns)
            },
            None => None,
        },
        None => None,
    }
}

/// The start of a lookback window ending at `now` (nanoseconds), when it
/// can be represented: `now` minus the window's length.
pub fn window_start(now: i128, w: SinceWindow) -> (r: Option<i128>)
    requires
        -0x1_0000_0000_0000_0000_0000 < now < 0x1_0000_0000_0000_0000_0000,
    ensures
        r matches Some(c) ==> c == now - w.amount * unit_seconds(w.unit) * 1_000_000_000,
        r is None ==> w.amount * unit_seconds(w.unit) > i64::MAX || w.amount * unit_seconds(w.unit)
            < i64::MIN,
{
    match w.seconds() {
        Some(s) => {
            assert(s * 1_000_000_000 <= i64::MAX * 1_000_000_000) by (nonlinear_arith)
                requires
                    s <= i64::MAX,
            ;
            assert(s * 1_000_000_000 >= i64::MIN * 1_000_000_000) by (nonlinear_arith)
                requires
                    s >= i64::MIN,
            ;
            Some(now - s as i128 * 1_000_000_000)
        },
        None => None,
    }
}

// ---------------------------------------------------------------------
// Peers
// ---------------------------------------------------------------------

/// A registered agent as the registry lists it.
pub struct Peer {
    pub id: Option<String>,
    pub kind: Option<String>,
    pub status: Option<String>,
    /// `last_heartbeat_at`, as the registry sent it (RFC 3339).
    pub last_heartbeat_at: Option<String>,
    /// The entries of `capabilities`, each as text when it is a string.
    pub capabilities: Vec<Option<String>>,
    pub current_task_id: Option<String>,
    /// The peer's JSON document as the registry sent it, shown as it is in
    /// the JSON view.
    pub document: String,
}

/// Peers are listed by their heartbeat text, from the highest down (no
/// heartbeat ranks below every text).
impl TextKeyed for Peer {
    open spec fn key(&self) -> Seq<Seq<char>> {
        match self.last_heartbeat_at {
            Some(t) => seq![t@],
            None => Seq::empty(),
        }
    }

    fn key_chars(&self) -> (r: Vec<Vec<char>>) {
        let mut r: Vec<Vec<char>> = Vec::new();
        match &self.last_heartbeat_at {
            Some(t) => r.push(chars_of(t.as_str())),
            None => {},
        }
        r
    }
}

/// A text, or the empty text when there is none.
pub open spec fn or_empty(o: Option<String>) -> Seq<char> {
    match o {
        Some(s) => s@,
        None => Seq::empty(),
    }
}

/// A peer stays in the snapshot when it is neither terminated nor retired
/// and its heartbeat is no older than `cutoff`.
pub open spec fn peer_kept(p: Peer, heartbeat: Option<int>, cutoff: int) -> bool {
    let s = or_empty(p.status);
    &&& s != "terminated"@
    &&& s != "retired"@
    &&& match heartbeat {
        Some(h) => h >= cutoff,
        None => false,
    }
}

/// The peers kept, in registry order; `times[i]` is the heartbeat instant
/// of `peers[i]`.
pub open spec fn kept_peers(peers: Seq<Peer>, times: Seq<Option<int>>, cutoff: int) -> Seq<Peer>
    decreases peers.len(),
{
    if peers.len() == 0 {
        Seq::empty()
    } else {
        let rest = kept_peers(peers.drop_last(), times.drop_last(), cutoff);
        if peer_kept(peers.last(), times.last(), cutoff) {
            rest.push(peers.last())
        } else {
            rest
        }
    }
}

/// Optional machine integers as mathematical ones.
pub open spec fn int_times(times: Seq<Option<i128>>) -> Seq<Option<int>> {
    times.map_values(|t: Option<i128>| opt_int(t))
}

/// The heartbeat instants of the peers.
pub open spec fn heartbeat_times(peers: Seq<Peer>) -> Seq<Option<int>> {
    peers.map_values(|p: Peer| instant_of(opt_text(p.last_heartbeat_at)))
}

fn is_gone(status: &Option<String>) -> (r: bool)
    ensures
        r == (or_empty(*status) == "terminated"@ || or_empty(*status) == "retired"@),
{
    match status {
        Some(s) => {
            let terminated = str_eq(s.as_str(), "terminated");
            let retired = str_eq(s.as_str(), "retired");
            terminated || retired
        },
        None => {
            proof {
                reveal_strlit("terminated");
                reveal_strlit("retired");
                assert(or_empty(*status).len() == 0);
            }
            false
        },
    }
}

/// The active peers: those kept (given each peer's heartbeat instant in
/// `times`), most recent heartbeat text first, ties in registry order.
pub fn select_active(peers: Vec<Peer>, times: &Vec<Option<i128>>, cutoff: i128) -> (out: Vec<Peer>)
    requires
        times@.len() == peers@.len(),
    ensures
        exists|order: Seq<int>|
            #[trigger] desc_order(
                kept_peers(peers@, int_times(times@), cutoff as int),
                order,
            ) && out@ == laid_out(
                kept_peers(peers@, int_times(times@), cutoff as int),
                order,
            ),
{
    let ghost ts = int_times(times@);
    let ghost orig = peers@;
    let mut kept: Vec<Peer> = Vec::new();
    let mut src = peers;
    let mut rev: Vec<Peer> = Vec::new();
    // Reverse first, so that popping walks the registry order.
    while src.len() > 0
        invariant
            src@.len() <= orig.len(),
            src@ == orig.take(src@.len() as int),
            rev@ == orig.skip(src@.len() as int).reverse(),
        decreases src@.len(),
    {
        let ghost n = src@.len();
        let p = src.pop().unwrap();
        rev.push(p);
        proof {
            assert(orig.take(n as int).drop_last() =~= orig.take(n - 1));
            assert(orig.skip(n - 1).reverse() =~= orig.skip(n as int).reverse().push(orig[n - 1]));
        }
    }
    let mut i: usize = 0;
    let total = times.len();
    proof {
        assert(rev@ =~= orig.reverse());
        assert(orig.take(0) =~= Seq::<Peer>::empty());
        assert(ts.take(0) =~= Seq::<Option<int>>::empty());
    }
    while rev.len() > 0
        invariant
            i + rev@.len() == orig.len(),
            orig.len() == total,
            times@.len() == orig.len(),
            ts == int_times(times@),
            rev@ == orig.skip(i as int).reverse(),
            kept@ == kept_peers(orig.take(i as int), ts.take(i as int), cutoff as int),
        decreases rev@.len(),
    {
        let p = rev.pop().unwrap();
        proof {
            assert(p == orig[i as int]);
            assert(orig.skip(i + 1).reverse() =~= orig.skip(i as int).reverse().drop_last());
            assert(orig.take(i + 1).drop_last() =~= orig.take(i as int));
            assert(ts.take(i + 1).drop_last() =~= ts.take(i as int));
            assert(ts.take(i + 1).last() == opt_int(times@[i as int]));
        }
        let keep = !is_gone(&p.status) && match times[i] {
            Some(h) => h >= cutoff,
            None => false,
        };
        if keep {
            kept.push(p);
        }
        i = i + 1;
    }
    proof {
        assert(orig.take(i as int) =~= orig);
        assert(ts.take(i as int) =~= ts);
    }
    sort_desc_stable(kept)
}

/// The active peers of the registry: neither terminated nor retired, with
/// a heartbeat no older than `cutoff`, most recent heartbeat text first.
pub fn active_peers(peers: Vec<Peer>, cutoff: i128) -> (out: Vec<Peer>)
    ensures
        exists|order: Seq<int>|
            #[trigger] desc_order(kept_peers(peers@, heartbeat_times(peers@), cutoff as int), order)
                && out@ == laid_out(
                kept_peers(peers@, heartbeat_times(peers@), cutoff as int),
                order,
            ),
{
    let mut times: Vec<Option<i128>> = Vec::new();
    let mut i: usize = 0;
    while i < peers.len()
        invariant
            i <= peers@.len(),
            times@.len() == i,
            forall|k: int| 0 <= k < i ==> opt_int(#[trigger] times@[k]) == instant_of(
                opt_text(peers@[k].last_heartbeat_at),
            ),
        decreases peers@.len() - i,
    {
        let t = instant(&peers[i].last_heartbeat_at);
        times.push(t);
        i = i + 1;
    }
    proof {
        assert(int_times(times@) =~= heartbeat_times(peers@));
    }
    select_active(peers, &times, cutoff)
}

// ---------------------------------------------------------------------
// Bus topics
// ---------------------------------------------------------------------

/// How many plans the snapshot looks into, in the order the daemon lists
/// them.
pub const PLANS_SCANNED: usize = 10;

/// The request for the tasks of a plan.
pub fn tasks_path(plan: &str) -> (r: String)
    ensures
        r@ == "/v1/plans/"@ + plan@ + "/tasks"@,
{
    let mut r = owned("/v1/plans/");
    push_str(&mut r, plan);
    push_str(&mut r, "/tasks");
    r
}

/// How many bus topics the snapshot shows.
pub const TOPICS_SHOWN: usize = 5;

/// A bus topic of a plan, with its message count and last activity.
pub struct TopicRow {
    pub topic: Option<String>,
    pub plan_id: String,
    /// `count`, when it is an integer.
    pub count: Option<i64>,
    /// `last_at`, as the daemon sent it (RFC 3339).
    pub last_at: Option<String>,
}

/// Topics rank by their count (a missing count ranks as zero).
impl Ranked for TopicRow {
    open spec fn rank(&self) -> int {
        match self.count {
            Some(c) => c as int,
            None => 0,
        }
    }

    fn rank_exec(&self) -> (r: i64) {
        match self.count {
            Some(c) => c,
            None => 0,
        }
    }
}

/// The busiest topics: the rows by count from the highest down (ties in
/// the order given), at most [`TOPICS_SHOWN`] of them.
pub fn top_topics(rows: Vec<TopicRow>) -> (out: Vec<TopicRow>)
    ensures
        exists|order: Seq<int>|
            #[trigger] rank_order(rows@, order) && out@ == laid_out(rows@, order).take(
                if rows@.len() < TOPICS_SHOWN { rows@.len() as int } else { TOPICS_SHOWN as int },
            ),
{
    let ghost orig = rows@;
    let mut sorted = sort_rank_desc_stable(rows);
    let ghost full = sorted@;
    sorted.truncate(TOPICS_SHOWN);
    proof {
        let order = choose|order: Seq<int>| #[trigger] rank_order(orig, order) && full == laid_out(orig, order);
        assert(full.len() == orig.len());
        if orig.len() < TOPICS_SHOWN {
            assert(sorted@ =~= full.take(orig.len() as int));
        } else {
            assert(sorted@ =~= full.take(TOPICS_SHOWN as int));
        }
        assert(rank_order(orig, order));
    }
    sorted
}

/// In an order from the highest count down, every topic placed before
/// another counts at least as much, so the topics shown are the busiest
/// ones.
pub proof fn busiest_first(rows: Seq<TopicRow>, order: Seq<int>, k: int, l: int)
    requires
        rank_order(rows, order),
        0 <= k < l < order.len(),
    ensures
        rows[order[k]].rank() >= rows[order[l]].rank(),
{
    assert(crate::order::rank_before(rows, order[k], order[l]));
}

// ---------------------------------------------------------------------
// The caller's plans
// ---------------------------------------------------------------------

/// A plan as the daemon lists it.
pub struct PlanRef {
    pub id: Option<String>,
    pub title: Option<String>,
    pub status: Option<String>,
}

/// A task of a plan: who holds it and where it stands.
pub struct TaskRef {
    pub agent_id: Option<String>,
    pub status: Option<String>,
}

/// A plan in which the caller holds tasks, with how many are still open.
pub struct YourPlan {
    pub plan_id: String,
    pub title: Option<String>,
    pub status: Option<String>,
    pub your_tasks_open: i64,
}

/// A task status that no longer needs work.
pub open spec fn closed_status(s: Seq<char>) -> bool {
    s == "done"@ || s == "submitted"@ || s == "cancelled"@
}

/// The task is held by `me`.
pub open spec fn held_by(t: TaskRef, me: Seq<char>) -> bool {
    t.agent_id matches Some(a) && a@ == me
}

/// How many of the tasks `me` holds.
pub open spec fn held_count(tasks: Seq<TaskRef>, me: Seq<char>) -> nat
    decreases tasks.len(),
{
    if tasks.len() == 0 {
        0
    } else {
        held_count(tasks.drop_last(), me) + if held_by(tasks.last(), me) { 1nat } else { 0nat }
    }
}

/// How many of the tasks `me` holds are still open (not done, submitted
/// or cancelled; a task without a status is open).
pub open spec fn open_count(tasks: Seq<TaskRef>, me: Seq<char>) -> nat
    decreases tasks.len(),
{
    if tasks.len() == 0 {
        0
    } else {
        open_count(tasks.drop_last(), me) + if held_by(tasks.last(), me) && !closed_status(
            or_empty(tasks.last().status),
        ) {
            1nat
        } else {
            0nat
        }
    }
}

/// A copy of an optional string.
pub fn copy_opt(o: &Option<String>) -> (r: Option<String>)
    ensures
        opt_text(r) == opt_text(*o),
{
    match o {
        Some(s) => Some(crate::text::owned(s.as_str())),
        None => None,
    }
}

fn is_closed(status: &Option<String>) -> (r: bool)
    ensures
        r == closed_status(or_empty(*status)),
{
    match status {
        Some(s) => {
            let done = str_eq(s.as_str(), "done");
            let submitted = str_eq(s.as_str(), "submitted");
            let cancelled = str_eq(s.as_str(), "cancelled");
            done || submitted || cancelled
        },
        None => {
            proof {
                reveal_strlit("done");
                reveal_strlit("submitted");
                reveal_strlit("cancelled");
                assert(or_empty(*status).len() == 0);
            }
            false
        },
    }
}

fn holds(t: &TaskRef, me: &str) -> (r: bool)
    ensures
        r == held_by(*t, me@),
{
    match &t.agent_id {
        Some(a) => str_eq(a.as_str(), me),
        None => false,
    }
}

/// The caller's summary of one plan: `None` when `me` holds none of its
/// tasks, else the plan's id (empty when it has none), title and status
/// and the number of tasks `me` holds that are still open.
pub fn your_plan(plan: &PlanRef, tasks: &Vec<TaskRef>, me: &str) -> (r: Option<YourPlan>)
    requires
        tasks@.len() <= i64::MAX,
    ensures
        r is None <==> held_count(tasks@, me@) == 0,
        r matches Some(y) ==> {
            &&& y.plan_id@ == or_empty(plan.id)
            &&& opt_text(y.title) == opt_text(plan.title)
            &&& opt_text(y.status) == opt_text(plan.status)
            &&& y.your_tasks_open == open_count(tasks@, me@)
        },
{
    let mut held: usize = 0;
    let mut open: usize = 0;
    let mut i: usize = 0;
    while i < tasks.len()
        invariant
            i <= tasks@.len(),
            held == held_count(tasks@.take(i as int), me@),
            open == open_count(tasks@.take(i as int), me@),
            open <= held <= i,
        decreases tasks@.len() - i,
    {
        proof {
            assert(tasks@.take(i + 1).drop_last() =~= tasks@.take(i as int));
        }
        if holds(&tasks[i], me) {
            held = held + 1;
            if !is_closed(&tasks[i].status) {
                open = open + 1;
            }
        }
        i = i + 1;
    }
    proof {
        assert(tasks@.take(i as int) =~= tasks@);
    }
    if held == 0 {
        return None;
    }
    let plan_id = match &plan.id {
        Some(s) => crate::text::owned(s.as_str()),
        None => String::new(),
    };
    Some(YourPlan {
        plan_id,
        title: copy_opt(&plan.title),
        status: copy_opt(&plan.status),
        your_tasks_open: open as i64,
    })
}

// ---------------------------------------------------------------------
// Lines
// ---------------------------------------------------------------------

/// The age of an optional instant followed by ` ago`, or `-`.
pub open spec fn ago_of(ts: Option<int>, now: int) -> Seq<char> {
    match ts {
        Some(x) => relative_ago_text(Some(age_secs_of(x, now))),
        None => "-"@,
    }
}

/// The capabilities that are texts, in order.
pub open spec fn present_texts(caps: Seq<Option<String>>) -> Seq<Seq<char>>
    decreases caps.len(),
{
    if caps.len() == 0 {
        Seq::empty()
    } else {
        let rest = present_texts(caps.drop_last());
        match caps.last() {
            Some(c) => rest.push(c@),
            None => rest,
        }
    }
}

/// A peer's capabilities joined with commas.
pub open spec fn caps_text(p: Peer) -> Seq<char> {
    join(present_texts(p.capabilities@), ","@)
}

/// The capabilities of a peer that are texts, joined with commas.
pub fn caps_string(p: &Peer) -> (r: String)
    ensures
        r@ == caps_text(*p),
{
    let mut items: Vec<String> = Vec::new();
    let mut i: usize = 0;
    while i < p.capabilities.len()
        invariant
            i <= p.capabilities@.len(),
            items@.map_values(|s: String| s@) == present_texts(p.capabilities@.take(i as int)),
        decreases p.capabilities@.len() - i,
    {
        proof {
            assert(p.capabilities@.take(i + 1).drop_last() =~= p.capabilities@.take(i as int));
        }
        match &p.capabilities[i] {
            Some(c) => {
                let ghost before = items@;
                items.push(owned(c.as_str()));
                proof {
                    assert(items@.map_values(|s: String| s@) =~= before.map_values(|s: String| s@).push(
                        c@,
                    ));
                }
            },
            None => {},
        }
        i = i + 1;
    }
    proof {
        assert(p.capabilities@.take(i as int) =~= p.capabilities@);
    }
    let mut r = String::new();
    push_join(&mut r, &items, ",");
    r
}

/// The first eight bytes of a text (all of it when shorter).
pub open spec fn head8(s: Seq<char>) -> Seq<char> {
    if byte_len(s) <= 8 {
        s
    } else {
        byte_prefix(s, 8)
    }
}

/// Eight bytes of `s` can be taken: it is shorter, or byte 8 starts a
/// character.
pub open spec fn head8_ok(s: Seq<char>) -> bool {
    byte_len(s) > 8 ==> is_char_boundary(encode_utf8(s), 8)
}

fn push_head8(out: &mut String, s: &str)
    requires
        head8_ok(s@),
    ensures
        final(out)@ == old(out)@ + head8(s@),
{
    proof {
        assert(s.spec_bytes() == encode_utf8(s@));
    }
    if s.as_bytes().len() <= 8 {
        push_str(out, s);
    } else {
        push_byte_prefix(out, s, 8);
    }
}

fn or_dash_str(o: &Option<String>) -> (r: &str)
    ensures
        r@ == or_dash(*o),
{
    match o {
        Some(s) => s.as_str(),
        None => "-",
    }
}

fn or_empty_str(o: &Option<String>) -> (r: &str)
    ensures
        r@ == or_empty(*o),
{
    match o {
        Some(s) => s.as_str(),
        None => {
            proof {
                reveal_strlit("");
            }
            ""
        },
    }
}

/// `s` cut to `w` characters, then padded to `w`.
fn push_cell(out: &mut String, s: &str, w: usize)
    ensures
        final(out)@ == old(out)@ + padded(truncated(s@, w as nat), w as nat),
{
    let c = truncate(s, w);
    push_padded(out, c.as_str(), w);
}

/// A count, or zero when there is none.
pub open spec fn count_of(c: Option<i64>) -> int {
    match c {
        Some(n) => n as int,
        None => 0,
    }
}

/// The human line of a peer: id, kind, status, heartbeat age,
/// capabilities and current task, in columns.
pub open spec fn peer_human_text(p: Peer, hb: Option<int>, now: int) -> Seq<char> {
    "  "@ + padded(truncated(or_dash(p.id), 28), 28) + " "@ + padded(or_dash(p.kind), 10) + " "@
        + padded(or_dash(p.status), 11) + " "@ + padded(ago_of(hb, now), 10) + " "@ + padded(
        truncated(caps_text(p), 32),
        32,
    ) + " "@ + truncated(or_dash(p.current_task_id), 32)
}

/// The human line of a peer whose heartbeat instant is `hb`.
pub fn peer_human_line(p: &Peer, hb: Option<i128>, now: i128) -> (r: String)
    ensures
        r@ == peer_human_text(*p, opt_int(hb), now as int),
{
    let mut r = owned("  ");
    push_cell(&mut r, or_dash_str(&p.id), 28);
    push_str(&mut r, " ");
    push_padded(&mut r, or_dash_str(&p.kind), 10);
    push_str(&mut r, " ");
    push_padded(&mut r, or_dash_str(&p.status), 11);
    push_str(&mut r, " ");
    let mut age = String::new();
    push_ago_or_dash(&mut age, hb, now);
    push_padded(&mut r, age.as_str(), 10);
    push_str(&mut r, " ");
    let caps = caps_string(p);
    push_cell(&mut r, caps.as_str(), 32);
    push_str(&mut r, " ");
    let task = truncate(or_dash_str(&p.current_task_id), 32);
    push_str(&mut r, task.as_str());
    proof {
        assert(ago_or_dash(hb, now) == ago_of(opt_int(hb), now as int));
        assert(r@ =~= peer_human_text(*p, opt_int(hb), now as int));
    }
    r
}

/// The human line of a topic: topic, count, plan and age of the last
/// message.
pub open spec fn topic_human_text(r: TopicRow, last: Option<int>, now: int) -> Seq<char> {
    "  "@ + padded(truncated(or_empty(r.topic), 40), 40) + " "@ + padded(
        dec_signed(count_of(r.count)),
        8,
    ) + " plan "@ + head8(r.plan_id@) + " "@ + ago_of(last, now)
}

/// The human line of a topic whose last message came at `last`.
pub fn topic_human_line(row: &TopicRow, last: Option<i128>, now: i128) -> (r: String)
    requires
        head8_ok(row.plan_id@),
    ensures
        r@ == topic_human_text(*row, opt_int(last), now as int),
{
    let mut r = owned("  ");
    push_cell(&mut r, or_empty_str(&row.topic), 40);
    push_str(&mut r, " ");
    let mut n = String::new();
    push_i64(&mut n, row.rank_exec());
    push_padded(&mut r, n.as_str(), 8);
    push_str(&mut r, " plan ");
    push_head8(&mut r, row.plan_id.as_str());
    push_str(&mut r, " ");
    push_ago_or_dash(&mut r, last, now);
    proof {
        assert(r@ =~= topic_human_text(*row, opt_int(last), now as int));
    }
    r
}

/// The human line of one of the caller's plans: id, status, title and
/// open tasks.
pub open spec fn plan_human_text(y: YourPlan) -> Seq<char> {
    "  "@ + head8(y.plan_id@) + " "@ + padded(or_empty(y.status), 8) + " "@ + padded(
        truncated(or_empty(y.title), 48),
        48,
    ) + " open="@ + dec_signed(y.your_tasks_open as int)
}

/// The human line of one of the caller's plans.
pub fn plan_human_line(y: &YourPlan) -> (r: String)
    requires
        head8_ok(y.plan_id@),
    ensures
        r@ == plan_human_text(*y),
{
    let mut r = owned("  ");
    push_head8(&mut r, y.plan_id.as_str());
    push_str(&mut r, " ");
    push_padded(&mut r, or_empty_str(&y.status), 8);
    push_str(&mut r, " ");
    push_cell(&mut r, or_empty_str(&y.title), 48);
    push_str(&mut r, " open=");
    push_i64(&mut r, y.your_tasks_open);
    proof {
        assert(r@ =~= plan_human_text(*y));
    }
    r
}

/// The plain line of a peer: `peer`, id, kind, status, heartbeat age and
/// capabilities, tab-separated.
pub open spec fn peer_plain_text(p: Peer, hb: Option<int>, now: int) -> Seq<char> {
    "peer\t"@ + or_empty(p.id) + "\t"@ + or_empty(p.kind) + "\t"@ + or_empty(p.status) + "\t"@
        + ago_of(hb, now) + "\t"@ + caps_text(p)
}

/// The plain line of a peer whose heartbeat instant is `hb`.
pub fn peer_plain_line(p: &Peer, hb: Option<i128>, now: i128) -> (r: String)
    ensures
        r@ == peer_plain_text(*p, opt_int(hb), now as int),
{
    let mut r = owned("peer\t");
    push_str(&mut r, or_empty_str(&p.id));
    push_str(&mut r, "\t");
    push_str(&mut r, or_empty_str(&p.kind));
    push_str(&mut r, "\t");
    push_str(&mut r, or_empty_str(&p.status));
    push_str(&mut r, "\t");
    push_ago_or_dash(&mut r, hb, now);
    push_str(&mut r, "\t");
    let caps = caps_string(p);
    push_str(&mut r, caps.as_str());
    proof {
        assert(r@ =~= peer_plain_text(*p, opt_int(hb), now as int));
    }
    r
}

/// The plain line of a topic: `topic`, topic, plan id, count and age of
/// the last message.
pub open spec fn topic_plain_text(r: TopicRow, last: Option<int>, now: int) -> Seq<char> {
    "topic\t"@ + or_empty(r.topic) + "\t"@ + r.plan_id@ + "\t"@ + dec_signed(count_of(r.count))
        + "\t"@ + ago_of(last, now)
}

/// The plain line of a topic whose last message came at `last`.
pub fn topic_plain_line(row: &TopicRow, last: Option<i128>, now: i128) -> (r: String)
    ensures
        r@ == topic_plain_text(*row, opt_int(last), now as int),
{
    let mut r = owned("topic\t");
    push_str(&mut r, or_empty_str(&row.topic));
    push_str(&mut r, "\t");
    push_str(&mut r, row.plan_id.as_str());
    push_str(&mut r, "\t");
    push_i64(&mut r, row.rank_exec());
    push_str(&mut r, "\t");
    push_ago_or_dash(&mut r, last, now);
    proof {
        assert(r@ =~= topic_plain_text(*row, opt_int(last), now as int));
    }
    r
}

/// The plain line of one of the caller's plans: `plan`, id, status, open
/// tasks and title.
pub open spec fn plan_plain_text(y: YourPlan) -> Seq<char> {
    "plan\t"@ + y.plan_id@ + "\t"@ + or_empty(y.status) + "\t"@ + dec_signed(
        y.your_tasks_open as int,
    ) + "\t"@ + or_empty(y.title)
}

/// The plain line of one of the caller's plans.
pub fn plan_plain_line(y: &YourPlan) -> (r: String)
    ensures
        r@ == plan_plain_text(*y),
{
    let mut r = owned("plan\t");
    push_str(&mut r, y.plan_id.as_str());
    push_str(&mut r, "\t");
    push_str(&mut r, or_empty_str(&y.status));
    push_str(&mut r, "\t");
    push_i64(&mut r, y.your_tasks_open);
    push_str(&mut r, "\t");
    push_str(&mut r, or_empty_str(&y.title));
    proof {
        assert(r@ =~= plan_plain_text(*y));
    }
    r
}

// ---------------------------------------------------------------------
// The whole snapshot
// ---------------------------------------------------------------------

/// The plain lines of the peers.
pub open spec fn peers_plain(peers: Seq<Peer>, now: int) -> Seq<Seq<char>> {
    peers.map_values(|p: Peer| peer_plain_text(p, instant_of(opt_text(p.last_heartbeat_at)), now))
}

/// The plain lines of the topics.
pub open spec fn topics_plain(topics: Seq<TopicRow>, now: int) -> Seq<Seq<char>> {
    topics.map_values(|r: TopicRow| topic_plain_text(r, instant_of(opt_text(r.last_at)), now))
}

/// The plain lines of the caller's plans.
pub open spec fn plans_plain(plans: Seq<YourPlan>) -> Seq<Seq<char>> {
    plans.map_values(|y: YourPlan| plan_plain_text(y))
}

fn push_text(out: &mut Vec<String>, s: String)
    ensures
        line_texts(final(out)@) == line_texts(old(out)@).push(s@),
{
    out.push(s);
    proof {
        assert(line_texts(out@) =~= line_texts(old(out)@).push(s@));
    }
}

/// The tab-separated snapshot: a line per peer, then per topic, then per
/// plan; `now` is in nanoseconds since the Unix epoch.
pub fn discover_plain(peers: &Vec<Peer>, topics: &Vec<TopicRow>, plans: &Vec<YourPlan>, now: i128) -> (r:
    Vec<String>)
    ensures
        line_texts(r@) == peers_plain(peers@, now as int) + topics_plain(topics@, now as int) + plans_plain(
            plans@,
        ),
{
    let mut r: Vec<String> = Vec::new();
    let mut i: usize = 0;
    while i < peers.len()
        invariant
            i <= peers@.len(),
            line_texts(r@) == peers_plain(peers@.take(i as int), now as int),
        decreases peers@.len() - i,
    {
        let p = &peers[i];
        let hb = instant(&p.last_heartbeat_at);
        push_text(&mut r, peer_plain_line(p, hb, now));
        proof {
            assert(peers@.take(i + 1) =~= peers@.take(i as int).push(*p));
            assert(peers_plain(peers@.take(i + 1), now as int) =~= peers_plain(
                peers@.take(i as int),
                now as int,
            ).push(peer_plain_text(*p, opt_int(hb), now as int)));
        }
        i = i + 1;
    }
    proof {
        assert(peers@.take(i as int) =~= peers@);
    }
    let ghost head = line_texts(r@);
    let mut j: usize = 0;
    while j < topics.len()
        invariant
            j <= topics@.len(),
            line_texts(r@) == head + topics_plain(topics@.take(j as int), now as int),
        decreases topics@.len() - j,
    {
        let row = &topics[j];
        let last = instant(&row.last_at);
        push_text(&mut r, topic_plain_line(row, last, now));
        proof {
            assert(topics@.take(j + 1) =~= topics@.take(j as int).push(*row));
            assert(topics_plain(topics@.take(j + 1), now as int) =~= topics_plain(
                topics@.take(j as int),
                now as int,
            ).push(topic_plain_text(*row, opt_int(last), now as int)));
        }
        j = j + 1;
    }
    proof {
        assert(topics@.take(j as int) =~= topics@);
    }
    let ghost mid = line_texts(r@);
    let mut k: usize = 0;
    while k < plans.len()
        invariant
            k <= plans@.len(),
            line_texts(r@) == mid + plans_plain(plans@.take(k as int)),
        decreases plans@.len() - k,
    {
        let y = &plans[k];
        push_text(&mut r, plan_plain_line(y));
        proof {
            assert(plans@.take(k + 1) =~= plans@.take(k as int).push(*y));
            assert(plans_plain(plans@.take(k + 1)) =~= plans_plain(plans@.take(k as int)).push(
                plan_plain_text(*y),
            ));
        }
        k = k + 1;
    }
    proof {
        assert(plans@.take(k as int) =~= plans@);
    }
    r
}

/// A line holding one text.
pub open spec fn text_line(s: Seq<char>) -> Seq<PartView> {
    seq![t(s)]
}

/// A section of the human snapshot: its title, a note when it is empty,
/// then its lines.
pub open spec fn section(title: Seq<PartView>, empty_key: Seq<char>, lines: Seq<Seq<char>>) -> Seq<
    Seq<PartView>,
> {
    seq![title] + (if lines.len() == 0 {
        seq![seq![t("  "@), m(empty_key)]]
    } else {
        Seq::empty()
    }) + lines.map_values(|s: Seq<char>| text_line(s))
}

/// The human lines of the peers.
pub open spec fn peers_human(peers: Seq<Peer>, now: int) -> Seq<Seq<char>> {
    peers.map_values(|p: Peer| peer_human_text(p, instant_of(opt_text(p.last_heartbeat_at)), now))
}

/// The human lines of the topics.
pub open spec fn topics_human(topics: Seq<TopicRow>, now: int) -> Seq<Seq<char>> {
    topics.map_values(|r: TopicRow| topic_human_text(r, instant_of(opt_text(r.last_at)), now))
}

/// The human lines of the caller's plans.
pub open spec fn plans_human(plans: Seq<YourPlan>) -> Seq<Seq<char>> {
    plans.map_values(|y: YourPlan| plan_human_text(y))
}

/// The localized snapshot: a header with the time `at` and the caller
/// `me`, then the active peers (in the window `since`), the recent bus
/// topics and the caller's plans, each section after a blank line.
pub open spec fn discover_human_view(
    at: Seq<char>,
    since: Seq<char>,
    me: Seq<char>,
    peers: Seq<Peer>,
    topics: Seq<TopicRow>,
    plans: Seq<YourPlan>,
    now: int,
) -> Seq<Seq<PartView>> {
    seq![seq![(true, "discover-header"@, seq![("at"@, at)]), t(" ("@ + me + ")"@)], Seq::empty()]
        + section(
        seq![(true, "discover-active-peers"@, seq![("since"@, since)])],
        "discover-empty-peers"@,
        peers_human(peers, now),
    ) + seq![Seq::empty()] + section(
        seq![m("discover-recent-bus"@)],
        "discover-empty-bus"@,
        topics_human(topics, now),
    ) + seq![Seq::empty()] + section(
        seq![m("discover-your-plans"@)],
        "discover-empty-plans"@,
        plans_human(plans),
    )
}

fn push_texts(out: &mut Vec<Line>, lines: &Vec<String>)
    ensures
        lines_view(final(out)@) == lines_view(old(out)@) + line_texts(lines@).map_values(
            |s: Seq<char>| text_line(s),
        ),
{
    let ghost start = lines_view(out@);
    let mut i: usize = 0;
    while i < lines.len()
        invariant
            i <= lines@.len(),
            lines_view(out@) == start + line_texts(lines@.take(i as int)).map_values(
                |s: Seq<char>| text_line(s),
            ),
        decreases lines@.len() - i,
    {
        push_line(out, line1(text(owned(lines[i].as_str()))));
        proof {
            assert(line_texts(lines@.take(i + 1)).map_values(|s: Seq<char>| text_line(s)) =~= line_texts(
                lines@.take(i as int),
            ).map_values(|s: Seq<char>| text_line(s)).push(text_line(lines@[i as int]@)));
        }
        i = i + 1;
    }
    proof {
        assert(lines@.take(i as int) =~= lines@);
    }
}

fn push_section(out: &mut Vec<Line>, title: crate::show::Part, empty_key: &str, lines: &Vec<String>)
    ensures
        lines_view(final(out)@) == lines_view(old(out)@) + section(
            seq![crate::show::part_view(title)],
            empty_key@,
            line_texts(lines@),
        ),
{
    let ghost tv = crate::show::part_view(title);
    push_line(out, line1(title));
    if lines.len() == 0 {
        push_line(out, line2(text(owned("  ")), msg(empty_key)));
    }
    push_texts(out, lines);
    proof {
        assert(lines_view(out@) =~= lines_view(old(out)@) + section(seq![tv], empty_key@, line_texts(lines@)));
    }
}

/// The localized snapshot; `at` is the time of the snapshot as text and
/// `now` the same instant in nanoseconds since the Unix epoch.
pub fn discover_human(
    at: &str,
    since: &str,
    me: &str,
    peers: &Vec<Peer>,
    topics: &Vec<TopicRow>,
    plans: &Vec<YourPlan>,
    now: i128,
) -> (r: Vec<Line>)
    requires
        forall|i: int| 0 <= i < topics@.len() ==> head8_ok(#[trigger] topics@[i].plan_id@),
        forall|i: int| 0 <= i < plans@.len() ==> head8_ok(#[trigger] plans@[i].plan_id@),
    ensures
        lines_view(r@) == discover_human_view(at@, since@, me@, peers@, topics@, plans@, now as int),
{
    let mut peer_lines: Vec<String> = Vec::new();
    let mut i: usize = 0;
    while i < peers.len()
        invariant
            i <= peers@.len(),
            line_texts(peer_lines@) == peers_human(peers@.take(i as int), now as int),
        decreases peers@.len() - i,
    {
        let p = &peers[i];
        let hb = instant(&p.last_heartbeat_at);
        push_text(&mut peer_lines, peer_human_line(p, hb, now));
        proof {
            assert(peers@.take(i + 1) =~= peers@.take(i as int).push(*p));
            assert(peers_human(peers@.take(i + 1), now as int) =~= peers_human(
                peers@.take(i as int),
                now as int,
            ).push(peer_human_text(*p, opt_int(hb), now as int)));
        }
        i = i + 1;
    }
    let mut topic_lines: Vec<String> = Vec::new();
    let mut j: usize = 0;
    while j < topics.len()
        invariant
            j <= topics@.len(),
            forall|i: int| 0 <= i < topics@.len() ==> head8_ok(#[trigger] topics@[i].plan_id@),
            line_texts(topic_lines@) == topics_human(topics@.take(j as int), now as int),
        decreases topics@.len() - j,
    {
        let row = &topics[j];
        let last = instant(&row.last_at);
        push_text(&mut topic_lines, topic_human_line(row, last, now));
        proof {
            assert(topics@.take(j + 1) =~= topics@.take(j as int).push(*row));
            assert(topics_human(topics@.take(j + 1), now as int) =~= topics_human(
                topics@.take(j as int),
                now as int,
            ).push(topic_human_text(*row, opt_int(last), now as int)));
        }
        j = j + 1;
    }
    let mut plan_lines: Vec<String> = Vec::new();
    let mut k: usize = 0;
    while k < plans.len()
        invariant
            k <= plans@.len(),
            forall|i: int| 0 <= i < plans@.len() ==> head8_ok(#[trigger] plans@[i].plan_id@),
            line_texts(plan_lines@) == plans_human(plans@.take(k as int)),
        decreases plans@.len() - k,
    {
        let y = &plans[k];
        push_text(&mut plan_lines, plan_human_line(y));
        proof {
            assert(plans@.take(k + 1) =~= plans@.take(k as int).push(*y));
            assert(plans_human(plans@.take(k + 1)) =~= plans_human(plans@.take(k as int)).push(
                plan_human_text(*y),
            ));
        }
        k = k + 1;
    }
    proof {
        assert(peers@.take(i as int) =~= peers@);
        assert(topics@.take(j as int) =~= topics@);
        assert(plans@.take(k as int) =~= plans@);
    }
    let mut out: Vec<Line> = Vec::new();
    let mut head = owned(" (");
    push_str(&mut head, me);
    push_str(&mut head, ")");
    push_line(&mut out, line2(msg1("discover-header", "at", owned(at)), text(head)));
    push_blank(&mut out);
    push_section(&mut out, msg1("discover-active-peers", "since", owned(since)), "discover-empty-peers", &peer_lines);
    push_blank(&mut out);
    push_section(&mut out, msg("discover-recent-bus"), "discover-empty-bus", &topic_lines);
    push_blank(&mut out);
    push_section(&mut out, msg("discover-your-plans"), "discover-empty-plans", &plan_lines);
    proof {
        assert(lines_view(out@) =~= discover_human_view(at@, since@, me@, peers@, topics@, plans@, now as int));
    }
    out
}

} // verus!
