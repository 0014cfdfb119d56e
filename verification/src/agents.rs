//! `cvg agent list | retire-stale | heartbeat`: the active-agent filter,
//! the heartbeat ordering of the list, and the list's table cells.
use crate::cells::{
    color_status, indented_id, maybe_indent_id, padded, push_padded, relative_ago_secs,
    relative_ago_text, relative_secs, relative_text, sgr, status_code, truncate, truncated, join,
    push_join,
};
use crate::numeric::{dec_signed, push_i64};
use crate::numeric::{dec, push_dec};
use crate::text::{owned, opt_text, push_char, push_str, str_eq, line_texts, lemma_line_texts_push, lemma_map_take_push};
use vstd::prelude::*;

verus! {

/// Column profile chosen via `--columns`.
#[derive(Clone, Copy, Debug, PartialEq, Eq, Structural)]
pub enum ColumnProfile {
    /// ID, KIND, STATUS, LAST_HB, CLAIMED, LAST_TOPIC, TASK, BRANCH.
    Default,
    /// Default + CAPABILITIES, LEASES, LAST_AUDIT.
    Extended,
}

/// Arguments of `cvg agent list`.
pub struct ListArgs {
    /// Show every agent including terminated/retired.
    pub all: bool,
    /// Threshold (minutes) for the active filter.
    pub threshold_min: i64,
    /// Column profile (default vs extended).
    pub columns: ColumnProfile,
}

impl Default for ListArgs {
    fn default() -> (r: Self)
        ensures
            r.all == false,
            r.threshold_min == 30,
            r.columns == ColumnProfile::Default,
    {
        ListArgs { all: false, threshold_min: 30, columns: ColumnProfile::Default }
    }
}

/// Arguments of `cvg agent retire-stale`.
pub struct RetireArgs {
    /// Heartbeat staleness threshold, minutes.
    pub threshold_min: i64,
    /// `true` to actually retire (default: dry-run).
    pub apply: bool,
}

impl Default for RetireArgs {
    fn default() -> (r: Self)
        ensures
            r.threshold_min == 60,
            r.apply == false,
    {
        RetireArgs { threshold_min: 60, apply: false }
    }
}

/// `threshold_min * 60`, saturating at the bounds of `i64`.
pub open spec fn threshold_seconds_of(threshold_min: int) -> int {
    let s = threshold_min * 60;
    if s > i64::MAX {
        i64::MAX as int
    } else if s < i64::MIN {
        i64::MIN as int
    } else {
        s
    }
}

impl RetireArgs {
    /// The `threshold_seconds` sent to the daemon.
    pub fn threshold_seconds(&self) -> (r: i64)
        ensures
            r == threshold_seconds_of(self.threshold_min as int),
    {
        let s = self.threshold_min as i128 * 60;
        if s > i64::MAX as i128 {
            i64::MAX
        } else if s < i64::MIN as i128 {
            i64::MIN
        } else {
            s as i64
        }
    }
}

/// Arguments of `cvg agent heartbeat`.
pub struct Args {
    /// Stable agent id.
    pub agent_id: String,
    /// Status string sent to the registry (e.g. `working`, `idle`).
    pub status: String,
}

/// `/v1/agent-registry/agents/<id>/heartbeat`.
pub open spec fn heartbeat_path_text(id: Seq<char>) -> Seq<char> {
    "/v1/agent-registry/agents/"@ + id + "/heartbeat"@
}

impl Args {
    /// The request path the heartbeat is posted to.
    pub fn path(&self) -> (r: String)
        ensures
            r@ == heartbeat_path_text(self.agent_id@),
    {
        let mut r = String::new();
        push_str(&mut r, "/v1/agent-registry/agents/");
        push_str(&mut r, self.agent_id.as_str());
        push_str(&mut r, "/heartbeat");
        r
    }
}

// ---------------------------------------------------------------------
// Active filter and heartbeat ordering
// ---------------------------------------------------------------------

/// Statuses of agents that are gone for good.
pub open spec fn terminal_status(status: Seq<char>) -> bool {
    status == "terminated"@ || status == "retired"@
}

/// Whether a status marks an agent that is gone for good.
pub fn is_terminal(status: &str) -> (r: bool)
    ensures
        r == terminal_status(status@),
{
    str_eq(status, "terminated") || str_eq(status, "retired")
}

/// One agent of the registry summary, with its last heartbeat as
/// nanoseconds since the Unix epoch.
pub struct AgentSummary {
    pub id: String,
    pub kind: String,
    pub status: String,
    pub capabilities: Vec<String>,
    pub last_heartbeat_at: Option<i128>,
    pub current_task_title: Option<String>,
    pub current_task_id: Option<String>,
    pub recent_branch: Option<String>,
    pub active_leases: i64,
    pub last_audit_kind: Option<String>,
    pub last_audit_at: Option<i128>,
    pub claimed_count: i64,
    pub claimed_titles: Vec<String>,
    pub last_topic: Option<TopicStamp>,
}

/// The last bus topic an agent posted on, and when.
pub struct TopicStamp {
    pub topic: String,
    /// Nanoseconds since the Unix epoch.
    pub at: i128,
}

/// `a` comes strictly before `b` in the list: a later heartbeat first, no
/// heartbeat last.
pub open spec fn hb_before(a: Option<i128>, b: Option<i128>) -> bool {
    match (a, b) {
        (Some(x), Some(y)) => x > y,
        (Some(_), None) => true,
        _ => false,
    }
}

/// The list order over positions of `rows`: by heartbeat, then by
/// original position (a stable sort).
pub open spec fn row_before(rows: Seq<AgentSummary>, i: int, j: int) -> bool {
    hb_before(rows[i].last_heartbeat_at, rows[j].last_heartbeat_at) || (
    rows[i].last_heartbeat_at == rows[j].last_heartbeat_at && i < j)
}

/// `order` lists every position of `rows` exactly once, in list order.
pub open spec fn sorted_order(rows: Seq<AgentSummary>, order: Seq<int>) -> bool {
    &&& order.len() == rows.len()
    &&& forall|k: int| 0 <= k < order.len() ==> 0 <= #[trigger] order[k] < rows.len()
    &&& forall|k: int, l: int|
        0 <= k < l < order.len() ==> row_before(rows, #[trigger] order[k], #[trigger] order[l])
}

/// The rows laid out in `order`.
pub open spec fn arranged(rows: Seq<AgentSummary>, order: Seq<int>) -> Seq<AgentSummary> {
    order.map_values(|k: int| rows[k])
}

fn hb_before_exec(a: Option<i128>, b: Option<i128>) -> (r: bool)
    ensures
        r == hb_before(a, b),
{
    match (a, b) {
        (Some(x), Some(y)) => x > y,
        (Some(_), None) => true,
        _ => false,
    }
}

fn hb_eq_exec(a: Option<i128>, b: Option<i128>) -> (r: bool)
    ensures
        r == (a == b),
{
    match (a, b) {
        (Some(x), Some(y)) => x == y,
        (None, None) => true,
        _ => false,
    }
}

/// Positions of `rows` in list order (stable, most recent heartbeat
/// first, rows without a heartbeat last).
fn sort_positions(rows: &Vec<AgentSummary>) -> (order: Vec<usize>)
    ensures
        sorted_order(rows@, order@.map_values(|k: usize| k as int)),
{
    let mut order: Vec<usize> = Vec::new();
    let mut i: usize = 0;
    while i < rows.len()
        invariant
            i <= rows@.len(),
            order@.len() == i,
            forall|k: int| 0 <= k < order@.len() ==> #[trigger] order@[k] < i,
            forall|k: int, l: int|
                0 <= k < l < order@.len() ==> row_before(
                    rows@,
                    #[trigger] order@[k] as int,
                    #[trigger] order@[l] as int,
                ),
        decreases rows@.len() - i,
    {
        // Insert `i` after every position that comes before it.
        let hb = rows[i].last_heartbeat_at;
        let mut p: usize = 0;
        while p < order.len() && (hb_before_exec(rows[order[p]].last_heartbeat_at, hb) || hb_eq_exec(
            rows[order[p]].last_heartbeat_at,
            hb,
        ))
            invariant
                i < rows@.len(),
                hb == rows@[i as int].last_heartbeat_at,
                p <= order@.len(),
                forall|k: int| 0 <= k < order@.len() ==> #[trigger] order@[k] < i,
                forall|k: int| 0 <= k < p ==> row_before(rows@, #[trigger] order@[k] as int, i as int),
            decreases order@.len() - p,
        {
            p = p + 1;
        }
        let ghost old_order = order@;
        proof {
            // Everything from `p` on comes after `i`.
            if p < old_order.len() {
                assert(row_before(rows@, i as int, old_order[p as int] as int));
                assert forall|k: int| p <= k < old_order.len() implies row_before(
                    rows@,
                    i as int,
                    #[trigger] old_order[k] as int,
                ) by {
                    if k > p {
                        assert(row_before(rows@, old_order[p as int] as int, old_order[k] as int));
                    }
                }
            }
        }
        order.insert(p, i);
        proof {
            assert forall|k: int, l: int| 0 <= k < l < order@.len() implies row_before(
                rows@,
                #[trigger] order@[k] as int,
                #[trigger] order@[l] as int,
            ) by {
                if k < p && l == p {
                } else if k < p && l > p {
                    assert(order@[l] == old_order[l - 1]);
                } else if k == p {
                    assert(order@[l] == old_order[l - 1]);
                } else if k > p {
                    assert(order@[k] == old_order[k - 1]);
                    assert(order@[l] == old_order[l - 1]);
                }
            }
        }
        i = i + 1;
    }
    proof {
        let o = order@.map_values(|k: usize| k as int);
        assert forall|k: int, l: int| 0 <= k < l < o.len() implies row_before(
            rows@,
            #[trigger] o[k],
            #[trigger] o[l],
        ) by {
            assert(o[k] == order@[k] as int);
            assert(o[l] == order@[l] as int);
        }
    }
    order
}

/// Sorts agents by last heartbeat, most recent first, agents without a
/// heartbeat last, keeping the registry order among equal heartbeats.
pub fn sort(rows: Vec<AgentSummary>) -> (out: Vec<AgentSummary>)
    ensures
        exists|order: Seq<int>| #[trigger] sorted_order(rows@, order) && out@ == arranged(rows@, order),
{
    let order = sort_positions(&rows);
    let ghost o = order@.map_values(|k: usize| k as int);
    let mut slots: Vec<Option<AgentSummary>> = Vec::new();
    let mut rows = rows;
    let ghost orig = rows@;
    // Move every row into a slot so that each can be taken exactly once.
    let mut k: usize = 0;
    while k < rows.len()
        invariant
            rows@ == orig,
            k <= orig.len(),
            slots@.len() == k,
            forall|m: int| 0 <= m < k ==> #[trigger] slots@[m] == None::<AgentSummary>,
        decreases orig.len() - k,
    {
        slots.push(None);
        k = k + 1;
    }
    let mut src = rows;
    let mut idx: usize = src.len();
    while idx > 0
        invariant
            idx <= orig.len(),
            src@ == orig.take(idx as int),
            slots@.len() == orig.len(),
            forall|m: int| 0 <= m < idx ==> #[trigger] slots@[m] == None::<AgentSummary>,
            forall|m: int| idx <= m < orig.len() ==> #[trigger] slots@[m] == Some(orig[m]),
        decreases idx,
    {
        let row = src.pop().unwrap();
        idx = idx - 1;
        slots.set(idx, Some(row));
        proof {
            assert(orig.take(idx + 1).last() == orig[idx as int]);
            assert(orig.take(idx + 1).drop_last() =~= orig.take(idx as int));
        }
    }
    let mut out: Vec<AgentSummary> = Vec::new();
    let mut j: usize = 0;
    while j < order.len()
        invariant
            j <= order@.len(),
            o == order@.map_values(|k: usize| k as int),
            sorted_order(orig, o),
            slots@.len() == orig.len(),
            out@ == arranged(orig, o.take(j as int)),
            forall|m: int| 0 <= m < orig.len() ==> (#[trigger] slots@[m] == Some(orig[m])
                || slots@[m] == None::<AgentSummary>),
            forall|l: int| j <= l < o.len() ==> #[trigger] slots@[o[l]] == Some(orig[o[l]]),
        decreases order@.len() - j,
    {
        let pos = order[j];
        proof {
            assert(o[j as int] == pos as int);
        }
        let mut taken: Option<AgentSummary> = None;
        slots.set_and_swap(pos, &mut taken);
        let row = taken.unwrap();
        out.push(row);
        proof {
            assert forall|l: int| j + 1 <= l < o.len() implies #[trigger] slots@[o[l]] == Some(
                orig[o[l]],
            ) by {
                assert(o[l] != o[j as int]) by {
                    assert(row_before(orig, o[j as int], o[l]));
                }
            }
            assert(o.take(j + 1) =~= o.take(j as int).push(o[j as int]));
            assert(arranged(orig, o.take(j + 1)) =~= arranged(orig, o.take(j as int)).push(
                orig[o[j as int]],
            ));
        }
        j = j + 1;
    }
    proof {
        assert(o.take(o.len() as int) =~= o);
        assert(sorted_order(orig, o) && out@ == arranged(orig, o));
    }
    out
}

/// The agents kept by the active view: not terminated or retired, with a
/// heartbeat no older than `cutoff`.
pub open spec fn active(s: AgentSummary, cutoff: i128) -> bool {
    !terminal_status(s.status@) && match s.last_heartbeat_at {
        Some(ts) => ts >= cutoff,
        None => false,
    }
}

/// The rows of the active view, in registry order.
pub open spec fn active_rows(rows: Seq<AgentSummary>, cutoff: i128) -> Seq<AgentSummary> {
    rows.filter(|s: AgentSummary| active(s, cutoff))
}

/// The rows the list shows (in heartbeat order) and how many it hides.
/// With `all`, every row and nothing hidden; otherwise the active rows and
/// the count of the others. `cutoff` is `now - threshold`, in nanoseconds
/// since the Unix epoch.
pub fn filter(rows: Vec<AgentSummary>, all: bool, cutoff: i128) -> (r: (Vec<AgentSummary>, usize))
    ensures
        all ==> r.1 == 0 && exists|order: Seq<int>|
            #[trigger] sorted_order(rows@, order) && r.0@ == arranged(rows@, order),
        !all ==> r.1 == rows@.len() - active_rows(rows@, cutoff).len() && exists|order: Seq<int>|
            #[trigger] sorted_order(active_rows(rows@, cutoff), order) && r.0@ == arranged(
                active_rows(rows@, cutoff),
                order,
            ),
{
    if all {
        return (sort(rows), 0);
    }
    let total = rows.len();
    let ghost orig = rows@;
    let ghost pred = |s: AgentSummary| active(s, cutoff);
    let mut kept: Vec<AgentSummary> = Vec::new();
    let mut src = rows;
    // Walk from the back so every row can be moved out.
    let mut rev: Vec<AgentSummary> = Vec::new();
    let mut n = src.len();
    while n > 0
        invariant
            n <= orig.len(),
            src@ == orig.take(n as int),
            rev@.len() == orig.len() - n,
            forall|m: int| 0 <= m < rev@.len() ==> #[trigger] rev@[m] == orig[orig.len() - 1 - m],
        decreases n,
    {
        let row = src.pop().unwrap();
        proof {
            assert(orig.take(n as int).last() == orig[n - 1]);
            assert(orig.take(n as int).drop_last() =~= orig.take(n - 1));
        }
        rev.push(row);
        n = n - 1;
    }
    let mut i: usize = 0;
    while i < total
        invariant
            total == orig.len(),
            i <= total,
            rev@.len() == total - i,
            forall|m: int| 0 <= m < rev@.len() ==> #[trigger] rev@[m] == orig[total - 1 - m],
            kept@ == orig.take(i as int).filter(pred),
            pred == |s: AgentSummary| active(s, cutoff),
        decreases total - i,
    {
        let row = rev.pop().unwrap();
        proof {
            assert(row == orig[i as int]);
            assert(orig.take(i + 1).drop_last() =~= orig.take(i as int));
            assert(orig.take(i + 1).last() == orig[i as int]);
            reveal(Seq::filter);
        }
        let keep = !is_terminal(row.status.as_str()) && match row.last_heartbeat_at {
            Some(ts) => ts >= cutoff,
            None => false,
        };
        if keep {
            kept.push(row);
        }
        i = i + 1;
    }
    proof {
        assert(orig.take(total as int) =~= orig);
        broadcast use vstd::seq_lib::group_filter_ensures;

        assert(kept@ == active_rows(orig, cutoff));
        assert(kept@.len() <= orig.len());
    }
    let hidden = total - kept.len();
    let shown = sort(kept);
    proof {
        let order = choose|order: Seq<int>|
            #[trigger] sorted_order(active_rows(orig, cutoff), order) && shown@ == arranged(
                active_rows(orig, cutoff),
                order,
            );
        assert(sorted_order(active_rows(orig, cutoff), order));
    }
    (shown, hidden)
}

/// The active view shows only active agents, and every active agent of the
/// registry is shown.
pub proof fn shown_plus_hidden(rows: Seq<AgentSummary>, cutoff: i128)
    ensures
        active_rows(rows, cutoff).len() <= rows.len(),
        forall|k: int|
            0 <= k < active_rows(rows, cutoff).len() ==> active(
                #[trigger] active_rows(rows, cutoff)[k],
                cutoff,
            ),
        forall|i: int|
            0 <= i < rows.len() && active(#[trigger] rows[i], cutoff) ==> active_rows(
                rows,
                cutoff,
            ).contains(rows[i]),
{
    broadcast use vstd::seq_lib::group_filter_ensures;

}

// ---------------------------------------------------------------------
// Table cells of the human list
// ---------------------------------------------------------------------

/// The TASK cell: the current task title, else the first claimed task,
/// else the current task id, truncated to 38 characters (`-` when none);
/// with more than one claimed task, `" (+<others>)"` is appended and the
/// whole truncated again.
pub open spec fn task_cell_text(
    title: Option<Seq<char>>,
    first_claimed: Option<Seq<char>>,
    task_id: Option<Seq<char>>,
    claimed_count: int,
) -> Seq<char> {
    let base = match title {
        Some(t) => truncated(t, 38),
        None => match first_claimed {
            Some(t) => truncated(t, 38),
            None => match task_id {
                Some(t) => truncated(t, 38),
                None => seq!['-'],
            },
        },
    };
    if claimed_count > 1 {
        truncated(base + " (+"@ + dec((claimed_count - 1) as nat) + seq![')'], 38)
    } else {
        base
    }
}

/// The TASK cell of an agent row.
pub fn task_cell(
    title: Option<&str>,
    first_claimed: Option<&str>,
    task_id: Option<&str>,
    claimed_count: i64,
) -> (r: String)
    ensures
        r@ == task_cell_text(
            match title {
                Some(t) => Some(t@),
                None => None,
            },
            match first_claimed {
                Some(t) => Some(t@),
                None => None,
            },
            match task_id {
                Some(t) => Some(t@),
                None => None,
            },
            claimed_count as int,
        ),
{
    let base = match title {
        Some(t) => truncate(t, 38),
        None => match first_claimed {
            Some(t) => truncate(t, 38),
            None => match task_id {
                Some(t) => truncate(t, 38),
                None => owned("-"),
            },
        },
    };
    proof {
        reveal_strlit("-");
        assert("-"@ =~= seq!['-']);
    }
    if claimed_count > 1 {
        let mut s = base;
        push_str(&mut s, " (+");
        push_dec(&mut s, (claimed_count - 1) as u64);
        push_char(&mut s, ')');
        truncate(s.as_str(), 38)
    } else {
        base
    }
}

/// A cell holding an optional text truncated to `width`, or `-`.
pub open spec fn opt_cell_text(v: Option<Seq<char>>, width: nat) -> Seq<char> {
    match v {
        Some(t) => truncated(t, width),
        None => seq!['-'],
    }
}

/// The BRANCH cell (22 characters) or any other optional truncated cell.
pub fn opt_cell(v: Option<&str>, width: usize) -> (r: String)
    ensures
        r@ == opt_cell_text(
            match v {
                Some(t) => Some(t@),
                None => None,
            },
            width as nat,
        ),
{
    match v {
        Some(t) => truncate(t, width),
        None => {
            let mut r = String::new();
            push_char(&mut r, '-');
            proof {
                assert(r@ =~= seq!['-']);
            }
            r
        },
    }
}

// ---------------------------------------------------------------------
// Rows of the list
// ---------------------------------------------------------------------

/// Whole seconds from `ts` to `now` (nanosecond instants), truncated
/// toward zero as `TimeDelta::num_seconds` does, and held to the `i64`
/// range.
pub open spec fn age_secs_of(ts: int, now: int) -> int {
    let d = now - ts;
    let q = if d >= 0 {
        d / 1_000_000_000
    } else {
        -((-d) / 1_000_000_000)
    };
    if q > i64::MAX {
        i64::MAX as int
    } else if q < i64::MIN {
        i64::MIN as int
    } else {
        q
    }
}

/// The age of the instant `ts` at `now`, in whole seconds.
pub fn age_secs(ts: i128, now: i128) -> (r: i64)
    ensures
        r == age_secs_of(ts as int, now as int),
{
    let big: i128 = 1_000_000_000;
    let q: i128 = match now.checked_sub(ts) {
        Some(d) => {
            if d >= 0 {
                d / big
            } else if d == i128::MIN {
                return i64::MIN;
            } else {
                -((-d) / big)
            }
        },
        None => {
            if now > ts {
                return i64::MAX;
            } else {
                return i64::MIN;
            }
        },
    };
    if q > i64::MAX as i128 {
        i64::MAX
    } else if q < i64::MIN as i128 {
        i64::MIN
    } else {
        q as i64
    }
}

/// The age of an optional instant.
pub open spec fn opt_age(ts: Option<i128>, now: i128) -> Option<int> {
    match ts {
        Some(t) => Some(age_secs_of(t as int, now as int)),
        None => None,
    }
}

/// The TOPIC cell: the topic and its age, truncated to `width`, or `-`.
pub open spec fn topic_cell_text(t: Option<TopicStamp>, now: i128, width: nat) -> Seq<char> {
    match t {
        Some(t) => truncated(t.topic@ + " "@ + relative_text(age_secs_of(t.at as int, now as int)), width),
        None => seq!['-'],
    }
}

/// The first claimed task title, if any.
pub open spec fn first_title(titles: Seq<String>) -> Option<Seq<char>> {
    if titles.len() > 0 {
        Some(titles[0]@)
    } else {
        None
    }
}

/// The AUDIT cell: the last audit kind (14 characters) and its age, or `-`.
pub open spec fn audit_cell_text(kind: Option<String>, at: Option<i128>, now: i128) -> Seq<char> {
    match kind {
        Some(k) => truncated(k@, 14) + " ("@ + relative_ago_text(opt_age(at, now)) + ")"@,
        None => seq!['-'],
    }
}

/// The cells shared by both column profiles: id, kind, status, heartbeat
/// age and claimed count.
pub open spec fn row_head_text(s: AgentSummary, now: i128) -> Seq<char> {
    padded(indented_id(s.id@, s.kind@), 36) + " "@ + padded(s.kind@, 10) + " "@ + padded(
        sgr(status_code(s.status@), s.status@),
        20,
    ) + " "@ + padded(relative_ago_text(opt_age(s.last_heartbeat_at, now)), 10) + " "@ + padded(
        dec_signed(s.claimed_count as int),
        7,
    ) + " "@
}

/// The TASK cell of a row.
pub open spec fn row_task_text(s: AgentSummary) -> Seq<char> {
    task_cell_text(
        opt_text(s.current_task_title),
        first_title(s.claimed_titles@),
        opt_text(s.current_task_id),
        s.claimed_count as int,
    )
}

/// A row of the default profile.
pub open spec fn default_row_text(s: AgentSummary, now: i128) -> Seq<char> {
    row_head_text(s, now) + padded(topic_cell_text(s.last_topic, now, 18), 20) + " "@ + padded(
        row_task_text(s),
        36,
    ) + " "@ + padded(opt_cell_text(opt_text(s.recent_branch), 22), 24)
}

/// A row of the extended profile: also capabilities, leases and the last
/// audit, with the task cut to 28 characters.
pub open spec fn extended_row_text(s: AgentSummary, now: i128) -> Seq<char> {
    row_head_text(s, now) + padded(topic_cell_text(s.last_topic, now, 18), 18) + " "@ + padded(
        truncated(row_task_text(s), 28),
        30,
    ) + " "@ + padded(opt_cell_text(opt_text(s.recent_branch), 22), 20) + " "@ + padded(
        truncated(join(s.capabilities@.map_values(|c: String| c@), ","@), 18),
        24,
    ) + " "@ + padded(dec_signed(s.active_leases as int), 8) + " "@ + padded(
        audit_cell_text(s.last_audit_kind, s.last_audit_at, now),
        22,
    )
}

fn opt_ref(o: &Option<String>) -> (r: Option<&str>)
    ensures
        match r {
            Some(x) => opt_text(*o) == Some(x@),
            None => opt_text(*o) is None,
        },
{
    match o {
        Some(x) => Some(x.as_str()),
        None => None,
    }
}

fn topic_cell(t: &Option<TopicStamp>, now: i128, width: usize) -> (r: String)
    ensures
        r@ == topic_cell_text(*t, now, width as nat),
{
    match t {
        Some(t) => {
            let mut x = owned(t.topic.as_str());
            push_str(&mut x, " ");
            let age = relative_secs(age_secs(t.at, now));
            push_str(&mut x, age.as_str());
            truncate(x.as_str(), width)
        },
        None => {
            let mut r = String::new();
            push_char(&mut r, '-');
            proof {
                assert(r@ =~= seq!['-']);
            }
            r
        },
    }
}

fn audit_cell(kind: &Option<String>, at: Option<i128>, now: i128) -> (r: String)
    ensures
        r@ == audit_cell_text(*kind, at, now),
{
    match kind {
        Some(k) => {
            let mut r = truncate(k.as_str(), 14);
            push_str(&mut r, " (");
            let age = match at {
                Some(t) => Some(age_secs(t, now)),
                None => None,
            };
            let a = relative_ago_secs(age);
            push_str(&mut r, a.as_str());
            push_str(&mut r, ")");
            r
        },
        None => {
            let mut r = String::new();
            push_char(&mut r, '-');
            proof {
                assert(r@ =~= seq!['-']);
            }
            r
        },
    }
}

fn push_cell(out: &mut String, cell: &String, width: usize, last: bool)
    ensures
        last ==> final(out)@ == old(out)@ + padded(cell@, width as nat),
        !last ==> final(out)@ == old(out)@ + padded(cell@, width as nat) + " "@,
{
    push_padded(out, cell.as_str(), width);
    if !last {
        push_str(out, " ");
    }
}

fn row_head(s: &AgentSummary, now: i128) -> (r: String)
    ensures
        r@ == row_head_text(*s, now),
{
    let mut r = String::new();
    let id = maybe_indent_id(s.id.as_str(), s.kind.as_str());
    push_cell(&mut r, &id, 36, false);
    push_cell(&mut r, &s.kind, 10, false);
    let status = color_status(s.status.as_str());
    push_cell(&mut r, &status, 20, false);
    let age = match s.last_heartbeat_at {
        Some(t) => Some(age_secs(t, now)),
        None => None,
    };
    let hb = relative_ago_secs(age);
    push_cell(&mut r, &hb, 10, false);
    let mut claimed = String::new();
    push_i64(&mut claimed, s.claimed_count);
    push_cell(&mut r, &claimed, 7, false);
    proof {
        assert(r@ =~= row_head_text(*s, now));
    }
    r
}

fn row_task(s: &AgentSummary) -> (r: String)
    ensures
        r@ == row_task_text(*s),
{
    let first = if s.claimed_titles.len() > 0 {
        Some(s.claimed_titles[0].as_str())
    } else {
        None
    };
    task_cell(opt_ref(&s.current_task_title), first, opt_ref(&s.current_task_id), s.claimed_count)
}

/// One row of the human agent list, in the chosen column profile; `now`
/// is in nanoseconds since the Unix epoch.
pub fn agent_row(s: &AgentSummary, profile: ColumnProfile, now: i128) -> (r: String)
    ensures
        profile == ColumnProfile::Default ==> r@ == default_row_text(*s, now),
        profile == ColumnProfile::Extended ==> r@ == extended_row_text(*s, now),
{
    let mut r = row_head(s, now);
    let task = row_task(s);
    let branch = opt_cell(opt_ref(&s.recent_branch), 22);
    match profile {
        ColumnProfile::Default => {
            let topic = topic_cell(&s.last_topic, now, 18);
            push_cell(&mut r, &topic, 20, false);
            push_cell(&mut r, &task, 36, false);
            push_cell(&mut r, &branch, 24, true);
            proof {
                assert(r@ =~= default_row_text(*s, now));
            }
        },
        ColumnProfile::Extended => {
            let topic = topic_cell(&s.last_topic, now, 18);
            push_cell(&mut r, &topic, 18, false);
            let short_task = truncate(task.as_str(), 28);
            push_cell(&mut r, &short_task, 30, false);
            push_cell(&mut r, &branch, 20, false);
            let mut all_caps = String::new();
            push_join(&mut all_caps, &s.capabilities, ",");
            let caps = truncate(all_caps.as_str(), 18);
            push_cell(&mut r, &caps, 24, false);
            let mut leases = String::new();
            push_i64(&mut leases, s.active_leases);
            push_cell(&mut r, &leases, 8, false);
            let audit = audit_cell(&s.last_audit_kind, s.last_audit_at, now);
            push_cell(&mut r, &audit, 22, true);
            proof {
                assert(all_caps@ =~= join(s.capabilities@.map_values(|c: String| c@), ","@));
                assert(r@ =~= extended_row_text(*s, now));
            }
        },
    }
    r
}

/// A plain line of the agent list: id, kind, status, heartbeat age, task
/// title and branch, tab-separated (`-` for what is missing).
pub open spec fn plain_row_text(s: AgentSummary, now: i128) -> Seq<char> {
    s.id@ + "\t"@ + s.kind@ + "\t"@ + s.status@ + "\t"@ + (match s.last_heartbeat_at {
        Some(t) => relative_text(age_secs_of(t as int, now as int)),
        None => seq!['-'],
    }) + "\t"@ + (match opt_text(s.current_task_title) {
        Some(t) => t,
        None => seq!['-'],
    }) + "\t"@ + match opt_text(s.recent_branch) {
        Some(b) => b,
        None => seq!['-'],
    }
}

fn push_or_dash(out: &mut String, v: &Option<String>)
    ensures
        final(out)@ == old(out)@ + match opt_text(*v) {
            Some(t) => t,
            None => seq!['-'],
        },
{
    match v {
        Some(t) => push_str(out, t.as_str()),
        None => {
            push_char(out, '-');
            proof {
                assert(out@ =~= old(out)@ + seq!['-']);
            }
        },
    }
}

/// One line of the plain agent list.
pub fn agent_plain_row(s: &AgentSummary, now: i128) -> (r: String)
    ensures
        r@ == plain_row_text(*s, now),
{
    let mut r = owned(s.id.as_str());
    push_str(&mut r, "\t");
    push_str(&mut r, s.kind.as_str());
    push_str(&mut r, "\t");
    push_str(&mut r, s.status.as_str());
    push_str(&mut r, "\t");
    match s.last_heartbeat_at {
        Some(t) => {
            let a = relative_secs(age_secs(t, now));
            push_str(&mut r, a.as_str());
        },
        None => {
            push_char(&mut r, '-');
        },
    }
    push_str(&mut r, "\t");
    push_or_dash(&mut r, &s.current_task_title);
    push_str(&mut r, "\t");
    push_or_dash(&mut r, &s.recent_branch);
    proof {
        assert(r@ =~= plain_row_text(*s, now));
    }
    r
}

/// Some shown agent has id `id`.
pub open spec fn shown_id(visible: Seq<AgentSummary>, id: Seq<char>) -> bool {
    exists|j: int| 0 <= j < visible.len() && (#[trigger] visible[j]).id@ == id
}

/// For each raw registry entry (by its `id` field, when it has a string
/// one), whether the JSON output keeps it: exactly the entries of the
/// shown agents, in registry order.
pub fn json_keep(raw_ids: &Vec<Option<String>>, visible: &Vec<AgentSummary>) -> (keep: Vec<bool>)
    ensures
        keep@.len() == raw_ids@.len(),
        forall|i: int|
            0 <= i < raw_ids@.len() ==> #[trigger] keep@[i] == match raw_ids@[i] {
                Some(id) => shown_id(visible@, id@),
                None => false,
            },
{
    let mut keep: Vec<bool> = Vec::new();
    let mut i: usize = 0;
    while i < raw_ids.len()
        invariant
            i <= raw_ids@.len(),
            keep@.len() == i,
            forall|k: int|
                0 <= k < i ==> #[trigger] keep@[k] == match raw_ids@[k] {
                    Some(id) => shown_id(visible@, id@),
                    None => false,
                },
        decreases raw_ids@.len() - i,
    {
        let k = match &raw_ids[i] {
            None => false,
            Some(id) => {
                let mut found = false;
                let mut j: usize = 0;
                while j < visible.len()
                    invariant
                        j <= visible@.len(),
                        found == exists|m: int| 0 <= m < j && (#[trigger] visible@[m]).id@ == id@,
                    decreases visible@.len() - j,
                {
                    if str_eq(visible[j].id.as_str(), id.as_str()) {
                        found = true;
                    }
                    j = j + 1;
                }
                found
            },
        };
        keep.push(k);
        i = i + 1;
    }
    keep
}

// ---------------------------------------------------------------------
// `cvg agent retire-stale` output
// ---------------------------------------------------------------------

/// One agent the daemon found stale.
pub struct StaleAgent {
    pub agent_id: String,
    /// The last heartbeat, in nanoseconds since the Unix epoch.
    pub last_heartbeat_at: Option<i128>,
    /// The same heartbeat as RFC 3339 text.
    pub last_heartbeat_rfc3339: Option<String>,
    pub previous_status: String,
    pub retired: bool,
}

/// A human line: a check mark for a retired agent (a dot otherwise), the
/// id and previous status in columns, and the heartbeat age.
pub open spec fn stale_human_line(a: StaleAgent, now: i128) -> Seq<char> {
    "  "@ + (if a.retired {
        "✓"@
    } else {
        "·"@
    }) + " "@ + padded(a.agent_id@, 32) + " "@ + padded(a.previous_status@, 12) + " last_hb="@
        + relative_ago_text(opt_age(a.last_heartbeat_at, now))
}

/// A plain line: id, previous status, heartbeat (`-`) and whether it was
/// retired, tab-separated.
pub open spec fn stale_plain_line(a: StaleAgent) -> Seq<char> {
    a.agent_id@ + "\t"@ + a.previous_status@ + "\t"@ + (match a.last_heartbeat_rfc3339 {
        Some(t) => t@,
        None => "-"@,
    }) + "\t"@ + (if a.retired {
        "true"@
    } else {
        "false"@
    })
}

fn stale_line(a: &StaleAgent, now: i128, human: bool) -> (r: String)
    ensures
        human ==> r@ == stale_human_line(*a, now),
        !human ==> r@ == stale_plain_line(*a),
{
    let mut r = String::new();
    if human {
        push_str(&mut r, "  ");
        if a.retired {
            push_str(&mut r, "✓");
        } else {
            push_str(&mut r, "·");
        }
        push_str(&mut r, " ");
        crate::cells::push_padded(&mut r, a.agent_id.as_str(), 32);
        push_str(&mut r, " ");
        crate::cells::push_padded(&mut r, a.previous_status.as_str(), 12);
        push_str(&mut r, " last_hb=");
        let age = match a.last_heartbeat_at {
            Some(t) => Some(age_secs(t, now)),
            None => None,
        };
        let hb = relative_ago_secs(age);
        push_str(&mut r, hb.as_str());
        proof {
            assert(r@ =~= stale_human_line(*a, now));
        }
    } else {
        push_str(&mut r, a.agent_id.as_str());
        push_str(&mut r, "\t");
        push_str(&mut r, a.previous_status.as_str());
        push_str(&mut r, "\t");
        match &a.last_heartbeat_rfc3339 {
            Some(t) => push_str(&mut r, t.as_str()),
            None => push_str(&mut r, "-"),
        }
        push_str(&mut r, "\t");
        if a.retired {
            push_str(&mut r, "true");
        } else {
            push_str(&mut r, "false");
        }
        proof {
            assert(r@ =~= stale_plain_line(*a));
        }
    }
    r
}

/// The per-agent lines of `cvg agent retire-stale`, human or plain (the
/// human summary line is a message of the translation bundle).
pub fn stale_lines(agents: &Vec<StaleAgent>, now: i128, human: bool) -> (lines: Vec<String>)
    ensures
        human ==> line_texts(lines@) == agents@.map_values(|a: StaleAgent| stale_human_line(a, now)),
        !human ==> line_texts(lines@) == agents@.map_values(|a: StaleAgent| stale_plain_line(a)),
{
    let mut lines: Vec<String> = Vec::new();
    let mut i: usize = 0;
    while i < agents.len()
        invariant
            i <= agents@.len(),
            human ==> line_texts(lines@) == agents@.take(i as int).map_values(
                |a: StaleAgent| stale_human_line(a, now),
            ),
            !human ==> line_texts(lines@) == agents@.take(i as int).map_values(
                |a: StaleAgent| stale_plain_line(a),
            ),
        decreases agents@.len() - i,
    {
        let l = stale_line(&agents[i], now, human);
        let ghost prev = lines@;
        lines.push(l);
        proof {
            lemma_line_texts_push(prev, l);
            lemma_map_take_push(agents@, i as int, |a: StaleAgent| stale_human_line(a, now));
            lemma_map_take_push(agents@, i as int, |a: StaleAgent| stale_plain_line(a));
        }
        i = i + 1;
    }
    proof {
        assert(agents@.take(agents@.len() as int) =~= agents@);
    }
    lines
}


// ---------------------------------------------------------------------
// `cvg agent retire <id>` and the bulk retire request
// ---------------------------------------------------------------------

/// Where stale agents are retired in bulk.
pub const RETIRE_STALE_PATH: &'static str = "/v1/agent-registry/agents/retire-stale";

/// The threshold the dashboard retires stale agents with on start: one
/// hour.
pub const DASH_RETIRE_STALE_SECS: i64 = 3600;

/// The request path that retires one agent.
pub fn retire_path(id: &str) -> (r: String)
    ensures
        r@ == "/v1/agent-registry/agents/"@ + id@ + "/retire"@,
{
    let mut r = owned("/v1/agent-registry/agents/");
    push_str(&mut r, id);
    push_str(&mut r, "/retire");
    r
}

/// The plain line of a retired agent: id and status, tab-separated.
pub fn retired_plain_line(id: &str, status: &str) -> (r: String)
    ensures
        r@ == id@ + "\t"@ + status@,
{
    let mut r = owned(id);
    push_str(&mut r, "\t");
    push_str(&mut r, status);
    r
}

/// A failed retire request that the daemon answered with 404 (its error
/// text names `HTTP 404`), for which the operator gets the localized
/// not-found hint.
pub fn reports_not_found(error_text: &str) -> (r: bool)
    ensures
        r == crate::text::contains(error_text@, "HTTP 404"@),
{
    crate::text::contains_str(error_text, "HTTP 404")
}


/// The plain line of `cvg agent heartbeat`: the agent and the status the
/// registry answered with (`ok` when it named none).
pub fn heartbeat_plain_line(id: &str, status: &Option<String>) -> (r: String)
    ensures
        r@ == "heartbeat\t"@ + id@ + "\t"@ + crate::text::or_text(*status, "ok"@),
{
    let mut r = owned("heartbeat\t");
    push_str(&mut r, id);
    push_str(&mut r, "\t");
    crate::text::push_or(&mut r, status, "ok");
    r
}


// ---------------------------------------------------------------------
// The frame of `cvg agent list`
// ---------------------------------------------------------------------

/// The heading columns of the list: the message of each column and its
/// width (columns are separated by one space).
pub open spec fn header_columns_of(profile: ColumnProfile) -> Seq<(Seq<char>, usize)> {
    match profile {
        ColumnProfile::Default => seq![
            ("agent-list-col-id"@, 28usize),
            ("agent-list-col-kind"@, 10usize),
            ("agent-list-col-status"@, 11usize),
            ("agent-list-col-last-hb"@, 10usize),
            ("agent-list-col-claimed"@, 7usize),
            ("agent-list-col-last-topic"@, 20usize),
            ("agent-list-col-task"@, 36usize),
            ("agent-list-col-branch"@, 24usize),
        ],
        ColumnProfile::Extended => seq![
            ("agent-list-col-id"@, 28usize),
            ("agent-list-col-kind"@, 10usize),
            ("agent-list-col-status"@, 11usize),
            ("agent-list-col-last-hb"@, 10usize),
            ("agent-list-col-claimed"@, 7usize),
            ("agent-list-col-last-topic"@, 18usize),
            ("agent-list-col-task"@, 30usize),
            ("agent-list-col-branch"@, 20usize),
            ("agent-list-col-capabilities"@, 24usize),
            ("agent-list-col-leases"@, 8usize),
            ("agent-list-col-last-audit"@, 22usize),
        ],
    }
}

/// The heading columns of the list for a column profile.
pub fn header_columns(profile: ColumnProfile) -> (r: Vec<(&'static str, usize)>)
    ensures
        r@.map_values(|c: (&'static str, usize)| (c.0@, c.1)) == header_columns_of(profile),
{
    let mut r: Vec<(&'static str, usize)> = Vec::new();
    r.push(("agent-list-col-id", 28));
    r.push(("agent-list-col-kind", 10));
    r.push(("agent-list-col-status", 11));
    r.push(("agent-list-col-last-hb", 10));
    r.push(("agent-list-col-claimed", 7));
    match profile {
        ColumnProfile::Default => {
            r.push(("agent-list-col-last-topic", 20));
            r.push(("agent-list-col-task", 36));
            r.push(("agent-list-col-branch", 24));
        },
        ColumnProfile::Extended => {
            r.push(("agent-list-col-last-topic", 18));
            r.push(("agent-list-col-task", 30));
            r.push(("agent-list-col-branch", 20));
            r.push(("agent-list-col-capabilities", 24));
            r.push(("agent-list-col-leases", 8));
            r.push(("agent-list-col-last-audit", 22));
        },
    }
    proof {
        assert(r@.map_values(|c: (&'static str, usize)| (c.0@, c.1)) =~= header_columns_of(profile));
    }
    r
}

/// What surrounds the rows of the list.
pub struct ListFrame {
    /// Nothing to show at all: only the empty-list message is printed.
    pub empty: bool,
    /// The heading message, counted by the rows shown.
    pub header_key: &'static str,
    /// A note counts the agents the active view hid.
    pub hidden_note: bool,
}

/// The frame of the list: the empty message when no agent is shown or
/// hidden; the heading of the full or the active view; the hidden-agents
/// note when the active view hid some.
pub fn list_frame(shown: usize, hidden: usize, all: bool) -> (f: ListFrame)
    ensures
        f.empty == (shown == 0 && hidden == 0),
        f.header_key@ == if all {
            "agent-list-header"@
        } else {
            "agent-list-header-active"@
        },
        f.hidden_note == (hidden > 0 && !all),
{
    ListFrame {
        empty: shown == 0 && hidden == 0,
        header_key: if all {
            "agent-list-header"
        } else {
            "agent-list-header-active"
        },
        hidden_note: hidden > 0 && !all,
    }
}

} // verus!
