//! `cvg agent show`: the details of one agent, as lines made of plain text
//! and messages of the translation bundle.
use vstd::prelude::*;
use crate::agents::{age_secs, age_secs_of, opt_age};
use crate::cells::{
    color_status, join, padded, plan_short, plan_short_text, push_join, push_padded,
    relative_ago_secs, relative_ago_text, relative_secs, relative_text, sgr, short_id,
    status_code, truncate, truncated, PrRow,
};
use crate::numeric::{dec, dec_signed, push_dec, push_i64};
use crate::text::{opt_text, owned, push_str};

verus! {

// ---------------------------------------------------------------------
// Lines of messages and text
// ---------------------------------------------------------------------

/// A piece of an output line: plain text, or a message of the translation
/// bundle with its named arguments.
pub enum Part {
    Text { text: String },
    Msg { key: String, args: Vec<(String, String)> },
}

/// An output line.
pub struct Line {
    pub parts: Vec<Part>,
}

/// A part as plain values: (is a message, text or key, arguments).
pub type PartView = (bool, Seq<char>, Seq<(Seq<char>, Seq<char>)>);

/// The texts of message arguments.
pub open spec fn args_view(args: Seq<(String, String)>) -> Seq<(Seq<char>, Seq<char>)> {
    args.map_values(|a: (String, String)| (a.0@, a.1@))
}

pub open spec fn part_view(p: Part) -> PartView {
    match p {
        Part::Text { text } => (false, text@, Seq::empty()),
        Part::Msg { key, args } => (true, key@, args_view(args@)),
    }
}

pub open spec fn line_view(l: Line) -> Seq<PartView> {
    l.parts@.map_values(|p: Part| part_view(p))
}

pub open spec fn lines_view(ls: Seq<Line>) -> Seq<Seq<PartView>> {
    ls.map_values(|l: Line| line_view(l))
}

/// A text part.
pub open spec fn t(s: Seq<char>) -> PartView {
    (false, s, Seq::empty())
}

/// A message part without arguments.
pub open spec fn m(key: Seq<char>) -> PartView {
    (true, key, Seq::empty())
}

pub(crate) fn text(s: String) -> (p: Part)
    ensures
        part_view(p) == t(s@),
{
    Part::Text { text: s }
}

pub(crate) fn msg(key: &str) -> (p: Part)
    ensures
        part_view(p) == m(key@),
{
    let args: Vec<(String, String)> = Vec::new();
    proof {
        assert(args_view(args@) =~= Seq::<(Seq<char>, Seq<char>)>::empty());
    }
    Part::Msg { key: owned(key), args }
}

pub(crate) fn msg1(key: &str, name: &str, value: String) -> (p: Part)
    ensures
        part_view(p) == (true, key@, seq![(name@, value@)]),
{
    let mut args: Vec<(String, String)> = Vec::new();
    args.push((owned(name), value));
    proof {
        assert(args_view(args@) =~= seq![(name@, value@)]);
    }
    Part::Msg { key: owned(key), args }
}

pub(crate) fn push_line(out: &mut Vec<Line>, parts: Vec<Part>)
    ensures
        lines_view(final(out)@) == lines_view(old(out)@).push(parts@.map_values(|p: Part| part_view(p))),
{
    let l = Line { parts };
    out.push(l);
    proof {
        assert(lines_view(out@) =~= lines_view(old(out)@).push(line_view(l)));
    }
}

pub(crate) fn line1(a: Part) -> (v: Vec<Part>)
    ensures
        v@.map_values(|p: Part| part_view(p)) == seq![part_view(a)],
{
    let mut v: Vec<Part> = Vec::new();
    v.push(a);
    proof {
        assert(v@.map_values(|p: Part| part_view(p)) =~= seq![part_view(a)]);
    }
    v
}

pub(crate) fn line2(a: Part, b: Part) -> (v: Vec<Part>)
    ensures
        v@.map_values(|p: Part| part_view(p)) == seq![part_view(a), part_view(b)],
{
    let mut v: Vec<Part> = Vec::new();
    v.push(a);
    v.push(b);
    proof {
        assert(v@.map_values(|p: Part| part_view(p)) =~= seq![part_view(a), part_view(b)]);
    }
    v
}

pub(crate) fn line3(a: Part, b: Part, c: Part) -> (v: Vec<Part>)
    ensures
        v@.map_values(|p: Part| part_view(p)) == seq![part_view(a), part_view(b), part_view(c)],
{
    let mut v: Vec<Part> = Vec::new();
    v.push(a);
    v.push(b);
    v.push(c);
    proof {
        assert(v@.map_values(|p: Part| part_view(p)) =~= seq![
            part_view(a),
            part_view(b),
            part_view(c),
        ]);
    }
    v
}

// ---------------------------------------------------------------------
// The details of an agent
// ---------------------------------------------------------------------

/// A task an agent has claimed.
pub struct ClaimedTask {
    pub id: String,
    pub title: String,
    pub status: String,
    pub plan_title: String,
    /// Nanoseconds since the Unix epoch.
    pub started_at: Option<i128>,
}

/// The last topic an agent posted on.
pub struct TopicDetail {
    pub plan_id: Option<String>,
    pub topic: String,
    pub kind: String,
    /// Nanoseconds since the Unix epoch.
    pub at: i128,
}

/// A lease an agent holds.
pub struct LeaseRow {
    pub resource_label: String,
    pub purpose: Option<String>,
    /// Nanoseconds since the Unix epoch.
    pub created_at: i128,
    /// Nanoseconds since the Unix epoch.
    pub expires_at: i128,
}

/// An audit event about an agent.
pub struct AuditRow {
    pub seq: i64,
    pub transition: String,
    pub entity_type: String,
    pub entity_id: String,
    /// Nanoseconds since the Unix epoch.
    pub created_at: i128,
}

/// `GET /v1/agent-registry/agents/:id/details`, as `cvg agent show` reads it.
pub struct AgentDetails {
    pub id: String,
    pub kind: String,
    pub status: String,
    pub capabilities: Vec<String>,
    /// Nanoseconds since the Unix epoch.
    pub last_heartbeat_at: Option<i128>,
    /// The registration time as RFC 3339 text.
    pub created_at_rfc3339: Option<String>,
    pub current_task_id: Option<String>,
    pub current_task_title: Option<String>,
    pub current_task_status: Option<String>,
    pub current_task_plan_id: Option<String>,
    pub current_task_plan_title: Option<String>,
    /// Nanoseconds since the Unix epoch.
    pub current_task_started_at: Option<i128>,
    pub claimed_count: i64,
    pub claimed_tasks: Vec<ClaimedTask>,
    pub last_topic: Option<TopicDetail>,
    pub leases: Vec<LeaseRow>,
    pub recent_audit: Vec<AuditRow>,
    pub recent_prs: Vec<PrRow>,
}

/// The first eight characters of a text.
pub open spec fn short8(s: Seq<char>) -> Seq<char> {
    s.take(if s.len() < 8 { s.len() as int } else { 8 })
}

/// An optional text, or `-`.
pub open spec fn or_dash(o: Option<String>) -> Seq<char> {
    match o {
        Some(s) => s@,
        None => "-"@,
    }
}

/// The age of an optional instant followed by ` ago`, or `-`.
pub open spec fn ago_or_dash(ts: Option<i128>, now: i128) -> Seq<char> {
    match ts {
        Some(x) => relative_ago_text(Some(age_secs_of(x as int, now as int))),
        None => "-"@,
    }
}

pub(crate) fn push_ago_or_dash(out: &mut String, ts: Option<i128>, now: i128)
    ensures
        final(out)@ == old(out)@ + ago_or_dash(ts, now),
{
    match ts {
        Some(x) => {
            let a = relative_ago_secs(Some(age_secs(x, now)));
            push_str(out, a.as_str());
        },
        None => push_str(out, "-"),
    }
}

pub(crate) fn push_or_dash(out: &mut String, o: &Option<String>)
    ensures
        final(out)@ == old(out)@ + or_dash(*o),
{
    match o {
        Some(s) => push_str(out, s.as_str()),
        None => push_str(out, "-"),
    }
}

/// The opening lines: header, kind and registration, status and
/// heartbeat, and capabilities when there are any.
pub open spec fn head_view(d: AgentDetails, now: i128) -> Seq<Seq<PartView>> {
    seq![
        seq![(true, "agent-show-header"@, seq![("id"@, d.id@)])],
        seq![
            m("agent-show-kind"@),
            t(": "@ + d.kind@ + " ("@),
            (true, "agent-show-registered"@, seq![("at"@, or_dash(d.created_at_rfc3339))]),
            t(")"@),
        ],
        seq![
            m("agent-show-status"@),
            t(": "@ + sgr(status_code(d.status@), d.status@) + " ("@ + relative_ago_text(
                opt_age(d.last_heartbeat_at, now),
            ) + ")"@),
        ],
    ] + if d.capabilities@.len() == 0 {
        Seq::empty()
    } else {
        seq![
            seq![
                m("agent-show-capabilities"@),
                t(": "@ + join(d.capabilities@.map_values(|c: String| c@), ", "@)),
            ],
        ]
    }
}

fn push_head(out: &mut Vec<Line>, d: &AgentDetails, now: i128)
    ensures
        lines_view(final(out)@) == lines_view(old(out)@) + head_view(*d, now),
{
    let ghost hv = head_view(*d, now);
    push_line(out, line1(msg1("agent-show-header", "id", d.id.clone())));
    let ghost s1 = lines_view(out@);
    proof {
        assert(s1 =~= lines_view(old(out)@).push(hv[0]));
    }
    let mut reg = String::new();
    push_or_dash(&mut reg, &d.created_at_rfc3339);
    proof {
        assert(reg@ =~= or_dash(d.created_at_rfc3339));
    }
    let mut k = owned(": ");
    push_str(&mut k, d.kind.as_str());
    push_str(&mut k, " (");
    let mut v = line3(msg("agent-show-kind"), text(k), msg1("agent-show-registered", "at", reg));
    let c = text(owned(")"));
    let ghost before = v@;
    v.push(c);
    proof {
        assert(v@.map_values(|p: Part| part_view(p)) =~= before.map_values(|p: Part| part_view(p)).push(
            part_view(c),
        ));
        assert(v@.map_values(|p: Part| part_view(p)) =~= hv[1]);
    }
    push_line(out, v);
    let ghost s2 = lines_view(out@);
    proof {
        assert(s2 =~= s1.push(hv[1]));
    }
    let mut st = owned(": ");
    let colored = color_status(d.status.as_str());
    push_str(&mut st, colored.as_str());
    push_str(&mut st, " (");
    let age = match d.last_heartbeat_at {
        Some(x) => Some(age_secs(x, now)),
        None => None,
    };
    let hb = relative_ago_secs(age);
    proof {
        assert(hb@ == relative_ago_text(opt_age(d.last_heartbeat_at, now)));
    }
    push_str(&mut st, hb.as_str());
    push_str(&mut st, ")");
    let l3 = line2(msg("agent-show-status"), text(st));
    proof {
        assert(l3@.map_values(|p: Part| part_view(p)) =~= hv[2]);
    }
    push_line(out, l3);
    let ghost s3 = lines_view(out@);
    proof {
        assert(s3 =~= s2.push(hv[2]));
    }
    if d.capabilities.len() > 0 {
        let mut c = owned(": ");
        push_join(&mut c, &d.capabilities, ", ");
        let l4 = line2(msg("agent-show-capabilities"), text(c));
        proof {
            assert(l4@.map_values(|p: Part| part_view(p)) =~= hv[3]);
        }
        push_line(out, l4);
    }
    proof {
        assert(lines_view(out@) =~= lines_view(old(out)@) + hv);
    }
}

/// The last-topic section.
pub open spec fn topic_view(d: AgentDetails, now: i128) -> Seq<Seq<PartView>> {
    seq![seq![m("agent-show-last-topic"@), t(":"@)]] + match d.last_topic {
        None => seq![seq![t("  "@), m("agent-show-no-last-topic"@)]],
        Some(tp) => seq![
            seq![
                t("  "@ + truncated(tp.topic@, 80) + " ("@ + truncated(tp.kind@, 10) + ", "@
                    + relative_ago_text(Some(age_secs_of(tp.at as int, now as int))) + ", "@
                    + match tp.plan_id {
                    Some(p) => "plan:"@ + short8(p@),
                    None => "-"@,
                } + ")"@),
            ],
        ],
    }
}

fn push_topic(out: &mut Vec<Line>, d: &AgentDetails, now: i128)
    ensures
        lines_view(final(out)@) == lines_view(old(out)@) + topic_view(*d, now),
{
    push_line(out, line2(msg("agent-show-last-topic"), text(owned(":"))));
    match &d.last_topic {
        None => {
            push_line(out, line2(text(owned("  ")), msg("agent-show-no-last-topic")));
        },
        Some(tp) => {
            let mut s = owned("  ");
            let a = truncate(tp.topic.as_str(), 80);
            push_str(&mut s, a.as_str());
            push_str(&mut s, " (");
            let b = truncate(tp.kind.as_str(), 10);
            push_str(&mut s, b.as_str());
            push_str(&mut s, ", ");
            let when = relative_ago_secs(Some(age_secs(tp.at, now)));
            push_str(&mut s, when.as_str());
            push_str(&mut s, ", ");
            match &tp.plan_id {
                Some(p) => {
                    push_str(&mut s, "plan:");
                    let sh = short_id(p.as_str());
                    push_str(&mut s, sh.as_str());
                },
                None => push_str(&mut s, "-"),
            }
            push_str(&mut s, ")");
            proof {
                assert(s@ =~= "  "@ + truncated(tp.topic@, 80) + " ("@ + truncated(tp.kind@, 10) + ", "@
                    + relative_ago_text(Some(age_secs_of(tp.at as int, now as int))) + ", "@
                    + match tp.plan_id {
                    Some(p) => "plan:"@ + short8(p@),
                    None => "-"@,
                } + ")"@);
            }
            push_line(out, line1(text(s)));
        },
    }
    proof {
        assert(lines_view(out@) =~= lines_view(old(out)@) + topic_view(*d, now));
    }
}

/// One claimed task.
pub open spec fn claimed_line(c: ClaimedTask, now: i128) -> Seq<char> {
    "  "@ + truncated(c.title@, 60) + " ["@ + padded(truncated(c.status@, 11), 11) + "] "@ + short8(
        c.id@,
    ) + " ("@ + truncated(c.plan_title@, 30) + ", "@ + ago_or_dash(c.started_at, now) + ")"@
}

/// The claimed-tasks section: its count, then a line per task (a note
/// when the count is zero).
pub open spec fn claimed_view(d: AgentDetails, now: i128) -> Seq<Seq<PartView>> {
    seq![seq![m("agent-show-claimed-tasks"@), t(" ("@ + dec_signed(d.claimed_count as int) + "):"@)]]
        + if d.claimed_count == 0 {
        seq![seq![t("  "@), m("agent-show-no-claimed-tasks"@)]]
    } else {
        d.claimed_tasks@.map_values(|c: ClaimedTask| seq![t(claimed_line(c, now))])
    }
}

fn push_claimed(out: &mut Vec<Line>, d: &AgentDetails, now: i128)
    ensures
        lines_view(final(out)@) == lines_view(old(out)@) + claimed_view(*d, now),
{
    let mut h = owned(" (");
    push_i64(&mut h, d.claimed_count);
    push_str(&mut h, "):");
    push_line(out, line2(msg("agent-show-claimed-tasks"), text(h)));
    if d.claimed_count == 0 {
        push_line(out, line2(text(owned("  ")), msg("agent-show-no-claimed-tasks")));
        proof {
            assert(lines_view(out@) =~= lines_view(old(out)@) + claimed_view(*d, now));
        }
        return;
    }
    let ghost start = lines_view(out@);
    let mut i: usize = 0;
    while i < d.claimed_tasks.len()
        invariant
            i <= d.claimed_tasks@.len(),
            lines_view(out@) == start + d.claimed_tasks@.take(i as int).map_values(
                |c: ClaimedTask| seq![t(claimed_line(c, now))],
            ),
        decreases d.claimed_tasks@.len() - i,
    {
        let c = &d.claimed_tasks[i];
        let mut s = owned("  ");
        let a = truncate(c.title.as_str(), 60);
        push_str(&mut s, a.as_str());
        push_str(&mut s, " [");
        let b = truncate(c.status.as_str(), 11);
        push_padded(&mut s, b.as_str(), 11);
        push_str(&mut s, "] ");
        let sh = short_id(c.id.as_str());
        push_str(&mut s, sh.as_str());
        push_str(&mut s, " (");
        let p = truncate(c.plan_title.as_str(), 30);
        push_str(&mut s, p.as_str());
        push_str(&mut s, ", ");
        push_ago_or_dash(&mut s, c.started_at, now);
        push_str(&mut s, ")");
        push_line(out, line1(text(s)));
        proof {
            crate::text::lemma_map_take_push(
                d.claimed_tasks@,
                i as int,
                |c: ClaimedTask| seq![t(claimed_line(c, now))],
            );
            assert(lines_view(out@) =~= start + d.claimed_tasks@.take(i + 1).map_values(
                |c: ClaimedTask| seq![t(claimed_line(c, now))],
            ));
        }
        i = i + 1;
    }
    proof {
        assert(d.claimed_tasks@.take(d.claimed_tasks@.len() as int) =~= d.claimed_tasks@);
        assert(lines_view(out@) =~= lines_view(old(out)@) + claimed_view(*d, now));
    }
}

/// The current-task section: the title (else the id) cut to 80
/// characters, then the plan and the status when they are known.
pub open spec fn current_view(d: AgentDetails, now: i128) -> Seq<Seq<PartView>> {
    seq![seq![m("agent-show-current-task"@), t(":"@)]] + match d.current_task_id {
        None => seq![seq![t("  "@), m("agent-show-no-current-task"@)]],
        Some(id) => seq![
            seq![
                t("  "@ + truncated(
                    match d.current_task_title {
                        Some(x) => x@,
                        None => id@,
                    },
                    80,
                )),
            ],
        ] + (match d.current_task_plan_title {
            Some(pt) => seq![
                seq![
                    t("  "@),
                    m("agent-show-plan"@),
                    t(": "@ + truncated(pt@, 60) + " ("@ + short8(or_dash(d.current_task_plan_id))
                        + ")"@),
                ],
            ],
            None => Seq::empty(),
        }) + match d.current_task_status {
            Some(st) => seq![
                seq![
                    t("  "@),
                    m("agent-show-task-status"@),
                    t(": "@ + st@ + " ("@ + ago_or_dash(d.current_task_started_at, now) + ")"@),
                ],
            ],
            None => Seq::empty(),
        },
    }
}

fn push_current(out: &mut Vec<Line>, d: &AgentDetails, now: i128)
    ensures
        lines_view(final(out)@) == lines_view(old(out)@) + current_view(*d, now),
{
    push_line(out, line2(msg("agent-show-current-task"), text(owned(":"))));
    match &d.current_task_id {
        None => {
            push_line(out, line2(text(owned("  ")), msg("agent-show-no-current-task")));
        },
        Some(id) => {
            let title = match &d.current_task_title {
                Some(x) => x.as_str(),
                None => id.as_str(),
            };
            let mut s = owned("  ");
            let tt = truncate(title, 80);
            push_str(&mut s, tt.as_str());
            push_line(out, line1(text(s)));
            let ghost mid = lines_view(out@);
            match &d.current_task_plan_title {
                Some(pt) => {
                    let mut s = owned(": ");
                    let a = truncate(pt.as_str(), 60);
                    push_str(&mut s, a.as_str());
                    push_str(&mut s, " (");
                    let pid = match &d.current_task_plan_id {
                        Some(p) => p.as_str(),
                        None => "-",
                    };
                    let sh = short_id(pid);
                    push_str(&mut s, sh.as_str());
                    push_str(&mut s, ")");
                    push_line(out, line3(text(owned("  ")), msg("agent-show-plan"), text(s)));
                },
                None => {},
            }
            let ghost mid2 = lines_view(out@);
            match &d.current_task_status {
                Some(st) => {
                    let mut s = owned(": ");
                    push_str(&mut s, st.as_str());
                    push_str(&mut s, " (");
                    push_ago_or_dash(&mut s, d.current_task_started_at, now);
                    push_str(&mut s, ")");
                    push_line(out, line3(text(owned("  ")), msg("agent-show-task-status"), text(s)));
                },
                None => {},
            }
        },
    }
    proof {
        assert(lines_view(out@) =~= lines_view(old(out)@) + current_view(*d, now));
    }
}

/// A section heading: the message, then ` (<count>):`.
pub open spec fn counted_heading(key: Seq<char>, n: nat) -> Seq<PartView> {
    seq![m(key), t(" ("@ + dec(n) + "):"@)]
}

fn push_counted_heading(out: &mut Vec<Line>, key: &str, n: usize)
    ensures
        lines_view(final(out)@) == lines_view(old(out)@).push(counted_heading(key@, n as nat)),
{
    let mut h = owned(" (");
    push_dec(&mut h, n as u64);
    push_str(&mut h, "):");
    let l = line2(msg(key), text(h));
    push_line(out, l);
}

/// A note line: two spaces, then a message.
pub open spec fn note(key: Seq<char>) -> Seq<PartView> {
    seq![t("  "@), m(key)]
}

fn push_note(out: &mut Vec<Line>, key: &str)
    ensures
        lines_view(final(out)@) == lines_view(old(out)@).push(note(key@)),
{
    push_line(out, line2(text(owned("  ")), msg(key)));
}

/// One lease: label, purpose, how long it has been held and how long it
/// has left.
pub open spec fn lease_line(l: LeaseRow, now: i128) -> Seq<char> {
    "  "@ + l.resource_label@ + " ("@ + or_dash(l.purpose) + ", held "@ + relative_text(
        age_secs_of(l.created_at as int, now as int),
    ) + ", expires in "@ + relative_text(age_secs_of(now as int, l.expires_at as int)) + ")"@
}

/// The leases section.
pub open spec fn leases_view(d: AgentDetails, now: i128) -> Seq<Seq<PartView>> {
    seq![counted_heading("agent-show-leases"@, d.leases@.len())] + if d.leases@.len() == 0 {
        seq![note("agent-show-no-leases"@)]
    } else {
        d.leases@.map_values(|l: LeaseRow| seq![t(lease_line(l, now))])
    }
}

fn push_leases(out: &mut Vec<Line>, d: &AgentDetails, now: i128)
    ensures
        lines_view(final(out)@) == lines_view(old(out)@) + leases_view(*d, now),
{
    push_counted_heading(out, "agent-show-leases", d.leases.len());
    if d.leases.len() == 0 {
        push_note(out, "agent-show-no-leases");
        proof {
            assert(lines_view(out@) =~= lines_view(old(out)@) + leases_view(*d, now));
        }
        return;
    }
    let ghost start = lines_view(out@);
    let mut i: usize = 0;
    while i < d.leases.len()
        invariant
            i <= d.leases@.len(),
            lines_view(out@) == start + d.leases@.take(i as int).map_values(
                |l: LeaseRow| seq![t(lease_line(l, now))],
            ),
        decreases d.leases@.len() - i,
    {
        let l = &d.leases[i];
        let mut s = owned("  ");
        push_str(&mut s, l.resource_label.as_str());
        push_str(&mut s, " (");
        push_or_dash(&mut s, &l.purpose);
        push_str(&mut s, ", held ");
        let held = relative_secs(age_secs(l.created_at, now));
        push_str(&mut s, held.as_str());
        push_str(&mut s, ", expires in ");
        let left = relative_secs(age_secs(now, l.expires_at));
        push_str(&mut s, left.as_str());
        push_str(&mut s, ")");
        push_line(out, line1(text(s)));
        proof {
            crate::text::lemma_map_take_push(d.leases@, i as int, |l: LeaseRow| seq![t(lease_line(l, now))]);
            assert(lines_view(out@) =~= start + d.leases@.take(i + 1).map_values(
                |l: LeaseRow| seq![t(lease_line(l, now))],
            ));
        }
        i = i + 1;
    }
    proof {
        assert(d.leases@.take(d.leases@.len() as int) =~= d.leases@);
        assert(lines_view(out@) =~= lines_view(old(out)@) + leases_view(*d, now));
    }
}

/// One audit event: sequence number, age, transition and entity.
pub open spec fn audit_line(a: AuditRow, now: i128) -> Seq<char> {
    "  #"@ + padded(dec_signed(a.seq as int), 5) + " "@ + padded(
        relative_text(age_secs_of(a.created_at as int, now as int)),
        6,
    ) + " "@ + padded(truncated(a.transition@, 22), 24) + " "@ + a.entity_type@ + ":"@ + short8(
        a.entity_id@,
    )
}

/// The recent-audit section.
pub open spec fn audit_view(d: AgentDetails, now: i128) -> Seq<Seq<PartView>> {
    seq![counted_heading("agent-show-recent-audit"@, d.recent_audit@.len())] + if d.recent_audit@.len()
        == 0 {
        seq![note("agent-show-no-recent-audit"@)]
    } else {
        d.recent_audit@.map_values(|a: AuditRow| seq![t(audit_line(a, now))])
    }
}

fn push_audit(out: &mut Vec<Line>, d: &AgentDetails, now: i128)
    ensures
        lines_view(final(out)@) == lines_view(old(out)@) + audit_view(*d, now),
{
    push_counted_heading(out, "agent-show-recent-audit", d.recent_audit.len());
    if d.recent_audit.len() == 0 {
        push_note(out, "agent-show-no-recent-audit");
        proof {
            assert(lines_view(out@) =~= lines_view(old(out)@) + audit_view(*d, now));
        }
        return;
    }
    let ghost start = lines_view(out@);
    let mut i: usize = 0;
    while i < d.recent_audit.len()
        invariant
            i <= d.recent_audit@.len(),
            lines_view(out@) == start + d.recent_audit@.take(i as int).map_values(
                |a: AuditRow| seq![t(audit_line(a, now))],
            ),
        decreases d.recent_audit@.len() - i,
    {
        let a = &d.recent_audit[i];
        let mut s = owned("  #");
        let mut n = String::new();
        push_i64(&mut n, a.seq);
        push_padded(&mut s, n.as_str(), 5);
        push_str(&mut s, " ");
        let when = relative_secs(age_secs(a.created_at, now));
        push_padded(&mut s, when.as_str(), 6);
        push_str(&mut s, " ");
        let tr = truncate(a.transition.as_str(), 22);
        push_padded(&mut s, tr.as_str(), 24);
        push_str(&mut s, " ");
        push_str(&mut s, a.entity_type.as_str());
        push_str(&mut s, ":");
        let sh = short_id(a.entity_id.as_str());
        push_str(&mut s, sh.as_str());
        proof {
            assert(n@ =~= dec_signed(a.seq as int));
            assert(s@ =~= audit_line(*a, now));
        }
        push_line(out, line1(text(s)));
        proof {
            crate::text::lemma_map_take_push(d.recent_audit@, i as int, |a: AuditRow| seq![t(audit_line(a, now))]);
            assert(lines_view(out@) =~= start + d.recent_audit@.take(i + 1).map_values(
                |a: AuditRow| seq![t(audit_line(a, now))],
            ));
        }
        i = i + 1;
    }
    proof {
        assert(d.recent_audit@.take(d.recent_audit@.len() as int) =~= d.recent_audit@);
        assert(lines_view(out@) =~= lines_view(old(out)@) + audit_view(*d, now));
    }
}

/// One pull request: number, repository and branch, plan.
pub open spec fn pr_line(p: PrRow) -> Seq<char> {
    "  #"@ + dec_signed(p.pr_number as int) + " "@ + p.repo_slug@ + "/"@ + or_dash(p.branch) + " "@
        + plan_short_text(opt_text(p.plan_id))
}

/// The recent pull-request section.
pub open spec fn prs_view(d: AgentDetails) -> Seq<Seq<PartView>> {
    seq![counted_heading("agent-show-recent-prs"@, d.recent_prs@.len())] + if d.recent_prs@.len()
        == 0 {
        seq![note("agent-show-no-recent-prs"@)]
    } else {
        d.recent_prs@.map_values(|p: PrRow| seq![t(pr_line(p))])
    }
}

fn push_prs(out: &mut Vec<Line>, d: &AgentDetails)
    ensures
        lines_view(final(out)@) == lines_view(old(out)@) + prs_view(*d),
{
    push_counted_heading(out, "agent-show-recent-prs", d.recent_prs.len());
    if d.recent_prs.len() == 0 {
        push_note(out, "agent-show-no-recent-prs");
        proof {
            assert(lines_view(out@) =~= lines_view(old(out)@) + prs_view(*d));
        }
        return;
    }
    let ghost start = lines_view(out@);
    let mut i: usize = 0;
    while i < d.recent_prs.len()
        invariant
            i <= d.recent_prs@.len(),
            lines_view(out@) == start + d.recent_prs@.take(i as int).map_values(
                |p: PrRow| seq![t(pr_line(p))],
            ),
        decreases d.recent_prs@.len() - i,
    {
        let p = &d.recent_prs[i];
        let mut s = owned("  #");
        push_i64(&mut s, p.pr_number);
        push_str(&mut s, " ");
        push_str(&mut s, p.repo_slug.as_str());
        push_str(&mut s, "/");
        push_or_dash(&mut s, &p.branch);
        push_str(&mut s, " ");
        let ps = plan_short(p);
        push_str(&mut s, ps.as_str());
        proof {
            assert(opt_text(p.plan_id) == match p.plan_id {
                Some(x) => Some(x@),
                None => None::<Seq<char>>,
            });
            assert(s@ =~= pr_line(*p));
        }
        push_line(out, line1(text(s)));
        proof {
            crate::text::lemma_map_take_push(d.recent_prs@, i as int, |p: PrRow| seq![t(pr_line(p))]);
            assert(lines_view(out@) =~= start + d.recent_prs@.take(i + 1).map_values(
                |p: PrRow| seq![t(pr_line(p))],
            ));
        }
        i = i + 1;
    }
    proof {
        assert(d.recent_prs@.take(d.recent_prs@.len() as int) =~= d.recent_prs@);
        assert(lines_view(out@) =~= lines_view(old(out)@) + prs_view(*d));
    }
}

/// The human output of `cvg agent show`: the opening lines, then the
/// sections (last topic, claimed tasks, current task, leases, audit, pull
/// requests), each after a blank line.
pub open spec fn details_view(d: AgentDetails, now: i128) -> Seq<Seq<PartView>> {
    head_view(d, now) + seq![Seq::empty()] + topic_view(d, now) + seq![Seq::empty()] + claimed_view(
        d,
        now,
    ) + seq![Seq::empty()] + current_view(d, now) + seq![Seq::empty()] + leases_view(d, now) + seq![
        Seq::empty(),
    ] + audit_view(d, now) + seq![Seq::empty()] + prs_view(d)
}

pub(crate) fn push_blank(out: &mut Vec<Line>)
    ensures
        lines_view(final(out)@) == lines_view(old(out)@).push(Seq::empty()),
{
    let parts: Vec<Part> = Vec::new();
    proof {
        assert(parts@.map_values(|p: Part| part_view(p)) =~= Seq::<PartView>::empty());
    }
    push_line(out, parts);
}

/// The human output of `cvg agent show`; `now` is in nanoseconds since the
/// Unix epoch.
pub fn details_lines(d: &AgentDetails, now: i128) -> (out: Vec<Line>)
    ensures
        lines_view(out@) == details_view(*d, now),
{
    let mut out: Vec<Line> = Vec::new();
    proof {
        assert(lines_view(out@) =~= Seq::<Seq<PartView>>::empty());
    }
    push_head(&mut out, d, now);
    push_blank(&mut out);
    push_topic(&mut out, d, now);
    push_blank(&mut out);
    push_claimed(&mut out, d, now);
    push_blank(&mut out);
    push_current(&mut out, d, now);
    push_blank(&mut out);
    push_leases(&mut out, d, now);
    push_blank(&mut out);
    push_audit(&mut out, d, now);
    push_blank(&mut out);
    push_prs(&mut out, d);
    proof {
        assert(lines_view(out@) =~= details_view(*d, now));
    }
    out
}

/// The plain output of `cvg agent show`: id, kind, status, current task id
/// and title, and the branch of the latest pull request, tab-separated.
pub open spec fn details_plain_text(d: AgentDetails) -> Seq<char> {
    d.id@ + "\t"@ + d.kind@ + "\t"@ + d.status@ + "\t"@ + or_dash(d.current_task_id) + "\t"@
        + or_dash(d.current_task_title) + "\t"@ + if d.recent_prs@.len() > 0 {
        or_dash(d.recent_prs@[0].branch)
    } else {
        "-"@
    }
}

/// The plain output of `cvg agent show`.
pub fn details_plain(d: &AgentDetails) -> (r: String)
    ensures
        r@ == details_plain_text(*d),
{
    let mut r = owned(d.id.as_str());
    push_str(&mut r, "\t");
    push_str(&mut r, d.kind.as_str());
    push_str(&mut r, "\t");
    push_str(&mut r, d.status.as_str());
    push_str(&mut r, "\t");
    push_or_dash(&mut r, &d.current_task_id);
    push_str(&mut r, "\t");
    push_or_dash(&mut r, &d.current_task_title);
    push_str(&mut r, "\t");
    if d.recent_prs.len() > 0 {
        push_or_dash(&mut r, &d.recent_prs[0].branch);
    } else {
        push_str(&mut r, "-");
    }
    proof {
        assert(r@ =~= details_plain_text(*d));
    }
    r
}

} // verus!
