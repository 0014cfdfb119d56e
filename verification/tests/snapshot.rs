use convergio_cli::discover::parse_since;
use convergio_cli::show::{Line, Part};
use convergio_cli::snapshot::{
    active_peers, caps_string, discover_human, discover_plain, instant, peer_human_line,
    plan_human_line, tasks_path, top_topics, topic_human_line, window_start, your_plan, Peer, PlanRef,
    TaskRef, TopicRow, YourPlan,
};

const S: i128 = 1_000_000_000;
/// 2026-05-01T12:00:00Z in nanoseconds.
const NOON: i128 = 1_777_636_800 * S;

fn s(x: &str) -> Option<String> {
    Some(x.to_string())
}

fn peer(id: &str, status: &str, hb: Option<&str>) -> Peer {
    Peer {
        id: s(id),
        kind: s("runner"),
        status: s(status),
        last_heartbeat_at: hb.map(str::to_string),
        capabilities: vec![s("rust"), None, s("docs")],
        current_task_id: None,
        document: format!("{{\"id\":\"{id}\"}}"),
    }
}

fn render(lines: &[Line]) -> Vec<String> {
    lines
        .iter()
        .map(|l| {
            l.parts
                .iter()
                .map(|p| match p {
                    Part::Text { text } => text.clone(),
                    Part::Msg { key, args } => {
                        let a: Vec<String> = args.iter().map(|(k, v)| format!("{k}={v}")).collect();
                        format!("<{key}{}>", if a.is_empty() { String::new() } else { format!(" {}", a.join(" ")) })
                    }
                })
                .collect::<String>()
        })
        .collect()
}

fn topic(name: &str, plan: &str, count: Option<i64>) -> TopicRow {
    TopicRow { topic: s(name), plan_id: plan.to_string(), count, last_at: None }
}

#[test]
fn instant_reads_rfc3339_in_utc() {
    assert_eq!(instant(&s("2026-05-01T12:00:00Z")), Some(NOON));
    assert_eq!(instant(&s("2026-05-01T14:00:00.5+02:00")), Some(NOON + S / 2));
    assert_eq!(instant(&s("yesterday")), None);
    assert_eq!(instant(&None), None);
}

#[test]
fn window_start_subtracts_the_window() {
    let w = parse_since("30m").unwrap();
    assert_eq!(window_start(NOON, w), Some(NOON - 1800 * S));
    let huge = parse_since("9223372036854775807d").unwrap();
    assert_eq!(window_start(NOON, huge), None);
}

#[test]
fn active_peers_drop_gone_and_stale_and_sort_by_heartbeat() {
    let peers = vec![
        peer("a", "idle", Some("2026-05-01T11:50:00Z")),
        peer("b", "terminated", Some("2026-05-01T11:59:00Z")),
        peer("c", "working", Some("2026-05-01T11:58:00Z")),
        peer("d", "idle", Some("2026-05-01T11:00:00Z")),
        peer("e", "retired", Some("2026-05-01T11:58:30Z")),
        peer("f", "idle", None),
        peer("g", "idle", Some("not a time")),
        peer("h", "idle", Some("2026-05-01T11:50:00Z")),
    ];
    let cutoff = NOON - 1800 * S;
    let out = active_peers(peers, cutoff);
    let ids: Vec<String> = out.iter().map(|p| p.id.clone().unwrap()).collect();
    assert_eq!(ids, vec!["c", "a", "h"]);
}

#[test]
fn peer_at_the_cutoff_is_active() {
    let out = active_peers(vec![peer("a", "idle", Some("2026-05-01T11:30:00Z"))], NOON - 1800 * S);
    assert_eq!(out.len(), 1);
}

#[test]
fn caps_skip_non_texts() {
    assert_eq!(caps_string(&peer("a", "idle", None)), "rust,docs");
    let mut p = peer("a", "idle", None);
    p.capabilities = vec![];
    assert_eq!(caps_string(&p), "");
}

#[test]
fn top_topics_keep_the_five_busiest_in_order() {
    let rows = vec![
        topic("t1", "p", Some(3)),
        topic("t2", "p", Some(9)),
        topic("t3", "p", None),
        topic("t4", "p", Some(3)),
        topic("t5", "p", Some(7)),
        topic("t6", "p", Some(1)),
        topic("t7", "p", Some(-2)),
    ];
    let out = top_topics(rows);
    let names: Vec<String> = out.iter().map(|t| t.topic.clone().unwrap()).collect();
    assert_eq!(names, vec!["t2", "t5", "t1", "t4", "t6"]);
    assert_eq!(top_topics(vec![topic("x", "p", None)]).len(), 1);
}

#[test]
fn your_plan_counts_open_tasks_held_by_me() {
    let plan = PlanRef { id: s("plan-123456789"), title: s("Ship it"), status: s("active") };
    let task = |a: Option<&str>, st: Option<&str>| TaskRef {
        agent_id: a.map(str::to_string),
        status: st.map(str::to_string),
    };
    let tasks = vec![
        task(Some("me"), Some("in_progress")),
        task(Some("me"), Some("done")),
        task(Some("me"), Some("submitted")),
        task(Some("me"), None),
        task(Some("you"), Some("pending")),
        task(None, Some("pending")),
        task(Some("me"), Some("cancelled")),
    ];
    let y = your_plan(&plan, &tasks, "me").unwrap();
    assert_eq!(y.plan_id, "plan-123456789");
    assert_eq!(y.your_tasks_open, 2);
    assert_eq!(y.title.as_deref(), Some("Ship it"));
    assert!(your_plan(&plan, &tasks, "nobody").is_none());
    let done_only = vec![task(Some("me"), Some("done"))];
    assert_eq!(your_plan(&plan, &done_only, "me").unwrap().your_tasks_open, 0);
    let no_id = PlanRef { id: None, title: None, status: None };
    assert_eq!(your_plan(&no_id, &done_only, "me").unwrap().plan_id, "");
}

#[test]
fn peer_line_in_columns() {
    let p = peer("runner-1", "idle", Some("2026-05-01T11:58:00Z"));
    let line = peer_human_line(&p, instant(&p.last_heartbeat_at), NOON);
    let expected = format!(
        "  {:<28} {:<10} {:<11} {:<10} {:<32} {}",
        "runner-1", "runner", "idle", "2m ago", "rust,docs", "-"
    );
    assert_eq!(line, expected);
    let mut long = peer("an-extremely-long-agent-identifier-here", "idle", None);
    long.current_task_id = s("task-1");
    let line = peer_human_line(&long, None, NOON);
    assert!(line.starts_with("  an-extremely-long-agent-ide\u{2026} runner"));
    assert!(line.ends_with(" task-1"));
}

#[test]
fn topic_and_plan_lines() {
    let mut t = topic("build", "0123456789abcdef", Some(12));
    t.last_at = s("2026-05-01T11:00:00Z");
    let line = topic_human_line(&t, instant(&t.last_at), NOON);
    assert_eq!(line, format!("  {:<40} {:<8} plan 01234567 1h ago", "build", 12));
    let short = topic("x", "abc", None);
    assert_eq!(topic_human_line(&short, None, NOON), format!("  {:<40} {:<8} plan abc -", "x", 0));
    let y = YourPlan { plan_id: "0123456789".to_string(), title: s("Title"), status: s("active"), your_tasks_open: 3 };
    assert_eq!(plan_human_line(&y), format!("  01234567 {:<8} {:<48} open=3", "active", "Title"));
}

#[test]
fn plain_snapshot_lists_peers_topics_plans() {
    let p = peer("a", "idle", Some("2026-05-01T11:59:30Z"));
    let mut t = topic("build", "plan-1", Some(4));
    t.last_at = s("2026-05-01T11:59:00Z");
    let y = YourPlan { plan_id: "plan-1".to_string(), title: s("T"), status: None, your_tasks_open: 1 };
    let lines = discover_plain(&vec![p], &vec![t], &vec![y], NOON);
    assert_eq!(
        lines,
        vec![
            "peer\ta\trunner\tidle\t30s ago\trust,docs".to_string(),
            "topic\tbuild\tplan-1\t4\t1m ago".to_string(),
            "plan\tplan-1\t\t1\tT".to_string(),
        ]
    );
}

#[test]
fn human_snapshot_has_three_sections() {
    let lines = discover_human("2026-05-01T12:00:00+00:00", "30m", "me", &vec![], &vec![], &vec![], NOON);
    assert_eq!(
        render(&lines),
        vec![
            "<discover-header at=2026-05-01T12:00:00+00:00> (me)",
            "",
            "<discover-active-peers since=30m>",
            "  <discover-empty-peers>",
            "",
            "<discover-recent-bus>",
            "  <discover-empty-bus>",
            "",
            "<discover-your-plans>",
            "  <discover-empty-plans>",
        ]
    );
    let y = YourPlan { plan_id: "p".to_string(), title: None, status: None, your_tasks_open: 0 };
    let lines = discover_human("at", "1h", "me", &vec![], &vec![], &vec![y], NOON);
    let r = render(&lines);
    assert_eq!(r.len(), 10);
    assert_eq!(r[9], format!("  p {:<8} {:<48} open=0", "", ""));
}

#[test]
fn plan_tasks_request() {
    assert_eq!(tasks_path("p1"), "/v1/plans/p1/tasks");
    let p = peer("a", "idle", None);
    assert_eq!(p.document, "{\"id\":\"a\"}");
}
