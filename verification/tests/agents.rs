use convergio_cli::agents::{
    age_secs, agent_plain_row, agent_row, header_columns, list_frame, reports_not_found,
    retire_path, retired_plain_line,
    TopicStamp, DASH_RETIRE_STALE_SECS, RETIRE_STALE_PATH,
    filter, is_terminal, opt_cell, task_cell, AgentSummary, Args, ColumnProfile, ListArgs,
    RetireArgs,
};

#[test]
fn args_fields_are_accessible() {
    let a = Args {
        agent_id: "code-agent-alice".to_string(),
        status: "working".to_string(),
    };
    assert_eq!(a.agent_id, "code-agent-alice");
    assert_eq!(a.status, "working");
}

fn summary(id: &str, status: &str, hb: Option<i128>) -> AgentSummary {
    AgentSummary {
        id: id.to_string(),
        kind: "runner".to_string(),
        status: status.to_string(),
        capabilities: vec![],
        last_heartbeat_at: hb,
        current_task_title: None,
        current_task_id: None,
        recent_branch: None,
        active_leases: 0,
        last_audit_kind: None,
        last_audit_at: None,
        claimed_count: 0,
        claimed_titles: vec![],
        last_topic: None,
    }
}

#[test]
fn filter_keeps_live_agents_newest_first() {
    let rows = vec![
        summary("old", "working", Some(100)),
        summary("gone", "retired", Some(900)),
        summary("new", "idle", Some(800)),
        summary("silent", "working", None),
        summary("mid", "working", Some(500)),
    ];
    let (shown, hidden) = filter(rows, false, 400);
    let ids: Vec<&str> = shown.iter().map(|s| s.id.as_str()).collect();
    assert_eq!(ids, vec!["new", "mid"]);
    assert_eq!(hidden, 3);
}

#[test]
fn filter_all_sorts_without_hiding() {
    let rows = vec![
        summary("a", "working", None),
        summary("b", "retired", Some(10)),
        summary("c", "working", Some(20)),
    ];
    let (shown, hidden) = filter(rows, true, 1000);
    let ids: Vec<&str> = shown.iter().map(|s| s.id.as_str()).collect();
    assert_eq!(ids, vec!["c", "b", "a"]);
    assert_eq!(hidden, 0);
}

#[test]
fn terminal_statuses() {
    assert!(is_terminal("terminated"));
    assert!(is_terminal("retired"));
    assert!(!is_terminal("working"));
}

#[test]
fn task_cell_counts_other_claims() {
    assert_eq!(task_cell(Some("fix"), None, None, 3), "fix (+2)");
    assert_eq!(task_cell(None, Some("first"), Some("t-1"), 1), "first");
    assert_eq!(task_cell(None, None, Some("t-1"), 0), "t-1");
    assert_eq!(task_cell(None, None, None, 0), "-");
    assert_eq!(opt_cell(None, 22), "-");
    assert_eq!(opt_cell(Some("feature/very-long-branch-name"), 10), "feature/v…");
}

#[test]
fn list_and_retire_defaults() {
    let l = ListArgs::default();
    assert!(!l.all);
    assert_eq!(l.threshold_min, 30);
    assert!(l.columns == ColumnProfile::Default);
    let r = RetireArgs::default();
    assert_eq!(r.threshold_min, 60);
    assert!(!r.apply);
    assert_eq!(r.threshold_seconds(), 3600);
}

#[test]
fn heartbeat_path_names_the_agent() {
    let a = Args { agent_id: "agent-7".to_string(), status: "idle".to_string() };
    assert_eq!(a.path(), "/v1/agent-registry/agents/agent-7/heartbeat");
}

#[test]
fn agent_rows_render_columns() {
    let now: i128 = 1_000_000_000_000;
    let mut s = summary("a1", "working", Some(now - 90 * 1_000_000_000));
    s.recent_branch = Some("feat".to_string());
    s.last_topic = Some(TopicStamp { topic: "t".to_string(), at: now - 5_000_000_000 });
    assert_eq!(agent_plain_row(&s, now), "a1\trunner\tworking\t1m\t-\tfeat");
    let row = agent_row(&s, ColumnProfile::Default, now);
    let expected = format!(
        "{:<36} {:<10} {:<20} {:<10} {:<7} {:<20} {:<36} {:<24}",
        "a1", "runner", "\x1b[32mworking\x1b[0m", "1m ago", "0", "t 5s", "-", "feat"
    );
    assert_eq!(row, expected);
    let ext = agent_row(&s, ColumnProfile::Extended, now);
    assert!(ext.ends_with(&format!("{:<24} {:<8} {:<22}", "", "0", "-")));
    assert_eq!(age_secs(0, 1_500_000_000), 1);
    assert_eq!(age_secs(1_500_000_000, 0), -1);
}

#[test]
fn retire_one_request_and_output() {
    assert_eq!(retire_path("a1"), "/v1/agent-registry/agents/a1/retire");
    assert_eq!(retired_plain_line("a1", "retired"), "a1\tretired");
    assert!(reports_not_found("POST failed: HTTP 404 Not Found"));
    assert!(!reports_not_found("HTTP 500"));
    assert_eq!(RETIRE_STALE_PATH, "/v1/agent-registry/agents/retire-stale");
    assert_eq!(DASH_RETIRE_STALE_SECS, 3600);
}

#[test]
fn list_frame_and_heading() {
    let f = list_frame(0, 0, false);
    assert!(f.empty);
    let f = list_frame(0, 3, false);
    assert!(!f.empty && f.hidden_note && f.header_key == "agent-list-header-active");
    let f = list_frame(2, 3, true);
    assert!(!f.hidden_note && f.header_key == "agent-list-header");
    let d = header_columns(ColumnProfile::Default);
    assert_eq!(d.len(), 8);
    assert_eq!(d[0], ("agent-list-col-id", 28));
    assert_eq!(d[7], ("agent-list-col-branch", 24));
    let e = header_columns(ColumnProfile::Extended);
    assert_eq!(e.len(), 11);
    assert_eq!(e[5], ("agent-list-col-last-topic", 18));
    assert_eq!(e[10], ("agent-list-col-last-audit", 22));
}
