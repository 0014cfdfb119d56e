use convergio_cli::agents::{stale_lines, StaleAgent};
use convergio_cli::cells::PrRow;
use convergio_cli::show::{
    details_lines, details_plain, AgentDetails, AuditRow, ClaimedTask, LeaseRow, Line, Part,
    TopicDetail,
};

const S: i128 = 1_000_000_000;

fn render(lines: &[Line]) -> Vec<String> {
    lines
        .iter()
        .map(|l| {
            l.parts
                .iter()
                .map(|p| match p {
                    Part::Text { text } => text.clone(),
                    Part::Msg { key, args } => {
                        let a: Vec<String> = args.iter().map(|(k, v)| format!("{k}={v}")).collect();
                        format!("<{key}{}>", if a.is_empty() { String::new() } else { format!(" {}", a.join(" ")) })
                    }
                })
                .collect::<String>()
        })
        .collect()
}

fn details() -> AgentDetails {
    AgentDetails {
        id: "agent-1".to_string(),
        kind: "runner".to_string(),
        status: "idle".to_string(),
        capabilities: vec!["code".to_string(), "review".to_string()],
        last_heartbeat_at: Some(1000 * S - 30 * S),
        created_at_rfc3339: None,
        current_task_id: Some("t-123456789".to_string()),
        current_task_title: None,
        current_task_status: Some("in_progress".to_string()),
        current_task_plan_id: None,
        current_task_plan_title: Some("Plan".to_string()),
        current_task_started_at: None,
        claimed_count: 1,
        claimed_tasks: vec![ClaimedTask {
            id: "abcdefghijk".to_string(),
            title: "Fix".to_string(),
            status: "todo".to_string(),
            plan_title: "P".to_string(),
            started_at: Some(1000 * S - 120 * S),
        }],
        last_topic: Some(TopicDetail {
            plan_id: Some("plan-0123456789".to_string()),
            topic: "coordination".to_string(),
            kind: "hello".to_string(),
            at: 1000 * S - 5 * S,
        }),
        leases: vec![LeaseRow {
            resource_label: "repo".to_string(),
            purpose: None,
            created_at: 1000 * S - 3600 * S,
            expires_at: 1000 * S + 60 * S,
        }],
        recent_audit: vec![AuditRow {
            seq: 42,
            transition: "task.done".to_string(),
            entity_type: "task".to_string(),
            entity_id: "0123456789".to_string(),
            created_at: 1000 * S - 10 * S,
        }],
        recent_prs: vec![PrRow {
            repo_slug: "org/repo".to_string(),
            pr_number: 7,
            branch: Some("feat".to_string()),
            plan_id: None,
        }],
    }
}

#[test]
fn agent_details_human_lines() {
    let out = render(&details_lines(&details(), 1000 * S));
    assert_eq!(out[0], "<agent-show-header id=agent-1>");
    assert_eq!(out[1], "<agent-show-kind>: runner (<agent-show-registered at=->)");
    assert_eq!(out[2], "<agent-show-status>: \x1b[36midle\x1b[0m (30s ago)");
    assert_eq!(out[3], "<agent-show-capabilities>: code, review");
    assert_eq!(out[4], "");
    assert_eq!(out[6], "  coordination (hello, 5s ago, plan:plan-012)");
    assert_eq!(out[9], format!("  Fix [{:<11}] abcdefgh (P, 2m ago)", "todo"));
    assert_eq!(out[12], "  t-123456789");
    assert_eq!(out[13], "  <agent-show-plan>: Plan (-)");
    assert_eq!(out[14], "  <agent-show-task-status>: in_progress (-)");
    assert_eq!(out[16], "<agent-show-leases> (1):");
    assert_eq!(out[17], "  repo (-, held 1h, expires in 1m)");
    assert_eq!(out[20], format!("  #{:<5} {:<6} {:<24} task:01234567", "42", "10s", "task.done"));
    assert_eq!(out[23], "  #7 org/repo/feat ");
    assert_eq!(out.len(), 24);
}

#[test]
fn agent_details_empty_sections_and_plain() {
    let mut d = details();
    d.last_topic = None;
    d.claimed_count = 0;
    d.current_task_id = None;
    d.leases.clear();
    d.recent_audit.clear();
    d.recent_prs.clear();
    d.capabilities.clear();
    let out = render(&details_lines(&d, 1000 * S));
    assert_eq!(out[5], "  <agent-show-no-last-topic>");
    assert_eq!(out[8], "  <agent-show-no-claimed-tasks>");
    assert_eq!(out[11], "  <agent-show-no-current-task>");
    assert_eq!(out[14], "  <agent-show-no-leases>");
    assert_eq!(out[17], "  <agent-show-no-recent-audit>");
    assert_eq!(out[20], "  <agent-show-no-recent-prs>");
    assert_eq!(details_plain(&d), "agent-1\trunner\tidle\t-\t-\t-");
    assert_eq!(details_plain(&details()), "agent-1\trunner\tidle\tt-123456789\t-\tfeat");
}

#[test]
fn retire_stale_lines() {
    let agents = vec![StaleAgent {
        agent_id: "old".to_string(),
        last_heartbeat_at: Some(0),
        last_heartbeat_rfc3339: Some("1970-01-01T00:00:00+00:00".to_string()),
        previous_status: "idle".to_string(),
        retired: true,
    }];
    assert_eq!(stale_lines(&agents, 0, false), vec!["old\tidle\t1970-01-01T00:00:00+00:00\ttrue".to_string()]);
    assert_eq!(
        stale_lines(&agents, 7200 * S, true),
        vec![format!("  ✓ {:<32} {:<12} last_hb=2h ago", "old", "idle")]
    );
}
