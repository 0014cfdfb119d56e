use convergio_cli::bus::{envelope_human, envelope_plain, short_payload, short_time, EnvelopeView};
use convergio_cli::capability::{trust_lines, TrustRow};
use convergio_cli::fleet::{cleanup_human_lines, cleanup_plain_lines, plan_human_lines, FleetPlanView, PlanLink};
use convergio_cli::ontology::{
    link_human_lines, link_plain_line, object_human_lines, object_plain_lines, types_human_lines,
    types_plain_lines, DescribeLink, DescribeObject, ListResponse, PropertyRow, TypeRow,
};
use convergio_cli::port::{pid_from_lsof, pid_from_ss};

fn row(kind: &str, name: &str) -> TypeRow {
    TypeRow {
        kind: kind.to_string(),
        name: name.to_string(),
        schema_version: 3,
        title: "Title".to_string(),
        description: String::new(),
        content_hash: "0123456789abcdef".to_string(),
    }
}

#[test]
fn ontology_type_listing() {
    let doc = ListResponse { objects: vec![row("object", "Task")], links: vec![row("link", "owns")] };
    assert_eq!(
        types_plain_lines(&doc),
        vec!["object\tTask\t3\t0123456789abcdef".to_string(), "link\towns\t3\t0123456789abcdef".to_string()]
    );
    let human = types_human_lines(&doc);
    assert_eq!(human[0], "ObjectTypes:");
    assert_eq!(human[1], format!("  {:<20} v3  Title  (0123456789ab)", "Task"));
    assert_eq!(human[2], "LinkTypes:");
    let empty = ListResponse { objects: vec![], links: vec![] };
    assert_eq!(types_human_lines(&empty), vec!["(no ontology types registered)".to_string()]);
}

#[test]
fn ontology_descriptions() {
    let d = DescribeObject {
        name: "Task".to_string(),
        schema_version: 2,
        title: "A task".to_string(),
        description: "Work".to_string(),
        breaking: true,
        content_hash: "h".to_string(),
        properties: vec![PropertyRow {
            name: "title".to_string(),
            schema_version: 1,
            datatype: "string".to_string(),
            required: true,
            title: String::new(),
            description: String::new(),
            content_hash: String::new(),
        }],
    };
    assert_eq!(object_plain_lines(&d), vec!["Task\t2\th".to_string(), "  title\t1\tstring\trequired=true".to_string()]);
    let h = object_human_lines(&d);
    assert_eq!(h[0], "object Task v2 [breaking]");
    assert_eq!(h[4], "  properties  :");
    assert_eq!(h[5], "    - title (string, required) v1");
    let l = DescribeLink {
        name: "owns".to_string(),
        schema_version: 1,
        title: "t".to_string(),
        description: "d".to_string(),
        from_object: "A".to_string(),
        to_object: "B".to_string(),
        breaking: false,
        content_hash: "h".to_string(),
    };
    assert_eq!(link_plain_line(&l), "owns\t1\th\tA->B");
    assert_eq!(link_human_lines(&l)[3], "  endpoints   : A -> B");
}

#[test]
fn fleet_outputs() {
    let orphans = vec!["/r/.wt/agent-x".to_string()];
    let stale = vec!["agent/y".to_string(), "agent/z".to_string()];
    assert_eq!(
        cleanup_plain_lines(&orphans, &stale),
        vec!["worktree /r/.wt/agent-x".to_string(), "branch agent/y".to_string(), "branch agent/z".to_string()]
    );
    let h = cleanup_human_lines(&orphans, &stale, true, true);
    assert_eq!(h[0], "cvg fleet cleanup — would remove 1 orphan worktree(s), 2 stale branch(es).");
    assert_eq!(h.len(), 5);
    let h = cleanup_human_lines(&orphans, &stale, true, false);
    assert_eq!(h[4], "  (git worktree prune ran)");
    let p = FleetPlanView {
        title: Some("T".to_string()),
        id: None,
        scope: Some("s".to_string()),
        links: vec![PlanLink { repo: Some("r".to_string()), repo_plan_id: None }],
    };
    assert_eq!(
        plan_human_lines(&p),
        vec![
            "Fleet plan: T".to_string(),
            "  id    : ?".to_string(),
            "  scope : s".to_string(),
            "  links :".to_string(),
            "    - r → ?".to_string(),
        ]
    );
}

#[test]
fn trust_listing() {
    let rows = vec![TrustRow {
        key_id: "k1".to_string(),
        owner: None,
        valid_from: "a".to_string(),
        valid_until: "b".to_string(),
        revoked: false,
        in_window: false,
    }];
    assert_eq!(trust_lines(&rows, false), vec!["k1\t\ta\tb\tactive".to_string()]);
    let h = trust_lines(&rows, true);
    assert_eq!(h[0], format!("{:<24} {:<20} {:<14} WINDOW", "KEY_ID", "OWNER", "STATUS"));
    assert_eq!(h[1], format!("{:<24} {:<20} {:<14} a → b", "k1", "-", "out-of-window"));
    assert_eq!(trust_lines(&vec![], true), vec!["trust store is empty".to_string()]);
}

#[test]
fn pid_lookups() {
    assert_eq!(pid_from_lsof("4242\n4243\n"), Some(4242));
    assert_eq!(pid_from_lsof(""), None);
    assert_eq!(pid_from_lsof("x\n"), None);
    let ss = "LISTEN 0 128 127.0.0.1:8420 0.0.0.0:* users:((\"convergio\",pid=777,fd=9))\n";
    assert_eq!(pid_from_ss(ss), Some(777));
    assert_eq!(pid_from_ss("no pid here\nusers:((pid=12,fd=3))\n"), Some(12));
    assert_eq!(pid_from_ss("users:((pid=12))\n"), None);
    assert_eq!(pid_from_ss("pid=x,\n"), None);
}

fn env(kind: Option<&str>) -> EnvelopeView {
    EnvelopeView {
        seq: 7,
        topic: "coordination/agents".to_string(),
        sender: None,
        payload_type: kind.map(|k| k.to_string()),
        payload_kind: Some("other".to_string()),
        payload_json: "{\"a\":1}".to_string(),
        created_at: "2026-05-04T14:00:01+02:00".to_string(),
    }
}

#[test]
fn bus_message_lines() {
    assert_eq!(envelope_plain(&env(Some("x"))), "7\t-\tcoordination/agents\tx");
    assert_eq!(envelope_human(&env(Some("x"))), "[12:00:01] @system → coordination/agents: x (seq 7)");
    assert_eq!(envelope_plain(&env(None)), "7\t-\tcoordination/agents\tother");
    assert_eq!(short_time("2026-05-04T12:00:01Z"), "12:00:01");
    assert_eq!(short_time("bad T10:11:12.5 stamp"), "10:11:12");
    assert_eq!(short_time("none"), "none");
    let long = "x".repeat(70);
    assert_eq!(short_payload(&long), format!("{}…", "x".repeat(60)));
}
