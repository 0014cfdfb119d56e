use convergio_cli::cli::OutputMode;
use convergio_cli::ontology::{branch_diff_pending, branch_diff_unavailable, pretty_prints, GraphFormatArg};
use convergio_cli::cli::{purpose_id, DEFAULT_PURPOSE_ID};
use convergio_cli::agents::heartbeat_plain_line;
use convergio_cli::gates::{actions_lines, gates_lines, select_tagged, ActionRow, GatePrecondition};
use convergio_cli::purpose::{purpose_plain_line, purposes_lines, registered_line, Purpose};
use convergio_cli::show::{Line, Part};

fn gate(name: &str, reads: &[&str]) -> GatePrecondition {
    GatePrecondition {
        gate: name.to_string(),
        reads_evidence_kinds: reads.iter().map(|s| s.to_string()).collect(),
        active_target_status: vec!["submitted".to_string()],
        refusal_reasons: vec![],
        enforces_task_evidence_required: true,
    }
}

fn render(lines: &[Line]) -> Vec<String> {
    lines
        .iter()
        .map(|l| {
            l.parts
                .iter()
                .map(|p| match p {
                    Part::Text { text } => text.clone(),
                    Part::Msg { key, args } => {
                        let a: Vec<String> = args.iter().map(|(k, v)| format!("{k}={v}")).collect();
                        format!("<{key}{}>", if a.is_empty() { String::new() } else { format!(" {}", a.join(" ")) })
                    }
                })
                .collect::<String>()
        })
        .collect()
}

#[test]
fn gates_keep_the_named_gate() {
    let all = vec![gate("evidence", &["test", "lint"]), gate("wave", &[]), gate("evidence", &[])];
    assert_eq!(select_tagged(vec![gate("a", &[]), gate("b", &[])], None).len(), 2);
    let kept = select_tagged(all, Some("evidence"));
    assert_eq!(kept.len(), 2);
    assert_eq!(
        render(&gates_lines(&kept)),
        vec![
            "<gates-list-header count=2>",
            "<gates-list-line gate=evidence reads=test,lint active=submitted refusals=- evidence_required=true>",
            "<gates-list-line gate=evidence reads=- active=submitted refusals=- evidence_required=true>",
        ]
    );
    assert_eq!(render(&gates_lines(&vec![])), vec!["<gates-list-empty>"]);
}

#[test]
fn purpose_lines() {
    let p = Purpose { id: Some("p1".into()), label: Some("billing".into()), description: None };
    assert_eq!(purpose_plain_line(&p), "p1\tbilling");
    assert_eq!(registered_line(&p), "registered purpose `billing` (p1)");
    assert_eq!(purposes_lines(&vec![], true), vec!["no purposes registered".to_string()]);
    assert_eq!(purposes_lines(&vec![], false), Vec::<String>::new());
    assert_eq!(purposes_lines(&vec![p], true), vec!["- billing — ".to_string()]);
}

#[test]
fn heartbeat_plain_names_the_status() {
    assert_eq!(heartbeat_plain_line("a1", &Some("working".into())), "heartbeat\ta1\tworking");
    assert_eq!(heartbeat_plain_line("a1", &None), "heartbeat\ta1\tok");
}

#[test]
fn ontology_graph_output_rules() {
    assert!(pretty_prints(GraphFormatArg::Json, OutputMode::Human));
    assert!(!pretty_prints(GraphFormatArg::Json, OutputMode::Plain));
    assert!(!pretty_prints(GraphFormatArg::Dot, OutputMode::Human));
    assert!(branch_diff_unavailable("GET failed: HTTP 501"));
    assert!(branch_diff_unavailable("{\"code\":\"not_implemented\"}"));
    assert!(!branch_diff_unavailable("HTTP 500"));
    assert_eq!(
        branch_diff_pending("Task", false),
        "branch diff for `Task` is not implemented yet (lands with ADR-0059)"
    );
    assert_eq!(
        branch_diff_pending("Task", true),
        "{\"error\":{\"code\":\"not_implemented\",\"message\":\"branch diff lands with ADR-0059\"}}"
    );
}

#[test]
fn actions_keep_the_named_capability() {
    let row = |n: &str, c: &str| ActionRow { name: n.into(), capability: c.into(), summary: format!("{n} does it") };
    let kept = select_tagged(vec![row("a", "tasks"), row("b", "plans"), row("c", "tasks")], Some("tasks"));
    assert_eq!(
        render(&actions_lines(&kept)),
        vec![
            "<actions-list-header count=2>",
            "<actions-list-line capability=tasks name=a summary=a does it>",
            "<actions-list-line capability=tasks name=c summary=c does it>",
        ]
    );
    assert_eq!(render(&actions_lines(&vec![])), vec!["<actions-list-empty>"]);
}

#[test]
fn purpose_id_defaults_when_blank() {
    assert_eq!(purpose_id(None), DEFAULT_PURPOSE_ID);
    assert_eq!(purpose_id(Some("  ")), "00000000-0000-0000-0000-000000000000");
    assert_eq!(purpose_id(Some("p-42")), "p-42");
}
