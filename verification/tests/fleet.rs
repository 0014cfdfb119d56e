use convergio_cli::fleet::{agent_worktrees_dir, cleanup_step, is_agent_home, CleanupAction, CleanupEvent};
use convergio_cli::fleet::{build_lines, dispatch_line, BuildReport, DispatchReply};
use convergio_cli::fleet::{
    branches_of_listing, default_parser, detect_language, parse_derives_from, plan_path,
    plan_repos_path, plan_tasks_path, plans_human_lines, plans_path, plans_plain_lines,
    registration, repo_added_lines, repo_path, repo_plain_line, repo_table_lines, toggle_line,
    worktree_branch, ExecutorMode, FleetRepo, PlanRow, RepoMarkers,
};

#[test]
fn executor_mode_wire_names() {
    assert_eq!(ExecutorMode::Default.as_wire(), "default");
    assert_eq!(ExecutorMode::TrackerOnly.as_wire(), "none");
}

#[test]
fn language_detection_order() {
    let m = RepoMarkers { cargo_toml: true, package_json: true, pyproject_toml: false, setup_py: false };
    assert_eq!(detect_language(&m), "rust");
    let m = RepoMarkers { cargo_toml: false, package_json: false, pyproject_toml: false, setup_py: true };
    assert_eq!(detect_language(&m), "python");
    assert_eq!(default_parser("rust"), "syn");
    assert_eq!(default_parser("python"), "tree-sitter");
}

#[test]
fn worktree_names_map_to_agent_branches() {
    assert_eq!(worktree_branch("agent-foo"), Some("agent/foo".to_string()));
    assert_eq!(worktree_branch("agent-agent-x"), Some("agent/x".to_string()));
    assert_eq!(worktree_branch("scratch"), None);
}

#[test]
fn listing_keeps_non_empty_trimmed_lines() {
    assert_eq!(
        branches_of_listing("agent/foo\n  agent/bar  \n\n"),
        vec!["agent/foo".to_string(), "agent/bar".to_string()]
    );
}

#[test]
fn derives_from_takes_first_non_empty_value() {
    assert_eq!(
        parse_derives_from("title: x\nderives_from:\nderives_from: \"abc\"\n"),
        Some("abc".to_string())
    );
    assert_eq!(parse_derives_from("nothing"), None);
}

fn repo(name: Option<&str>, enabled: Option<bool>, last: Option<&str>) -> FleetRepo {
    FleetRepo {
        name: name.map(str::to_string),
        path: Some("/src/alpha".to_string()),
        language: Some("rust".to_string()),
        role: None,
        enabled,
        last_built_at: last.map(str::to_string),
        derives_from: None,
    }
}

#[test]
fn registration_fills_left_out_flags() {
    let markers = RepoMarkers { cargo_toml: false, package_json: true, pyproject_toml: false, setup_py: false };
    let r = registration(
        "/src/alpha".to_string(),
        Some("alpha".to_string()),
        None,
        None,
        None,
        Some("library".to_string()),
        None,
        &markers,
        Some("name: alpha\nderives_from: \"engine\"\n".to_string()),
    );
    assert_eq!(r.name, "alpha");
    assert_eq!(r.language, "typescript");
    assert_eq!(r.parser, "tree-sitter");
    assert_eq!(r.role.as_deref(), Some("library"));
    assert_eq!(r.derives_from.as_deref(), Some("engine"));
    let r = registration(
        "/".to_string(),
        None,
        None,
        Some("rust".to_string()),
        None,
        None,
        Some("parent".to_string()),
        &markers,
        None,
    );
    assert_eq!(r.name, "repo");
    assert_eq!(r.parser, "syn");
    assert_eq!(r.derives_from.as_deref(), Some("parent"));
}

#[test]
fn repo_reports() {
    let mut r = repo(Some("alpha"), None, None);
    assert_eq!(repo_added_lines(&r), vec!["Added: alpha (/src/alpha) — rust [?]".to_string()]);
    r.derives_from = Some("engine".to_string());
    assert_eq!(repo_added_lines(&r)[1], "  derives_from: engine");
    assert_eq!(repo_plain_line(&r), "alpha\t/src/alpha\trust\t");
    assert_eq!(repo_path("alpha"), "/v1/fleet/repos/alpha");
    assert_eq!(toggle_line("alpha", &r, true, true), "Fleet repo 'alpha' enabled.");
    assert_eq!(toggle_line("beta", &repo(None, None, None), false, true), "Fleet repo 'beta' disabled.");
    assert_eq!(toggle_line("beta", &repo(None, None, None), false, false), " disabled");
}

#[test]
fn repo_table_columns() {
    assert_eq!(repo_table_lines(&vec![]), vec!["No repos in fleet.".to_string()]);
    let lines = repo_table_lines(&vec![repo(Some("alpha"), Some(false), None), repo(None, None, Some("2026-01-01"))]);
    assert_eq!(lines.len(), 4);
    assert_eq!(
        lines[0],
        format!("{:<20} {:<12} {:<12} {:<10} {:<24} PATH", "NAME", "LANGUAGE", "ROLE", "ENABLED", "LAST BUILD")
    );
    assert_eq!(lines[1], "-".repeat(90));
    assert_eq!(lines[2], format!("{:<20} {:<12} {:<12} {:<10} {:<24} {}", "alpha", "rust", "?", "no", "—", "/src/alpha"));
    assert_eq!(lines[3], format!("{:<20} {:<12} {:<12} {:<10} {:<24} {}", "?", "rust", "?", "yes", "2026-01-01", "/src/alpha"));
}

#[test]
fn fleet_plan_requests_and_listing() {
    assert_eq!(plans_path(Some("fleet")), "/v1/fleet/plans?scope=fleet");
    assert_eq!(plans_path(None), "/v1/fleet/plans");
    assert_eq!(plan_path("p1"), "/v1/fleet/plans/p1");
    assert_eq!(plan_repos_path("p1"), "/v1/fleet/plans/p1/repos");
    assert_eq!(plan_tasks_path("p1", "alpha"), "/v1/fleet/plans/p1/repos/alpha/tasks");
    assert_eq!(plans_human_lines(&vec![]), vec!["No fleet plans.".to_string()]);
    let rows = vec![
        PlanRow { id: Some("p1".to_string()), scope: Some("fleet".to_string()), title: Some("T".to_string()) },
        PlanRow { id: None, scope: None, title: None },
    ];
    assert_eq!(
        plans_human_lines(&rows),
        vec!["2 fleet plan(s):".to_string(), "  p1  [fleet]  T".to_string(), "  ?  [?]  ?".to_string()]
    );
    assert_eq!(plans_plain_lines(&rows), vec!["p1".to_string(), String::new()]);
}

#[test]
fn build_and_dispatch_reports() {
    let r = BuildReport {
        repos_processed: Some(3),
        repos_skipped: None,
        embedded: Some(40),
        skipped_unchanged: Some(2),
        similar_edges_written: Some(5),
        model: None,
        duplicates: Some(1),
        similar_to: Some(6),
    };
    assert_eq!(build_lines(&r, false, false), vec!["processed=3 skipped=0 embedded=40 edges=5".to_string()]);
    assert_eq!(
        build_lines(&r, true, true),
        vec![
            "Fleet build complete (?). Repos: 3".to_string(),
            "  Files embedded: 40  skipped: 2".to_string(),
            "  Similarity edges: 7".to_string(),
        ]
    );
    assert_eq!(build_lines(&r, false, true).len(), 2);
    let d = DispatchReply { dispatched: Some(2), executor: None };
    assert_eq!(dispatch_line("alpha", &d, false), "2");
    assert_eq!(dispatch_line("alpha", &d, true), "Fleet repo 'alpha' dispatch: 2 task(s), executor=default");
}

#[test]
fn cleanup_prunes_only_for_real() {
    let (rec, act) = cleanup_step(false, &CleanupEvent::Start);
    assert!(!rec);
    assert!(matches!(act, CleanupAction::Prune));
    let (rec, act) = cleanup_step(true, &CleanupEvent::Start);
    assert!(!rec);
    assert!(matches!(act, CleanupAction::Nothing));
}

#[test]
fn cleanup_removes_orphan_worktrees_unless_dry_run() {
    let orphan = || CleanupEvent::Worktree {
        name: "agent-foo".to_string(),
        path: "/r/.agents/worktrees/agent-foo".to_string(),
        remote_exists: false,
    };
    match cleanup_step(false, &orphan()) {
        (true, CleanupAction::RemoveWorktree { path, branch }) => {
            assert_eq!(path, "/r/.agents/worktrees/agent-foo");
            assert_eq!(branch, "agent/foo");
        }
        _ => panic!("an orphan worktree is removed"),
    }
    assert!(matches!(cleanup_step(true, &orphan()), (true, CleanupAction::Nothing)));
    let live = CleanupEvent::Worktree {
        name: "agent-foo".to_string(),
        path: "/r/x".to_string(),
        remote_exists: true,
    };
    assert!(matches!(cleanup_step(false, &live), (false, CleanupAction::Nothing)));
    let other = CleanupEvent::Worktree { name: "scratch".to_string(), path: "/r/y".to_string(), remote_exists: false };
    assert!(matches!(cleanup_step(false, &other), (false, CleanupAction::Nothing)));
}

#[test]
fn cleanup_deletes_stale_branches_unless_dry_run() {
    let stale = || CleanupEvent::Branch { name: "agent/x".to_string(), remote_exists: false };
    match cleanup_step(false, &stale()) {
        (true, CleanupAction::DeleteBranch { branch }) => assert_eq!(branch, "agent/x"),
        _ => panic!("a stale branch is deleted"),
    }
    assert!(matches!(cleanup_step(true, &stale()), (true, CleanupAction::Nothing)));
    let live = CleanupEvent::Branch { name: "agent/x".to_string(), remote_exists: true };
    assert!(matches!(cleanup_step(false, &live), (false, CleanupAction::Nothing)));
}

#[test]
fn agent_worktree_homes() {
    assert!(is_agent_home(".agents"));
    assert!(!is_agent_home(".git"));
    assert!(!is_agent_home("."));
    assert!(!is_agent_home("src"));
    assert_eq!(agent_worktrees_dir("/r", ".agents"), "/r/.agents/worktrees");
}
