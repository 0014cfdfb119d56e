use convergio_cli::discover::{
    findings, key_vars, parse_since, resolve_agent_id, SinceError, SinceUnit,
};

#[test]
fn parse_since_units_and_rejects() {
    let w = parse_since("30m").unwrap();
    assert!(w.amount == 30 && w.unit == SinceUnit::Minutes);
    assert_eq!(w.seconds(), Some(30 * 60));
    assert!(parse_since("").is_err() && parse_since("10x").is_err());
}

#[test]
fn parse_since_errors_are_distinguished() {
    assert!(parse_since("  ") == Err(SinceError::Empty));
    assert!(parse_since("10x") == Err(SinceError::BadUnit('x')));
    assert!(parse_since("-5m") == Err(SinceError::Negative));
    assert!(parse_since("abcm") == Err(SinceError::Invalid));
    let w = parse_since(" 2d ").unwrap();
    assert_eq!(w.seconds(), Some(2 * 86400));
}

#[test]
fn resolve_agent_id_prefers_flag() {
    assert_eq!(resolve_agent_id(Some("x"), None, None), "x");
}

#[test]
fn resolve_agent_id_falls_back() {
    assert_eq!(resolve_agent_id(Some("  "), Some("env-id"), Some("bob")), "env-id");
    assert_eq!(resolve_agent_id(None, None, Some("bob")), "agent-bob");
    assert_eq!(resolve_agent_id(None, Some(""), None), "agent-anon");
}

#[test]
fn missing_var_is_flagged() {
    for repo_set in [false, true] {
        let fs = findings(&vec![false, false, false, repo_set]);
        let repo = fs
            .iter()
            .find(|f| f.name == "CONVERGIO_REPO_PATH")
            .expect("CONVERGIO_REPO_PATH finding present");
        if repo.set {
            assert!(repo.message.contains("is set"));
        } else {
            assert!(repo.message.contains("not set"));
        }
    }
}

#[test]
fn all_key_vars_have_findings() {
    let fs = findings(&vec![true, false, true, false]);
    assert_eq!(fs.len(), key_vars().len());
    assert_eq!(fs[0].message, "CONVERGIO_GUARD_MAX_WORKTREES is set");
    assert_eq!(
        fs[1].message,
        "CONVERGIO_EXECUTOR_MAX_PARALLEL not set — per-tick dispatch fan-out cap (compiled default: unbounded)"
    );
}

#[test]
fn since_errors_have_messages() {
    assert_eq!(SinceError::Empty.message(""), "empty --since");
    assert_eq!(SinceError::Invalid.message("abcm"), "invalid --since: abcm");
    assert_eq!(SinceError::Negative.message("-5m"), "--since must be non-negative");
    assert_eq!(SinceError::BadUnit('x').message("10x"), format!("--since unit must be s/m/h/d, got {:?}", "x"));
    assert_eq!(SinceError::BadUnit('"').message("1\""), format!("--since unit must be s/m/h/d, got {:?}", "\""));
    assert_eq!(SinceError::BadUnit('\u{1}').message("1\u{1}"), format!("--since unit must be s/m/h/d, got {:?}", "\u{1}"));
    assert_eq!(SinceError::BadUnit('\u{1b}').message("1\u{1b}"), format!("--since unit must be s/m/h/d, got {:?}", "\u{1b}"));
}
