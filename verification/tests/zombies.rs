use convergio_cli::zombies::{is_e2e, parse_ps, trim};

#[test]
fn parse_ps_filters_e2e_processes_above_age_threshold() {
    let text = "  100 60 /bin/zsh\n  101 1900 /repo/target/debug/deps/e2e_f2_13_measure-abc\n  102 60 /repo/target/debug/deps/e2e_short-def\n  103 7200 cargo test\n";
    let rows = parse_ps(text);
    assert_eq!(rows.len(), 1);
    assert_eq!(rows[0].pid, 101);
    assert_eq!(rows[0].age_minutes, 31);
}

#[test]
fn is_e2e_matches_both_debug_and_release() {
    assert!(is_e2e("/repo/target/debug/deps/e2e_audit-abc"));
    assert!(is_e2e("/repo/target/release/deps/e2e_f2_13_measure-def"));
    assert!(!is_e2e("/repo/target/debug/deps/lib_test-xyz"));
    assert!(!is_e2e("cargo test --workspace"));
}

#[test]
fn trim_appends_ellipsis_when_too_long() {
    assert_eq!(trim("short", 10), "short");
    assert_eq!(trim("0123456789abcd", 10), "0123456789…");
}

#[test]
fn parse_ps_skips_malformed_rows() {
    let text = "PID ELAPSED CMD\n  7 notanumber /x/target/debug/deps/e2e_a\n  8 1800 /x/target/debug/deps/e2e_b\n";
    let rows = parse_ps(text);
    assert_eq!(rows.len(), 1);
    assert_eq!(rows[0].pid, 8);
    assert_eq!(rows[0].age_minutes, 30);
    assert_eq!(rows[0].cmd, "/x/target/debug/deps/e2e_b");
}

#[test]
fn zombie_rows_are_stale_e2e_binaries() {
    let text = "  1 1800 /x/target/debug/deps/e2e_a-1\n 2 1799 /x/target/debug/deps/e2e_b\n3 9000 /usr/bin/vim\n 4 3600 /x/target/release/deps/e2e_c --q\n";
    let rows = parse_ps(text);
    assert_eq!(rows.len(), 2);
    assert!(rows.iter().all(|z| z.age_minutes >= 30 && is_e2e(&z.cmd)));
    assert_eq!(rows[0].pid, 1);
    assert_eq!(rows[1].pid, 4);
}
