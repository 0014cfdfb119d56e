use convergio_cli::capability::{
    baked_in_bytes, check_key_id, entry_to_revoke, overlay_file_name, run_install_capability,
    safe_filename, single_entry, trust_change_line, axe_hint_lines, platform_key, AxeDescriptor,
    PlatformHint,
};

#[test]
fn only_a11y_axe_has_an_install_hint() {
    assert!(run_install_capability("a11y-axe").is_ok());
    let e = run_install_capability("other").unwrap_err();
    assert_eq!(e.name, "other");
    assert_eq!(
        e.message(),
        "unknown capability `other`; only `a11y-axe` is supported by this command"
    );
}

#[test]
fn overlay_names_are_file_safe() {
    assert_eq!(safe_filename("key/../id é"), "key____id__");
    assert_eq!(overlay_file_name("20260101", "k:1", false), "20260101-k_1.json");
    assert_eq!(overlay_file_name("20260101", "k:1", true), "20260101-k_1-revoked.json");
    assert_eq!(baked_in_bytes(), b"[]".to_vec());
}

#[test]
fn trust_add_and_revoke_rules() {
    assert!(single_entry(None).is_ok());
    assert!(single_entry(Some(1)).is_ok());
    match single_entry(Some(2)) {
        Err(e) => assert_eq!(e.message(), "trust-store add expects exactly one entry, got 2"),
        Ok(()) => panic!("two entries accepted"),
    }
    assert!(check_key_id("ops").is_ok());
    assert_eq!(check_key_id("").unwrap_err().message(), "trust-store entry has empty key_id");
    let ids = vec!["a".to_string(), "ops".to_string(), "ops".to_string()];
    assert_eq!(entry_to_revoke(&ids, "ops").ok(), Some(1));
    assert_eq!(entry_to_revoke(&ids, "zz").unwrap_err().message(), "no trust-store entry with key_id `zz`");
}

#[test]
fn trust_change_lines() {
    assert_eq!(trust_change_line("k1", "/o/x.json", false, false), "added=k1 path=/o/x.json");
    assert_eq!(trust_change_line("k1", "/o/x.json", false, true), "added trust-store entry `k1` → /o/x.json");
    assert_eq!(trust_change_line("k1", "/o/y.json", true, false), "revoked=k1 path=/o/y.json");
    assert_eq!(trust_change_line("k1", "/o/y.json", true, true), "revoked trust-store entry `k1` via /o/y.json");
}

#[test]
fn axe_hint_for_listed_and_unlisted_platforms() {
    assert_eq!(platform_key("linux", "x86_64"), "linux-x86_64");
    let mut d = AxeDescriptor {
        version: Some("4.9".into()),
        env_var: None,
        description: Some("Accessibility audits".into()),
        platform: Some(PlatformHint { install_hint: Some("npm i -g @axe-core/cli".into()), url: None }),
    };
    assert_eq!(
        axe_hint_lines(&d, "linux-x86_64"),
        vec![
            "capability: a11y-axe v4.9",
            "  Accessibility audits",
            "",
            "platform: linux-x86_64",
            "  url:          ",
            "",
            "run:",
            "  npm i -g @axe-core/cli",
            "",
            "then wire it up:",
            "  export CONVERGIO_A11Y_AXE_BIN=$(which axe)",
        ]
    );
    d.platform = None;
    d.env_var = Some("AXE".into());
    let lines = axe_hint_lines(&d, "plan9-mips");
    assert_eq!(lines[3], "platform `plan9-mips` is not listed in the descriptor.");
    assert_eq!(lines[5], "  export AXE=$(which axe)");
    assert_eq!(lines.len(), 6);
}
