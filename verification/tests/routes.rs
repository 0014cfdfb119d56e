use convergio_cli::routes::{
    report_human_lines, report_plain_lines, HumanLine,
    between, diff, distinct_pairs, report, split_methods_from_detail, RouteEntry, Violation,
};

fn route(method: &str, path: &str, file: &str) -> RouteEntry {
    RouteEntry {
        path: path.to_string(),
        methods: vec![method.to_string()],
        file: file.to_string(),
    }
}

fn kinds(v: &[Violation]) -> Vec<&str> {
    v.iter().map(|x| x.kind.as_str()).collect()
}

#[test]
fn diff_buckets() {
    let code = vec![
        route("GET", "/v1/health", "routes/health.rs"),
        route("POST", "/v1/plans", "routes/plans.rs"),
    ];
    let docs = vec![
        route("GET", "/v1/health", "ARCHITECTURE.md"),
        route("GET", "/v1/audit", "ARCHITECTURE.md"),
    ];
    let v = diff(&code, &docs);
    let ks = kinds(&v);
    assert!(ks.contains(&"missing_in_docs"));
    assert!(ks.contains(&"missing_in_code"));
    assert!(v.iter().any(|x| x.path == "/v1/plans"));
    assert!(v.iter().any(|x| x.path == "/v1/audit"));
}

#[test]
fn diff_method_mismatch() {
    let code = vec![RouteEntry {
        path: "/v1/plans".into(),
        methods: vec!["GET".to_string(), "POST".to_string()],
        file: "routes/plans.rs".into(),
    }];
    let docs = vec![route("GET", "/v1/plans", "ARCHITECTURE.md")];
    let v = diff(&code, &docs);
    assert!(v.iter().any(|x| x.kind == "method_mismatch"));
}

#[test]
fn split_methods_extracts_pair() {
    let d = "/v1/x: code methods [GET,POST] differ from doc methods [GET]";
    let (c, doc) = split_methods_from_detail(d);
    assert_eq!(c, "GET,POST");
    assert_eq!(doc, "GET");
}

#[test]
fn diff_items_are_exact_and_ordered() {
    let code = vec![
        route("POST", "/v1/plans", "routes/plans.rs"),
        route("GET", "/v1/plans", "routes/plans2.rs"),
        route("DELETE", "/v1/x", "routes/x.rs"),
        route("GET", "/v1/x", "routes/x.rs"),
        RouteEntry {
            path: "/v1/y".into(),
            methods: vec!["PUT".into(), "GET".into(), "PUT".into()],
            file: "routes/y.rs".into(),
        },
    ];
    let docs = vec![
        route("GET", "/v1/audit", "AGENTS.md"),
        route("GET", "/v1/y", "ARCHITECTURE.md"),
    ];
    let v = diff(&code, &docs);
    let rows: Vec<(&str, &str, &str, &str)> = v
        .iter()
        .map(|x| (x.kind.as_str(), x.path.as_str(), x.method.as_str(), x.file.as_str()))
        .collect();
    assert_eq!(
        rows,
        vec![
            ("method_mismatch", "/v1/y", "", "routes/y.rs"),
            ("missing_in_code", "/v1/audit", "GET", "AGENTS.md"),
            ("missing_in_docs", "/v1/plans", "GET", "routes/plans.rs"),
            ("missing_in_docs", "/v1/plans", "POST", "routes/plans.rs"),
            ("missing_in_docs", "/v1/x", "DELETE", "routes/x.rs"),
            ("missing_in_docs", "/v1/x", "GET", "routes/x.rs"),
        ]
    );
    assert_eq!(
        v[0].detail,
        "/v1/y: code methods [GET,PUT] differ from doc methods [GET]"
    );
    assert_eq!(
        v[1].detail,
        "GET /v1/audit documented but no axum route declares it"
    );
    assert_eq!(
        v[2].detail,
        "GET /v1/plans declared in code but absent from ARCHITECTURE.md / AGENTS.md"
    );
    let (c, d) = split_methods_from_detail(&v[0].detail);
    assert_eq!((c.as_str(), d.as_str()), ("GET,PUT", "GET"));
}

#[test]
fn diff_of_matching_sides_is_empty() {
    let code = vec![route("GET", "/v1/health", "routes/health.rs")];
    let docs = vec![route("GET", "/v1/health", "ARCHITECTURE.md")];
    assert!(diff(&code, &docs).is_empty());
}

#[test]
fn report_counts_distinct_pairs() {
    let code = vec![
        route("GET", "/a", "f"),
        route("GET", "/a", "g"),
        RouteEntry { path: "/b".into(), methods: vec!["GET".into(), "POST".into()], file: "h".into() },
    ];
    let docs = vec![route("GET", "/a", "d")];
    assert_eq!(distinct_pairs(&code), 3);
    let r = report(&code, &docs);
    assert_eq!(r.code_routes, 3);
    assert_eq!(r.doc_routes, 1);
    assert_eq!(r.violations.len(), 2);
}

#[test]
fn between_needs_both_markers() {
    assert_eq!(between("a[b]c", "[", "]"), Some("b".to_string()));
    assert_eq!(between("a[bc", "[", "]"), None);
    assert_eq!(between("abc", "[", "]"), None);
    assert_eq!(split_methods_from_detail("nothing here"), (String::new(), String::new()));
}

#[test]
fn report_outputs() {
    let code = vec![route("GET", "/a", "f.rs")];
    let docs = vec![route("POST", "/a", "d.md")];
    let r = report(&code, &docs);
    assert_eq!(
        report_plain_lines(&r),
        vec!["code_routes=1 doc_routes=1 violations=1".to_string(), "method_mismatch  /a f.rs".to_string()]
    );
    let h = report_human_lines(&r);
    assert_eq!(h.len(), 3);
    match &h[2] {
        HumanLine::Item { key, args } => {
            assert_eq!(key, "coherence-routes-method-mismatch");
            assert_eq!(args[1], ("code_methods".to_string(), "GET".to_string()));
            assert_eq!(args[2], ("doc_methods".to_string(), "POST".to_string()));
        }
        _ => panic!("expected an item"),
    }
    let clean = report(&code, &code);
    match &report_human_lines(&clean)[1] {
        HumanLine::Message { key, args } => {
            assert_eq!(key, "coherence-routes-ok");
            assert!(args.is_empty());
        }
        _ => panic!("expected the all-clear"),
    }
}

#[test]
fn mismatch_detail_gives_back_both_method_sets() {
    let code = vec![
        route("POST", "/v1/x", "routes/x.rs"),
        route("GET", "/v1/x", "routes/x.rs"),
    ];
    let docs = vec![route("DELETE", "/v1/x", "API.md")];
    let v = diff(&code, &docs);
    let m = v.iter().find(|x| x.kind == "method_mismatch").unwrap();
    let (c, d) = split_methods_from_detail(&m.detail);
    assert_eq!(c, "GET,POST");
    assert_eq!(d, "DELETE");
}
