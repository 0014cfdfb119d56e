use convergio_cli::spawn::{
    build_heartbeat_body, build_register_body, choose_host, cost_readings, event_text, evidence_path,
    heartbeat_path, observe_event, usage_payload, Json, TokenUsage, REGISTER_PATH,
};

fn obj(entries: Vec<(&str, Json)>) -> Json {
    Json::Object(entries.into_iter().map(|(k, v)| (k.to_string(), v)).collect())
}

fn num(n: u64) -> Json {
    Json::Number { as_u64: Some(n), text: n.to_string() }
}

fn float(text: &str) -> Json {
    Json::Number { as_u64: None, text: text.to_string() }
}

fn empty() -> TokenUsage {
    TokenUsage { input_tokens: None, output_tokens: None, model: None }
}

#[test]
fn register_body_has_stable_shape() {
    let body = build_register_body("runner-sonnet-abc1234", "vendor-a", "sonnet", "macOS-test", "task-7777");
    assert_eq!(body.id, "runner-sonnet-abc1234");
    assert_eq!(body.kind, "vendor-a");
    assert_eq!(body.host, "macOS-test");
    assert_eq!(body.metadata.spawned_by, "cvg agent spawn");
    assert_eq!(body.metadata.current_task_id, "task-7777");
    assert_eq!(body.capabilities, vec!["code".to_string(), "test".to_string()]);
    assert_eq!(body.name, "runner-sonnet-abc1234 (vendor-a/sonnet)");
}

#[test]
fn register_body_uses_kind_vendor_and_model() {
    let body = build_register_body("copilot-gpt-5.2-zzz", "copilot", "gpt-5.2", "h", "t");
    assert!(body.name.contains("copilot"), "name should mention vendor");
    assert!(body.name.contains("gpt"), "name should mention model");
}

#[test]
fn heartbeat_body_includes_task_when_present() {
    let body = build_heartbeat_body(Some("t1"), "working");
    assert_eq!(body.status, "working");
    assert_eq!(body.current_task_id.as_deref(), Some("t1"));
}

#[test]
fn heartbeat_body_omits_task_when_absent() {
    let body = build_heartbeat_body(None, "idle");
    assert_eq!(body.status, "idle");
    assert!(body.current_task_id.is_none());
}

#[test]
fn resolve_host_returns_non_empty() {
    assert_eq!(choose_host(None, None, None), "unknown");
    assert_eq!(choose_host(Some(""), None, Some("  ")), "unknown");
    assert_eq!(choose_host(Some(""), Some("box"), None), "box");
    assert_eq!(choose_host(None, None, Some(" build-7\n")), "build-7");
    assert_eq!(choose_host(Some("h1"), Some("h2"), Some("h3")), "h1");
}

#[test]
fn request_paths() {
    assert_eq!(REGISTER_PATH, "/v1/agent-registry/agents");
    assert_eq!(heartbeat_path("a1"), "/v1/agent-registry/agents/a1/heartbeat");
    assert_eq!(evidence_path("t1"), "/v1/tasks/t1/evidence");
}

#[test]
fn only_object_lines_are_events() {
    assert_eq!(event_text("  {\"a\":1}  ").as_deref(), Some("{\"a\":1}"));
    assert_eq!(event_text("[1]"), None);
    assert_eq!(event_text("   "), None);
}

#[test]
fn usage_takes_the_highest_counts_and_first_model() {
    let mut obs = empty();
    let first = obj(vec![
        ("type", Json::Str("assistant".into())),
        ("message", obj(vec![
            ("model", Json::Str("  sonnet-4 ".into())),
            ("usage", obj(vec![("input_tokens", num(100)), ("output_tokens", num(7))])),
        ])),
    ]);
    observe_event(&mut obs, &first);
    assert_eq!(obs.input_tokens, Some(100));
    assert_eq!(obs.output_tokens, Some(7));
    assert_eq!(obs.model.as_deref(), Some("sonnet-4"));
    let second = obj(vec![
        ("model", Json::Str("other".into())),
        ("usage", obj(vec![("input_tokens", num(90)), ("output_tokens", num(40))])),
    ]);
    observe_event(&mut obs, &second);
    assert_eq!(obs.input_tokens, Some(100));
    assert_eq!(obs.output_tokens, Some(40));
    assert_eq!(obs.model.as_deref(), Some("sonnet-4"));
}

#[test]
fn usage_without_token_keys_is_skipped() {
    let mut obs = empty();
    let v = Json::Array(vec![
        obj(vec![("usage", obj(vec![("cache", num(3))]))]),
        obj(vec![("inner", obj(vec![("usage", obj(vec![("output_tokens", num(5))]))]))]),
        obj(vec![("model", Json::Null)]),
    ]);
    observe_event(&mut obs, &v);
    assert_eq!(obs.input_tokens, None);
    assert_eq!(obs.output_tokens, Some(5));
    assert_eq!(obs.model, None);
}

#[test]
fn usage_payload_needs_both_counts() {
    let mut obs = empty();
    obs.input_tokens = Some(3);
    assert!(usage_payload("runner", &obs).is_none());
    obs.output_tokens = Some(4);
    let p = usage_payload("runner", &obs).unwrap();
    assert_eq!((p.input_tokens, p.output_tokens, p.model.as_str()), (3, 4, "runner"));
    obs.model = Some("m".into());
    assert_eq!(usage_payload("runner", &obs).unwrap().model, "m");
}

#[test]
fn cost_readings_follow_the_usage_object_then_any_cost_key() {
    let v = obj(vec![
        ("a", obj(vec![("total_cost", float("0.5"))])),
        ("usage", obj(vec![("input_tokens", num(1)), ("cost_usd", float("0.25"))])),
    ]);
    let (from_usage, anywhere) = cost_readings(&v);
    assert_eq!(from_usage.as_deref(), Some("0.25"));
    assert_eq!(anywhere.as_deref(), Some("0.5"));
    let w = obj(vec![("cost", Json::Str("free".into())), ("usd_cost", float("1e-3"))]);
    assert_eq!(cost_readings(&w), (None, Some("1e-3".to_string())));
    assert_eq!(cost_readings(&Json::Null), (None, None));
}
