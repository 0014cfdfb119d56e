use convergio_cli::gateway::{
    build_call_body, output_text, prompt_source, reply_lines, CallInput, LlmReply, PromptSource,
};

fn reply(strings: &[(&str, &str)], json: &str) -> LlmReply {
    LlmReply {
        result_strings: strings.iter().map(|(k, v)| (k.to_string(), v.to_string())).collect(),
        result_json: json.to_string(),
        provider_id: None,
        cache_hit: None,
        injection_flagged: None,
    }
}

fn input() -> CallInput {
    CallInput {
        purpose: "demo".into(),
        model: "test-model".into(),
        prompt: "ping".into(),
        max_tokens: None,
        retrieval_set_hash: None,
        expected_schema: None,
    }
}

#[test]
fn output_text_prefers_known_keys() {
    assert_eq!(output_text(&reply(&[("output_text", "hi")], r#"{"output_text":"hi"}"#)), "hi");
    assert_eq!(output_text(&reply(&[("text", "yo")], r#"{"text":"yo"}"#)), "yo");
}

#[test]
fn output_text_falls_back_to_json() {
    assert_eq!(output_text(&reply(&[], r#"{"choices":[1]}"#)), r#"{"choices":[1]}"#);
}

#[test]
fn output_text_takes_keys_in_order() {
    let r = reply(&[("completion", "c"), ("content", "b"), ("other", "x")], "{}");
    assert_eq!(output_text(&r), "b");
}

#[test]
fn reply_lines_add_the_summary_in_human_view() {
    let mut r = reply(&[("text", "answer")], "{}");
    assert_eq!(reply_lines(&r, false), vec!["answer".to_string()]);
    assert_eq!(reply_lines(&r, true)[1], "— provider=? cache_hit=false");
    r.provider_id = Some("p1".into());
    r.cache_hit = Some(true);
    r.injection_flagged = Some(true);
    assert_eq!(reply_lines(&r, true)[1], "— provider=p1 cache_hit=true injection_flagged=true");
}

#[test]
fn body_has_required_fields_only_by_default() {
    let body = build_call_body(input());
    assert_eq!(body.purpose, "demo");
    assert_eq!(body.model_id, "test-model");
    assert_eq!(body.prompt, "ping");
    assert!(body.max_output_tokens.is_none());
    assert!(body.retrieval_set_hash.is_none());
    assert!(body.expected_output_schema.is_none());
}

#[test]
fn body_includes_optional_fields_when_set() {
    let mut input = input();
    input.max_tokens = Some(128);
    input.retrieval_set_hash = Some("abc123".into());
    input.expected_schema = Some(r#"{"type":"object"}"#.into());
    let body = build_call_body(input);
    assert_eq!(body.max_output_tokens, Some(128));
    assert_eq!(body.retrieval_set_hash.as_deref(), Some("abc123"));
    assert_eq!(body.expected_output_schema.as_deref(), Some(r#"{"type":"object"}"#));
}

#[test]
fn resolve_prompt_uses_literal_text() {
    assert!(matches!(prompt_source(Some("hello"), false), Ok(PromptSource::Literal(t)) if t == "hello"));
}

#[test]
fn resolve_prompt_reads_stdin_for_dash() {
    assert!(matches!(prompt_source(Some("-"), false), Ok(PromptSource::Stdin)));
}

#[test]
fn resolve_prompt_reads_file_over_literal() {
    assert!(matches!(prompt_source(Some("ignored"), true), Ok(PromptSource::File)));
}

#[test]
fn resolve_prompt_errors_without_source() {
    match prompt_source(None, false) {
        Err(e) => assert!(e.message().contains("a prompt is required")),
        Ok(_) => panic!("a prompt source was invented"),
    }
}
