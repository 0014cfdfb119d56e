use convergio_cli::templates::{
    list_human_lines, list_plain_lines, parse_params, show_lines, unknown_template, Template,
    TemplateParam, TemplateTask,
};

fn template() -> Template {
    Template {
        name: "vertical-accelerator-v1".into(),
        summary: "Stand up a vertical".into(),
        description: None,
        objective: "Ship".into(),
        title: "Vertical {domain}".into(),
        parameters: vec![
            TemplateParam { name: "domain".into(), help: "Domain name".into() },
            TemplateParam { name: "primary_language".into(), help: "Main language".into() },
        ],
        tasks: vec![
            TemplateTask { wave: 1, sequence: 1, title: "Scope".into() },
            TemplateTask { wave: 2, sequence: 3, title: "Build".into() },
        ],
    }
}

#[test]
fn malformed_param_errors() {
    let raw = vec!["no_equals_sign".to_string()];
    let err = parse_params(&raw).err().expect("a binding without = is refused");
    assert!(err.message().contains("expected key=value"));
}

#[test]
fn params_split_at_first_equals_and_trim() {
    let raw = vec![
        "domain=education".to_string(),
        " target_audience = K-12 teachers ".to_string(),
        "expr=a=b".to_string(),
    ];
    let v = parse_params(&raw).ok().unwrap();
    assert_eq!(
        v,
        vec![
            ("domain".to_string(), "education".to_string()),
            ("target_audience".to_string(), "K-12 teachers".to_string()),
            ("expr".to_string(), "a=b".to_string()),
        ]
    );
    let bad = vec!["a=1".to_string(), "oops".to_string(), "b=2".to_string()];
    assert_eq!(parse_params(&bad).err().unwrap().message(), "expected key=value, got `oops`");
}

#[test]
fn template_listing() {
    let ts = vec![template()];
    assert_eq!(
        list_human_lines(&ts),
        vec![
            "- vertical-accelerator-v1 (2 task(s))".to_string(),
            "    Stand up a vertical".to_string(),
            "    params: domain, primary_language".to_string(),
        ]
    );
    assert_eq!(list_plain_lines(&ts), vec!["vertical-accelerator-v1".to_string()]);
}

#[test]
fn template_description() {
    let mut t = template();
    t.description = Some("Long text".into());
    assert_eq!(
        show_lines(&t),
        vec![
            "template: vertical-accelerator-v1",
            "summary:  Stand up a vertical",
            "description: Long text",
            "objective:   Ship",
            "title:       Vertical {domain}",
            "parameters:",
            "  - domain: Domain name",
            "  - primary_language: Main language",
            "tasks (2):",
            "  - w1 s1 Scope",
            "  - w2 s3 Build",
        ]
    );
    assert_eq!(unknown_template("nope"), "unknown template: nope");
}
