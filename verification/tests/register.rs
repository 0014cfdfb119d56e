use convergio_cli::pages::{generate_site, h, render_algorithm_html, render_index_html};
use convergio_cli::register::{
    check_registry, validate_algorithms, validate_slug, validate_tenant_slug, AlgorithmEntry,
    AppealContact, BilingualText, ModelRef, Reference, RegistryError, ReleaseGateRegistry,
    RiskClass, SlugError,
};

fn bi(en: &str, it: &str) -> BilingualText {
    BilingualText { en: en.to_string(), it: it.to_string() }
}

fn entry(slug: &str, action: &str, t: &str) -> AlgorithmEntry {
    AlgorithmEntry {
        slug: slug.to_string(),
        action: action.to_string(),
        title: bi(t, t),
        purpose: bi(t, t),
        lawful_basis: bi(t, t),
        data_categories: vec![],
        model: ModelRef { name: "m".to_string(), version: None, provider: None },
        region: "EU".to_string(),
        oversight: bi(t, t),
        risk_class: RiskClass::Low,
        eval_scorecard: None,
        dpia_refs: vec![],
        ethics_refs: vec![],
        limitations: bi(t, t),
        appeal_contact: AppealContact { email: None, url: None, notes: None },
    }
}

fn summariser() -> AlgorithmEntry {
    AlgorithmEntry {
        slug: "doc-summariser".to_string(),
        action: "summarise_documents".to_string(),
        title: bi("Document summariser", "Riassuntore documenti"),
        purpose: bi("Provide summaries", "Fornire riassunti"),
        lawful_basis: bi("Public task", "Compito di interesse pubblico"),
        data_categories: vec![bi("Free-form text", "Testo libero")],
        model: ModelRef {
            name: "gpt-5.2".to_string(),
            version: Some("2026-05".to_string()),
            provider: Some("Example".to_string()),
        },
        region: "EU".to_string(),
        oversight: bi("Human review", "Revisione umana"),
        risk_class: RiskClass::Low,
        eval_scorecard: None,
        dpia_refs: vec![],
        ethics_refs: vec![],
        limitations: bi("May omit details", "Può omettere dettagli"),
        appeal_contact: AppealContact { email: None, url: None, notes: None },
    }
}

#[test]
fn validate_slug_rejects_unsafe() {
    assert!(validate_slug("").is_err());
    assert!(validate_slug("..").is_err());
    assert!(validate_slug("a/b").is_err());
    assert!(validate_slug("UPPER").is_err());
    assert!(validate_slug("white space").is_err());
    assert!(validate_slug("ü").is_err());
}

#[test]
fn validate_slug_reasons() {
    assert!(validate_slug("") == Err(SlugError::Empty));
    assert!(validate_slug(".") == Err(SlugError::Unsafe));
    assert!(validate_slug("a\\b") == Err(SlugError::Unsafe));
    assert!(validate_slug("Abc") == Err(SlugError::Charset));
    assert!(validate_slug("doc-summariser_v1.2").is_ok());
    assert!(validate_tenant_slug("acme").is_ok());
    assert_eq!(SlugError::Charset.message(), "slug must be lowercase ASCII [a-z0-9._-]");
}

#[test]
fn validate_algorithms_rejects_duplicate_action() {
    let algos = vec![entry("a", "same", "A"), entry("b", "same", "B")];
    let err = validate_algorithms(&algos).unwrap_err();
    assert!(err.message().contains("duplicate AI Action"));
}

#[test]
fn validate_algorithms_reports_first_problem() {
    let algos = vec![entry("a", "x", "A"), entry("a", "y", "B"), entry("B", "x", "C")];
    match validate_algorithms(&algos) {
        Err(RegistryError::DuplicateSlug { slug }) => assert_eq!(slug, "a"),
        _ => panic!("expected a duplicate slug"),
    }
    let algos = vec![entry("Bad", "x", "A")];
    let e = validate_algorithms(&algos).unwrap_err();
    assert_eq!(e.message(), "invalid algorithm slug 'Bad'");
    assert!(validate_algorithms(&vec![entry("a", "x", "A"), entry("b", "y", "B")]).is_ok());
}

#[test]
fn check_registry_order_of_checks() {
    let doc = ReleaseGateRegistry {
        schema_version: "2".to_string(),
        tenant: Some("other".to_string()),
        generated_at: None,
        algorithms: vec![],
    };
    assert_eq!(
        check_registry(&doc, "acme").unwrap_err().message(),
        "unsupported registry schema_version '2' (expected '1')"
    );
    assert_eq!(check_registry(&doc, "ACME").unwrap_err().message(), "invalid tenant slug");
    let doc = ReleaseGateRegistry { schema_version: "1".to_string(), ..doc };
    assert_eq!(
        check_registry(&doc, "acme").unwrap_err().message(),
        "registry tenant 'other' does not match --tenant 'acme'"
    );
}

#[test]
fn generate_writes_index_and_pages() {
    let doc = ReleaseGateRegistry {
        schema_version: "1".to_string(),
        tenant: Some("acme".to_string()),
        generated_at: Some("2026-05-26T00:00:00Z".to_string()),
        algorithms: vec![summariser()],
    };
    let files = generate_site(&doc, "acme").ok().expect("site");
    assert_eq!(files.len(), 2);
    assert_eq!(files[0].path, "index.html");
    assert_eq!(files[1].path, "doc-summariser/index.html");
    assert!(files[0].html.contains("Algorithm Register"));
    assert!(files[0].html.contains("doc-summariser"));
    assert!(files[1].html.contains("summarise_documents"));
    assert!(files[1].html.contains("none / nessuno"));
}

#[test]
fn escaping_neutralises_markup() {
    assert_eq!(h("<a href='x'>&\"</a>"), "&lt;a href=&#39;x&#39;&gt;&amp;&quot;&lt;/a&gt;");
    let out = h("<script>alert(\"x\")</script>");
    assert!(!out.contains('<') && !out.contains('>') && !out.contains('"') && !out.contains('\''));
}

#[test]
fn index_page_lists_algorithms_in_order() {
    let algos = vec![entry("b", "y", "Bee"), entry("a", "x", "Ay")];
    let html = render_index_html("acme", &None, &algos);
    assert!(html.starts_with("<!doctype html>\n<html lang=\"en\">"));
    assert!(html.contains("<title>Algorithm Register</title>"));
    let b = html.find("href=\"b/\"").unwrap();
    let a = html.find("href=\"a/\"").unwrap();
    assert!(b < a);
    assert!(!html.contains("Generated:"));
    let empty = render_index_html("acme", &Some("t<1".to_string()), &vec![]);
    assert!(empty.contains("<p>No algorithms / Nessun algoritmo.</p>\n"));
    assert!(empty.contains("<p><strong>Generated:</strong> t&lt;1 </p>\n"));
}

#[test]
fn algorithm_page_rows() {
    let mut a = summariser();
    a.appeal_contact.email = Some("dpo@example.org".to_string());
    a.dpia_refs = vec![Reference { title: bi("DPIA", "VIP"), url: "https://x/y".to_string() }];
    let html = render_algorithm_html("acme", &None, &a);
    assert!(html.contains("<title>Algorithm: doc-summariser</title>"));
    assert!(html.contains("<div class=\"muted\">Version: 2026-05</div>"));
    assert!(html.contains("<div class=\"muted\">Provider: Example</div>"));
    assert!(html.contains("<dt>Risk class / Classe di rischio</dt><dd>low</dd>\n"));
    assert!(html.contains("<div>Email: <a href=\"mailto:dpo@example.org\">dpo@example.org</a></div></dd>\n"));
    assert!(html.contains("<dt>DPIA refs / Riferimenti DPIA</dt><dd><ul><li><a href=\"https://x/y\">DPIA</a><br/><span class=\"muted\">VIP</span></li></ul></dd>\n"));
    assert!(html.contains("<dt>Ethics refs / Riferimenti etici</dt><dd><span class=\"muted\">(none / nessuno)</span></dd>\n"));
    assert!(html.contains("<strong>Slug:</strong> doc-summariser</p>\n"));
}

#[test]
fn generate_site_refuses_bad_registry() {
    let doc = ReleaseGateRegistry {
        schema_version: "1".to_string(),
        tenant: None,
        generated_at: None,
        algorithms: vec![entry("a", "x", "A"), entry("a", "y", "B")],
    };
    assert!(generate_site(&doc, "acme").is_err());
}

#[test]
fn escaping_decodes_back_to_its_input() {
    let input = "a&b<c>d\"e'f &amp;";
    let escaped = h(input);
    assert_eq!(escaped, "a&amp;b&lt;c&gt;d&quot;e&#39;f &amp;amp;");
    let decoded = escaped
        .replace("&lt;", "<")
        .replace("&gt;", ">")
        .replace("&quot;", "\"")
        .replace("&#39;", "'")
        .replace("&amp;", "&");
    assert_eq!(decoded, input);
}

#[test]
fn index_page_has_one_list_item_per_algorithm() {
    let algos = vec![entry("b", "<li>", "Bee"), entry("a", "x", "<li>Ay"), entry("c", "z", "Cee")];
    let html = render_index_html("acme<li>", &Some("<li>".to_string()), &algos);
    assert_eq!(html.matches("<li>").count(), 3);
    assert_eq!(render_index_html("acme", &None, &vec![]).matches("<li>").count(), 0);
}
