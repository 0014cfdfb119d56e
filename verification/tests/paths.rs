use convergio_cli::cli::{audit_verify_path, compensate_path, embed_stats_path};
use convergio_cli::ontology::{
    branch_diff_path, describe_path, diff_path, export_path, lineage_path, ExportFormatArg,
    GraphFormatArg, TypeKindArg,
};

#[test]
fn audit_paths() {
    assert_eq!(audit_verify_path(None, None), "/v1/audit/verify?");
    assert_eq!(audit_verify_path(Some(3), Some(-1)), "/v1/audit/verify?from=3&to=-1&");
    assert_eq!(compensate_path(42, true), "/v1/audit/events/42/compensate?apply=true");
    assert_eq!(compensate_path(42, false), "/v1/audit/events/42/compensate");
}

#[test]
fn embed_stats_path_encodes_repo() {
    assert_eq!(embed_stats_path(None), "/v1/embed/stats");
    assert_eq!(embed_stats_path(Some("my repo")), "/v1/embed/stats?repo=my%20repo");
}

#[test]
fn ontology_paths() {
    assert_eq!(describe_path(TypeKindArg::Object, "Task", None), "/v1/ontology/types/object/Task");
    assert_eq!(
        describe_path(TypeKindArg::Link, "owns", Some(2)),
        "/v1/ontology/types/link/owns?version=2"
    );
    assert_eq!(
        export_path(ExportFormatArg::Jsonschema, "Task", Some(7)),
        "/v1/ontology/export/jsonschema/object/Task?version=7"
    );
    assert_eq!(
        diff_path("Task", 1, 3, GraphFormatArg::Mermaid),
        "/v1/ontology/diff/object/Task?from=1&to=3&format=mermaid"
    );
    assert_eq!(lineage_path("Task", GraphFormatArg::Dot), "/v1/ontology/lineage/object/Task?format=dot");
    assert_eq!(
        branch_diff_path("Task", GraphFormatArg::Json),
        "/v1/ontology/branch-diff/object/Task?format=json"
    );
    assert_eq!(ExportFormatArg::Jsonschema.as_path(), "jsonschema");
    assert_eq!(GraphFormatArg::Mermaid.as_query(), "mermaid");
}
