use convergio_cli::merge_driver::{
    attributes_with_driver, driver_config, merge_file_args, merge_verdict,
};
use convergio_cli::ontology::{import_line, ImportReport};

#[test]
fn driver_is_configured_by_name_and_command() {
    assert_eq!(
        driver_config(),
        vec![
            ("merge.cvg-auto-blocks.name", "Convergio AUTO-blocks merge driver"),
            (
                "merge.cvg-auto-blocks.driver",
                "cvg docs merge-driver %O %A %B --conflict-marker-size %L --path %P"
            ),
        ]
    );
}

#[test]
fn attributes_line_is_added_once() {
    let first = attributes_with_driver("*.rs diff=rust\n").unwrap();
    assert_eq!(first, "*.rs diff=rust\n*.md merge=cvg-auto-blocks\n");
    assert_eq!(attributes_with_driver(&first), None);
    assert_eq!(attributes_with_driver("").as_deref(), Some("*.md merge=cvg-auto-blocks\n"));
}

#[test]
fn merge_file_takes_the_marker_size() {
    assert_eq!(merge_file_args(7), vec!["merge-file", "-q", "--marker-size=7"]);
}

#[test]
fn verdict_flags_leftover_conflicts() {
    assert_eq!(merge_verdict("clean\ntext\n", 7), 0);
    assert_eq!(merge_verdict("a\n<<<<<<< ours\nb\n", 7), 1);
    assert_eq!(merge_verdict("a << b", 7), 0);
}

#[test]
fn import_report_lines() {
    let r = ImportReport { objects: Some(3), properties: None, links: Some(1) };
    assert_eq!(import_line(&r, false), "3\t0\t1");
    assert_eq!(import_line(&r, true), "imported 3 object(s), 0 property(ies), 1 link(s)");
}
