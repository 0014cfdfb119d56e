use chrono::{DateTime, TimeZone, Utc};
use convergio_cli::cells::{color_status, relative_ago_secs, relative_secs, truncate};

fn now_fixed() -> DateTime<Utc> {
    Utc.with_ymd_and_hms(2026, 5, 4, 12, 0, 0).unwrap()
}

fn at(secs_ago: i64) -> DateTime<Utc> {
    now_fixed() - chrono::Duration::seconds(secs_ago)
}

fn relative(ts: &DateTime<Utc>, now: &DateTime<Utc>) -> String {
    relative_secs((*now - *ts).num_seconds())
}

#[test]
fn relative_formats_each_bucket() {
    assert_eq!(relative(&at(30), &now_fixed()), "30s");
    assert_eq!(relative(&at(120), &now_fixed()), "2m");
    assert_eq!(relative(&at(3600), &now_fixed()), "1h");
    assert_eq!(relative(&at(60 * 60 * 24 * 5), &now_fixed()), "5d");
}

#[test]
fn relative_clamps_future_to_zero() {
    let future = now_fixed() + chrono::Duration::seconds(99);
    assert_eq!(relative(&future, &now_fixed()), "0s");
}

#[test]
fn relative_ago_opt_handles_none() {
    assert_eq!(relative_ago_secs(None), "-");
}

#[test]
fn relative_bucket_edges() {
    assert_eq!(relative_secs(59), "59s");
    assert_eq!(relative_secs(60), "1m");
    assert_eq!(relative_secs(3599), "59m");
    assert_eq!(relative_secs(86399), "23h");
    assert_eq!(relative_secs(86400), "1d");
    assert_eq!(relative_ago_secs(Some(120)), "2m ago");
}

#[test]
fn relative_never_passes_six_characters() {
    assert_eq!(relative_secs(99_999 * 86_400), "99999d");
    assert_eq!(relative_secs(100_000 * 86_400), "99999d");
    assert_eq!(relative_secs(i64::MAX), "99999d");
    assert!(relative_secs(i64::MAX).chars().count() <= 6);
}

#[test]
fn truncate_appends_ellipsis_only_when_needed() {
    assert_eq!(truncate("short", 10), "short");
    assert_eq!(truncate("abcdef", 4), "abc…");
    assert_eq!(truncate("", 4), "");
}

#[test]
fn truncate_handles_unicode() {
    assert_eq!(truncate("café-bar", 5), "café…");
}

#[test]
fn truncate_result_fits_and_is_stable() {
    let once = truncate("abcdefghij", 6);
    assert!(once.chars().count() <= 6);
    assert_eq!(truncate(&once, 6), once);
    assert_eq!(truncate("abcdef", 6), "abcdef");
}

#[test]
fn color_status_is_idempotent_in_shape() {
    let out = color_status("working");
    assert!(out.contains("working"));
    assert!(out.starts_with("\x1b["));
    assert!(out.ends_with("\x1b[0m"));
}
