use convergio_cli::monitor::{
    advance_cursor, colour_for, entry_line, events_path, glyph_for, header_label, poll_period, short,
    start_cursor, AuditEvent, TAIL_PATH,
};

#[test]
fn glyph_for_refusal_is_x() {
    assert_eq!(glyph_for("task.refused"), "✗");
    assert_eq!(glyph_for("gate.failed"), "✗");
}

#[test]
fn glyph_for_happy_path_is_check() {
    assert_eq!(glyph_for("task.done"), "✓");
    assert_eq!(glyph_for("plan.validated"), "✓");
}

#[test]
fn glyph_for_unknown_is_dot() {
    assert_eq!(glyph_for("something.unknown"), "·");
}

#[test]
fn short_truncates_long_ids() {
    assert_eq!(short("abcdefghij"), "abcdefgh…");
}

#[test]
fn short_passes_through_ids_under_cap() {
    assert_eq!(short("abc"), "abc");
    assert_eq!(short("12345678"), "12345678");
}

#[test]
fn colour_for_refusal_is_brand_magenta() {
    assert_eq!(colour_for("task.refused"), (255, 0, 180));
}

#[test]
fn colour_for_done_is_brand_cyan() {
    assert_eq!(colour_for("task.done"), (0, 200, 255));
}

fn event(created_at: &str, transition: &str, agent: Option<&str>) -> AuditEvent {
    AuditEvent {
        seq: 1,
        entity_type: "task".to_string(),
        entity_id: "abcdefghijkl".to_string(),
        transition: transition.to_string(),
        agent_id: agent.map(str::to_string),
        created_at: created_at.to_string(),
    }
}

#[test]
fn entry_line_shows_time_glyph_and_short_id() {
    let e = event("2026-05-01T12:34:56.789Z", "task.done", Some("agent-1"));
    assert_eq!(
        entry_line(&e, false),
        format!("12:34:56  \u{2713}  {:<24}  {:>12}=abcdefgh\u{2026}  agent=agent-1", "task.done", "task")
    );
    let e = event("no-time-here", "task.refused", None);
    let line = entry_line(&e, true);
    assert!(line.starts_with("\x1b[38;2;255;0;180mno-time-here  \u{2717}  "));
    assert!(line.ends_with("  agent=-\x1b[0m"));
}

#[test]
fn entry_time_stops_at_second_t_and_dot() {
    let e = event("2026T10:00:00Tz.5", "x", None);
    assert!(entry_line(&e, false).starts_with("10:00:00  "));
}

#[test]
fn cursor_follows_the_highest_seq() {
    assert_eq!(advance_cursor(5, &vec![3, 9, 7]), 9);
    assert_eq!(advance_cursor(12, &vec![3, 9]), 12);
    assert_eq!(start_cursor(&None), 0);
    assert_eq!(start_cursor(&Some(vec![])), 0);
    assert_eq!(start_cursor(&Some(vec![4, 11, 2])), 11);
    assert_eq!(events_path(11), "/v1/audit/events?after_seq=11&limit=200");
    assert_eq!(TAIL_PATH, "/v1/audit/events?after_seq=0&limit=1000");
}

#[test]
fn poll_period_is_clamped() {
    assert_eq!(poll_period(0), 1);
    assert_eq!(poll_period(5), 5);
    assert_eq!(poll_period(600), 60);
}

#[test]
fn header_label_dims_only_with_colour() {
    assert_eq!(header_label(false), "  Live audit stream \u{2014} Ctrl-C to exit.");
    assert_eq!(header_label(true), "\x1b[2m  Live audit stream \u{2014} Ctrl-C to exit.\x1b[0m");
}
