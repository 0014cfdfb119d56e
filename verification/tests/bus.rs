use convergio_cli::bus::{
    payload_kind, EnvelopeView,
    follow_step, stream_url, FollowAction, StreamOutcome,
    drain_event_data, messages_path, no_open_plan, open_plan, posted_line, tail_human_lines,
    tail_plain_line, topic_plain_line, topics_human_lines, topics_path, PlanRecord, TailMessage,
    TopicSummary,
};

#[test]
fn drain_parses_two_consecutive_events() {
    let mut buf = String::from(
        "event: bus\ndata: {\"seq\":1,\"topic\":\"t\",\"sender\":\"a\",\"payload\":{\"type\":\"x\"},\"created_at\":\"2026-05-04T12:00:00Z\"}\n\nevent: bus\ndata: {\"seq\":2,\"topic\":\"t\",\"sender\":null,\"payload\":{},\"created_at\":\"2026-05-04T12:00:01Z\"}\n\n",
    );
    let datas = drain_event_data(&mut buf);
    let envs: Vec<serde_json::Value> = datas
        .iter()
        .map(|d| serde_json::from_str(d).unwrap())
        .collect();
    assert_eq!(envs.len(), 2);
    assert_eq!(envs[0]["seq"], 1);
    assert!(envs[1]["sender"].is_null());
    assert!(buf.is_empty());
}

#[test]
fn drain_keeps_partial_event() {
    let mut buf = String::from("event: bus\ndata: {\"seq\":1");
    let envs = drain_event_data(&mut buf);
    assert!(envs.is_empty());
    assert!(buf.starts_with("event: bus"));
}

#[test]
fn drain_skips_keepalive_comment() {
    let mut buf = String::from(": keepalive\n\n");
    let envs = drain_event_data(&mut buf);
    assert!(envs.is_empty());
    assert!(buf.is_empty());
}

#[test]
fn drain_takes_last_data_line_and_trims() {
    let mut buf = String::from("data: one\ndata:   two  \n\ndata: three\n");
    let envs = drain_event_data(&mut buf);
    assert_eq!(envs, vec!["two".to_string()]);
    assert_eq!(buf, "data: three\n");
}

fn msg(seq: Option<i64>, topic: Option<&str>, kind: Option<&str>, consumed: bool) -> TailMessage {
    TailMessage {
        seq,
        topic: topic.map(str::to_string),
        sender: Some("agent-1".to_string()),
        consumed,
        kind: kind.map(str::to_string),
    }
}

#[test]
fn tail_lines_plain_and_human() {
    let ms = vec![
        msg(Some(7), Some("build"), Some("result"), true),
        msg(None, None, Some(""), false),
        msg(Some(1234), Some("x"), None, false),
    ];
    assert_eq!(tail_plain_line(&ms[0]), "seq=7 topic=build sender=agent-1");
    assert_eq!(tail_plain_line(&ms[1]), "seq=0 topic=? sender=agent-1");
    assert_eq!(
        tail_human_lines("p1", &ms),
        vec![
            "Plan p1 — 3 message(s)".to_string(),
            "  seq   7 [build] sender=agent-1 result [acked]".to_string(),
            "  seq   0 [?] sender=agent-1".to_string(),
            "  seq 1234 [x] sender=agent-1".to_string(),
        ]
    );
}

#[test]
fn topics_and_post_lines() {
    let t = TopicSummary { topic: Some("build".into()), count: Some(3), last_seq: Some(9), last_at: None };
    assert_eq!(topic_plain_line(&t), "topic=build count=3 last_seq=9");
    assert_eq!(
        topics_human_lines("p1", &vec![t]),
        vec!["Plan p1 (1 topics)".to_string(), "  - build (3 msgs, last seq=9 at ?)".to_string()]
    );
    assert_eq!(topics_path("p1"), "/v1/plans/p1/topics");
    assert_eq!(messages_path("p1"), "/v1/plans/p1/messages");
    assert_eq!(posted_line("build", "p1", Some(4), &None, true), "Posted to build on plan p1 as seq 4.");
    assert_eq!(posted_line("build", "p1", None, &Some("m1".into()), false), "seq=0 id=m1");
}

fn plan(id: &str, project: Option<&str>, status: &str, at: &str) -> PlanRecord {
    PlanRecord {
        id: id.to_string(),
        project: project.map(str::to_string),
        status: status.to_string(),
        updated_at: at.to_string(),
    }
}

#[test]
fn open_plan_is_the_latest_open_one_of_the_project() {
    let plans = vec![
        plan("a", Some("proj"), "active", "2026-05-01T10:00:00Z"),
        plan("b", Some("proj"), "done", "2026-05-02T10:00:00Z"),
        plan("c", Some("other"), "active", "2026-05-03T10:00:00Z"),
        plan("d", Some("proj"), "draft", "2026-05-01T12:00:00Z"),
        plan("e", None, "active", "2026-05-04T10:00:00Z"),
        plan("f", Some("proj"), "active", "2026-05-01T12:00:00Z"),
    ];
    assert_eq!(open_plan(&plans, "proj"), Some(5));
    assert_eq!(open_plan(&plans, "other"), Some(2));
    assert_eq!(open_plan(&plans, "none"), None);
    assert_eq!(no_open_plan("none"), "no open plan found for project=none");
}

#[test]
fn follow_reconnects_after_the_last_seen_message() {
    assert_eq!(
        stream_url("http://h:1", "p1", Some("build"), 5),
        "http://h:1/v1/plans/p1/messages/stream?since=5&topic=build"
    );
    assert_eq!(stream_url("", "p1", None, 0), "/v1/plans/p1/messages/stream?since=0");
    assert!(follow_step(5, StreamOutcome::Ended(Some(9)), true)
        == FollowAction::Reconnect { cursor: 9, delay_ms: 500, notice: true });
    assert!(follow_step(5, StreamOutcome::Ended(None), false)
        == FollowAction::Reconnect { cursor: 5, delay_ms: 500, notice: false });
    assert!(follow_step(5, StreamOutcome::Failed, true)
        == FollowAction::Reconnect { cursor: 5, delay_ms: 1000, notice: true });
    assert!(follow_step(5, StreamOutcome::NotStreaming, true) == FollowAction::Poll { cursor: 5 });
}

fn envelope(payload_type: Option<&str>, payload_kind: Option<&str>) -> EnvelopeView {
    EnvelopeView {
        seq: 1,
        topic: "t".to_string(),
        sender: None,
        payload_type: payload_type.map(str::to_string),
        payload_kind: payload_kind.map(str::to_string),
        payload_json: "{}".to_string(),
        created_at: "2026-05-04T12:00:00Z".to_string(),
    }
}

#[test]
fn payload_kind_prefers_type_then_kind() {
    assert_eq!(payload_kind(&envelope(Some("x"), Some("y"))), Some("x"));
    assert_eq!(payload_kind(&envelope(None, Some("y"))), Some("y"));
    assert_eq!(payload_kind(&envelope(None, None)), None);
}

#[test]
fn drain_takes_off_only_whole_blocks() {
    let mut buf = String::from("data: one\n\ndata: two\n\ndata: thr");
    let datas = drain_event_data(&mut buf);
    assert_eq!(datas, vec!["one".to_string(), "two".to_string()]);
    assert_eq!(buf, "data: thr");
}
