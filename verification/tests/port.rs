use convergio_cli::port::{parse_daemon_port, DEFAULT_DAEMON_PORT};

#[test]
fn parse_daemon_port_defaults_when_missing() {
    assert_eq!(parse_daemon_port(None), DEFAULT_DAEMON_PORT);
}

#[test]
fn parse_daemon_port_picks_explicit_port() {
    assert_eq!(parse_daemon_port(Some("http://127.0.0.1:9000")), 9000);
    assert_eq!(parse_daemon_port(Some("http://localhost:8421/")), 8421);
    assert_eq!(parse_daemon_port(Some("https://host:42/v1/x")), 42);
}

#[test]
fn parse_daemon_port_falls_back_on_garbage() {
    assert_eq!(parse_daemon_port(Some("garbage")), DEFAULT_DAEMON_PORT);
    assert_eq!(
        parse_daemon_port(Some("http://host:not-a-number")),
        DEFAULT_DAEMON_PORT
    );
    assert_eq!(parse_daemon_port(Some("")), DEFAULT_DAEMON_PORT);
}

#[test]
fn parse_daemon_port_rejects_out_of_range() {
    assert_eq!(parse_daemon_port(Some("http://host:70000")), DEFAULT_DAEMON_PORT);
    assert_eq!(parse_daemon_port(Some("host:+80")), 80);
}
