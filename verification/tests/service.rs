use convergio_cli::service::{
    join_path, start_begin, start_step, stop_begin, stop_step, unit_path, ServiceAction,
    ServiceEvent, ServiceKind, StartState, StopState,
};

fn command(a: &ServiceAction) -> (String, Vec<String>) {
    match a {
        ServiceAction::TryRun { program, args } | ServiceAction::Run { program, args } => {
            (program.clone(), args.clone())
        }
        _ => panic!("not a command"),
    }
}

#[test]
fn unit_paths() {
    assert_eq!(
        unit_path(ServiceKind::Launchd, "/Users/a"),
        "/Users/a/Library/LaunchAgents/com.convergio.v3.plist"
    );
    assert_eq!(
        unit_path(ServiceKind::Systemd, "/home/a/"),
        "/home/a/.config/systemd/user/convergio.service"
    );
    assert_eq!(join_path("", "x"), "x");
}

#[test]
fn launchd_start_kicks_when_port_stays_free() {
    let (s, a) = start_begin(ServiceKind::Launchd, "gui/501", "/p.plist");
    assert_eq!(command(&a), ("launchctl".to_string(), vec!["bootstrap".to_string(), "gui/501".to_string(), "/p.plist".to_string()]));
    assert!(matches!(a, ServiceAction::TryRun { .. }));
    let (s, a) = start_step(ServiceKind::Launchd, "gui/501", 8420, s, ServiceEvent::Ran);
    assert!(matches!(a, ServiceAction::AwaitBound { seconds: 1 }));
    let (s, a) = start_step(ServiceKind::Launchd, "gui/501", 8420, s, ServiceEvent::Port { reached: false });
    assert_eq!(command(&a).1, vec!["kickstart".to_string(), "gui/501/com.convergio.v3".to_string()]);
    let (s, a) = start_step(ServiceKind::Launchd, "gui/501", 8420, s, ServiceEvent::Ran);
    assert!(matches!(a, ServiceAction::AwaitBound { seconds: 5 }));
    let (s, a) = start_step(ServiceKind::Launchd, "gui/501", 8420, s, ServiceEvent::Port { reached: false });
    assert!(s == StartState::Done);
    match a {
        ServiceAction::Fail { message } => {
            assert_eq!(message, "daemon port 8420 did not bind after service start")
        }
        _ => panic!("expected failure"),
    }
}

#[test]
fn systemd_start_succeeds_when_bound() {
    let (s, a) = start_begin(ServiceKind::Systemd, "", "");
    assert!(matches!(a, ServiceAction::Run { .. }));
    assert_eq!(command(&a).1, vec!["--user".to_string(), "daemon-reload".to_string()]);
    let (s, a) = start_step(ServiceKind::Systemd, "", 9000, s, ServiceEvent::Ran);
    assert_eq!(command(&a).1, vec!["--user", "enable", "--now", "convergio.service"]);
    let (s, _) = start_step(ServiceKind::Systemd, "", 9000, s, ServiceEvent::Ran);
    let (s, a) = start_step(ServiceKind::Systemd, "", 9000, s, ServiceEvent::Port { reached: true });
    assert!(s == StartState::Done);
    assert!(matches!(a, ServiceAction::Succeed));
}

#[test]
fn stop_escalates_from_term_to_kill() {
    let (s, a) = stop_begin(ServiceKind::Systemd, "", "");
    assert_eq!(command(&a), ("systemctl".to_string(), vec!["--user".to_string(), "stop".to_string(), "convergio.service".to_string()]));
    let (s, a) = stop_step(8420, s, ServiceEvent::Ran);
    assert!(matches!(a, ServiceAction::AwaitReleased { seconds: 3 }));
    let (s, a) = stop_step(8420, s, ServiceEvent::Port { reached: false });
    assert!(matches!(a, ServiceAction::FindPid));
    let (s, a) = stop_step(8420, s, ServiceEvent::Pid { pid: Some(77) });
    match &a {
        ServiceAction::Signal { pid, signal, warning } => {
            assert_eq!(*pid, 77);
            assert_eq!(signal, "-TERM");
            assert_eq!(warning, "warning: daemon PID 77 survived service manager stop; sending SIGTERM");
        }
        _ => panic!("expected SIGTERM"),
    }
    let (s, _) = stop_step(8420, s, ServiceEvent::Ran);
    let (s, a) = stop_step(8420, s, ServiceEvent::Port { reached: false });
    match &a {
        ServiceAction::Signal { signal, warning, .. } => {
            assert_eq!(signal, "-KILL");
            assert_eq!(warning, "warning: PID 77 still bound after SIGTERM; escalating to SIGKILL");
        }
        _ => panic!("expected SIGKILL"),
    }
    let (s, a) = stop_step(8420, s, ServiceEvent::Ran);
    assert!(matches!(a, ServiceAction::AwaitReleased { seconds: 2 }));
    let (s, a) = stop_step(8420, s, ServiceEvent::Port { reached: false });
    assert!(s == StopState::Done);
    match a {
        ServiceAction::Fail { message } => assert_eq!(message, "daemon port 8420 still bound after stop"),
        _ => panic!("expected failure"),
    }
}

#[test]
fn stop_without_holder_fails_and_released_port_succeeds() {
    let (s, _) = stop_begin(ServiceKind::Launchd, "gui/1", "/p");
    let (s, _) = stop_step(1, s, ServiceEvent::Ran);
    let (_, a) = stop_step(1, s, ServiceEvent::Port { reached: true });
    assert!(matches!(a, ServiceAction::Succeed));
    let (_, a) = stop_step(1, StopState::Lookup, ServiceEvent::Pid { pid: None });
    assert!(matches!(a, ServiceAction::Fail { .. }));
}
