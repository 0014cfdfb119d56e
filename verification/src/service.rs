//! `cvg service start | stop`: the decisions between the outside steps
//! (service-manager commands, port polls, PID lookups, signals). A driver
//! performs each [`ServiceAction`] and answers with a [`ServiceEvent`].
use vstd::prelude::*;
use crate::numeric::{dec, push_dec};
use crate::text::{owned, push_str};

verus! {

/// The launchd label of the daemon.
pub const LABEL: &'static str = "com.convergio.v3";

/// The systemd unit of the daemon.
pub const SERVICE: &'static str = "convergio.service";

/// The user service manager of the platform.
#[derive(Clone, Copy, Debug, PartialEq, Eq, Structural)]
pub enum ServiceKind {
    Launchd,
    Systemd,
}

/// `base` joined with the relative path `rest`, as `Path::join` does.
pub open spec fn joined(base: Seq<char>, rest: Seq<char>) -> Seq<char> {
    if base.len() == 0 || base.last() == '/' {
        base + rest
    } else {
        base + seq!['/'] + rest
    }
}

/// Joins a relative path onto `base`.
pub fn join_path(base: &str, rest: &str) -> (r: String)
    ensures
        r@ == joined(base@, rest@),
{
    let mut r = owned(base);
    let b = crate::text::chars_of(base);
    if b.len() > 0 && b[b.len() - 1] != '/' {
        crate::text::push_char(&mut r, '/');
    }
    push_str(&mut r, rest);
    proof {
        assert(r@ =~= joined(base@, rest@));
    }
    r
}

/// The service file of `kind` under the home directory `home`.
pub open spec fn unit_path_text(kind: ServiceKind, home: Seq<char>) -> Seq<char> {
    match kind {
        ServiceKind::Launchd => joined(joined(home, "Library/LaunchAgents"@), LABEL@ + ".plist"@),
        ServiceKind::Systemd => joined(joined(home, ".config/systemd/user"@), SERVICE@),
    }
}

/// Where the service file of `kind` lives under `home`.
pub fn unit_path(kind: ServiceKind, home: &str) -> (r: String)
    ensures
        r@ == unit_path_text(kind, home@),
{
    match kind {
        ServiceKind::Launchd => {
            let dir = join_path(home, "Library/LaunchAgents");
            let mut file = owned(LABEL);
            push_str(&mut file, ".plist");
            join_path(dir.as_str(), file.as_str())
        },
        ServiceKind::Systemd => {
            let dir = join_path(home, ".config/systemd/user");
            join_path(dir.as_str(), SERVICE)
        },
    }
}

/// What the driver does next.
pub enum ServiceAction {
    /// Run `program` with `args`; its failure is ignored.
    TryRun { program: String, args: Vec<String> },
    /// Run `program` with `args`; its failure ends the operation with
    /// that failure.
    Run { program: String, args: Vec<String> },
    /// Poll the daemon port until something listens, for up to `seconds`.
    AwaitBound { seconds: u64 },
    /// Poll the daemon port until nothing listens, for up to `seconds`.
    AwaitReleased { seconds: u64 },
    /// Look up the PID listening on the daemon port.
    FindPid,
    /// Print `warning` on standard error, then send `signal` to `pid`.
    Signal { pid: u32, signal: String, warning: String },
    /// The operation succeeded.
    Succeed,
    /// The operation failed with `message`.
    Fail { message: String },
}

/// What the driver reports after an action.
pub enum ServiceEvent {
    /// A command ran (whatever its outcome, for `TryRun` and `Signal`).
    Ran,
    /// A poll ended: `reached` tells whether the port got to the awaited
    /// state in time.
    Port { reached: bool },
    /// A PID lookup ended.
    Pid { pid: Option<u32> },
}

// ---------------------------------------------------------------------
// Start
// ---------------------------------------------------------------------

/// Where `cvg service start` stands.
#[derive(Clone, Copy, Debug, PartialEq, Eq, Structural)]
pub enum StartState {
    /// systemd: the unit files were reloaded; enabling comes next.
    Reloaded,
    /// The service is registered with its manager.
    Registered,
    /// Polling for the port, before any kick.
    FirstCheck,
    /// launchd: the service was kicked.
    Kicked,
    /// Polling for the port, for the last time.
    LastCheck,
    /// The operation has ended.
    Done,
}

/// The command texts of an action.
pub open spec fn command_of(a: ServiceAction) -> Option<(Seq<char>, Seq<Seq<char>>)> {
    match a {
        ServiceAction::TryRun { program, args } => Some((program@, arg_texts(args@))),
        ServiceAction::Run { program, args } => Some((program@, arg_texts(args@))),
        _ => None,
    }
}

/// `a` is a failure with message `m`.
pub open spec fn fails_with(a: ServiceAction, m: Seq<char>) -> bool {
    match a {
        ServiceAction::Fail { message } => message@ == m,
        _ => false,
    }
}

/// The message of a start that never saw the port bound.
pub open spec fn start_failure_text(port: u16) -> Seq<char> {
    "daemon port "@ + dec(port as nat) + " did not bind after service start"@
}

/// The message of a stop that left the port bound.
pub open spec fn stop_failure_text(port: u16) -> Seq<char> {
    "daemon port "@ + dec(port as nat) + " still bound after stop"@
}

/// Owned copies of a list of string slices.
fn strings(items: &Vec<&str>) -> (r: Vec<String>)
    ensures
        r@.len() == items@.len(),
        forall|k: int| 0 <= k < r@.len() ==> (#[trigger] r@[k])@ == items@[k]@,
{
    let mut r: Vec<String> = Vec::new();
    let mut i: usize = 0;
    while i < items.len()
        invariant
            i <= items@.len(),
            r@.len() == i,
            forall|k: int| 0 <= k < i ==> (#[trigger] r@[k])@ == items@[k]@,
        decreases items@.len() - i,
    {
        r.push(owned(items[i]));
        i = i + 1;
    }
    r
}

/// The texts of a list of strings.
pub open spec fn arg_texts(v: Seq<String>) -> Seq<Seq<char>> {
    v.map_values(|s: String| s@)
}

/// A command action.
fn command(program: &str, args: Vec<String>, best_effort: bool) -> (a: ServiceAction)
    ensures
        best_effort ==> (a matches ServiceAction::TryRun { program: p, args: x } && p@ == program@ && x@
            == args@),
        !best_effort ==> (a matches ServiceAction::Run { program: p, args: x } && p@ == program@ && x@
            == args@),
{
    if best_effort {
        ServiceAction::TryRun { program: owned(program), args }
    } else {
        ServiceAction::Run { program: owned(program), args }
    }
}

/// The first step of `cvg service start`, once the service file is
/// installed: launchd registers it in `domain` (best effort); systemd
/// reloads its unit files.
pub fn start_begin(kind: ServiceKind, domain: &str, unit_path: &str) -> (r: (StartState, ServiceAction))
    ensures
        kind == ServiceKind::Launchd ==> r.0 == StartState::Registered && command_of(r.1) == Some(
            ("launchctl"@, seq!["bootstrap"@, domain@, unit_path@]),
        ) && r.1 is TryRun,
        kind == ServiceKind::Systemd ==> r.0 == StartState::Reloaded && command_of(r.1) == Some(
            ("systemctl"@, seq!["--user"@, "daemon-reload"@]),
        ) && r.1 is Run,
{
    match kind {
        ServiceKind::Launchd => {
            let args = strings(&vec!["bootstrap", domain, unit_path]);
            let a = command("launchctl", args, true);
            proof {
                assert(command_of(a).unwrap().1 =~= seq!["bootstrap"@, domain@, unit_path@]);
            }
            (StartState::Registered, a)
        },
        ServiceKind::Systemd => {
            let args = strings(&vec!["--user", "daemon-reload"]);
            let a = command("systemctl", args, false);
            proof {
                assert(command_of(a).unwrap().1 =~= seq!["--user"@, "daemon-reload"@]);
            }
            (StartState::Reloaded, a)
        },
    }
}

/// The events `cvg service start` expects in each state.
pub open spec fn start_expects(s: StartState, e: ServiceEvent) -> bool {
    match s {
        StartState::Reloaded | StartState::Registered | StartState::Kicked => e is Ran,
        StartState::FirstCheck | StartState::LastCheck => e is Port,
        StartState::Done => false,
    }
}

/// One decision of `cvg service start`:
/// - after the reload, enable and start the systemd unit;
/// - once registered, wait up to one second for the port;
/// - bound then: done; otherwise launchd kicks the service, and both wait
///   up to five more seconds;
/// - bound then: done; otherwise fail.
pub fn start_step(kind: ServiceKind, domain: &str, port: u16, s: StartState, e: ServiceEvent) -> (r: (
    StartState,
    ServiceAction,
))
    requires
        start_expects(s, e),
    ensures
        s == StartState::Reloaded ==> r.0 == StartState::Registered && command_of(r.1) == Some(
            ("systemctl"@, seq!["--user"@, "enable"@, "--now"@, SERVICE@]),
        ) && r.1 is Run,
        s == StartState::Registered || s == StartState::Kicked ==> r.0 == (if s
            == StartState::Registered {
            StartState::FirstCheck
        } else {
            StartState::LastCheck
        }) && r.1 == (if s == StartState::Registered {
            ServiceAction::AwaitBound { seconds: 1 }
        } else {
            ServiceAction::AwaitBound { seconds: 5 }
        }),
        s == StartState::FirstCheck && e == (ServiceEvent::Port { reached: true }) ==> r.0
            == StartState::Done && r.1 == ServiceAction::Succeed,
        s == StartState::FirstCheck && e == (ServiceEvent::Port { reached: false }) && kind
            == ServiceKind::Launchd ==> r.0 == StartState::Kicked && command_of(r.1) == Some(
            ("launchctl"@, seq!["kickstart"@, domain@ + "/"@ + LABEL@]),
        ) && r.1 is TryRun,
        s == StartState::FirstCheck && e == (ServiceEvent::Port { reached: false }) && kind
            == ServiceKind::Systemd ==> r.0 == StartState::LastCheck && r.1 == (ServiceAction::AwaitBound {
            seconds: 5,
        }),
        s == StartState::LastCheck && e == (ServiceEvent::Port { reached: true }) ==> r.0
            == StartState::Done && r.1 == ServiceAction::Succeed,
        s == StartState::LastCheck && e == (ServiceEvent::Port { reached: false }) ==> r.0
            == StartState::Done && fails_with(r.1, start_failure_text(port)),
        r.1 is Succeed ==> e == (ServiceEvent::Port { reached: true }),
        r.0 == StartState::Done <==> (r.1 is Succeed || r.1 is Fail),
{
    match s {
        StartState::Reloaded => {
            let args = strings(&vec!["--user", "enable", "--now", SERVICE]);
            let a = command("systemctl", args, false);
            proof {
                assert(command_of(a).unwrap().1 =~= seq!["--user"@, "enable"@, "--now"@, SERVICE@]);
            }
            (StartState::Registered, a)
        },
        StartState::Registered => (StartState::FirstCheck, ServiceAction::AwaitBound { seconds: 1 }),
        StartState::Kicked => (StartState::LastCheck, ServiceAction::AwaitBound { seconds: 5 }),
        StartState::FirstCheck => {
            let reached = match e {
                ServiceEvent::Port { reached } => reached,
                _ => false,
            };
            if reached {
                (StartState::Done, ServiceAction::Succeed)
            } else {
                match kind {
                    ServiceKind::Launchd => {
                        let mut target = owned(domain);
                        push_str(&mut target, "/");
                        push_str(&mut target, LABEL);
                        let mut args: Vec<String> = Vec::new();
                        args.push(owned("kickstart"));
                        args.push(target);
                        let a = command("launchctl", args, true);
                        proof {
                            assert(command_of(a).unwrap().1 =~= seq!["kickstart"@, domain@ + "/"@ + LABEL@]);
                        }
                        (StartState::Kicked, a)
                    },
                    ServiceKind::Systemd => (StartState::LastCheck, ServiceAction::AwaitBound { seconds: 5 }),
                }
            }
        },
        _ => {
            let reached = match e {
                ServiceEvent::Port { reached } => reached,
                _ => false,
            };
            if reached {
                (StartState::Done, ServiceAction::Succeed)
            } else {
                let mut m = owned("daemon port ");
                push_dec(&mut m, port as u64);
                push_str(&mut m, " did not bind after service start");
                (StartState::Done, ServiceAction::Fail { message: m })
            }
        },
    }
}

// ---------------------------------------------------------------------
// Stop
// ---------------------------------------------------------------------

/// Where `cvg service stop` stands.
#[derive(Clone, Copy, Debug, PartialEq, Eq, Structural)]
pub enum StopState {
    /// The service manager was asked to stop the service.
    Asked,
    /// Polling for the port after the manager's stop.
    FirstCheck,
    /// Looking up who holds the port.
    Lookup,
    /// `pid` was sent SIGTERM.
    Termed { pid: u32 },
    /// Polling for the port after SIGTERM.
    TermCheck { pid: u32 },
    /// `pid` was sent SIGKILL.
    Killed,
    /// Polling for the port after SIGKILL.
    KillCheck,
    /// The operation has ended.
    Done,
}

/// The first step of `cvg service stop`: ask the service manager, best
/// effort (launchd: `bootout` of the file in `domain`; systemd: `stop`).
pub fn stop_begin(kind: ServiceKind, domain: &str, unit_path: &str) -> (r: (StopState, ServiceAction))
    ensures
        r.0 == StopState::Asked,
        r.1 is TryRun,
        kind == ServiceKind::Launchd ==> command_of(r.1) == Some(
            ("launchctl"@, seq!["bootout"@, domain@, unit_path@]),
        ),
        kind == ServiceKind::Systemd ==> command_of(r.1) == Some(
            ("systemctl"@, seq!["--user"@, "stop"@, SERVICE@]),
        ),
{
    match kind {
        ServiceKind::Launchd => {
            let args = strings(&vec!["bootout", domain, unit_path]);
            let a = command("launchctl", args, true);
            proof {
                assert(command_of(a).unwrap().1 =~= seq!["bootout"@, domain@, unit_path@]);
            }
            (StopState::Asked, a)
        },
        ServiceKind::Systemd => {
            let args = strings(&vec!["--user", "stop", SERVICE]);
            let a = command("systemctl", args, true);
            proof {
                assert(command_of(a).unwrap().1 =~= seq!["--user"@, "stop"@, SERVICE@]);
            }
            (StopState::Asked, a)
        },
    }
}

/// The events `cvg service stop` expects in each state.
pub open spec fn stop_expects(s: StopState, e: ServiceEvent) -> bool {
    match s {
        StopState::Asked | StopState::Termed { .. } | StopState::Killed => e is Ran,
        StopState::FirstCheck | StopState::TermCheck { .. } | StopState::KillCheck => e is Port,
        StopState::Lookup => e is Pid,
        StopState::Done => false,
    }
}

/// The warning printed before SIGTERM.
pub open spec fn term_warning_text(pid: u32) -> Seq<char> {
    "warning: daemon PID "@ + dec(pid as nat) + " survived service manager stop; sending SIGTERM"@
}

/// The warning printed before SIGKILL.
pub open spec fn kill_warning_text(pid: u32) -> Seq<char> {
    "warning: PID "@ + dec(pid as nat) + " still bound after SIGTERM; escalating to SIGKILL"@
}

/// `a` sends `signal` to `pid` after printing `warning`.
pub open spec fn signals(a: ServiceAction, pid: u32, signal: Seq<char>, warning: Seq<char>) -> bool {
    match a {
        ServiceAction::Signal { pid: p, signal: s, warning: w } => p == pid && s@ == signal && w@ == warning,
        _ => false,
    }
}

fn stop_failure(port: u16) -> (a: ServiceAction)
    ensures
        fails_with(a, stop_failure_text(port)),
{
    let mut m = owned("daemon port ");
    push_dec(&mut m, port as u64);
    push_str(&mut m, " still bound after stop");
    ServiceAction::Fail { message: m }
}

/// One decision of `cvg service stop`:
/// - after the manager's stop, wait up to three seconds for the port to
///   be free; free: done; otherwise look up its holder;
/// - no holder: fail; a holder: warn and send it SIGTERM, then wait up to
///   three seconds; free: done; otherwise warn and send SIGKILL, then
///   wait up to two seconds; free: done; otherwise fail.
pub fn stop_step(port: u16, s: StopState, e: ServiceEvent) -> (r: (StopState, ServiceAction))
    requires
        stop_expects(s, e),
    ensures
        s == StopState::Asked ==> r.0 == StopState::FirstCheck && r.1 == (ServiceAction::AwaitReleased {
            seconds: 3,
        }),
        e == (ServiceEvent::Port { reached: true }) ==> r.0 == StopState::Done && r.1
            == ServiceAction::Succeed,
        s == StopState::FirstCheck && e == (ServiceEvent::Port { reached: false }) ==> r.0
            == StopState::Lookup && r.1 == ServiceAction::FindPid,
        s == StopState::Lookup && e == (ServiceEvent::Pid { pid: None }) ==> r.0 == StopState::Done
            && fails_with(r.1, stop_failure_text(port)),
        forall|pid: u32|
            s == StopState::Lookup && e == (ServiceEvent::Pid { pid: Some(pid) }) ==> r.0
                == (StopState::Termed { pid }) && #[trigger] signals(r.1, pid, "-TERM"@, term_warning_text(pid)),
        forall|pid: u32|
            s == (StopState::Termed { pid }) ==> r.0 == (StopState::TermCheck { pid }) && r.1
                == (ServiceAction::AwaitReleased { seconds: 3 }),
        forall|pid: u32|
            s == (StopState::TermCheck { pid }) && e == (ServiceEvent::Port { reached: false }) ==> r.0
                == StopState::Killed && #[trigger] signals(r.1, pid, "-KILL"@, kill_warning_text(pid)),
        s == StopState::Killed ==> r.0 == StopState::KillCheck && r.1 == (ServiceAction::AwaitReleased {
            seconds: 2,
        }),
        s == StopState::KillCheck && e == (ServiceEvent::Port { reached: false }) ==> r.0
            == StopState::Done && fails_with(r.1, stop_failure_text(port)),
        r.1 is Succeed ==> e == (ServiceEvent::Port { reached: true }),
        r.0 == StopState::Done <==> (r.1 is Succeed || r.1 is Fail),
        r.1 is Signal ==> s == StopState::Lookup || s is TermCheck,
{
    match s {
        StopState::Asked => (StopState::FirstCheck, ServiceAction::AwaitReleased { seconds: 3 }),
        StopState::Termed { pid } => (StopState::TermCheck { pid }, ServiceAction::AwaitReleased { seconds: 3 }),
        StopState::Killed => (StopState::KillCheck, ServiceAction::AwaitReleased { seconds: 2 }),
        StopState::Lookup => {
            match e {
                ServiceEvent::Pid { pid: Some(pid) } => {
                    let mut w = owned("warning: daemon PID ");
                    push_dec(&mut w, pid as u64);
                    push_str(&mut w, " survived service manager stop; sending SIGTERM");
                    (StopState::Termed { pid }, ServiceAction::Signal { pid, signal: owned("-TERM"), warning: w })
                },
                _ => (StopState::Done, stop_failure(port)),
            }
        },
        _ => {
            let reached = match e {
                ServiceEvent::Port { reached } => reached,
                _ => false,
            };
            if reached {
                (StopState::Done, ServiceAction::Succeed)
            } else {
                match s {
                    StopState::FirstCheck => (StopState::Lookup, ServiceAction::FindPid),
                    StopState::TermCheck { pid } => {
                        let mut w = owned("warning: PID ");
                        push_dec(&mut w, pid as u64);
                        push_str(&mut w, " still bound after SIGTERM; escalating to SIGKILL");
                        (StopState::Killed, ServiceAction::Signal { pid, signal: owned("-KILL"), warning: w })
                    },
                    _ => (StopState::Done, stop_failure(port)),
                }
            }
        },
    }
}

} // verus!
