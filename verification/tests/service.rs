use xodus::daemon::{Daemon, DaemonEvent, SOCKET_MODE};
use xodus::service::{
    ensure_service, stop_service, Reason, Shutdown, ShutdownEvent, Startup, StartupEvent,
};

fn probe() -> Startup {
    ensure_service(Some(b"/run/xodus.sock".to_vec()))
}

fn started() -> Startup {
    probe()
        .advance(StartupEvent::Answered(false))
        .advance(StartupEvent::Binary(Some(b"/bin/xodus-service".to_vec())))
        .advance(StartupEvent::Started)
}

fn message(startup: Startup) -> String {
    match startup {
        Startup::Unavailable { reason } => reason.message(),
        _ => panic!("the service is not given up"),
    }
}

#[test]
fn a_running_service_is_used() {
    assert!(matches!(probe(), Startup::Probe { socket } if socket == b"/run/xodus.sock"));
    assert!(matches!(
        probe().advance(StartupEvent::Answered(true)),
        Startup::Ready { started: false, socket } if socket == b"/run/xodus.sock"
    ));
}

#[test]
fn a_service_is_started_where_none_answers() {
    let found = probe()
        .advance(StartupEvent::Answered(false))
        .advance(StartupEvent::Binary(Some(b"/bin/s".to_vec())));
    assert!(matches!(&found, Startup::Start { binary, .. } if binary == b"/bin/s"));
    assert!(matches!(
        started().advance(StartupEvent::Answered(true)),
        Startup::Ready { started: true, socket } if socket == b"/run/xodus.sock"
    ));
}

#[test]
fn the_wait_for_a_started_service_goes_in_rounds() {
    let mut startup = started();
    for elapsed in [0u128, 200, 14999] {
        startup = startup.advance(StartupEvent::Answered(false));
        assert!(matches!(startup, Startup::CheckChild { .. }));
        startup = startup.advance(StartupEvent::Child(None));
        assert!(matches!(startup, Startup::CheckClock { .. }));
        startup = startup.advance(StartupEvent::Elapsed(elapsed));
        assert!(matches!(startup, Startup::Pause { .. }));
        startup = startup.advance(StartupEvent::Paused);
        assert!(matches!(startup, Startup::ProbeStarted { .. }));
    }
    startup = startup
        .advance(StartupEvent::Answered(false))
        .advance(StartupEvent::Child(None))
        .advance(StartupEvent::Elapsed(15000));
    assert!(matches!(&startup, Startup::Unavailable { reason: Reason::TimedOut }));
    assert_eq!(
        message(startup),
        "warning: xodus-service did not come up in time; running without it"
    );
}

#[test]
fn every_reason_is_told() {
    assert_eq!(
        message(ensure_service(None)),
        "warning: XDG_RUNTIME_DIR is not set; running without xodus-service"
    );
    assert_eq!(
        message(
            probe()
                .advance(StartupEvent::Answered(false))
                .advance(StartupEvent::Binary(None))
        ),
        "warning: xodus-service not found next to xodus-cli or in PATH; running without \
         it - Xbox Live services will be unavailable in-game"
    );
    assert_eq!(
        message(
            probe()
                .advance(StartupEvent::Answered(false))
                .advance(StartupEvent::Binary(Some(b"/s".to_vec())))
                .advance(StartupEvent::NotStarted {
                    binary: "/s".to_string(),
                    error: "denied".to_string(),
                })
        ),
        "warning: failed to start `/s`: denied; running without xodus-service"
    );
    assert_eq!(
        message(
            started()
                .advance(StartupEvent::Answered(false))
                .advance(StartupEvent::Child(Some("exit status: 1".to_string())))
        ),
        "warning: xodus-service exited during startup (exit status: 1); running without it"
    );
}

#[test]
fn an_event_that_is_not_waited_for_is_ignored() {
    assert!(matches!(probe().advance(StartupEvent::Paused), Startup::Probe { .. }));
    assert!(matches!(started().advance(StartupEvent::Elapsed(99999)), Startup::ProbeStarted { .. }));
}

#[test]
fn only_an_own_service_is_stopped() {
    assert_eq!(stop_service(false, Some(7)), Shutdown::Stopped);
    assert_eq!(stop_service(false, None), Shutdown::Stopped);
    assert_eq!(stop_service(true, Some(7)), Shutdown::Interrupt { pid: 7 });
    assert_eq!(stop_service(true, None), Shutdown::Wait);
}

#[test]
fn a_service_that_ends_in_time_is_not_killed() {
    let waiting = stop_service(true, Some(7)).advance(ShutdownEvent::Done);
    assert_eq!(waiting, Shutdown::Wait);
    assert_eq!(waiting.advance(ShutdownEvent::Done), Shutdown::Stopped);
}

#[test]
fn kill_is_the_last_resort() {
    let killing = Shutdown::Wait.advance(ShutdownEvent::TimedOut);
    assert_eq!(killing, Shutdown::Kill);
    let reaping = killing.advance(ShutdownEvent::Done);
    assert_eq!(reaping, Shutdown::Reap);
    assert_eq!(reaping.advance(ShutdownEvent::Done), Shutdown::Stopped);
    assert_eq!(reaping.advance(ShutdownEvent::TimedOut), Shutdown::Reap);
}

#[test]
fn a_live_socket_is_kept() {
    let probing = Daemon::CheckSocket.advance(DaemonEvent::Exists(true));
    assert_eq!(probing, Daemon::Probe);
    let running = probing.advance(DaemonEvent::Answered(true));
    assert_eq!(running, Daemon::AlreadyRunning);
    assert_eq!(running.advance(DaemonEvent::Done), Daemon::AlreadyRunning);
    assert_eq!(running.advance(DaemonEvent::Cancelled), Daemon::AlreadyRunning);
}

#[test]
fn a_stale_socket_is_removed() {
    let removing = Daemon::Probe.advance(DaemonEvent::Answered(false));
    assert_eq!(removing, Daemon::RemoveStale);
    assert_eq!(removing.advance(DaemonEvent::Done), Daemon::Bind);
}

#[test]
fn the_daemon_serves_until_it_is_told_to_stop() {
    let mut daemon = Daemon::CheckSocket.advance(DaemonEvent::Exists(false));
    assert_eq!(daemon, Daemon::Bind);
    daemon = daemon.advance(DaemonEvent::Done);
    assert_eq!(daemon, Daemon::Restrict);
    assert_eq!(SOCKET_MODE, 0o600);
    daemon = daemon.advance(DaemonEvent::Done);
    assert_eq!(daemon, Daemon::Accept);
    assert_eq!(daemon.advance(DaemonEvent::ConnectFailed), Daemon::Accept);
    let serving = daemon.advance(DaemonEvent::Connected);
    assert_eq!(serving, Daemon::Serve);
    assert_eq!(serving.advance(DaemonEvent::Done), Daemon::Accept);
    let cleaning = daemon.advance(DaemonEvent::Cancelled);
    assert_eq!(cleaning, Daemon::Cleanup);
    assert_eq!(cleaning.advance(DaemonEvent::Done), Daemon::Stopped);
}

#[test]
fn only_a_service_that_did_not_answer_is_killed() {
    assert!(Reason::TimedOut.kills());
    assert!(!Reason::NoRuntimeDir.kills());
    assert!(!Reason::NoBinary.kills());
    assert!(!Reason::NotStarted { binary: "b".to_string(), error: "e".to_string() }.kills());
    assert!(!Reason::Exited { status: "s".to_string() }.kills());
}

#[test]
fn the_socket_of_a_ready_service_is_the_given_one() {
    let ready = started()
        .advance(StartupEvent::Answered(false))
        .advance(StartupEvent::Child(None))
        .advance(StartupEvent::Elapsed(3))
        .advance(StartupEvent::Paused)
        .advance(StartupEvent::Answered(true));
    assert!(matches!(ready, Startup::Ready { started: true, socket }
        if socket == b"/run/xodus.sock"));
    let none = ensure_service(None).advance(StartupEvent::Answered(true));
    assert!(matches!(none, Startup::Unavailable { reason: Reason::NoRuntimeDir }));
}
