//! The life of the service itself, from the look at its socket to the removal
//! of it.

use vstd::prelude::*;

verus! {

/// The mode of the socket: its owner alone may connect.
pub const SOCKET_MODE: u32 = 0o600;

/// How far the service has come, and what has to be done next.
#[derive(Clone, Copy, Debug, PartialEq, Eq, Structural)]
pub enum Daemon {
    /// Look whether there is a socket already.
    CheckSocket,
    /// Ping whoever may be listening on it.
    Probe,
    /// Remove the socket that an unclean shutdown left behind.
    RemoveStale,
    /// Bind to the socket.
    Bind,
    /// Give the socket its mode.
    Restrict,
    /// Wait for a connection, or for the order to stop.
    Accept,
    /// Serve the connection on the side.
    Serve,
    /// Remove the socket.
    Cleanup,
    /// Another service has the socket; leave.
    AlreadyRunning,
    /// All is done.
    Stopped,
}

/// What came of the last step.
#[derive(Clone, Copy, Debug, PartialEq, Eq, Structural)]
pub enum DaemonEvent {
    /// Whether there is a socket; not being able to tell counts as no.
    Exists(bool),
    /// Whether the ping was answered.
    Answered(bool),
    /// The step is done.
    Done,
    /// A client has connected.
    Connected,
    /// A connection has failed, which is mostly transient.
    ConnectFailed,
    /// The order to stop has come.
    Cancelled,
}

/// The step that an event leads to. An event that is not waited for changes
/// nothing.
pub open spec fn daemon_next(state: Daemon, event: DaemonEvent) -> Daemon {
    match (state, event) {
        (Daemon::CheckSocket, DaemonEvent::Exists(true)) => Daemon::Probe,
        (Daemon::CheckSocket, DaemonEvent::Exists(false)) => Daemon::Bind,
        (Daemon::Probe, DaemonEvent::Answered(true)) => Daemon::AlreadyRunning,
        (Daemon::Probe, DaemonEvent::Answered(false)) => Daemon::RemoveStale,
        (Daemon::RemoveStale, DaemonEvent::Done) => Daemon::Bind,
        (Daemon::Bind, DaemonEvent::Done) => Daemon::Restrict,
        (Daemon::Restrict, DaemonEvent::Done) => Daemon::Accept,
        (Daemon::Accept, DaemonEvent::Connected) => Daemon::Serve,
        (Daemon::Accept, DaemonEvent::ConnectFailed) => Daemon::Accept,
        (Daemon::Accept, DaemonEvent::Cancelled) => Daemon::Cleanup,
        (Daemon::Serve, DaemonEvent::Done) => Daemon::Accept,
        (Daemon::Cleanup, DaemonEvent::Done) => Daemon::Stopped,
        _ => state,
    }
}

impl Daemon {
    /// Takes the service one step on.
    pub fn advance(self, event: DaemonEvent) -> (r: Daemon)
        ensures
            r == daemon_next(self, event),
    {
        match (self, event) {
            (Daemon::CheckSocket, DaemonEvent::Exists(b)) => if b {
                Daemon::Probe
            } else {
                Daemon::Bind
            },
            (Daemon::Probe, DaemonEvent::Answered(b)) => if b {
                Daemon::AlreadyRunning
            } else {
                Daemon::RemoveStale
            },
            (Daemon::RemoveStale, DaemonEvent::Done) => Daemon::Bind,
            (Daemon::Bind, DaemonEvent::Done) => Daemon::Restrict,
            (Daemon::Restrict, DaemonEvent::Done) => Daemon::Accept,
            (Daemon::Accept, DaemonEvent::Connected) => Daemon::Serve,
            (Daemon::Accept, DaemonEvent::ConnectFailed) => Daemon::Accept,
            (Daemon::Accept, DaemonEvent::Cancelled) => Daemon::Cleanup,
            (Daemon::Serve, DaemonEvent::Done) => Daemon::Accept,
            (Daemon::Cleanup, DaemonEvent::Done) => Daemon::Stopped,
            (state, _) => state,
        }
    }
}

/// A socket that is there is removed at startup only after nobody answered on
/// it, and a service that found another one running never removes its socket.
pub proof fn law_live_socket_is_kept(state: Daemon, event: DaemonEvent)
    ensures
        daemon_next(state, event) == Daemon::RemoveStale && state != Daemon::RemoveStale ==> state
            == Daemon::Probe && event == DaemonEvent::Answered(false),
        daemon_next(Daemon::AlreadyRunning, event) == Daemon::AlreadyRunning,
{
}

/// The socket has its mode before the first connection is served, and is
/// removed before the service stops.
pub proof fn law_socket_is_restricted_and_removed(state: Daemon, event: DaemonEvent)
    ensures
        daemon_next(state, event) == Daemon::Accept && state != Daemon::Accept && state
            != Daemon::Serve ==> state == Daemon::Restrict,
        daemon_next(state, event) == Daemon::Serve && state != Daemon::Serve ==> state
            == Daemon::Accept,
        daemon_next(state, event) == Daemon::Stopped && state != Daemon::Stopped ==> state
            == Daemon::Cleanup,
{
}

/// A connection that fails does not end the service: only the order to stop
/// does.
pub proof fn law_failed_connections_are_survived(event: DaemonEvent)
    ensures
        daemon_next(Daemon::Accept, DaemonEvent::ConnectFailed) == Daemon::Accept,
        daemon_next(Daemon::Accept, event) == Daemon::Cleanup <==> event == DaemonEvent::Cancelled,
{
}

/// Where every event that is waited for leads.
pub proof fn law_way_of_the_service(exists: bool, answered: bool)
    ensures
        daemon_next(Daemon::CheckSocket, DaemonEvent::Exists(exists)) == (if exists {
            Daemon::Probe
        } else {
            Daemon::Bind
        }),
        daemon_next(Daemon::Probe, DaemonEvent::Answered(answered)) == (if answered {
            Daemon::AlreadyRunning
        } else {
            Daemon::RemoveStale
        }),
        daemon_next(Daemon::RemoveStale, DaemonEvent::Done) == Daemon::Bind,
        daemon_next(Daemon::Bind, DaemonEvent::Done) == Daemon::Restrict,
        daemon_next(Daemon::Restrict, DaemonEvent::Done) == Daemon::Accept,
        daemon_next(Daemon::Accept, DaemonEvent::Connected) == Daemon::Serve,
        daemon_next(Daemon::Serve, DaemonEvent::Done) == Daemon::Accept,
        daemon_next(Daemon::Accept, DaemonEvent::Cancelled) == Daemon::Cleanup,
        daemon_next(Daemon::Cleanup, DaemonEvent::Done) == Daemon::Stopped,
{
}

/// The owner of the socket may read and write it, and nobody else may do anything.
pub proof fn law_socket_is_the_owners()
    ensures
        SOCKET_MODE == 6 * 64,
{
}

/// Whether the service waits for an event.
pub open spec fn daemon_awaits(state: Daemon, event: DaemonEvent) -> bool {
    match state {
        Daemon::CheckSocket => event is Exists,
        Daemon::Probe => event is Answered,
        Daemon::Accept => event is Connected || event is ConnectFailed || event is Cancelled,
        Daemon::AlreadyRunning | Daemon::Stopped => false,
        _ => event == DaemonEvent::Done,
    }
}

/// An event that is not waited for changes nothing.
pub proof fn law_only_awaited_events_lead_on(state: Daemon, event: DaemonEvent)
    ensures
        !daemon_awaits(state, event) ==> daemon_next(state, event) == state,
{
}

} // verus!
