//! The life of the service as a launch sees it: found or started before the
//! game, stopped after it where the launch started it.

use vstd::prelude::*;
use vstd::string::*;

use crate::ipc;
use crate::text;

verus! {

broadcast use vstd::string::group_string_axioms;

/// How long a service that was started may take until it answers. Its startup
/// signs the device in over the network.
pub const STARTUP_LIMIT_MS: u128 = 15000;

/// How long to pause between two attempts to reach it.
pub const PAUSE_MS: u64 = 200;

/// How long an attempt to reach it may take.
pub const PROBE_LIMIT_MS: u64 = 2000;

/// How long it may take to stop before it is killed.
pub const STOP_LIMIT_MS: u64 = 5000;

/// Why a launch goes on without the service.
pub enum Reason {
    /// There is no directory for the socket.
    NoRuntimeDir,
    /// There is no binary to start.
    NoBinary,
    /// The binary could not be started.
    NotStarted { binary: String, error: String },
    /// It ended before it answered.
    Exited { status: String },
    /// It did not answer in time.
    TimedOut,
}

pub enum ReasonView {
    NoRuntimeDir,
    NoBinary,
    NotStarted { binary: Seq<char>, error: Seq<char> },
    Exited { status: Seq<char> },
    TimedOut,
}

impl View for Reason {
    type V = ReasonView;

    open spec fn view(&self) -> ReasonView {
        match self {
            Reason::NoRuntimeDir => ReasonView::NoRuntimeDir,
            Reason::NoBinary => ReasonView::NoBinary,
            Reason::NotStarted { binary, error } => ReasonView::NotStarted {
                binary: binary@,
                error: error@,
            },
            Reason::Exited { status } => ReasonView::Exited { status: status@ },
            Reason::TimedOut => ReasonView::TimedOut,
        }
    }
}

impl ReasonView {
    /// What the user is told.
    pub open spec fn message(self) -> Seq<char> {
        match self {
            ReasonView::NoRuntimeDir => {
                "warning: XDG_RUNTIME_DIR is not set; running without xodus-service"@
            },
            ReasonView::NoBinary => {
                "warning: xodus-service not found next to xodus-cli or in PATH; running without it - Xbox Live services will be unavailable in-game"@
            },
            ReasonView::NotStarted { binary, error } => "warning: failed to start `"@ + binary
                + "`: "@ + error + "; running without xodus-service"@,
            ReasonView::Exited { status } => "warning: xodus-service exited during startup ("@
                + status + "); running without it"@,
            ReasonView::TimedOut => {
                "warning: xodus-service did not come up in time; running without it"@
            },
        }
    }
}

impl ReasonView {
    /// A service that was started is still running, and is to be killed.
    pub open spec fn must_kill(self) -> bool {
        self == ReasonView::TimedOut
    }
}

impl Reason {
    /// Whether the service that was started is to be killed.
    pub fn kills(&self) -> (r: bool)
        ensures
            r == self@.must_kill(),
    {
        match self {
            Reason::TimedOut => true,
            _ => false,
        }
    }

    /// What the user is told.
    pub fn message(&self) -> (r: String)
        ensures
            r@ == self@.message(),
    {
        match self {
            Reason::NoRuntimeDir => {
                "warning: XDG_RUNTIME_DIR is not set; running without xodus-service".to_owned()
            },
            Reason::NoBinary => {
                "warning: xodus-service not found next to xodus-cli or in PATH; running without it - Xbox Live services will be unavailable in-game".to_owned()
            },
            Reason::NotStarted { binary, error } => {
                let mut r = text::concat("warning: failed to start `", binary.as_str());
                r.append("`: ");
                r.append(error.as_str());
                r.append("; running without xodus-service");
                r
            },
            Reason::Exited { status } => {
                let mut r = text::concat(
                    "warning: xodus-service exited during startup (",
                    status.as_str(),
                );
                r.append("); running without it");
                r
            },
            Reason::TimedOut => {
                "warning: xodus-service did not come up in time; running without it".to_owned()
            },
        }
    }
}

/// How far the way to a service has come, and what has to be done next. Every
/// step is about the service on this socket.
pub enum Startup {
    /// Ping the socket.
    Probe { socket: Vec<u8> },
    /// Look for the binary.
    FindBinary { socket: Vec<u8> },
    /// Start this binary.
    Start { socket: Vec<u8>, binary: Vec<u8> },
    /// Ping the socket of the service that was started.
    ProbeStarted { socket: Vec<u8> },
    /// Look whether the service that was started has ended.
    CheckChild { socket: Vec<u8> },
    /// Look how long ago the service was started.
    CheckClock { socket: Vec<u8> },
    /// Pause before the next ping.
    Pause { socket: Vec<u8> },
    /// A service answers on the socket; where this launch started it, this
    /// launch stops it.
    Ready { socket: Vec<u8>, started: bool },
    /// The launch goes on without a service.
    Unavailable { reason: Reason },
}

pub enum StartupView {
    Probe { socket: Seq<u8> },
    FindBinary { socket: Seq<u8> },
    Start { socket: Seq<u8>, binary: Seq<u8> },
    ProbeStarted { socket: Seq<u8> },
    CheckChild { socket: Seq<u8> },
    CheckClock { socket: Seq<u8> },
    Pause { socket: Seq<u8> },
    Ready { socket: Seq<u8>, started: bool },
    Unavailable { reason: ReasonView },
}

impl View for Startup {
    type V = StartupView;

    open spec fn view(&self) -> StartupView {
        match self {
            Startup::Probe { socket } => StartupView::Probe { socket: socket@ },
            Startup::FindBinary { socket } => StartupView::FindBinary { socket: socket@ },
            Startup::Start { socket, binary } => StartupView::Start {
                socket: socket@,
                binary: binary@,
            },
            Startup::ProbeStarted { socket } => StartupView::ProbeStarted { socket: socket@ },
            Startup::CheckChild { socket } => StartupView::CheckChild { socket: socket@ },
            Startup::CheckClock { socket } => StartupView::CheckClock { socket: socket@ },
            Startup::Pause { socket } => StartupView::Pause { socket: socket@ },
            Startup::Ready { socket, started } => StartupView::Ready {
                socket: socket@,
                started: *started,
            },
            Startup::Unavailable { reason } => StartupView::Unavailable { reason: reason@ },
        }
    }
}

/// What came of the last step.
pub enum StartupEvent {
    /// Whether the service answered the ping.
    Answered(bool),
    /// The binary, where there is one.
    Binary(Option<Vec<u8>>),
    /// The binary runs.
    Started,
    /// The binary does not run; both as they are displayed.
    NotStarted { binary: String, error: String },
    /// The status with which the service ended, as it is displayed, where it
    /// has ended.
    Child(Option<String>),
    /// The milliseconds since the service was started.
    Elapsed(u128),
    /// The pause is over.
    Paused,
}

pub enum StartupEventView {
    Answered(bool),
    Binary(Option<Seq<u8>>),
    Started,
    NotStarted { binary: Seq<char>, error: Seq<char> },
    Child(Option<Seq<char>>),
    Elapsed(u128),
    Paused,
}

impl View for StartupEvent {
    type V = StartupEventView;

    open spec fn view(&self) -> StartupEventView {
        match self {
            StartupEvent::Answered(b) => StartupEventView::Answered(*b),
            StartupEvent::Binary(p) => StartupEventView::Binary(ipc::path_view(*p)),
            StartupEvent::Started => StartupEventView::Started,
            StartupEvent::NotStarted { binary, error } => StartupEventView::NotStarted {
                binary: binary@,
                error: error@,
            },
            StartupEvent::Child(Some(s)) => StartupEventView::Child(Some(s@)),
            StartupEvent::Child(None) => StartupEventView::Child(None),
            StartupEvent::Elapsed(t) => StartupEventView::Elapsed(*t),
            StartupEvent::Paused => StartupEventView::Paused,
        }
    }
}

pub open spec fn unavailable(reason: ReasonView) -> StartupView {
    StartupView::Unavailable { reason }
}

/// The step that an event leads to. An event that is not waited for changes
/// nothing.
pub open spec fn startup_next(state: StartupView, event: StartupEventView) -> StartupView {
    match (state, event) {
        (StartupView::Probe { socket }, StartupEventView::Answered(true)) => StartupView::Ready {
            socket,
            started: false,
        },
        (StartupView::Probe { socket }, StartupEventView::Answered(false)) => {
            StartupView::FindBinary { socket }
        },
        (StartupView::FindBinary { socket }, StartupEventView::Binary(Some(binary))) => {
            StartupView::Start { socket, binary }
        },
        (StartupView::FindBinary { .. }, StartupEventView::Binary(None)) => unavailable(
            ReasonView::NoBinary,
        ),
        (StartupView::Start { socket, .. }, StartupEventView::Started) => {
            StartupView::ProbeStarted { socket }
        },
        (StartupView::Start { .. }, StartupEventView::NotStarted { binary, error }) => unavailable(
            ReasonView::NotStarted { binary, error },
        ),
        (StartupView::ProbeStarted { socket }, StartupEventView::Answered(true)) => {
            StartupView::Ready { socket, started: true }
        },
        (StartupView::ProbeStarted { socket }, StartupEventView::Answered(false)) => {
            StartupView::CheckChild { socket }
        },
        (StartupView::CheckChild { .. }, StartupEventView::Child(Some(status))) => unavailable(
            ReasonView::Exited { status },
        ),
        (StartupView::CheckChild { socket }, StartupEventView::Child(None)) => {
            StartupView::CheckClock { socket }
        },
        (StartupView::CheckClock { socket }, StartupEventView::Elapsed(t)) => if t
            >= STARTUP_LIMIT_MS {
            unavailable(ReasonView::TimedOut)
        } else {
            StartupView::Pause { socket }
        },
        (StartupView::Pause { socket }, StartupEventView::Paused) => StartupView::ProbeStarted {
            socket,
        },
        _ => state,
    }
}

/// How the way to a service begins.
pub open spec fn startup_begun(socket: Option<Seq<u8>>) -> StartupView {
    match socket {
        Some(socket) => StartupView::Probe { socket },
        None => unavailable(ReasonView::NoRuntimeDir),
    }
}

/// Begins the way to a service, which needs a place for the socket.
pub fn ensure_service(socket: Option<Vec<u8>>) -> (r: Startup)
    ensures
        r@ == startup_begun(ipc::path_view(socket)),
{
    match socket {
        Some(socket) => Startup::Probe { socket },
        None => Startup::Unavailable { reason: Reason::NoRuntimeDir },
    }
}

impl Startup {
    /// Takes the way to a service one step on.
    pub fn advance(self, event: StartupEvent) -> (r: Startup)
        ensures
            r@ == startup_next(self@, event@),
    {
        match (self, event) {
            (Startup::Probe { socket }, StartupEvent::Answered(b)) => if b {
                Startup::Ready { socket, started: false }
            } else {
                Startup::FindBinary { socket }
            },
            (Startup::FindBinary { socket }, StartupEvent::Binary(Some(binary))) => {
                Startup::Start { socket, binary }
            },
            (Startup::FindBinary { socket: _ }, StartupEvent::Binary(None)) => {
                Startup::Unavailable { reason: Reason::NoBinary }
            },
            (Startup::Start { socket, binary: _ }, StartupEvent::Started) => {
                Startup::ProbeStarted { socket }
            },
            (
                Startup::Start { socket: _, binary: _ },
                StartupEvent::NotStarted { binary, error },
            ) => Startup::Unavailable { reason: Reason::NotStarted { binary, error } },
            (Startup::ProbeStarted { socket }, StartupEvent::Answered(b)) => if b {
                Startup::Ready { socket, started: true }
            } else {
                Startup::CheckChild { socket }
            },
            (Startup::CheckChild { socket: _ }, StartupEvent::Child(Some(status))) => {
                Startup::Unavailable { reason: Reason::Exited { status } }
            },
            (Startup::CheckChild { socket }, StartupEvent::Child(None)) => Startup::CheckClock {
                socket,
            },
            (Startup::CheckClock { socket }, StartupEvent::Elapsed(t)) => if t
                >= STARTUP_LIMIT_MS {
                Startup::Unavailable { reason: Reason::TimedOut }
            } else {
                Startup::Pause { socket }
            },
            (Startup::Pause { socket }, StartupEvent::Paused) => Startup::ProbeStarted { socket },
            (state, _) => state,
        }
    }
}

/// The socket that the way to a service is about.
pub open spec fn socket_of(state: StartupView) -> Option<Seq<u8>> {
    match state {
        StartupView::Probe { socket } => Some(socket),
        StartupView::FindBinary { socket } => Some(socket),
        StartupView::Start { socket, .. } => Some(socket),
        StartupView::ProbeStarted { socket } => Some(socket),
        StartupView::CheckChild { socket } => Some(socket),
        StartupView::CheckClock { socket } => Some(socket),
        StartupView::Pause { socket } => Some(socket),
        StartupView::Ready { socket, .. } => Some(socket),
        StartupView::Unavailable { .. } => None,
    }
}

/// The state after these events, one after the other.
pub open spec fn startup_after(state: StartupView, events: Seq<StartupEventView>) -> StartupView
    decreases events.len(),
{
    if events.len() == 0 {
        state
    } else {
        startup_next(startup_after(state, events.drop_last()), events.last())
    }
}

/// Whatever happens on the way, the socket of a service that is ready is the one
/// that the way began with, and no service is ready where there was none.
pub proof fn law_ready_service_is_on_the_given_socket(
    socket: Option<Seq<u8>>,
    events: Seq<StartupEventView>,
)
    ensures
        socket_of(startup_after(startup_begun(socket), events)) matches Some(s) ==> socket == Some(
            s,
        ),
        startup_after(startup_begun(socket), events) matches StartupView::Ready { socket: s, .. }
            ==> socket == Some(s),
    decreases events.len(),
{
    if events.len() > 0 {
        law_ready_service_is_on_the_given_socket(socket, events.drop_last());
    }
}

/// A service that this launch started has not been seen to fail: it runs, as
/// far as is known.
pub open spec fn runs_own_child(state: StartupView) -> bool {
    match state {
        StartupView::ProbeStarted { .. } => true,
        StartupView::CheckChild { .. } => true,
        StartupView::CheckClock { .. } => true,
        StartupView::Pause { .. } => true,
        StartupView::Ready { started, .. } => started,
        _ => false,
    }
}

/// A service counts as ready only when it has just answered, and it counts as
/// started by this launch exactly where this launch started it.
pub proof fn law_ready_means_answered(state: StartupView, event: StartupEventView)
    requires
        !(state is Ready),
    ensures
        startup_next(state, event) is Ready ==> event == StartupEventView::Answered(true),
        startup_next(state, event) is Ready ==> startup_next(state, event)->started
            == runs_own_child(state),
{
}

/// A service is started only after a ping went unanswered and a binary was
/// found, and a service that was started is not lost sight of: it becomes
/// ready, or is given up because it ended or because it is to be killed.
pub proof fn law_started_service_is_accounted_for(state: StartupView, event: StartupEventView)
    ensures
        !runs_own_child(state) && runs_own_child(startup_next(state, event)) ==> state is Start
            && event == StartupEventView::Started,
        startup_next(state, event) is Start && !(state is Start) ==> state is FindBinary,
        startup_next(state, event) is FindBinary && !(state is FindBinary) ==> state is Probe
            && event == StartupEventView::Answered(false),
        runs_own_child(state) && !runs_own_child(startup_next(state, event)) ==> {
            &&& startup_next(state, event) is Unavailable
            &&& startup_next(state, event)->reason.must_kill() || (event is Child
                && event->Child_0 is Some && startup_next(state, event)->reason == (
            ReasonView::Exited { status: event->Child_0->0 }))
        },
{
}

/// Only a service that this launch started, and that has not been seen to end,
/// is killed for not coming up.
pub proof fn law_only_a_started_service_is_killed(state: StartupView, event: StartupEventView)
    requires
        !(state is Unavailable),
        startup_next(state, event) is Unavailable,
        startup_next(state, event)->reason.must_kill(),
    ensures
        runs_own_child(state),
        !(event is Child),
{
}

/// A service that was started is given up for its silence at the first look at
/// the clock that comes when its time is over, and never before.
pub proof fn law_startup_is_bounded(state: StartupView, event: StartupEventView)
    requires
        state != unavailable(ReasonView::TimedOut),
    ensures
        startup_next(state, event) == unavailable(ReasonView::TimedOut) <==> (
        state is CheckClock && event is Elapsed && event->Elapsed_0
            >= STARTUP_LIMIT_MS),
{
}

/// Every round of the wait for a started service that goes on looks, in turn,
/// at the ping, at the process and at the clock, and then pauses.
pub proof fn law_waiting_goes_in_rounds(socket: Seq<u8>, elapsed: u128)
    requires
        elapsed < STARTUP_LIMIT_MS,
    ensures
        ({
            let start = StartupView::ProbeStarted { socket };
            let a = startup_next(start, StartupEventView::Answered(false));
            let b = startup_next(a, StartupEventView::Child(None));
            let c = startup_next(b, StartupEventView::Elapsed(elapsed));
            &&& a == (StartupView::CheckChild { socket })
            &&& b == (StartupView::CheckClock { socket })
            &&& c == (StartupView::Pause { socket })
            &&& startup_next(c, StartupEventView::Paused) == start
        }),
{
}

/// How far the way to a stopped service has come, and what has to be done next.
#[derive(Clone, Copy, Debug, PartialEq, Eq, Structural)]
pub enum Shutdown {
    /// Send an interrupt to this process: the service then removes its socket.
    Interrupt { pid: i32 },
    /// Wait for its end, for no longer than the limit.
    Wait,
    /// Kill it.
    Kill,
    /// Wait for its end, however long that takes.
    Reap,
    /// Nothing is left to do.
    Stopped,
}

/// What came of the last step.
#[derive(Clone, Copy, Debug, PartialEq, Eq, Structural)]
pub enum ShutdownEvent {
    /// The step is done.
    Done,
    /// The limit was reached first.
    TimedOut,
}

/// The step that an event leads to.
pub open spec fn shutdown_next(state: Shutdown, event: ShutdownEvent) -> Shutdown {
    match (state, event) {
        (Shutdown::Interrupt { .. }, ShutdownEvent::Done) => Shutdown::Wait,
        (Shutdown::Wait, ShutdownEvent::Done) => Shutdown::Stopped,
        (Shutdown::Wait, ShutdownEvent::TimedOut) => Shutdown::Kill,
        (Shutdown::Kill, ShutdownEvent::Done) => Shutdown::Reap,
        (Shutdown::Reap, ShutdownEvent::Done) => Shutdown::Stopped,
        _ => state,
    }
}

/// How stopping a service begins.
pub open spec fn shutdown_begun(started: bool, pid: Option<u32>) -> Shutdown {
    if !started {
        Shutdown::Stopped
    } else {
        match pid {
            Some(pid) => Shutdown::Interrupt { pid: pid as i32 },
            None => Shutdown::Wait,
        }
    }
}

/// Begins to stop a service; one that this launch did not start stays alone.
/// A process that has been waited for has no id any more.
pub fn stop_service(started: bool, pid: Option<u32>) -> (r: Shutdown)
    ensures
        r == shutdown_begun(started, pid),
{
    if !started {
        Shutdown::Stopped
    } else {
        match pid {
            Some(pid) => Shutdown::Interrupt { pid: pid as i32 },
            None => Shutdown::Wait,
        }
    }
}

impl Shutdown {
    /// Takes the way to a stopped service one step on.
    pub fn advance(self, event: ShutdownEvent) -> (r: Shutdown)
        ensures
            r == shutdown_next(self, event),
    {
        match (self, event) {
            (Shutdown::Interrupt { .. }, ShutdownEvent::Done) => Shutdown::Wait,
            (Shutdown::Wait, ShutdownEvent::Done) => Shutdown::Stopped,
            (Shutdown::Wait, ShutdownEvent::TimedOut) => Shutdown::Kill,
            (Shutdown::Kill, ShutdownEvent::Done) => Shutdown::Reap,
            (Shutdown::Reap, ShutdownEvent::Done) => Shutdown::Stopped,
            (state, _) => state,
        }
    }
}

/// A service that this launch did not start is left as it is, and one that it
/// started, and that has a process, is interrupted first.
pub proof fn law_only_own_service_is_stopped(pid: Option<u32>)
    ensures
        shutdown_begun(false, pid) == Shutdown::Stopped,
        shutdown_begun(true, pid) != Shutdown::Stopped,
        pid matches Some(p) ==> shutdown_begun(true, pid) is Interrupt,
{
}

/// A service is killed only after the wait for its end has reached the limit,
/// and stopping is over only after its end was waited for.
pub proof fn law_kill_is_the_last_resort(state: Shutdown, event: ShutdownEvent)
    ensures
        shutdown_next(state, event) == Shutdown::Kill && state != Shutdown::Kill ==> state
            == Shutdown::Wait && event == ShutdownEvent::TimedOut,
        shutdown_next(state, event) == Shutdown::Stopped && state != Shutdown::Stopped ==> (state
            == Shutdown::Wait || state == Shutdown::Reap) && event == ShutdownEvent::Done,
{
}

/// What the user is told, for every reason to go on without the service.
pub proof fn law_reasons_are_told(binary: Seq<char>, error: Seq<char>, status: Seq<char>)
    ensures
        ReasonView::NoRuntimeDir.message()
            == "warning: XDG_RUNTIME_DIR is not set; running without xodus-service"@,
        ReasonView::NoBinary.message()
            == "warning: xodus-service not found next to xodus-cli or in PATH; running without it - Xbox Live services will be unavailable in-game"@,
        (ReasonView::NotStarted { binary, error }).message() == "warning: failed to start `"@
            + binary + "`: "@ + error + "; running without xodus-service"@,
        (ReasonView::Exited { status }).message()
            == "warning: xodus-service exited during startup ("@ + status
            + "); running without it"@,
        ReasonView::TimedOut.message()
            == "warning: xodus-service did not come up in time; running without it"@,
{
}

/// Where every event that is waited for leads: a service that answers is ready, one
/// that does not is started from the very binary that was found, and each way to
/// give up has its own reason, with what was reported. A started service has 15
/// seconds.
pub proof fn law_way_to_a_service(
    socket: Seq<u8>,
    binary: Seq<u8>,
    shown: Seq<char>,
    error: Seq<char>,
    elapsed: u128,
)
    ensures
        startup_next(
            StartupView::Probe { socket },
            StartupEventView::Answered(true),
        ) == (StartupView::Ready { socket, started: false }),
        startup_next(
            StartupView::Probe { socket },
            StartupEventView::Answered(false),
        ) == (StartupView::FindBinary { socket }),
        startup_next(
            StartupView::FindBinary { socket },
            StartupEventView::Binary(Some(binary)),
        ) == (StartupView::Start { socket, binary }),
        startup_next(StartupView::FindBinary { socket }, StartupEventView::Binary(None)) == (
        StartupView::Unavailable { reason: ReasonView::NoBinary }),
        startup_next(StartupView::Start { socket, binary }, StartupEventView::Started) == (
        StartupView::ProbeStarted { socket }),
        startup_next(
            StartupView::Start { socket, binary },
            StartupEventView::NotStarted { binary: shown, error },
        ) == (StartupView::Unavailable {
            reason: ReasonView::NotStarted { binary: shown, error },
        }),
        startup_next(
            StartupView::ProbeStarted { socket },
            StartupEventView::Answered(true),
        ) == (StartupView::Ready { socket, started: true }),
        startup_next(
            StartupView::CheckChild { socket },
            StartupEventView::Child(Some(shown)),
        ) == (StartupView::Unavailable { reason: ReasonView::Exited { status: shown } }),
        startup_next(
            StartupView::CheckClock { socket },
            StartupEventView::Elapsed(elapsed),
        ) == (if elapsed >= 15000 {
            StartupView::Unavailable { reason: ReasonView::TimedOut }
        } else {
            StartupView::Pause { socket }
        }),
        startup_begun(None) == (StartupView::Unavailable { reason: ReasonView::NoRuntimeDir }),
        startup_begun(Some(socket)) == (StartupView::Probe { socket }),
{
}

/// The limits: two seconds for a ping, a fifth of a second between two pings, and
/// five seconds for the service to stop.
pub proof fn law_limits()
    ensures
        STARTUP_LIMIT_MS == 15000,
        PROBE_LIMIT_MS == 2000,
        PAUSE_MS == 200,
        STOP_LIMIT_MS == 5000,
{
}

/// How a service is stopped: its own process is interrupted and waited for, and
/// killed and waited for once more only where that takes too long.
pub proof fn law_way_to_a_stopped_service(pid: u32)
    requires
        pid <= i32::MAX,
    ensures
        shutdown_begun(true, Some(pid)) == (Shutdown::Interrupt { pid: pid as i32 }),
        shutdown_begun(true, Some(pid))->pid == pid,
        shutdown_begun(true, None) == Shutdown::Wait,
        shutdown_begun(false, Some(pid)) == Shutdown::Stopped,
        shutdown_next(
            shutdown_begun(true, Some(pid)),
            ShutdownEvent::Done,
        ) == Shutdown::Wait,
        shutdown_next(Shutdown::Wait, ShutdownEvent::Done) == Shutdown::Stopped,
        shutdown_next(Shutdown::Wait, ShutdownEvent::TimedOut) == Shutdown::Kill,
        shutdown_next(Shutdown::Kill, ShutdownEvent::Done) == Shutdown::Reap,
        shutdown_next(Shutdown::Reap, ShutdownEvent::Done) == Shutdown::Stopped,
{
}

/// Whether the way to a service waits for an event.
pub open spec fn startup_awaits(state: StartupView, event: StartupEventView) -> bool {
    match state {
        StartupView::Probe { .. } => event is Answered,
        StartupView::FindBinary { .. } => event is Binary,
        StartupView::Start { .. } => event is Started || event is NotStarted,
        StartupView::ProbeStarted { .. } => event is Answered,
        StartupView::CheckChild { .. } => event is Child,
        StartupView::CheckClock { .. } => event is Elapsed,
        StartupView::Pause { .. } => event is Paused,
        StartupView::Ready { .. } => false,
        StartupView::Unavailable { .. } => false,
    }
}

/// An event that is not waited for changes nothing, and every one that is waited
/// for leads on.
pub proof fn law_only_awaited_events_lead_on(state: StartupView, event: StartupEventView)
    ensures
        startup_next(state, event) == state <==> !startup_awaits(state, event),
{
}

/// The same of a service that is being stopped: a limit is reached only while its end
/// is waited for within that limit, and a stopped service stays stopped.
pub proof fn law_only_awaited_steps_stop_a_service(state: Shutdown, event: ShutdownEvent)
    ensures
        event == ShutdownEvent::TimedOut && state != Shutdown::Wait ==> shutdown_next(state, event)
            == state,
        shutdown_next(Shutdown::Stopped, event) == Shutdown::Stopped,
        event == ShutdownEvent::Done && state != Shutdown::Stopped ==> shutdown_next(state, event)
            != state,
{
}

} // verus!
