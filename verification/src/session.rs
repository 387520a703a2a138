//! The order of things around the forwarding loops: serving, connecting, setting a connection up
//! and tearing it down, and watching the link. Each stage names one thing to do; what comes next
//! depends on whether it worked.
use vstd::prelude::*;

use crate::faults;
use crate::faults::Errnos;
use crate::faults::IoFailure;

verus! {

/// How long to wait before connecting again, and before watching the link again, in milliseconds.
pub const RETRY_PAUSE_MILLIS: u64 = 1000;

/// How long a CAN read blocks, in milliseconds, before the reader looks for a teardown.
pub const CAN_READ_TIMEOUT_MILLIS: u64 = 500;

/// What the server does.
#[derive(Debug, Clone, Copy, PartialEq, Eq, Structural)]
pub enum ServerStage {
    /// Bind to the address.
    Bind,
    /// Open the CAN socket for reading, ahead of the next connection, so that frames are buffered.
    OpenCan,
    /// Wait for a connection.
    Accept,
    /// Bridge the connection until it ends.
    Bridge,
    /// Give up.
    Failed,
}

/// What the server does next. Without an address or a CAN socket it gives up; whatever happens to a
/// connection, it goes on to the next, with a fresh CAN socket.
pub open spec fn server_after(stage: ServerStage, ok: bool) -> ServerStage {
    match stage {
        ServerStage::Bind => if ok {
            ServerStage::OpenCan
        } else {
            ServerStage::Failed
        },
        ServerStage::OpenCan => if ok {
            ServerStage::Accept
        } else {
            ServerStage::Failed
        },
        ServerStage::Accept => if ok {
            ServerStage::Bridge
        } else {
            ServerStage::OpenCan
        },
        ServerStage::Bridge => ServerStage::OpenCan,
        ServerStage::Failed => ServerStage::Failed,
    }
}

/// What the server does next.
pub fn server_next(stage: ServerStage, ok: bool) -> (next: ServerStage)
    ensures
        next == server_after(stage, ok),
{
    match (stage, ok) {
        (ServerStage::Bind, true) => ServerStage::OpenCan,
        (ServerStage::OpenCan, true) => ServerStage::Accept,
        (ServerStage::Accept, true) => ServerStage::Bridge,
        (ServerStage::Accept, false) => ServerStage::OpenCan,
        (ServerStage::Bridge, _) => ServerStage::OpenCan,
        (_, _) => ServerStage::Failed,
    }
}

/// What the client does.
#[derive(Debug, Clone, Copy, PartialEq, Eq, Structural)]
pub enum ClientStage {
    /// Connect to the server.
    Connect,
    /// Bridge the connection until it ends.
    Bridge,
    /// Wait before connecting again.
    Pause,
}

/// What the client does next. It never gives up.
pub open spec fn client_after(stage: ClientStage, ok: bool) -> ClientStage {
    match stage {
        ClientStage::Connect => if ok {
            ClientStage::Bridge
        } else {
            ClientStage::Pause
        },
        ClientStage::Bridge => ClientStage::Pause,
        ClientStage::Pause => ClientStage::Connect,
    }
}

/// What the client does next.
pub fn client_next(stage: ClientStage, ok: bool) -> (next: ClientStage)
    ensures
        next == client_after(stage, ok),
{
    match (stage, ok) {
        (ClientStage::Connect, true) => ClientStage::Bridge,
        (ClientStage::Pause, _) => ClientStage::Connect,
        (_, _) => ClientStage::Pause,
    }
}

/// What is done for one connection.
#[derive(Debug, Clone, Copy, PartialEq, Eq, Structural)]
pub enum ConnectionStage {
    /// Open the CAN socket for reading.
    OpenRead,
    /// Open the CAN socket for writing.
    OpenWrite,
    /// Limit the time that a CAN read blocks.
    LimitRead,
    /// Get a handle of the stream to receive from.
    CloneForReceiving,
    /// Get a handle of the stream to send to.
    CloneForSending,
    /// Start the reader, from CAN to TCP, on a thread of its own.
    StartReader,
    /// Run the writer, from TCP to CAN, until it ends.
    RunWriter,
    /// Tell the reader to stop, in case it is waiting for a CAN frame.
    SignalReader,
    /// Shut the stream down, in case the reader is sending.
    CloseStream,
    /// Wait for the reader to end.
    JoinReader,
    /// The connection is over.
    Closed,
    /// The connection could not be set up.
    Failed,
}

/// Where a connection starts: with the CAN socket for reading, unless that is open already.
pub open spec fn connection_start(can_read_open: bool) -> ConnectionStage {
    if can_read_open {
        ConnectionStage::OpenWrite
    } else {
        ConnectionStage::OpenRead
    }
}

/// What is done next for a connection. Whatever is needed for it must work, but for the time limit
/// on reading; once the writer has ended, the reader is made to end too.
pub open spec fn connection_after(stage: ConnectionStage, ok: bool) -> ConnectionStage {
    match stage {
        ConnectionStage::OpenRead => if ok {
            ConnectionStage::OpenWrite
        } else {
            ConnectionStage::Failed
        },
        ConnectionStage::OpenWrite => if ok {
            ConnectionStage::LimitRead
        } else {
            ConnectionStage::Failed
        },
        ConnectionStage::LimitRead => ConnectionStage::CloneForReceiving,
        ConnectionStage::CloneForReceiving => if ok {
            ConnectionStage::CloneForSending
        } else {
            ConnectionStage::Failed
        },
        ConnectionStage::CloneForSending => if ok {
            ConnectionStage::StartReader
        } else {
            ConnectionStage::Failed
        },
        ConnectionStage::StartReader => ConnectionStage::RunWriter,
        ConnectionStage::RunWriter => ConnectionStage::SignalReader,
        ConnectionStage::SignalReader => ConnectionStage::CloseStream,
        ConnectionStage::CloseStream => ConnectionStage::JoinReader,
        ConnectionStage::JoinReader => ConnectionStage::Closed,
        ConnectionStage::Closed => ConnectionStage::Closed,
        ConnectionStage::Failed => ConnectionStage::Failed,
    }
}

/// Where a connection starts.
pub fn connection_first(can_read_open: bool) -> (first: ConnectionStage)
    ensures
        first == connection_start(can_read_open),
{
    if can_read_open {
        ConnectionStage::OpenWrite
    } else {
        ConnectionStage::OpenRead
    }
}

/// What is done next for a connection.
pub fn connection_next(stage: ConnectionStage, ok: bool) -> (next: ConnectionStage)
    ensures
        next == connection_after(stage, ok),
{
    match (stage, ok) {
        (ConnectionStage::OpenRead, true) => ConnectionStage::OpenWrite,
        (ConnectionStage::OpenWrite, true) => ConnectionStage::LimitRead,
        (ConnectionStage::LimitRead, _) => ConnectionStage::CloneForReceiving,
        (ConnectionStage::CloneForReceiving, true) => ConnectionStage::CloneForSending,
        (ConnectionStage::CloneForSending, true) => ConnectionStage::StartReader,
        (ConnectionStage::StartReader, _) => ConnectionStage::RunWriter,
        (ConnectionStage::RunWriter, _) => ConnectionStage::SignalReader,
        (ConnectionStage::SignalReader, _) => ConnectionStage::CloseStream,
        (ConnectionStage::CloseStream, _) => ConnectionStage::JoinReader,
        (ConnectionStage::JoinReader, _) => ConnectionStage::Closed,
        (ConnectionStage::Closed, _) => ConnectionStage::Closed,
        (_, _) => ConnectionStage::Failed,
    }
}

/// What the link monitor does.
#[derive(Debug, Clone, Copy, PartialEq, Eq, Structural)]
pub enum MonitorStage {
    /// Open the netlink socket.
    Open,
    /// Bind it.
    Bind,
    /// Subscribe to link events.
    Subscribe,
    /// Receive a datagram, and look for the interface coming back.
    Receive,
    /// Wait before starting over.
    Pause,
    /// Exit the process, so that it is started again with fresh sockets.
    Exit,
}

/// What came of a stage of the link monitor.
#[derive(Debug, Clone, Copy, PartialEq, Eq, Structural)]
pub enum MonitorOutcome {
    /// It worked, and the interface did not come back.
    Worked,
    /// The interface came back up.
    CameBack,
    /// It failed.
    Failed(IoFailure),
}

/// What the link monitor does next, on a host with these error numbers. An error never disables it
/// for good: it starts over with a fresh socket.
pub open spec fn monitor_after(
    stage: MonitorStage,
    outcome: MonitorOutcome,
    errnos: Errnos,
) -> MonitorStage {
    let failed = outcome is Failed;
    match stage {
        MonitorStage::Open => if failed {
            MonitorStage::Pause
        } else {
            MonitorStage::Bind
        },
        MonitorStage::Bind => if failed {
            MonitorStage::Pause
        } else {
            MonitorStage::Subscribe
        },
        MonitorStage::Subscribe => if failed {
            MonitorStage::Pause
        } else {
            MonitorStage::Receive
        },
        MonitorStage::Receive => match outcome {
            MonitorOutcome::Worked => MonitorStage::Receive,
            MonitorOutcome::CameBack => MonitorStage::Exit,
            MonitorOutcome::Failed(failure) => if faults::benign(failure, errnos) {
                MonitorStage::Receive
            } else {
                MonitorStage::Pause
            },
        },
        MonitorStage::Pause => MonitorStage::Open,
        MonitorStage::Exit => MonitorStage::Exit,
    }
}

/// What the link monitor does next, on a host with these error numbers.
pub fn monitor_judge(stage: MonitorStage, outcome: MonitorOutcome, errnos: &Errnos) -> (next:
    MonitorStage)
    ensures
        next == monitor_after(stage, outcome, *errnos),
{
    match (stage, outcome) {
        (MonitorStage::Exit, _) => MonitorStage::Exit,
        (MonitorStage::Pause, _) => MonitorStage::Open,
        (MonitorStage::Receive, MonitorOutcome::Worked) => MonitorStage::Receive,
        (MonitorStage::Receive, MonitorOutcome::CameBack) => MonitorStage::Exit,
        (MonitorStage::Receive, MonitorOutcome::Failed(failure)) => if faults::is_benign_recv_error(
            &failure,
            errnos,
        ) {
            MonitorStage::Receive
        } else {
            MonitorStage::Pause
        },
        (_, MonitorOutcome::Failed(_)) => MonitorStage::Pause,
        (MonitorStage::Open, _) => MonitorStage::Bind,
        (MonitorStage::Bind, _) => MonitorStage::Subscribe,
        (MonitorStage::Subscribe, _) => MonitorStage::Receive,
    }
}

/// What the link monitor does next. Error numbers are held against the host's own, see
/// [`monitor_judge`].
pub fn monitor_next(stage: MonitorStage, outcome: MonitorOutcome) -> (next: MonitorStage)
    ensures
        exists|errnos: Errnos|
            faults::of_linux(errnos) && next == #[trigger] monitor_after(stage, outcome, errnos),
{
    let errnos = faults::host_errnos();
    monitor_judge(stage, outcome, &errnos)
}

/// What the link monitor knows of the interface after a stage. It knows nothing when it starts to
/// receive on a new socket, so that the first observation only sets what is known; what a datagram
/// told, and what was known before an error, is kept. `known` is what it knows when the stage is
/// done.
pub open spec fn monitor_known_after(
    stage: MonitorStage,
    outcome: MonitorOutcome,
    known: Option<bool>,
) -> Option<bool> {
    if stage is Subscribe && !(outcome is Failed) {
        None
    } else {
        known
    }
}

/// What the link monitor knows of the interface after a stage.
pub fn monitor_known(stage: MonitorStage, outcome: MonitorOutcome, known: Option<bool>) -> (r:
    Option<bool>)
    ensures
        r == monitor_known_after(stage, outcome, known),
{
    match (stage, outcome) {
        (MonitorStage::Subscribe, MonitorOutcome::Failed(_)) => known,
        (MonitorStage::Subscribe, _) => None,
        (_, _) => known,
    }
}

/// The stage after so many stages of a connection, where `ok` tells of each whether it worked.
pub open spec fn connection_run(
    can_read_open: bool,
    ok: spec_fn(ConnectionStage) -> bool,
    n: nat,
) -> ConnectionStage
    decreases n,
{
    if n == 0 {
        connection_start(can_read_open)
    } else {
        let stage = connection_run(can_read_open, ok, (n - 1) as nat);
        connection_after(stage, ok(stage))
    }
}

/// How far a connection is from its end.
pub open spec fn stages_left(stage: ConnectionStage) -> nat {
    match stage {
        ConnectionStage::OpenRead => 10,
        ConnectionStage::OpenWrite => 9,
        ConnectionStage::LimitRead => 8,
        ConnectionStage::CloneForReceiving => 7,
        ConnectionStage::CloneForSending => 6,
        ConnectionStage::StartReader => 5,
        ConnectionStage::RunWriter => 4,
        ConnectionStage::SignalReader => 3,
        ConnectionStage::CloseStream => 2,
        ConnectionStage::JoinReader => 1,
        ConnectionStage::Closed => 0,
        ConnectionStage::Failed => 0,
    }
}

/// Every connection comes to its end: each stage leaves fewer to come.
pub proof fn connections_end(stage: ConnectionStage, ok: bool)
    requires
        stages_left(stage) > 0,
    ensures
        stages_left(connection_after(stage, ok)) < stages_left(stage),
{
}

/// Nobody waits for a reader that was not told to stop and whose stream is still open: the two
/// stages before that wait are telling the reader and shutting the stream down, whatever worked.
pub proof fn the_reader_is_made_to_end_before_it_is_joined(
    can_read_open: bool,
    ok: spec_fn(ConnectionStage) -> bool,
    n: nat,
)
    requires
        connection_run(can_read_open, ok, n) is JoinReader,
    ensures
        n >= 2,
        connection_run(can_read_open, ok, (n - 1) as nat) is CloseStream,
        connection_run(can_read_open, ok, (n - 2) as nat) is SignalReader,
{
    assert(n >= 1);
    let before = connection_run(can_read_open, ok, (n - 1) as nat);
    assert(connection_after(before, ok(before)) is JoinReader);
    assert(before is CloseStream);
    assert(n >= 2);
    let earlier = connection_run(can_read_open, ok, (n - 2) as nat);
    assert(connection_after(earlier, ok(earlier)) is CloseStream);
}

/// Once the reader has been started, the connection is closed in an orderly way, whatever fails.
pub proof fn a_started_reader_is_always_joined(
    can_read_open: bool,
    ok: spec_fn(ConnectionStage) -> bool,
    n: nat,
)
    requires
        connection_run(can_read_open, ok, n) is StartReader,
    ensures
        connection_run(can_read_open, ok, n + 4) is JoinReader,
        connection_run(can_read_open, ok, n + 5) is Closed,
{
    let s1 = connection_run(can_read_open, ok, n + 1);
    assert(s1 is RunWriter);
    let s2 = connection_run(can_read_open, ok, n + 2);
    assert(s2 is SignalReader);
    let s3 = connection_run(can_read_open, ok, n + 3);
    assert(s3 is CloseStream);
    let s4 = connection_run(can_read_open, ok, n + 4);
    assert(s4 is JoinReader);
}

/// The server never waits for a connection, nor bridges one, before a CAN socket was opened for
/// it: what comes before waiting is always the opening of a socket, and what comes before
/// bridging is always the waiting.
pub proof fn the_server_opens_can_before_it_accepts(stage: ServerStage, ok: bool)
    ensures
        server_after(stage, ok) is Accept ==> stage is OpenCan && ok,
        server_after(stage, ok) is Bridge ==> stage is Accept && ok,
{
}

/// Whenever the link monitor starts to receive on a new socket it knows nothing of the interface.
pub proof fn a_new_socket_starts_without_knowledge(
    stage: MonitorStage,
    outcome: MonitorOutcome,
    errnos: Errnos,
    known: Option<bool>,
)
    requires
        !(stage is Receive),
        monitor_after(stage, outcome, errnos) is Receive,
    ensures
        monitor_known_after(stage, outcome, known) is None,
{
}

/// An error that leaves the socket usable is skipped: the link monitor goes on receiving, and still
/// knows what it knew, so that a transition that spans the error is seen.
pub proof fn knowledge_survives_a_skipped_error(
    failure: IoFailure,
    errnos: Errnos,
    known: Option<bool>,
)
    requires
        faults::benign(failure, errnos),
    ensures
        monitor_after(MonitorStage::Receive, MonitorOutcome::Failed(failure), errnos) is Receive,
        monitor_known_after(MonitorStage::Receive, MonitorOutcome::Failed(failure), known) == known,
{
}

/// The link monitor exits for one reason only, which is that the interface came back.
pub proof fn the_monitor_exits_only_when_the_interface_came_back(
    stage: MonitorStage,
    outcome: MonitorOutcome,
    errnos: Errnos,
)
    requires
        !(stage is Exit),
    ensures
        monitor_after(stage, outcome, errnos) is Exit <==> stage is Receive && outcome is CameBack,
{
}

} // verus!
