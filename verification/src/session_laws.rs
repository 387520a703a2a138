//! What leads to which stage, of the server, the client, a connection and the link monitor, and
//! where a run of stages comes to.
use vstd::prelude::*;

use crate::bridge::CLEANUP_THRESHOLD_NANOS;
use crate::bridge::DROP_PAUSE_MILLIS;
use crate::faults::is_benign_recv_error;
use crate::faults::Errnos;
use crate::faults::IoFailure;
use crate::session::client_next;
use crate::session::connection_first;
use crate::session::connection_next;
use crate::session::monitor_judge;
use crate::session::monitor_known;
use crate::session::monitor_next;
use crate::session::server_next;
use crate::session::ClientStage;
use crate::session::ConnectionStage;
use crate::session::MonitorOutcome;
use crate::session::MonitorStage;
use crate::session::ServerStage;
use crate::session::CAN_READ_TIMEOUT_MILLIS;
use crate::session::RETRY_PAUSE_MILLIS;

verus! {

/// The server gives up only if it cannot bind or cannot open the CAN socket, and then it does. What
/// becomes of a connection never ends it: after waiting for one in vain, and after every one that
/// was bridged, whether that went well or not, it opens a fresh CAN socket.
pub proof fn the_server_outlives_its_connections(stage: ServerStage, ok: bool, next: ServerStage)
    requires
        call_ensures(server_next, (stage, ok), next),
    ensures
        next is Failed <==> stage is Failed || !ok && (stage is Bind || stage is OpenCan),
        stage is Bridge ==> next is OpenCan,
        stage is Accept && !ok ==> next is OpenCan,
{
}

/// The server binds once, at the start. It waits for a connection right after it opened the CAN
/// socket for it, and bridges one right after it came.
pub proof fn the_server_binds_once_and_opens_can_for_each_connection(
    stage: ServerStage,
    ok: bool,
    next: ServerStage,
)
    requires
        call_ensures(server_next, (stage, ok), next),
    ensures
        !(next is Bind),
        next is Accept <==> stage is OpenCan && ok,
        next is Bridge <==> stage is Accept && ok,
        next is OpenCan <==> stage is Bridge || stage is Bind && ok || stage is Accept && !ok,
{
}

/// A server that works bridges a connection, and after it the next: from the opening of a CAN
/// socket it takes three stages to be back there, and each of them is another one.
pub proof fn a_working_server_goes_in_a_circle(
    accept: ServerStage,
    bridge: ServerStage,
    again: ServerStage,
    went_well: bool,
)
    requires
        call_ensures(server_next, (ServerStage::OpenCan, true), accept),
        call_ensures(server_next, (accept, true), bridge),
        call_ensures(server_next, (bridge, went_well), again),
    ensures
        accept is Accept,
        bridge is Bridge,
        again is OpenCan,
{
}

/// The client bridges a connection if it came about, and at once; whatever becomes of it, and if it
/// does not come about, the client pauses, and after every pause it connects again.
pub proof fn the_client_connects_again_and_again(stage: ClientStage, ok: bool, next: ClientStage)
    requires
        call_ensures(client_next, (stage, ok), next),
    ensures
        next is Bridge <==> stage is Connect && ok,
        next is Pause <==> stage is Bridge || stage is Connect && !ok,
        next is Connect <==> stage is Pause,
{
}

/// Between two attempts to connect is always a pause, and never more than a bridged connection and
/// that.
pub proof fn between_two_attempts_is_a_pause(
    ok: bool,
    ended_well: bool,
    slept: bool,
    first: ClientStage,
    second: ClientStage,
    third: ClientStage,
)
    requires
        call_ensures(client_next, (ClientStage::Connect, ok), first),
        call_ensures(client_next, (first, ended_well), second),
        call_ensures(client_next, (second, slept), third),
    ensures
        ok ==> first is Bridge && second is Pause && third is Connect,
        !ok ==> first is Pause && second is Connect,
{
}

/// A connection starts with the opening of a CAN socket: that for writing, if the one for reading
/// is there, else that for reading, after which comes the one for writing.
pub proof fn a_connection_starts_with_its_sockets(
    first: ConnectionStage,
    first_without: ConnectionStage,
    next: ConnectionStage,
)
    requires
        call_ensures(connection_first, (true,), first),
        call_ensures(connection_first, (false,), first_without),
        call_ensures(connection_next, (first_without, true), next),
    ensures
        first is OpenWrite,
        first_without is OpenRead,
        next == first,
{
}

/// A connection fails only if a socket or a handle of the stream cannot be had, and then it does: a
/// stage that worked is never followed by failure, and it does not matter whether the time of a
/// read could be limited, nor what came of a stage from the start of the reader on.
pub proof fn a_connection_fails_for_want_of_a_socket_or_a_handle(
    stage: ConnectionStage,
    ok: bool,
    next: ConnectionStage,
)
    requires
        call_ensures(connection_next, (stage, ok), next),
        !(stage is Failed),
    ensures
        ok ==> !(next is Failed),
        next is Failed <==> !ok && (stage is OpenRead || stage is OpenWrite || stage
            is CloneForReceiving || stage is CloneForSending),
{
}

/// Where the stages of a connection do not depend on whether they worked, both ways lead on to the
/// same stage.
pub proof fn some_stages_cannot_fail(
    stage: ConnectionStage,
    worked: ConnectionStage,
    failed: ConnectionStage,
)
    requires
        call_ensures(connection_next, (stage, true), worked),
        call_ensures(connection_next, (stage, false), failed),
    ensures
        failed == worked || failed is Failed,
        stage is LimitRead ==> failed == worked,
        stage is StartReader || stage is RunWriter ==> failed == worked,
        stage is SignalReader || stage is CloseStream || stage is JoinReader ==> failed == worked,
{
}

/// No stage of a connection is left out, and none is done twice or out of turn: each but the first
/// two comes after one other only, and only the end, good or bad, stays.
pub proof fn the_stages_of_a_connection_are_in_order(
    stage: ConnectionStage,
    ok: bool,
    next: ConnectionStage,
)
    requires
        call_ensures(connection_next, (stage, ok), next),
    ensures
        !(next is OpenRead),
        next is OpenWrite <==> stage is OpenRead && ok,
        next is LimitRead <==> stage is OpenWrite && ok,
        next is CloneForReceiving <==> stage is LimitRead,
        next is CloneForSending <==> stage is CloneForReceiving && ok,
        next is StartReader <==> stage is CloneForSending && ok,
        next is RunWriter <==> stage is StartReader,
        next is SignalReader <==> stage is RunWriter,
        next is CloseStream <==> stage is SignalReader,
        next is JoinReader <==> stage is CloseStream,
        next is Closed <==> stage is JoinReader || stage is Closed,
        stage is Failed ==> next is Failed,
{
}

/// The stages are those of one connection, in turn.
pub open spec fn follow(
    stages: Seq<ConnectionStage>,
    worked: Seq<bool>,
    can_read_open: bool,
) -> bool {
    &&& stages.len() > 0
    &&& worked.len() == stages.len()
    &&& call_ensures(connection_first, (can_read_open,), stages[0])
    &&& forall|i: int|
        #![trigger stages[i]]
        0 <= i < stages.len() - 1 ==> call_ensures(
            connection_next,
            (stages[i], worked[i]),
            stages[i + 1],
        )
}

/// A connection of which every socket and every handle can be had runs its writer, then closes, and
/// never fails, whatever comes of its other stages.
pub proof fn a_connection_that_works_is_closed(
    stages: Seq<ConnectionStage>,
    worked: Seq<bool>,
    can_read_open: bool,
)
    requires
        follow(stages, worked, can_read_open),
        stages.len() == 11,
        forall|i: int| 0 <= i < 5 ==> #[trigger] worked[i],
    ensures
        can_read_open ==> stages[5] is RunWriter && stages[9] is Closed,
        !can_read_open ==> stages[6] is RunWriter && stages[10] is Closed,
        forall|i: int| 0 <= i < 11 ==> !(#[trigger] stages[i] is Failed),
{
    assert(worked[0] && worked[1] && worked[2] && worked[3] && worked[4]);
    assert(stages[1] is OpenWrite || stages[1] is LimitRead);
    assert(stages[2] is LimitRead || stages[2] is CloneForReceiving);
    assert(stages[3] is CloneForReceiving || stages[3] is CloneForSending);
    assert(stages[4] is CloneForSending || stages[4] is StartReader);
    assert(stages[5] is StartReader || stages[5] is RunWriter);
    assert(stages[6] is RunWriter || stages[6] is SignalReader);
    assert(stages[7] is SignalReader || stages[7] is CloseStream);
    assert(stages[8] is CloseStream || stages[8] is JoinReader);
    assert(stages[9] is JoinReader || stages[9] is Closed);
    assert(stages[10] is Closed);
    assert forall|i: int| 0 <= i < 11 implies !(#[trigger] stages[i] is Failed) by {
        assert(i == 0 || i == 1 || i == 2 || i == 3 || i == 4 || i == 5 || i == 6 || i == 7 || i
            == 8 || i == 9 || i == 10);
    }
}

/// A connection in which the writer ran has told the reader to stop, then shut the stream down, and
/// only then waited for the reader, whatever came of these stages.
pub proof fn the_reader_is_not_waited_for_too_early(
    stages: Seq<ConnectionStage>,
    worked: Seq<bool>,
    can_read_open: bool,
    i: int,
)
    requires
        follow(stages, worked, can_read_open),
        0 <= i < stages.len(),
        stages[i] is JoinReader,
    ensures
        i >= 3,
        stages[i - 1] is CloseStream,
        stages[i - 2] is SignalReader,
        stages[i - 3] is RunWriter,
{
    assert(i >= 1 && stages[i - 1] is CloseStream);
    assert(i >= 2 && stages[i - 2] is SignalReader);
    assert(i >= 3 && stages[i - 3] is RunWriter);
}

/// The link monitor opens, binds and subscribes, in this order and each only after the one before
/// worked. If one of these fails it pauses, and after every pause, and only then, it opens a fresh
/// socket.
pub proof fn the_monitor_starts_over_after_a_pause(
    stage: MonitorStage,
    outcome: MonitorOutcome,
    errnos: Errnos,
    next: MonitorStage,
)
    requires
        call_ensures(monitor_judge, (stage, outcome, &errnos), next),
    ensures
        next is Open <==> stage is Pause,
        next is Bind <==> stage is Open && !(outcome is Failed),
        next is Subscribe <==> stage is Bind && !(outcome is Failed),
        stage is Subscribe && !(outcome is Failed) ==> next is Receive,
        outcome is Failed && (stage is Open || stage is Bind || stage is Subscribe) ==> next
            is Pause,
        next is Receive ==> stage is Receive || stage is Subscribe,
        next is Exit <==> stage is Exit || stage is Receive && outcome is CameBack,
{
}

/// The link monitor goes on receiving where nothing came back, and where an error left the socket
/// usable; any other error makes it pause, and it pauses for no other reason.
pub proof fn the_monitor_rides_out_benign_errors(
    stage: MonitorStage,
    outcome: MonitorOutcome,
    failure: IoFailure,
    errnos: Errnos,
    benign: bool,
    after_failure: MonitorStage,
    after_work: MonitorStage,
    next: MonitorStage,
)
    requires
        call_ensures(is_benign_recv_error, (&failure, &errnos), benign),
        call_ensures(
            monitor_judge,
            (MonitorStage::Receive, MonitorOutcome::Failed(failure), &errnos),
            after_failure,
        ),
        call_ensures(
            monitor_judge,
            (MonitorStage::Receive, MonitorOutcome::Worked, &errnos),
            after_work,
        ),
        call_ensures(monitor_judge, (stage, outcome, &errnos), next),
    ensures
        after_work is Receive,
        benign ==> after_failure is Receive,
        !benign ==> after_failure is Pause,
        next is Pause ==> outcome is Failed && !(stage is Pause) && !(stage is Exit),
{
}

/// On the host itself the link monitor does the same, and of an error while it receives, an
/// interruption is always ridden out, and an error with a number that no full buffer has, or
/// without any, never is.
pub proof fn the_monitor_goes_by_the_numbers_of_the_host(
    stage: MonitorStage,
    outcome: MonitorOutcome,
    next: MonitorStage,
)
    requires
        call_ensures(monitor_next, (stage, outcome), next),
    ensures
        next is Open <==> stage is Pause,
        next is Bind <==> stage is Open && !(outcome is Failed),
        next is Subscribe <==> stage is Bind && !(outcome is Failed),
        next is Exit <==> stage is Exit || stage is Receive && outcome is CameBack,
        stage is Subscribe && !(outcome is Failed) ==> next is Receive,
        stage is Receive && outcome is Worked ==> next is Receive,
        next is Receive ==> stage is Receive || stage is Subscribe && !(outcome is Failed),
        next is Pause ==> outcome is Failed,
        stage is Receive ==> (outcome matches MonitorOutcome::Failed(failure) ==> {
            &&& failure.kind is Interrupted ==> next is Receive
            &&& !(failure.kind is Interrupted) && next is Receive ==> (failure.raw_os_error
                matches Some(code) && (code == 105 || code == 132 || code == 55))
            &&& next is Receive || next is Pause
        }),
{
}

/// What the link monitor knows changes in no stage but the subscription of a new socket, and there
/// it is forgotten.
pub proof fn the_monitor_forgets_with_a_new_socket(
    stage: MonitorStage,
    outcome: MonitorOutcome,
    known: Option<bool>,
    r: Option<bool>,
)
    requires
        call_ensures(monitor_known, (stage, outcome, known), r),
    ensures
        stage is Subscribe && !(outcome is Failed) ==> r is None,
        !(stage is Subscribe) || outcome is Failed ==> r == known,
{
}

/// Every new socket of the link monitor is received from without knowledge, and knowledge is kept
/// as long as it receives from the same.
pub proof fn knowledge_goes_with_the_socket(
    stage: MonitorStage,
    outcome: MonitorOutcome,
    errnos: Errnos,
    next: MonitorStage,
    known: Option<bool>,
    r: Option<bool>,
)
    requires
        call_ensures(monitor_judge, (stage, outcome, &errnos), next),
        call_ensures(monitor_known, (stage, outcome, known), r),
        next is Receive,
    ensures
        stage is Receive ==> r == known,
        !(stage is Receive) ==> r is None,
{
}

/// How long things last: half a second for a read, a second between two attempts, a tenth of a
/// second for a loopback, and a thousandth after a dropped frame.
pub proof fn times_are_these()
    ensures
        CAN_READ_TIMEOUT_MILLIS == 500,
        RETRY_PAUSE_MILLIS == 1000,
        CLEANUP_THRESHOLD_NANOS == 100 * 1_000_000,
        DROP_PAUSE_MILLIS == 1,
{
}

} // verus!
