//! The decisions of the two forwarding loops: from the CAN bus to TCP, and from TCP to the CAN
//! bus.
use vstd::prelude::*;

use crate::error::WireError;
use crate::faults;
use crate::faults::Errnos;
use crate::faults::IoFailure;
use crate::filter;
use crate::filter::DedupMsg;
use crate::filter::LoopbackFilter;
use crate::filter::Pending;
use crate::frame;
use crate::frame::CanFrame;
use crate::frame::CanView;
use crate::hash;
use crate::wire::WireFrameV1;
use crate::wire::WireView;

verus! {

/// How long the reader waits for a loopback, in nanoseconds. A loopback takes much less.
pub const CLEANUP_THRESHOLD_NANOS: u128 = 100_000_000;

/// How long the writer pauses after a dropped frame, in milliseconds.
pub const DROP_PAUSE_MILLIS: u64 = 1;

/// What the reader does after a CAN read that gave no frame.
#[derive(Debug, Clone, Copy, PartialEq, Eq, Structural)]
pub enum ReadVerdict {
    /// The connection is being torn down: end the loop.
    Stop,
    /// Nothing was to be read: look after the filter, and read again.
    Idle,
    /// The read failed for good: end the loop with the error.
    Fail,
}

/// What the reader does after a CAN read that failed: go on where it only ran into its time limit,
/// unless the connection is being torn down.
pub open spec fn read_verdict(failure: IoFailure, shutdown: bool) -> ReadVerdict {
    if !faults::timed_out(failure) {
        ReadVerdict::Fail
    } else if shutdown {
        ReadVerdict::Stop
    } else {
        ReadVerdict::Idle
    }
}

/// Decides what the reader does after a CAN read that gave no frame. A read that ran into its time
/// limit is the occasion to look for a teardown.
pub fn on_read_error(failure: &IoFailure, shutdown: bool) -> (verdict: ReadVerdict)
    ensures
        verdict == read_verdict(*failure, shutdown),
{
    if !faults::is_read_timeout(failure) {
        ReadVerdict::Fail
    } else if shutdown {
        ReadVerdict::Stop
    } else {
        ReadVerdict::Idle
    }
}

/// What the reader does with what it read.
#[derive(Debug, PartialEq)]
pub enum Turn {
    /// No frame was read.
    Idle,
    /// The frame is one of the bridge's own, looped back by the kernel: drop it.
    OwnFrame,
    /// Send this frame over TCP.
    Forward(WireFrameV1),
}

/// The hash of a frame from the wire.
pub open spec fn wire_hash(wire: WireView) -> u64 {
    hash::hash_of(wire.can_id, wire.data)
}

/// One turn of the reader, with all that the writer told since the last one: this is noted, then
/// stale hashes are evicted, whether or not a frame was read, and then a frame that was read is
/// forwarded unless its loopback was expected. Returns, beside the decision, how many hashes were
/// evicted.
pub fn reader_turn(
    filter: &mut LoopbackFilter,
    msgs: &[DedupMsg],
    now: u128,
    frame: Option<&CanFrame>,
) -> (r: (usize, Turn))
    requires
        old(filter).wf(),
        filter::room(old(filter)@, msgs@, now),
    ensures
        final(filter).wf(),
        ({
            let noted = filter::applied(old(filter)@, msgs@, now);
            let fresh = filter::kept(noted, now, CLEANUP_THRESHOLD_NANOS);
            &&& r.0 == noted.len() - fresh.len()
            &&& match frame {
                None => r.1 is Idle && final(filter)@ == fresh,
                Some(f) => {
                    let wire = frame::wire_of(f@);
                    &&& final(filter)@ == filter::consumed(fresh, wire_hash(wire))
                    &&& if filter::pending_of(fresh, wire_hash(wire)) > 0 {
                        r.1 is OwnFrame
                    } else {
                        r.1 matches Turn::Forward(sent) && sent@ == wire
                    }
                },
            }
        }),
{
    filter.apply_all(msgs, now);
    let evicted: usize = filter.evict_older_than(now, CLEANUP_THRESHOLD_NANOS);
    let f = match frame {
        Some(f) => f,
        None => return (evicted, Turn::Idle),
    };
    let wire = frame::can_to_wire(f);
    let hash: u64 = hash::frame_hash(wire.can_id, wire.data.as_slice());
    if filter.is_loopback(hash) {
        (evicted, Turn::OwnFrame)
    } else {
        (evicted, Turn::Forward(wire))
    }
}

/// What the reader does.
#[derive(Debug, Clone, Copy, PartialEq, Eq, Structural)]
pub enum ReaderStage {
    /// Read a frame from the CAN bus.
    Read,
    /// Decide what becomes of it, see [`reader_turn`].
    Decide,
    /// Send it over TCP.
    Send,
    /// End, as the connection is being torn down.
    Stopped,
    /// End, with the error.
    Failed,
}

/// What came of a stage of the reader.
#[derive(Debug, Clone, Copy, PartialEq, Eq, Structural)]
pub enum ReaderOutcome {
    /// It worked: a frame was read, is to be sent, or was sent.
    Worked,
    /// No frame was read, and this is what it means, see [`on_read_error`].
    Unread(ReadVerdict),
    /// There is nothing to send.
    NothingToSend,
    /// It did not work.
    Failed,
}

/// What the reader does next. Whether or not a frame was read in time, the filter is looked after;
/// a frame that cannot be sent ends the reader.
pub open spec fn reader_after(stage: ReaderStage, outcome: ReaderOutcome) -> ReaderStage {
    match stage {
        ReaderStage::Read => match outcome {
            ReaderOutcome::Worked => ReaderStage::Decide,
            ReaderOutcome::Unread(ReadVerdict::Idle) => ReaderStage::Decide,
            ReaderOutcome::Unread(ReadVerdict::Stop) => ReaderStage::Stopped,
            _ => ReaderStage::Failed,
        },
        ReaderStage::Decide => if outcome is Worked {
            ReaderStage::Send
        } else {
            ReaderStage::Read
        },
        ReaderStage::Send => if outcome is Worked {
            ReaderStage::Read
        } else {
            ReaderStage::Failed
        },
        ReaderStage::Stopped => ReaderStage::Stopped,
        ReaderStage::Failed => ReaderStage::Failed,
    }
}

/// What the reader does next.
pub fn reader_next(stage: ReaderStage, outcome: ReaderOutcome) -> (next: ReaderStage)
    ensures
        next == reader_after(stage, outcome),
{
    match (stage, outcome) {
        (ReaderStage::Read, ReaderOutcome::Worked) => ReaderStage::Decide,
        (ReaderStage::Read, ReaderOutcome::Unread(ReadVerdict::Idle)) => ReaderStage::Decide,
        (ReaderStage::Read, ReaderOutcome::Unread(ReadVerdict::Stop)) => ReaderStage::Stopped,
        (ReaderStage::Decide, ReaderOutcome::Worked) => ReaderStage::Send,
        (ReaderStage::Decide, _) => ReaderStage::Read,
        (ReaderStage::Send, ReaderOutcome::Worked) => ReaderStage::Read,
        (ReaderStage::Stopped, _) => ReaderStage::Stopped,
        (_, _) => ReaderStage::Failed,
    }
}

/// The stage after so many stages of the reader, where `outcomes` tells what came of each.
pub open spec fn reader_run(outcomes: spec_fn(nat) -> ReaderOutcome, n: nat) -> ReaderStage
    decreases n,
{
    if n == 0 {
        ReaderStage::Read
    } else {
        let before = (n - 1) as nat;
        reader_after(reader_run(outcomes, before), outcomes(before))
    }
}

/// Nothing is sent but what was decided to be sent right before, and nothing twice: every sending
/// has a reading of its own, two stages earlier.
pub proof fn a_frame_is_sent_after_it_was_decided_on(
    outcomes: spec_fn(nat) -> ReaderOutcome,
    n: nat,
)
    requires
        reader_run(outcomes, n) is Send,
    ensures
        n >= 2,
        reader_run(outcomes, (n - 1) as nat) is Decide && outcomes((n - 1) as nat) is Worked,
        reader_run(outcomes, (n - 2) as nat) is Read,
{
    assert(n >= 1 && reader_run(outcomes, (n - 1) as nat) is Decide);
    assert(n >= 2 && reader_run(outcomes, (n - 2) as nat) is Read);
}

/// A frame that is sent is followed by the next read, and one that cannot be sent ends the reader.
pub proof fn a_failed_send_ends_the_reader(outcomes: spec_fn(nat) -> ReaderOutcome, n: nat)
    requires
        reader_run(outcomes, n) is Send,
    ensures
        outcomes(n) is Worked ==> reader_run(outcomes, n + 1) is Read,
        !(outcomes(n) is Worked) ==> reader_run(outcomes, n + 1) is Failed,
{
}

/// The filter is looked after between any two reads, also while the bus is idle, so that neither it
/// nor what the writer told can grow without bound.
pub proof fn the_filter_is_looked_after_between_reads(
    outcomes: spec_fn(nat) -> ReaderOutcome,
    n: nat,
)
    requires
        n > 0,
        reader_run(outcomes, n) is Read,
    ensures
        reader_run(outcomes, (n - 1) as nat) is Decide || n >= 2 && reader_run(
            outcomes,
            (n - 2) as nat,
        ) is Decide,
{
    let before = (n - 1) as nat;
    assert(reader_after(reader_run(outcomes, before), outcomes(before)) is Read);
    if reader_run(outcomes, before) is Send {
        a_frame_is_sent_after_it_was_decided_on(outcomes, before);
    }
}

/// The reader stops, without an error, only where a read ran into its time limit and the connection
/// was being torn down.
pub proof fn the_reader_stops_only_when_told(stage: ReaderStage, failure: IoFailure, shutdown: bool)
    requires
        stage is Read,
    ensures
        ({
            let verdict = read_verdict(failure, shutdown);
            reader_after(stage, ReaderOutcome::Unread(verdict)) is Stopped <==> faults::timed_out(
                failure,
            ) && shutdown
        }),
{
}

/// A frame on its way to the CAN bus.
#[derive(Debug, PartialEq)]
pub struct Transmission {
    /// What the reader is told before the frame is written, so that it knows of the frame before
    /// the loopback can reach it.
    pub announce: DedupMsg,
    /// The hash that is announced: that of the frame to write, as the reader will take it.
    pub hash: u64,
    /// The frame to write.
    pub frame: CanFrame,
}

/// Decides what the writer does with a frame from TCP: transmit it, or, with the error, skip it.
/// What is announced is the hash of the frame on the bus, which is what the reader takes of it when
/// it comes back.
pub fn on_wire(wire: &WireFrameV1) -> (r: Result<Transmission, WireError>)
    ensures
        match r {
            Ok(t) => {
                &&& frame::can_of(wire@) == Ok::<CanView, WireError>(t.frame@)
                &&& t.hash == wire_hash(frame::wire_of(t.frame@))
                &&& t.announce == DedupMsg::Sent(t.hash)
            },
            Err(e) => frame::can_of(wire@) == Err::<CanView, WireError>(e),
        },
{
    let frame = frame::wire_to_can(wire)?;
    let back = frame::can_to_wire(&frame);
    let hash: u64 = hash::frame_hash(back.can_id, back.data.as_slice());
    Ok(Transmission { announce: DedupMsg::Sent(hash), hash, frame })
}

/// What the writer does after a CAN write that failed.
#[derive(Debug, Clone, Copy, PartialEq, Eq, Structural)]
pub enum WriteVerdict {
    /// The frame is lost, and nothing else: take the announcement back, pause for so many
    /// milliseconds, and go on.
    Drop { retract: DedupMsg, pause_millis: u64 },
    /// End the loop with the error. The connection is torn down, so the announcement is moot.
    Fail,
}

/// What the writer does after a write that failed, on a host with these error numbers.
pub open spec fn write_verdict(hash: u64, failure: IoFailure, errnos: Errnos) -> WriteVerdict {
    if faults::transient(failure.raw_os_error, errnos) {
        WriteVerdict::Drop { retract: DedupMsg::Dropped(hash), pause_millis: DROP_PAUSE_MILLIS }
    } else {
        WriteVerdict::Fail
    }
}

/// Decides what the writer does after the write of the frame with this hash failed, on a host with
/// these error numbers.
pub fn judge_write_error(hash: u64, failure: &IoFailure, errnos: &Errnos) -> (r: WriteVerdict)
    ensures
        r == write_verdict(hash, *failure, *errnos),
{
    if faults::is_transient_errno(failure.raw_os_error, errnos) {
        WriteVerdict::Drop { retract: DedupMsg::Dropped(hash), pause_millis: DROP_PAUSE_MILLIS }
    } else {
        WriteVerdict::Fail
    }
}

/// Decides what the writer does after the write of the frame with this hash failed. The error
/// number is held against the host's own, see [`judge_write_error`].
pub fn on_write_error(hash: u64, failure: &IoFailure) -> (r: WriteVerdict)
    ensures
        exists|errnos: Errnos|
            faults::of_linux(errnos) && r == #[trigger] write_verdict(hash, *failure, errnos),
{
    let errnos = faults::host_errnos();
    judge_write_error(hash, failure, &errnos)
}

/// What the writer does.
#[derive(Debug, Clone, Copy, PartialEq, Eq, Structural)]
pub enum WriterStage {
    /// Receive a frame from TCP.
    Receive,
    /// Convert it, see [`on_wire`].
    Convert,
    /// Announce the frame to the reader.
    Announce,
    /// Write the frame to the CAN bus.
    Write,
    /// Take the announcement back.
    Retract,
    /// Pause, for the transmit queue to drain.
    Pause,
    /// End, with the error.
    Failed,
}

/// What came of a stage of the writer.
#[derive(Debug, Clone, Copy, PartialEq, Eq, Structural)]
pub enum WriterOutcome {
    /// It worked.
    Worked,
    /// It did not work.
    Failed,
    /// The write failed, and this is what it means, see [`judge_write_error`].
    Judged(WriteVerdict),
}

/// What the writer does next. A frame that cannot be received ends it, one that cannot be converted
/// is skipped, and it does not matter whether the reader is there to be told.
pub open spec fn writer_after(stage: WriterStage, outcome: WriterOutcome) -> WriterStage {
    match stage {
        WriterStage::Receive => if outcome is Worked {
            WriterStage::Convert
        } else {
            WriterStage::Failed
        },
        WriterStage::Convert => if outcome is Worked {
            WriterStage::Announce
        } else {
            WriterStage::Receive
        },
        WriterStage::Announce => WriterStage::Write,
        WriterStage::Write => match outcome {
            WriterOutcome::Worked => WriterStage::Receive,
            WriterOutcome::Judged(WriteVerdict::Drop { .. }) => WriterStage::Retract,
            _ => WriterStage::Failed,
        },
        WriterStage::Retract => WriterStage::Pause,
        WriterStage::Pause => WriterStage::Receive,
        WriterStage::Failed => WriterStage::Failed,
    }
}

/// What the writer does next.
pub fn writer_next(stage: WriterStage, outcome: WriterOutcome) -> (next: WriterStage)
    ensures
        next == writer_after(stage, outcome),
{
    match (stage, outcome) {
        (WriterStage::Receive, WriterOutcome::Worked) => WriterStage::Convert,
        (WriterStage::Convert, WriterOutcome::Worked) => WriterStage::Announce,
        (WriterStage::Convert, _) => WriterStage::Receive,
        (WriterStage::Announce, _) => WriterStage::Write,
        (WriterStage::Write, WriterOutcome::Worked) => WriterStage::Receive,
        (WriterStage::Write, WriterOutcome::Judged(WriteVerdict::Drop { .. })) => {
            WriterStage::Retract
        },
        (WriterStage::Retract, _) => WriterStage::Pause,
        (WriterStage::Pause, _) => WriterStage::Receive,
        (_, _) => WriterStage::Failed,
    }
}

/// The stage after so many stages of the writer, where `outcomes` tells what came of each.
pub open spec fn writer_run(outcomes: spec_fn(nat) -> WriterOutcome, n: nat) -> WriterStage
    decreases n,
{
    if n == 0 {
        WriterStage::Receive
    } else {
        let before = (n - 1) as nat;
        writer_after(writer_run(outcomes, before), outcomes(before))
    }
}

/// Every frame is announced right before it is written, and it was received and converted right
/// before that: nothing is written that was not announced, and nothing twice.
pub proof fn a_frame_is_announced_before_it_is_written(
    outcomes: spec_fn(nat) -> WriterOutcome,
    n: nat,
)
    requires
        writer_run(outcomes, n) is Write,
    ensures
        n >= 3,
        writer_run(outcomes, (n - 1) as nat) is Announce,
        writer_run(outcomes, (n - 2) as nat) is Convert && outcomes((n - 2) as nat) is Worked,
        writer_run(outcomes, (n - 3) as nat) is Receive && outcomes((n - 3) as nat) is Worked,
{
    assert(n >= 1 && writer_run(outcomes, (n - 1) as nat) is Announce);
    assert(n >= 2 && writer_run(outcomes, (n - 2) as nat) is Convert);
    assert(n >= 3 && writer_run(outcomes, (n - 3) as nat) is Receive);
}

/// A frame that was received and can be converted is announced once and then written once. The
/// announcement is taken back if and only if the write failed with an error that loses the one
/// frame, and then, as after a write that worked, the next frame is received; any other error ends
/// the writer.
pub proof fn a_converted_frame_is_announced_and_written_once(
    outcomes: spec_fn(nat) -> WriterOutcome,
    n: nat,
    hash: u64,
    failure: Option<IoFailure>,
    errnos: Errnos,
)
    requires
        writer_run(outcomes, n) is Convert,
        outcomes(n) is Worked,
        outcomes(n + 2) == match failure {
            None => WriterOutcome::Worked,
            Some(failure) => WriterOutcome::Judged(write_verdict(hash, failure, errnos)),
        },
    ensures
        writer_run(outcomes, n + 1) is Announce,
        writer_run(outcomes, n + 2) is Write,
        match failure {
            None => writer_run(outcomes, n + 3) is Receive,
            Some(failure) => if faults::transient(failure.raw_os_error, errnos) {
                &&& write_verdict(hash, failure, errnos)->retract == DedupMsg::Dropped(hash)
                &&& writer_run(outcomes, n + 3) is Retract
                &&& writer_run(outcomes, n + 4) is Pause
                &&& writer_run(outcomes, n + 5) is Receive
            } else {
                writer_run(outcomes, n + 3) is Failed
            },
        },
{
    assert(writer_run(outcomes, n + 1) is Announce);
    assert(writer_run(outcomes, n + 2) is Write);
    let third = writer_run(outcomes, n + 3);
    assert(third == writer_after(WriterStage::Write, outcomes(n + 2)));
    if third is Retract {
        assert(writer_run(outcomes, n + 4) is Pause);
    }
}

/// Of a frame that cannot be converted nothing is announced or written: the next stage is to
/// receive the next frame.
pub proof fn a_frame_that_cannot_be_converted_leaves_no_trace(
    outcomes: spec_fn(nat) -> WriterOutcome,
    n: nat,
)
    requires
        writer_run(outcomes, n) is Convert,
        !(outcomes(n) is Worked),
    ensures
        writer_run(outcomes, n + 1) is Receive,
{
}

/// An announcement is taken back right after the write that was dropped, and never else.
pub proof fn only_a_dropped_write_is_taken_back(
    outcomes: spec_fn(nat) -> WriterOutcome,
    n: nat,
)
    requires
        writer_run(outcomes, n) is Retract,
    ensures
        n >= 1,
        writer_run(outcomes, (n - 1) as nat) is Write,
        outcomes((n - 1) as nat) matches WriterOutcome::Judged(verdict) && verdict is Drop,
{
}

/// A frame that came over TCP and was announced and written is not sent back over TCP: when the
/// kernel loops it back, within the time that the reader waits, the reader takes it for the
/// bridge's own. This holds whatever else the writer told of in the same turn or before, as long as
/// it announced more frames with this hash than it dropped.
pub proof fn own_frames_are_not_sent_back(
    m: Map<u64, Pending>,
    msgs: Seq<DedupMsg>,
    written: CanView,
    noted_at: u128,
    now: u128,
)
    requires
        filter::all_pending(m),
        ({
            let hash = wire_hash(frame::wire_of(written));
            let sent = filter::times(msgs, DedupMsg::Sent(hash));
            &&& filter::pending_of(m, hash) + sent <= u32::MAX
            &&& filter::drops_follow(msgs, hash)
            &&& sent > filter::times(msgs, DedupMsg::Dropped(hash))
        }),
        filter::age(now, noted_at) <= CLEANUP_THRESHOLD_NANOS,
    ensures
        ({
            let hash = wire_hash(frame::wire_of(written));
            let noted = filter::applied(m, msgs, noted_at);
            filter::pending_of(filter::kept(noted, now, CLEANUP_THRESHOLD_NANOS), hash) > 0
        }),
{
    let hash = wire_hash(frame::wire_of(written));
    filter::drops_take_back_as_many_as_they_are(m, msgs, noted_at, hash);
}

/// A frame that nobody announced is forwarded, and so is one of which every announcement was taken
/// back because the write was dropped, whatever the writer told of other frames.
pub proof fn frames_from_elsewhere_are_forwarded(
    m: Map<u64, Pending>,
    msgs: Seq<DedupMsg>,
    frame: CanView,
    noted_at: u128,
    now: u128,
)
    requires
        filter::all_pending(m),
        ({
            let hash = wire_hash(frame::wire_of(frame));
            let sent = filter::times(msgs, DedupMsg::Sent(hash));
            &&& filter::pending_of(m, hash) == 0
            &&& sent <= u32::MAX
            &&& filter::drops_follow(msgs, hash)
            &&& sent == filter::times(msgs, DedupMsg::Dropped(hash))
        }),
    ensures
        ({
            let hash = wire_hash(frame::wire_of(frame));
            let noted = filter::applied(m, msgs, noted_at);
            filter::pending_of(filter::kept(noted, now, CLEANUP_THRESHOLD_NANOS), hash) == 0
        }),
{
    let hash = wire_hash(frame::wire_of(frame));
    filter::drops_take_back_as_many_as_they_are(m, msgs, noted_at, hash);
}

} // verus!
