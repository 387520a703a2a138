//! What the two forwarding loops do with the frames they are given, and how what one of them tells
//! decides what the other does.
use vstd::prelude::*;

use crate::bridge::judge_write_error;
use crate::bridge::on_read_error;
use crate::bridge::on_wire;
use crate::bridge::on_write_error;
use crate::bridge::reader_next;
use crate::bridge::reader_turn;
use crate::bridge::writer_next;
use crate::bridge::ReadVerdict;
use crate::bridge::ReaderOutcome;
use crate::bridge::ReaderStage;
use crate::bridge::Transmission;
use crate::bridge::Turn;
use crate::bridge::WriteVerdict;
use crate::bridge::WriterOutcome;
use crate::bridge::WriterStage;
use crate::error::WireError;
use crate::faults::is_transient_errno;
use crate::faults::Errnos;
use crate::faults::IoFailure;
use crate::filter;
use crate::filter::DedupMsg;
use crate::filter::LoopbackFilter;
use crate::frame::can_to_wire;
use crate::frame::wire_to_can;
use crate::frame::CanFrame;
use crate::frame::CanId;
use crate::hash;
use crate::hash::frame_hash;
use crate::wire::WireFrameV1;

verus! {

/// The number that an identifier is.
pub open spec fn number(id: CanId) -> u32 {
    match id {
        CanId::Standard(raw) => raw as u32,
        CanId::Extended(raw) => raw,
    }
}

/// The number that a frame is identified by, which is zero for a report of an error.
pub open spec fn number_of(frame: CanFrame) -> u32 {
    match frame {
        CanFrame::Normal { id, .. } => number(id),
        CanFrame::Remote { id, .. } => number(id),
        CanFrame::Error { .. } => 0,
        CanFrame::Fd { id, .. } => number(id),
    }
}

/// The data bytes that a frame carries, of which a remote request has none.
pub open spec fn bytes_of(frame: CanFrame) -> Seq<u8> {
    match frame {
        CanFrame::Normal { data, .. } => data@,
        CanFrame::Remote { .. } => Seq::empty(),
        CanFrame::Error { data } => data@,
        CanFrame::Fd { data, .. } => data@,
    }
}

/// The frames are of the same form and hold the same.
pub open spec fn same_frame(a: CanFrame, b: CanFrame) -> bool {
    match a {
        CanFrame::Normal { id, remote, data } => b matches CanFrame::Normal {
            id: i,
            remote: r,
            data: d,
        } && i == id && r == remote && d@ == data@,
        CanFrame::Remote { id, dlc } => b matches CanFrame::Remote { id: i, dlc: n } && i == id && n
            == dlc,
        CanFrame::Error { data } => b matches CanFrame::Error { data: d } && d@ == data@,
        CanFrame::Fd { id, brs, esi, data } => b matches CanFrame::Fd {
            id: i,
            brs: s,
            esi: e,
            data: d,
        } && i == id && s == brs && e == esi && d@ == data@,
    }
}

/// What the writer transmits is what a frame from the wire is converted to, and where that fails
/// the error is passed on.
pub proof fn the_writer_transmits_the_converted_frame(
    wire: WireFrameV1,
    r: Result<Transmission, WireError>,
    converted: Result<CanFrame, WireError>,
)
    requires
        call_ensures(on_wire, (&wire,), r),
        call_ensures(wire_to_can, (&wire,), converted),
    ensures
        match converted {
            Ok(frame) => r matches Ok(t) && same_frame(t.frame, frame),
            Err(e) => r == Err::<Transmission, WireError>(e),
        },
{
}

/// What is announced is the hash of the frame on the bus: that of its number and of the data bytes
/// that it carries there.
pub proof fn the_announced_hash_is_that_of_the_frame_on_the_bus(
    wire: WireFrameV1,
    t: Transmission,
    data: &[u8],
    h: u64,
)
    requires
        call_ensures(on_wire, (&wire,), Ok::<Transmission, WireError>(t)),
        data@ == bytes_of(t.frame),
        call_ensures(frame_hash, (number_of(t.frame), data), h),
    ensures
        t.hash == h,
        t.announce == DedupMsg::Sent(h),
{
}

/// Of a frame that is neither a remote request (bit 1 of the flags) nor a CAN FD frame (bit 3) the
/// announced hash is that of the identifier and the data as they came over the wire.
pub proof fn classic_frames_are_announced_as_they_came(
    wire: WireFrameV1,
    t: Transmission,
    data: &[u8],
    h: u64,
)
    requires
        call_ensures(on_wire, (&wire,), Ok::<Transmission, WireError>(t)),
        wire.flags / 2 % 2 == 0,
        wire.flags / 8 % 2 == 0,
        data@ == wire.data@,
        call_ensures(frame_hash, (wire.can_id, data), h),
    ensures
        t.hash == h,
{
    let flags = wire.flags;
    assert((flags & 0x01 != 0 <==> flags % 2 == 1) && (flags & 0x02 != 0 <==> flags / 2 % 2 == 1)
        && (flags & 0x08 != 0 <==> flags / 8 % 2 == 1)) by (bit_vector);
}

/// Of a frame with up to eight data bytes the announced hash holds the number of the frame and all
/// its data bytes: with the number taken out by exclusive or, the lowest eight bits are the first
/// byte, the next eight the second, and so on, and what is left over is zero.
pub proof fn the_announced_hash_holds_the_frame(wire: WireFrameV1, t: Transmission, k: int)
    requires
        call_ensures(on_wire, (&wire,), Ok::<Transmission, WireError>(t)),
        bytes_of(t.frame).len() <= 8,
        0 <= k < 8,
    ensures
        (t.hash ^ number_of(t.frame) as u64) >> ((8 * k) as u64) & 0xff == if k < bytes_of(
            t.frame,
        ).len() {
            bytes_of(t.frame)[k] as u64
        } else {
            0u64
        },
{
    let id = number_of(t.frame) as u64;
    let d = hash::data_hash(bytes_of(t.frame));
    hash::data_hash_lanes(bytes_of(t.frame), k as nat);
    assert((id ^ d) ^ id == d) by (bit_vector);
    let shift = (8 * k) as u64;
    let lane = (d >> shift) & 0xff;
    assert((lane as u8) as u64 == lane) by (bit_vector)
        requires
            lane == (d >> shift) & 0xff,
    ;
}

/// A turn of the reader takes note of what the writer told, then evicts what is older than a tenth
/// of a second, and then looks the frame up, if one was read, by the hash of its number and its
/// data. A frame that is looked up in vain is forwarded.
pub proof fn a_turn_notes_then_evicts_then_looks_up(
    f: &mut LoopbackFilter,
    msgs: &[DedupMsg],
    now: u128,
    frame: Option<&CanFrame>,
    r: (usize, Turn),
    noted: &mut LoopbackFilter,
    fresh: &mut LoopbackFilter,
    evicted: usize,
    looked_up: &mut LoopbackFilter,
    own: bool,
    data: &[u8],
    h: u64,
    wire: WireFrameV1,
)
    requires
        old(f).wf(),
        filter::room(old(f)@, msgs@, now),
        call_ensures(reader_turn, (f, msgs, now, frame), r),
        *old(noted) == *old(f),
        call_ensures(LoopbackFilter::apply_all, (noted, msgs, now), ()),
        *old(fresh) == *final(noted),
        call_ensures(LoopbackFilter::evict_older_than, (fresh, now, 100_000_000u128), evicted),
        frame matches Some(frame) ==> {
            &&& data@ == bytes_of(*frame)
            &&& call_ensures(frame_hash, (number_of(*frame), data), h)
            &&& *old(looked_up) == *final(fresh)
            &&& call_ensures(LoopbackFilter::is_loopback, (looked_up, h), own)
            &&& call_ensures(can_to_wire, (frame,), wire)
        },
    ensures
        final(f).wf(),
        r.0 == evicted,
        frame is None ==> r.1 is Idle && final(f)@ == final(fresh)@,
        frame is Some ==> final(f)@ == final(looked_up)@,
        frame is Some ==> if own {
            r.1 is OwnFrame
        } else {
            r.1 matches Turn::Forward(sent) && sent.version == wire.version && sent.can_id
                == wire.can_id && sent.flags == wire.flags && sent.data@ == wire.data@
        },
{
}

/// There is room for one announcement where the count of its hash can be raised.
proof fn room_for_one(m: Map<u64, filter::Pending>, hash: u64, now: u128)
    requires
        filter::pending_of(m, hash) < u32::MAX,
    ensures
        filter::room(m, seq![DedupMsg::Sent(hash)], now),
        filter::applied(m, seq![DedupMsg::Sent(hash)], now) == filter::announced(m, hash, now),
        filter::room(m, Seq::empty(), now),
        filter::applied(m, Seq::empty(), now) == m,
{
    let msgs = seq![DedupMsg::Sent(hash)];
    assert(msgs.drop_last() =~= Seq::<DedupMsg>::empty());
    assert(msgs.take(0) =~= Seq::<DedupMsg>::empty());
    assert(filter::applied(m, msgs.take(0), now) == m);
}

/// A frame that was written is known again, and nothing else is taken for it: while only its
/// loopback is to come, a frame with another number and the same data, and one with the same number
/// and other data of the same length, up to eight bytes, is forwarded, and the loopback stays to
/// come.
pub proof fn only_the_written_frame_is_known_again(
    f: &mut LoopbackFilter,
    msgs: &[DedupMsg],
    now: u128,
    wire: WireFrameV1,
    t: Transmission,
    seen: CanFrame,
    r: (usize, Turn),
)
    requires
        call_ensures(on_wire, (&wire,), Ok::<Transmission, WireError>(t)),
        old(f).wf(),
        forall|hash: u64| #[trigger] old(f)@.contains_key(hash) ==> hash == t.hash,
        old(f)@.contains_key(t.hash) ==> old(f)@[t.hash].count < u32::MAX,
        msgs@ == seq![t.announce],
        call_ensures(reader_turn, (f, msgs, now, Some(&seen)), r),
    ensures
        ({
            let same_number = number_of(seen) == number_of(t.frame);
            let same_data = bytes_of(seen) == bytes_of(t.frame);
            let same_length = bytes_of(seen).len() == bytes_of(t.frame).len() <= 8;
            let before = if old(f)@.contains_key(t.hash) {
                old(f)@[t.hash].count as int
            } else {
                0
            };
            &&& same_number && same_data ==> r.1 is OwnFrame
            &&& same_number && !same_data && same_length || !same_number && same_data ==> {
                &&& r.1 matches Turn::Forward(sent) && sent.can_id == number_of(seen) && sent.data@
                    == bytes_of(seen)
                &&& final(f)@.contains_key(t.hash)
                &&& final(f)@[t.hash].count == before + 1
            }
        }),
{
    room_for_one(old(f)@, t.hash, now);
    let a = bytes_of(seen);
    let b = bytes_of(t.frame);
    if number_of(seen) == number_of(t.frame) {
        if a != b && a.len() == b.len() <= 8 {
            hash::hash_tells_data_apart(number_of(seen), a, b);
        }
    } else if a == b {
        hash::hash_tells_identifiers_apart(number_of(seen), number_of(t.frame), a);
    }
}

/// A frame that was written is known again for a tenth of a second after the reader was told of it,
/// and not later, if no loopback of such a frame was to come before.
pub proof fn a_written_frame_is_known_for_a_tenth_of_a_second(
    f: &mut LoopbackFilter,
    g: &mut LoopbackFilter,
    msgs: &[DedupMsg],
    none: &[DedupMsg],
    told_at: u128,
    now: u128,
    wire: WireFrameV1,
    t: Transmission,
    idle: (usize, Turn),
    r: (usize, Turn),
)
    requires
        call_ensures(on_wire, (&wire,), Ok::<Transmission, WireError>(t)),
        old(f).wf(),
        !old(f)@.contains_key(t.hash),
        msgs@ == seq![t.announce],
        none@.len() == 0,
        told_at <= now,
        call_ensures(reader_turn, (f, msgs, told_at, None::<&CanFrame>), idle),
        *old(g) == *final(f),
        call_ensures(reader_turn, (g, none, now, Some(&t.frame)), r),
    ensures
        idle.1 is Idle,
        r.1 is OwnFrame <==> now - told_at <= 100_000_000,
        r.1 is OwnFrame || r.1 is Forward,
        !final(g)@.contains_key(t.hash),
{
    room_for_one(old(f)@, t.hash, told_at);
    assert(none@ =~= Seq::<DedupMsg>::empty());
    assert(filter::room(old(g)@, none@, now));
    assert(filter::applied(old(g)@, none@, now) == old(g)@);
}

/// A frame that nobody told of is forwarded as it is converted, whatever loopbacks of other frames
/// are to come.
pub proof fn what_nobody_wrote_is_forwarded(
    f: &mut LoopbackFilter,
    none: &[DedupMsg],
    now: u128,
    seen: CanFrame,
    data: &[u8],
    h: u64,
    wire: WireFrameV1,
    r: (usize, Turn),
)
    requires
        old(f).wf(),
        none@.len() == 0,
        data@ == bytes_of(seen),
        call_ensures(frame_hash, (number_of(seen), data), h),
        !old(f)@.contains_key(h),
        call_ensures(can_to_wire, (&seen,), wire),
        call_ensures(reader_turn, (f, none, now, Some(&seen)), r),
    ensures
        r.1 matches Turn::Forward(sent) && sent.version == wire.version && sent.can_id
            == wire.can_id && sent.flags == wire.flags && sent.data@ == wire.data@,
{
    assert(none@ =~= Seq::<DedupMsg>::empty());
    assert(filter::room(old(f)@, none@, now));
    assert(filter::applied(old(f)@, none@, now) == old(f)@);
}

/// A read without a frame ends the reader with an error unless it only ran into its time limit; if
/// it did, the reader stops if the connection is being torn down, and else goes on.
pub proof fn a_timeout_is_the_occasion_to_stop(
    failure: IoFailure,
    shutdown: bool,
    verdict: ReadVerdict,
)
    requires
        call_ensures(on_read_error, (&failure, shutdown), verdict),
    ensures
        verdict is Fail <==> failure.kind is Interrupted || failure.kind is Other,
        verdict is Stop <==> (failure.kind is WouldBlock || failure.kind is TimedOut) && shutdown,
        verdict is Idle <==> (failure.kind is WouldBlock || failure.kind is TimedOut) && !shutdown,
{
}

/// A write error drops the frame if and only if its number is a transient one, and then takes back
/// just the hash that was announced, and pauses for a millisecond.
pub proof fn a_dropped_write_takes_its_own_hash_back(
    hash: u64,
    failure: IoFailure,
    errnos: Errnos,
    transient: bool,
    verdict: WriteVerdict,
)
    requires
        call_ensures(is_transient_errno, (failure.raw_os_error, &errnos), transient),
        call_ensures(judge_write_error, (hash, &failure, &errnos), verdict),
    ensures
        verdict is Drop <==> transient,
        verdict matches WriteVerdict::Drop { retract, pause_millis } ==> retract
            == DedupMsg::Dropped(hash) && pause_millis == 1,
{
}

/// On the host itself, a write that would block always drops the frame, and no write that failed
/// without a number, or with one that stands for neither that nor a full queue, ever does.
pub proof fn a_write_is_judged_by_the_numbers_of_the_host(
    hash: u64,
    failure: IoFailure,
    verdict: WriteVerdict,
)
    requires
        call_ensures(on_write_error, (hash, &failure), verdict),
    ensures
        failure.raw_os_error == Some(11i32) ==> verdict is Drop,
        verdict is Drop ==> (failure.raw_os_error matches Some(code) && (code == 11 || code == 105
            || code == 132 || code == 55)),
        verdict matches WriteVerdict::Drop { retract, pause_millis } ==> retract
            == DedupMsg::Dropped(hash) && pause_millis == 1,
{
}

/// A frame that was announced and whose write was dropped leaves no trace: as many loopbacks are to
/// come, for every hash, as before.
pub proof fn a_dropped_write_leaves_no_trace(
    f: &mut LoopbackFilter,
    g: &mut LoopbackFilter,
    told_at: u128,
    now: u128,
    wire: WireFrameV1,
    t: Transmission,
    failure: IoFailure,
    errnos: Errnos,
    retract: DedupMsg,
    pause_millis: u64,
    other: u64,
    before: u32,
    after: u32,
)
    requires
        call_ensures(on_wire, (&wire,), Ok::<Transmission, WireError>(t)),
        call_ensures(
            judge_write_error,
            (t.hash, &failure, &errnos),
            (WriteVerdict::Drop { retract, pause_millis }),
        ),
        old(f).wf(),
        old(f)@.contains_key(t.hash) ==> old(f)@[t.hash].count < u32::MAX,
        call_ensures(LoopbackFilter::pending, (&*old(f), other), before),
        call_ensures(LoopbackFilter::apply, (f, t.announce, told_at), ()),
        *old(g) == *final(f),
        call_ensures(LoopbackFilter::apply, (g, retract, now), ()),
        call_ensures(LoopbackFilter::pending, (&*final(g), other), after),
    ensures
        after == before,
{
}

/// What leads the reader to each of its stages: it decides on every read that gave a frame or ran
/// into its time limit, sends what was decided to be sent, and reads again when there is nothing to
/// send, or after sending. Only a teardown that was seen stops it, and an error of a read or of a
/// send ends it.
pub proof fn what_leads_the_reader_where(
    stage: ReaderStage,
    outcome: ReaderOutcome,
    next: ReaderStage,
)
    requires
        call_ensures(reader_next, (stage, outcome), next),
    ensures
        ({
            let worked = outcome is Worked;
            let idle = outcome == ReaderOutcome::Unread(ReadVerdict::Idle);
            let stop = outcome == ReaderOutcome::Unread(ReadVerdict::Stop);
            &&& next is Decide <==> stage is Read && (worked || idle)
            &&& next is Send <==> stage is Decide && worked
            &&& next is Read <==> stage is Decide && !worked || stage is Send && worked
            &&& next is Stopped <==> stage is Stopped || stage is Read && stop
            &&& next is Failed <==> stage is Failed || stage is Send && !worked || stage is Read
                && !worked && !idle && !stop
        }),
{
}

/// A turn of the reader that finds nothing to do but look after the filter, one that sends, and one
/// that drops one of the bridge's own frames all come back to the next read.
pub proof fn every_turn_of_the_reader_comes_back_to_reading(
    read: ReaderOutcome,
    decide: ReaderStage,
    after_nothing: ReaderStage,
    send: ReaderStage,
    after_send: ReaderStage,
)
    requires
        read is Worked || read == ReaderOutcome::Unread(ReadVerdict::Idle),
        call_ensures(reader_next, (ReaderStage::Read, read), decide),
        call_ensures(reader_next, (decide, ReaderOutcome::NothingToSend), after_nothing),
        call_ensures(reader_next, (decide, ReaderOutcome::Worked), send),
        call_ensures(reader_next, (send, ReaderOutcome::Worked), after_send),
    ensures
        decide is Decide,
        after_nothing is Read,
        send is Send,
        after_send is Read,
{
}

/// What leads the writer to each of its stages: a frame that was received is converted, one that
/// was converted is announced and then written, whether or not the reader is there to be told, a
/// dropped one is taken back and followed by a pause, and then, as after a frame that was written
/// or could not be converted, the next is received. An error of a reception, and of a write that is
/// not dropped, ends the writer.
pub proof fn what_leads_the_writer_where(
    stage: WriterStage,
    outcome: WriterOutcome,
    next: WriterStage,
)
    requires
        call_ensures(writer_next, (stage, outcome), next),
    ensures
        ({
            let worked = outcome is Worked;
            let dropped = outcome matches WriterOutcome::Judged(verdict) && verdict is Drop;
            &&& next is Convert <==> stage is Receive && worked
            &&& next is Announce <==> stage is Convert && worked
            &&& next is Write <==> stage is Announce
            &&& next is Retract <==> stage is Write && dropped
            &&& next is Pause <==> stage is Retract
            &&& next is Receive <==> stage is Pause || stage is Write && worked || stage is Convert
                && !worked
            &&& next is Failed <==> stage is Failed || stage is Receive && !worked || stage is Write
                && !worked && !dropped
        }),
{
}

/// A dropped frame costs the writer no more than itself: after it was taken back and a pause, the
/// next frame is received, whatever came of these two.
pub proof fn a_dropped_frame_does_not_end_the_writer(
    retract: DedupMsg,
    pause_millis: u64,
    taken_back: WriterOutcome,
    paused: WriterOutcome,
    first: WriterStage,
    second: WriterStage,
    third: WriterStage,
)
    requires
        call_ensures(
            writer_next,
            (
                WriterStage::Write,
                WriterOutcome::Judged(WriteVerdict::Drop { retract, pause_millis }),
            ),
            first,
        ),
        call_ensures(writer_next, (first, taken_back), second),
        call_ensures(writer_next, (second, paused), third),
    ensures
        first is Retract,
        second is Pause,
        third is Receive,
{
}

} // verus!
