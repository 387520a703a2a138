//! What holds of the conversions, the records and the hash together.
use vstd::prelude::*;

use crate::codec;
use crate::error::WireError;
use crate::frame;
use crate::frame::CanView;
use crate::hash;
use crate::wire::WireFrameV1;
use crate::wire::WireView;
use crate::wire::FLAG_BRS;
use crate::wire::FLAG_EFF;
use crate::wire::FLAG_ERR;
use crate::wire::FLAG_ESI;
use crate::wire::FLAG_FD;
use crate::wire::FLAG_RTR;

verus! {

/// Which flags are set in the frame that stands for a CAN frame: those of the kind of frame, and
/// of a CAN FD frame those of its two bits.
pub proof fn the_flags_tell_the_frame(frame: CanView)
    requires
        frame.valid(),
    ensures
        ({
            let flags = frame::wire_of(frame).flags;
            &&& frame::has(flags, FLAG_EFF) <==> match frame {
                CanView::Normal { id, .. } => id is Extended,
                CanView::Fd { id, .. } => id is Extended,
                CanView::Remote { id, .. } => id is Extended,
                CanView::Error { .. } => false,
            }
            &&& frame::has(flags, FLAG_RTR) <==> frame is Remote
            &&& frame::has(flags, FLAG_ERR) <==> frame is Error
            &&& frame::has(flags, FLAG_FD) <==> frame is Fd
            &&& frame::has(flags, FLAG_BRS) <==> frame is Fd && frame->Fd_brs
            &&& frame::has(flags, FLAG_ESI) <==> frame is Fd && frame->Fd_esi
            &&& flags < 0x40
        }),
{
    let flags = frame::wire_of(frame).flags;
    let (e, r, x, f, b, i) = match frame {
        CanView::Normal { id, .. } => (id.flag(), 0u8, 0u8, 0u8, 0u8, 0u8),
        CanView::Remote { id, .. } => (id.flag(), FLAG_RTR, 0u8, 0u8, 0u8, 0u8),
        CanView::Error { .. } => (0u8, 0u8, FLAG_ERR, 0u8, 0u8, 0u8),
        CanView::Fd { id, brs, esi, data: _ } => (
            id.flag(),
            0u8,
            0u8,
            FLAG_FD,
            frame::flag_if(brs, FLAG_BRS),
            frame::flag_if(esi, FLAG_ESI),
        ),
    };
    assert(flags == e | r | x | f | b | i) by {
        assert(e | 0 | 0 | 0 | 0 | 0 == e | 0 && e | 2 | 0 | 0 | 0 | 0 == e | 2 && 0u8 | 0 | 4 | 0
            | 0 | 0 == 4 && e | 0 | 0 | 8 | b | i == e | 8 | b | i) by (bit_vector);
    }
    assert(((flags & 1 != 0) <==> e == 1) && ((flags & 2 != 0) <==> r == 2) && ((flags & 4 != 0)
        <==> x == 4) && ((flags & 8 != 0) <==> f == 8) && ((flags & 0x10 != 0) <==> b == 0x10) && ((
    flags & 0x20 != 0) <==> i == 0x20) && flags < 0x40) by (bit_vector)
        requires
            flags == e | r | x | f | b | i,
            e == 0 || e == 1,
            r == 0 || r == 2,
            x == 0 || x == 4,
            f == 0 || f == 8,
            b == 0 || b == 0x10,
            i == 0 || i == 0x20,
    ;
}

/// A frame that is converted for the wire and back comes out as it was, with two exceptions: a
/// remote request asks for no bytes afterwards, and an error frame is refused.
pub proof fn conversion_and_back(frame: CanView)
    requires
        frame.valid(),
    ensures
        frame::can_of(frame::wire_of(frame)) == match frame {
            CanView::Normal { .. } => Ok::<CanView, WireError>(frame),
            CanView::Fd { .. } => Ok(frame),
            CanView::Remote { id, .. } => Ok(CanView::Remote { id, dlc: 0 }),
            CanView::Error { .. } => Err(WireError::ErrorFrame),
        },
{
    the_flags_tell_the_frame(frame);
    if let CanView::Fd { data, .. } = frame {
        assert(frame::fd_padded(data) =~= data);
    }
}

/// What is converted from the wire can be on a bus.
pub proof fn converted_frames_are_valid(w: WireView, frame: CanView)
    requires
        frame::can_of(w) == Ok::<CanView, WireError>(frame),
    ensures
        frame.valid(),
{
}

/// What goes out keeps to the format: it is of version one, has none of the two reserved flags, an
/// identifier that fits into the width that the flags tell, without any flags of the host in it,
/// and no more data than a CAN FD frame carries. It fits into a record.
pub proof fn what_goes_out_keeps_to_the_format(frame: CanView)
    requires
        frame.valid(),
    ensures
        ({
            let w = frame::wire_of(frame);
            &&& w.version == 1
            &&& w.flags < 0x40
            &&& w.can_id <= if frame::has(w.flags, FLAG_EFF) {
                0x1FFF_FFFFu32
            } else {
                0x7FF
            }
            &&& w.data.len() <= codec::MAX_DATA_LEN
            &&& codec::payload_of(w).len() <= codec::MAX_PAYLOAD_LEN
        }),
{
    the_flags_tell_the_frame(frame);
    codec::every_can_frame_fits_a_record(frame::wire_of(frame));
}

/// A data frame, classic or CAN FD, that is read from one bus is written to the other as it was:
/// through the conversion, the record on the stream, its receipt and the conversion back. A remote
/// request arrives too, but asks for no bytes; an error frame arrives and is not written.
pub proof fn a_frame_crosses_the_bridge(
    frame: CanView,
    rest: Seq<u8>,
    r: Result<WireFrameV1, WireError>,
    left: Seq<u8>,
)
    requires
        frame.valid(),
        codec::received(codec::record_of(frame::wire_of(frame)) + rest, r, left),
    ensures
        left == rest,
        r is Ok,
        frame::can_of(r->Ok_0@) == match frame {
            CanView::Normal { .. } => Ok::<CanView, WireError>(frame),
            CanView::Fd { .. } => Ok(frame),
            CanView::Remote { id, .. } => Ok(CanView::Remote { id, dlc: 0 }),
            CanView::Error { .. } => Err(WireError::ErrorFrame),
        },
{
    codec::receiving_gives_back_what_was_sent(frame::wire_of(frame), rest, r, left);
    conversion_and_back(frame);
}

/// The hash of a frame from the wire is that of the CAN frame it is converted to, although data of
/// a CAN FD frame may have been padded. The one exception is a remote request with data that show
/// in the hash, as these never reach the bus.
pub proof fn conversion_keeps_the_hash(w: WireView, frame: CanView)
    requires
        frame::can_of(w) == Ok::<CanView, WireError>(frame),
        frame is Remote ==> hash::data_hash(w.data) == 0,
    ensures
        ({
            let back = frame::wire_of(frame);
            hash::hash_of(back.can_id, back.data) == hash::hash_of(w.can_id, w.data)
        }),
{
    match frame {
        CanView::Fd { id, .. } => {
            hash::hash_ignores_zero_padding(
                id.number(),
                w.data,
                (frame::fd_len(w.data.len()) - w.data.len()) as nat,
            );
        },
        _ => {},
    }
}

} // verus!
