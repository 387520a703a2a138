//! What the conversions between CAN frames and frames on the wire, and the hash, do with what they
//! are given.
use vstd::prelude::*;

use crate::error::WireError;
use crate::frame;
use crate::frame::can_to_wire;
use crate::frame::wire_to_can;
use crate::frame::CanFrame;
use crate::frame::CanId;
use crate::hash::frame_hash;
use crate::laws;
use crate::wire::WireFrameV1;

verus! {

/// A frame is made of what is given for it, as one of version one.
pub proof fn a_frame_is_made_of_what_is_given(
    can_id: u32,
    data: &[u8],
    flags: u8,
    frame: WireFrameV1,
)
    requires
        call_ensures(WireFrameV1::new, (can_id, data, flags), frame),
    ensures
        frame.version == 1,
        frame.can_id == can_id,
        frame.flags == flags,
        frame.data@ == data@,
{
}

/// The hash of a frame without data is its identifier.
pub proof fn the_hash_starts_with_the_identifier(can_id: u32, data: &[u8], h: u64)
    requires
        data@.len() == 0,
        call_ensures(frame_hash, (can_id, data), h),
    ensures
        h == can_id,
{
    assert(data@ =~= Seq::<u8>::empty());
    assert(can_id as u64 ^ 0 == can_id as u64) by (bit_vector);
}

/// One byte more at the end of the data changes the hash in the lane that the byte falls into, by
/// exclusive or, and in no other: the first byte falls into the lowest eight bits, and every ninth
/// into the same again.
pub proof fn one_byte_more_changes_its_lane(
    can_id: u32,
    data: &[u8],
    longer: &[u8],
    byte: u8,
    h: u64,
    h_longer: u64,
)
    requires
        longer@ == data@.push(byte),
        call_ensures(frame_hash, (can_id, data), h),
        call_ensures(frame_hash, (can_id, longer), h_longer),
    ensures
        h_longer == h ^ ((byte as u64) << ((8 * (data@.len() % 8)) as u64)),
{
    assert(longer@.drop_last() =~= data@);
    let id = can_id as u64;
    let d = crate::hash::data_hash(data@);
    let l = (byte as u64) << ((8 * (data@.len() % 8)) as u64);
    assert(id ^ (d ^ l) == (id ^ d) ^ l) by (bit_vector);
}

/// The identifier shows in the hash by exclusive or, whatever the data.
pub proof fn the_identifier_shows_in_the_hash(a: u32, b: u32, data: &[u8], h_a: u64, h_b: u64)
    requires
        call_ensures(frame_hash, (a, data), h_a),
        call_ensures(frame_hash, (b, data), h_b),
    ensures
        h_a ^ h_b == a as u64 ^ b as u64,
        h_a == h_b <==> a == b,
{
    let d = crate::hash::data_hash(data@);
    assert((a as u64 ^ d) ^ (b as u64 ^ d) == a as u64 ^ b as u64 && ((a as u64 ^ d == b as u64 ^ d)
        <==> a == b)) by (bit_vector);
}

/// Data of one length, up to eight bytes, show in the hash in full.
pub proof fn the_data_show_in_the_hash(can_id: u32, a: &[u8], b: &[u8], h_a: u64, h_b: u64)
    requires
        a@.len() == b@.len() <= 8,
        call_ensures(frame_hash, (can_id, a), h_a),
        call_ensures(frame_hash, (can_id, b), h_b),
    ensures
        h_a == h_b <==> a@ == b@,
{
    if a@ != b@ {
        crate::hash::hash_tells_data_apart(can_id, a@, b@);
    }
}

/// The flags of a set of single bits tell each of them.
proof fn bits_of(flags: u8)
    ensures
        flags & 0x01 != 0 <==> flags % 2 == 1,
        flags & 0x02 != 0 <==> flags / 2 % 2 == 1,
        flags & 0x04 != 0 <==> flags / 4 % 2 == 1,
        flags & 0x08 != 0 <==> flags / 8 % 2 == 1,
        flags & 0x10 != 0 <==> flags / 16 % 2 == 1,
        flags & 0x20 != 0 <==> flags / 32 % 2 == 1,
{
    assert((flags & 0x01 != 0 <==> flags % 2 == 1) && (flags & 0x02 != 0 <==> flags / 2 % 2 == 1)
        && (flags & 0x04 != 0 <==> flags / 4 % 2 == 1) && (flags & 0x08 != 0 <==> flags / 8 % 2
        == 1) && (flags & 0x10 != 0 <==> flags / 16 % 2 == 1) && (flags & 0x20 != 0 <==> flags / 32
        % 2 == 1)) by (bit_vector);
}

/// A frame for the wire carries the identifier as a number, with bit 0 of the flags telling that it
/// is extended, and the data; a remote request has none of them. Bit 1 tells a remote request, bit
/// 2 an error frame, which has no identifier, bit 3 a CAN FD frame, and of that bits 4 and 5 the
/// switch of the bit rate and the error state. No other bit is ever set.
pub proof fn what_goes_out_says_what_was_read(frame: CanFrame, wire: WireFrameV1)
    requires
        call_ensures(can_to_wire, (&frame,), wire),
    ensures
        wire.version == 1,
        wire.flags < 64,
        match frame {
            CanFrame::Normal { id, remote, data } => {
                &&& wire.data@ == data@
                &&& says_id(wire, id)
                &&& wire.flags / 2 % 2 == 1 <==> remote
                &&& wire.flags / 4 == 0
            },
            CanFrame::Remote { id, dlc: _ } => {
                &&& wire.data@.len() == 0
                &&& says_id(wire, id)
                &&& wire.flags / 2 == 1
            },
            CanFrame::Error { data } => {
                &&& wire.data@ == data@
                &&& wire.can_id == 0
                &&& wire.flags == 4
            },
            CanFrame::Fd { id, brs, esi, data } => {
                &&& wire.data@ == data@
                &&& says_id(wire, id)
                &&& wire.flags / 2 % 2 == 0
                &&& wire.flags / 4 % 2 == 0
                &&& wire.flags / 8 % 2 == 1
                &&& wire.flags / 16 % 2 == 1 <==> brs
                &&& wire.flags / 32 % 2 == 1 <==> esi
            },
        },
{
    let flags = wire.flags;
    let (e, r, x, f, b, i) = match frame {
        CanFrame::Normal { id, remote, .. } => (
            id.flag(),
            if remote {
                2u8
            } else {
                0u8
            },
            0u8,
            0u8,
            0u8,
            0u8,
        ),
        CanFrame::Remote { id, .. } => (id.flag(), 2u8, 0u8, 0u8, 0u8, 0u8),
        CanFrame::Error { .. } => (0u8, 0u8, 4u8, 0u8, 0u8, 0u8),
        CanFrame::Fd { id, brs, esi, data: _ } => (
            id.flag(),
            0u8,
            0u8,
            8u8,
            if brs {
                16u8
            } else {
                0u8
            },
            if esi {
                32u8
            } else {
                0u8
            },
        ),
    };
    assert(flags == e | r | x | f | b | i) by {
        assert(e | r | 0 | 0 | 0 | 0 == e | r && 0u8 | 0 | 4 | 0 | 0 | 0 == 4 && e | 0 | 0 | 8 | b
            | i == e | 8 | b | i) by (bit_vector);
    }
    assert(flags == e + r + x + f + b + i) by (bit_vector)
        requires
            flags == e | r | x | f | b | i,
            e == 0 || e == 1,
            r == 0 || r == 2,
            x == 0 || x == 4,
            f == 0 || f == 8,
            b == 0 || b == 16,
            i == 0 || i == 32,
    ;
}

/// A frame for the wire has the number of the identifier, and bit 0 of the flags tells its width.
pub open spec fn says_id(wire: WireFrameV1, id: CanId) -> bool {
    match id {
        CanId::Standard(raw) => wire.can_id == raw && wire.flags % 2 == 0,
        CanId::Extended(raw) => wire.can_id == raw && wire.flags % 2 == 1,
    }
}

/// A frame from the wire is converted if and only if it is no error frame (bit 2 of the flags), its
/// identifier fits into 29 bits where it is extended (bit 0) and else into 11, and its data fit
/// into 64 bytes where it is a CAN FD frame (bit 3) and else into 8. Where several things are
/// wrong, the error is that of the first.
pub proof fn what_comes_in_is_refused_for_a_reason(
    wire: WireFrameV1,
    r: Result<CanFrame, WireError>,
)
    requires
        call_ensures(wire_to_can, (&wire,), r),
    ensures
        ({
            let error = wire.flags / 4 % 2 == 1;
            let extended = wire.flags % 2 == 1;
            let fd = wire.flags / 8 % 2 == 1;
            let remote = wire.flags / 2 % 2 == 1;
            let id_fits = wire.can_id < if extended {
                0x2000_0000u32
            } else {
                0x800
            };
            let data_fit = wire.data@.len() <= if fd {
                64nat
            } else {
                8
            };
            &&& r is Ok <==> !error && id_fits && data_fit
            &&& r matches Err(e) ==> {
                &&& e is ErrorFrame <==> error
                &&& e is InvalidExtendedId <==> !error && extended && !id_fits
                &&& e is InvalidStandardId <==> !error && !extended && !id_fits
                &&& e is FdFrame <==> !error && id_fits && fd
                &&& e is RemoteFrame <==> !error && id_fits && !fd && remote
                &&& e is DataFrame <==> !error && id_fits && !fd && !remote
            }
        }),
{
    bits_of(wire.flags);
}

/// What a frame from the wire is converted to: a CAN FD frame (bit 3), which keeps its two bits, a
/// remote request (bit 1) for as many bytes as there are data, or a data frame with just these
/// data. It has the identifier that came in, in the width that bit 0 tells.
pub proof fn what_comes_in_is_what_was_sent(wire: WireFrameV1, r: Result<CanFrame, WireError>)
    requires
        call_ensures(wire_to_can, (&wire,), r),
    ensures
        r matches Ok(frame) ==> match frame {
            CanFrame::Fd { id, brs, esi, data } => {
                &&& wire.flags / 8 % 2 == 1
                &&& says_id(wire, id)
                &&& brs <==> wire.flags / 16 % 2 == 1
                &&& esi <==> wire.flags / 32 % 2 == 1
                &&& data@.take(wire.data@.len() as int) == wire.data@
            },
            CanFrame::Remote { id, dlc } => {
                &&& wire.flags / 8 % 2 == 0
                &&& wire.flags / 2 % 2 == 1
                &&& says_id(wire, id)
                &&& dlc == wire.data@.len()
            },
            CanFrame::Normal { id, remote, data } => {
                &&& wire.flags / 8 % 2 == 0
                &&& wire.flags / 2 % 2 == 0
                &&& says_id(wire, id)
                &&& !remote
                &&& data@ == wire.data@
            },
            CanFrame::Error { .. } => false,
        },
{
    bits_of(wire.flags);
    if let Ok(CanFrame::Fd { data, .. }) = r {
        assert(data@ == frame::fd_padded(wire.data@));
        assert(data@.take(wire.data@.len() as int) =~= wire.data@);
    }
}

/// A CAN FD frame can have this many data bytes.
pub open spec fn is_fd_length(n: int) -> bool {
    0 <= n <= 8 || n == 12 || n == 16 || n == 20 || n == 24 || n == 32 || n == 48 || n == 64
}

/// Data of a CAN FD frame are filled up with zero bytes, to a length that such a frame can have and
/// no further than needed for that.
pub proof fn data_are_filled_up_no_further_than_needed(
    wire: WireFrameV1,
    r: Result<CanFrame, WireError>,
    n: int,
    i: int,
)
    requires
        call_ensures(wire_to_can, (&wire,), r),
    ensures
        r matches Ok(CanFrame::Fd { id, brs, esi, data }) ==> {
            &&& is_fd_length(data@.len() as int)
            &&& data@.len() >= wire.data@.len()
            &&& is_fd_length(n) && n >= wire.data@.len() ==> n >= data@.len()
            &&& wire.data@.len() <= i < data@.len() ==> data@[i] == 0
        },
{
    if let Ok(CanFrame::Fd { data, .. }) = r {
        assert(data@ == frame::fd_padded(wire.data@));
    }
}

/// A frame that can be on a bus crosses both conversions unchanged, but for the length that a
/// remote request asks for, which becomes zero; an error frame does not cross.
pub proof fn a_frame_crosses_both_conversions(
    frame: CanFrame,
    wire: WireFrameV1,
    r: Result<CanFrame, WireError>,
)
    requires
        frame@.valid(),
        call_ensures(can_to_wire, (&frame,), wire),
        call_ensures(wire_to_can, (&wire,), r),
    ensures
        match frame {
            CanFrame::Normal { id, remote, data } => r matches Ok(
                CanFrame::Normal { id: i, remote: m, data: d },
            ) && i == id && m == remote && d@ == data@,
            CanFrame::Fd { id, brs, esi, data } => r matches Ok(
                CanFrame::Fd { id: i, brs: b, esi: e, data: d },
            ) && i == id && b == brs && e == esi && d@ == data@,
            CanFrame::Remote { id, dlc: _ } => r matches Ok(CanFrame::Remote { id: i, dlc: n })
                && i == id && n == 0,
            CanFrame::Error { .. } => r == Err::<CanFrame, WireError>(WireError::ErrorFrame),
        },
{
    laws::conversion_and_back(frame@);
}

/// Frames that can be on a bus are those with an identifier that fits into its bits, and with data,
/// or a requested length, that such a frame can have.
pub proof fn frames_on_a_bus_fit(frame: CanFrame)
    ensures
        frame@.valid() <==> match frame {
            CanFrame::Normal { id, remote, data } => id_fits(id) && !remote && data@.len() <= 8,
            CanFrame::Remote { id, dlc } => id_fits(id) && dlc <= 8,
            CanFrame::Error { data } => data@.len() <= 8,
            CanFrame::Fd { id, brs: _, esi: _, data } => id_fits(id) && is_fd_length(
                data@.len() as int,
            ),
        },
{
}

/// An identifier fits into 11 bits, or into 29 if it is an extended one.
pub open spec fn id_fits(id: CanId) -> bool {
    match id {
        CanId::Standard(raw) => raw < 0x800,
        CanId::Extended(raw) => raw < 0x2000_0000,
    }
}

} // verus!
