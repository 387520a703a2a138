//! What serializing, sending, receiving and reading have to do with each other and with the bytes,
//! and how errors read.
use vstd::prelude::*;

use crate::codec;
use crate::codec::accept_payload;
use crate::codec::decode_payload;
use crate::codec::encode_payload;
use crate::codec::payload_len;
use crate::codec::recv_wire;
use crate::codec::send_wire;
use crate::codec::WireReader;
use crate::error;
use crate::error::WireError;
use crate::varint;
use crate::wire::WireFrameV1;

verus! {

/// Two frames hold the same.
pub open spec fn same_frame(a: WireFrameV1, b: WireFrameV1) -> bool {
    a.version == b.version && a.flags == b.flags && a.can_id == b.can_id && a.data@ == b.data@
}

/// Two attempts came to the same.
pub open spec fn same_result(
    a: Result<WireFrameV1, WireError>,
    b: Result<WireFrameV1, WireError>,
) -> bool {
    match (a, b) {
        (Ok(x), Ok(y)) => same_frame(x, y),
        (Err(x), Err(y)) => x == y,
        (_, _) => false,
    }
}

/// The identifier that four bytes hold, big-endian, is that of the frame.
proof fn id_from_four_bytes(can_id: u32)
    ensures
        ({
            let b = codec::be32(can_id);
            b[0] * 0x100_0000 + b[1] * 0x1_0000 + b[2] * 0x100 + b[3] == can_id
        }),
{
    let a = can_id / 0x100_0000;
    let b = can_id / 0x1_0000 % 0x100;
    let c = can_id / 0x100 % 0x100;
    let d = can_id % 0x100;
    assert(a * 0x100_0000 + b * 0x1_0000 + c * 0x100 + d == can_id && a < 0x100) by (bit_vector)
        requires
            a == can_id / 0x100_0000,
            b == can_id / 0x1_0000 % 0x100,
            c == can_id / 0x100 % 0x100,
            d == can_id % 0x100,
    ;
}

/// Serializing never fails. The bytes are the version, the flags, the identifier as four bytes with
/// the most significant first, the number of data bytes, and the data bytes.
pub proof fn a_frame_is_written_field_by_field(
    frame: WireFrameV1,
    r: Result<Vec<u8>, WireError>,
)
    requires
        call_ensures(encode_payload, (&frame,), r),
    ensures
        r is Ok,
        ({
            let b = r->Ok_0@;
            let n = frame.data@.len();
            &&& b.len() >= 7 + n
            &&& b[0] == frame.version
            &&& b[1] == frame.flags
            &&& b[2] * 0x100_0000 + b[3] * 0x1_0000 + b[4] * 0x100 + b[5] == frame.can_id
            &&& b.skip(b.len() - n) == frame.data@
            &&& n < 0x80 ==> b.len() == 7 + n && b[6] == n
            &&& 0x80 <= n < 0x4000 ==> b.len() == 8 + n && b[6] >= 0x80 && b[7] < 0x80 && (b[6]
                - 0x80) + 0x80 * b[7] == n
            &&& n >= 0x4000 ==> b.len() > 8 + n && b[6] >= 0x80 && b[7] >= 0x80
        }),
{
    let b = r->Ok_0@;
    let n = frame.data@.len();
    let count = varint::varint(n);
    reveal_with_fuel(varint::varint, 3);
    assert(b.skip(b.len() - n) =~= frame.data@);
    assert(b.subrange(2, 6) =~= codec::be32(frame.can_id));
    assert(b[2] == codec::be32(frame.can_id)[0] && b[3] == codec::be32(frame.can_id)[1] && b[4]
        == codec::be32(frame.can_id)[2] && b[5] == codec::be32(frame.can_id)[3]);
    id_from_four_bytes(frame.can_id);
    assert(b[6] == count[0]);
    if n >= 0x80 {
        assert(b[7] == count[1]);
    }
}

/// The number of data bytes is written in groups of seven bits, the least significant first, one
/// to a byte, with the high bit set in every byte but the last.
pub proof fn numbers_are_written_in_groups_of_seven_bits(n: nat)
    ensures
        varint::varint(n).len() >= 1,
        n < 0x80 ==> varint::varint(n) == seq![n as u8],
        n >= 0x80 ==> {
            &&& varint::varint(n)[0] == 0x80 + n % 0x80
            &&& varint::varint(n).skip(1) == varint::varint(n / 0x80)
        },
{
    if n >= 0x80 {
        assert(varint::varint(n).skip(1) =~= varint::varint(n / 0x80));
    }
}

/// Bytes that are read give the fields in the order and form in which they are written, with the
/// data right behind their number, and what follows is ignored. The number of data bytes need not
/// be in the shortest form.
pub proof fn a_frame_is_read_field_by_field(bytes: &[u8], r: Result<WireFrameV1, WireError>)
    requires
        call_ensures(decode_payload, (bytes,), r),
    ensures
        r matches Err(e) ==> e is Deserialize,
        r matches Ok(frame) ==> {
            let b = bytes@;
            let n = frame.data@.len() as int;
            &&& b.len() >= 7 + n
            &&& b[0] == frame.version
            &&& b[1] == frame.flags
            &&& b[2] * 0x100_0000 + b[3] * 0x1_0000 + b[4] * 0x100 + b[5] == frame.can_id
            &&& b[6] < 0x80 ==> n == b[6] && frame.data@ == b.subrange(7, 7 + n)
            &&& b[6] >= 0x80 ==> b.len() >= 8 + n && (b[7] < 0x80 ==> n == (b[6] - 0x80) + 0x80
                * b[7] && frame.data@ == b.subrange(8, 8 + n))
        },
{
    if let Ok(frame) = r {
        let b = bytes@;
        let j = choose|j: int| codec::laid_out(b, frame@, j);
        let count = b.subrange(6, j);
        assert(b.subrange(2, 6) == codec::be32(frame.can_id));
        assert(b[2] == b.subrange(2, 6)[0] && b[3] == b.subrange(2, 6)[1] && b[4] == b.subrange(
            2,
            6,
        )[2] && b[5] == b.subrange(2, 6)[3]);
        id_from_four_bytes(frame.can_id);
        let n = frame.data@.len() as int;
        reveal_with_fuel(varint::varint_value, 3);
        assert(frame.data@ == b.subrange(j, j + n));
        assert(count[0] == b[6]);
        assert(count.last() == count[count.len() - 1]);
        if b[6] < 0x80 {
            assert(count.len() == 1);
            assert(count.drop_first() =~= Seq::<u8>::empty());
            assert(varint::varint_value(count.drop_first()) == 0);
        } else {
            assert(count.len() >= 2);
            assert(count[1] == b[7]);
            if b[7] < 0x80 {
                assert(count.len() == 2);
                assert(count.drop_first().drop_first() =~= Seq::<u8>::empty());
                assert(varint::varint_value(count.drop_first().drop_first()) == 0);
                assert(count.drop_first()[0] == b[7]);
            }
        }
    }
}

/// Bytes are read wherever they hold a whole frame, with the number of data bytes in one byte or in
/// two, and nothing shorter is.
pub proof fn whole_frames_are_read(bytes: &[u8], r: Result<WireFrameV1, WireError>)
    requires
        call_ensures(decode_payload, (bytes,), r),
    ensures
        bytes@.len() < 7 ==> r is Err,
        bytes@.len() >= 7 && bytes@[6] < 0x80 ==> (r is Ok <==> bytes@.len() >= 7 + bytes@[6]),
        bytes@.len() >= 8 && bytes@[6] >= 0x80 && bytes@[7] < 0x80 ==> (r is Ok <==> bytes@.len()
            >= 8 + (bytes@[6] - 0x80) + 0x80 * bytes@[7]),
        bytes@.len() == 7 && bytes@[6] >= 0x80 ==> r is Err,
{
    a_frame_is_read_field_by_field(bytes, r);
    let b = bytes@;
    if b.len() >= 7 {
        let can_id = id_of_bytes(b[2], b[3], b[4], b[5]);
        assert(b.subrange(2, 6) =~= codec::be32(can_id));
        if b[6] < 0x80 && b.len() >= 7 + b[6] {
            let data = b.subrange(7, 7 + b[6]);
            let count = b.subrange(6, 7);
            assert(count.drop_first() =~= Seq::<u8>::empty());
            assert(varint::varint_value(count.drop_first()) == 0);
            assert(varint::varint_value(count) == b[6]);
            let f = crate::wire::WireView { version: b[0], flags: b[1], can_id, data };
            assert(codec::laid_out(b, f, 7));
            assert(codec::reads_as(b, f));
        }
        if b.len() >= 8 && b[6] >= 0x80 && b[7] < 0x80 {
            let n = (b[6] - 0x80) + 0x80 * b[7];
            if b.len() >= 8 + n {
                let data = b.subrange(8, 8 + n);
                let count = b.subrange(6, 8);
                assert(count.drop_first().drop_first() =~= Seq::<u8>::empty());
                assert(varint::varint_value(count.drop_first().drop_first()) == 0);
                assert(varint::varint_value(count.drop_first()) == b[7]);
                assert(varint::varint_value(count) == n);
                let f = crate::wire::WireView { version: b[0], flags: b[1], can_id, data };
                assert(codec::laid_out(b, f, 8));
                assert(codec::reads_as(b, f));
            }
        }
    }
}

/// The number that groups of seven bits stand for, the least significant first, one to a byte.
pub open spec fn groups(s: Seq<u8>) -> int
    decreases s.len(),
{
    if s.len() == 0 {
        0
    } else {
        s[0] % 0x80 + 0x80 * groups(s.skip(1))
    }
}

/// The value of an encoding is the number that its groups stand for.
proof fn groups_are_the_value(s: Seq<u8>)
    ensures
        groups(s) == varint::varint_value(s),
    decreases s.len(),
{
    if s.len() > 0 {
        assert(s.skip(1) =~= s.drop_first());
        groups_are_the_value(s.skip(1));
    }
}

/// The number of data bytes may take up to five bytes, or ten where a length has 64 bits: those up
/// to the first without the high bit. The frame is read if and only if there are as many bytes
/// behind as that number, and its data are these.
pub proof fn the_number_of_data_bytes_may_be_longer_than_needed(
    bytes: &[u8],
    r: Result<WireFrameV1, WireError>,
    j: int,
)
    requires
        call_ensures(decode_payload, (bytes,), r),
        7 <= j <= bytes@.len(),
        bytes@[j - 1] < 0x80,
        forall|i: int| 6 <= i < j - 1 ==> bytes@[i] >= 0x80,
    ensures
        ({
            let n = groups(bytes@.subrange(6, j));
            let limit = if usize::BITS == 32 {
                5int
            } else {
                10
            };
            &&& r is Ok <==> j - 6 <= limit && n <= usize::MAX && j + n <= bytes@.len()
            &&& r matches Ok(frame) ==> frame.data@ == bytes@.subrange(j, j + n)
        }),
{
    let b = bytes@;
    let count = b.subrange(6, j);
    groups_are_the_value(count);
    assert(count.last() == b[j - 1]);
    assert(varint::terminated(count)) by {
        assert forall|i: int| 0 <= i < count.len() - 1 implies count[i] >= 0x80 by {
            assert(count[i] == b[i + 6]);
        }
    }
    if let Ok(frame) = r {
        let k = choose|k: int| codec::laid_out(b, frame@, k);
        varint::varint_ends_at_one_place(b, 6, j, k);
    }
    let n = groups(count);
    if j - 6 <= varint::varint_limit(usize::BITS as nat) && n <= usize::MAX && j + n <= b.len() {
        let can_id = id_of_bytes(b[2], b[3], b[4], b[5]);
        assert(b.subrange(2, 6) =~= codec::be32(can_id));
        let data = b.subrange(j, j + n);
        let f = crate::wire::WireView { version: b[0], flags: b[1], can_id, data };
        assert(codec::laid_out(b, f, j));
        assert(codec::reads_as(b, f));
    }
}

/// Where no byte from the seventh on is without the high bit, there is no number of data bytes, and
/// nothing is read.
pub proof fn a_number_of_data_bytes_has_an_end(bytes: &[u8], r: Result<WireFrameV1, WireError>)
    requires
        call_ensures(decode_payload, (bytes,), r),
        forall|i: int| 6 <= i < bytes@.len() ==> bytes@[i] >= 0x80,
    ensures
        r matches Err(e) && e is Deserialize,
{
    if let Ok(frame) = r {
        let k = choose|k: int| codec::laid_out(bytes@, frame@, k);
        let count = bytes@.subrange(6, k);
        assert(count.last() == bytes@[k - 1]);
    }
}

/// The identifier that four bytes hold, big-endian.
proof fn id_of_bytes(a: u8, b: u8, c: u8, d: u8) -> (can_id: u32)
    ensures
        codec::be32(can_id) == seq![a, b, c, d],
{
    let (w, x, y, z) = (a as u32, b as u32, c as u32, d as u32);
    let can_id = (w * 0x100_0000 + x * 0x1_0000 + y * 0x100 + z) as u32;
    assert(can_id / 0x100_0000 == w && can_id / 0x1_0000 % 0x100 == x && can_id / 0x100 % 0x100 == y
        && can_id % 0x100 == z) by (bit_vector)
        requires
            w < 0x100,
            x < 0x100,
            y < 0x100,
            z < 0x100,
            can_id == w * 0x100_0000 + x * 0x1_0000 + y * 0x100 + z,
    ;
    assert(codec::be32(can_id) =~= seq![a, b, c, d]);
    can_id
}

/// Reading is a function of the bytes, and of those up to the end of the frame only.
pub proof fn reading_depends_on_the_bytes_alone(
    bytes: &[u8],
    longer: &[u8],
    r: Result<WireFrameV1, WireError>,
    r_longer: Result<WireFrameV1, WireError>,
)
    requires
        bytes@.is_prefix_of(longer@),
        call_ensures(decode_payload, (bytes,), r),
        call_ensures(decode_payload, (longer,), r_longer),
    ensures
        r is Ok || bytes@ == longer@ ==> same_result(r, r_longer),
{
    if let Ok(frame) = r {
        let j = choose|j: int| codec::laid_out(bytes@, frame@, j);
        assert(longer@.subrange(2, 6) =~= bytes@.subrange(2, 6));
        assert(longer@.subrange(6, j) =~= bytes@.subrange(6, j));
        let n = frame.data@.len();
        assert(longer@.subrange(j, j + n) =~= bytes@.subrange(j, j + n));
        assert(codec::laid_out(longer@, frame@, j));
        assert(codec::reads_as(longer@, frame@));
        if let Ok(other) = r_longer {
            codec::reading_is_unambiguous(longer@, frame@, other@);
        }
    } else if bytes@ == longer@ {
        if let Ok(other) = r_longer {
            assert(codec::reads_as(bytes@, other@));
        }
    }
}

/// What was serialized is read as it was, whatever follows it.
pub proof fn what_was_written_is_read(
    frame: WireFrameV1,
    written: Result<Vec<u8>, WireError>,
    bytes: &[u8],
    r: Result<WireFrameV1, WireError>,
)
    requires
        call_ensures(encode_payload, (&frame,), written),
        written is Ok,
        written->Ok_0@.is_prefix_of(bytes@),
        call_ensures(decode_payload, (bytes,), r),
        frame.data@.len() <= usize::MAX,
    ensures
        r is Ok,
        same_frame(r->Ok_0, frame),
{
    let rest = bytes@.skip(written->Ok_0@.len() as int);
    assert(bytes@ =~= written->Ok_0@ + rest);
    codec::reading_gives_back_what_was_serialized(frame@, rest);
    assert(codec::reads_as(bytes@, frame@));
}

/// A payload is accepted if and only if it can be read and holds at most 64 data bytes, and then as
/// what was read; with more data bytes the error tells how many.
pub proof fn a_payload_is_accepted_unless_it_holds_too_much(
    bytes: &[u8],
    read: Result<WireFrameV1, WireError>,
    r: Result<WireFrameV1, WireError>,
)
    requires
        call_ensures(decode_payload, (bytes,), read),
        call_ensures(accept_payload, (bytes,), r),
    ensures
        match read {
            Ok(frame) => if frame.data@.len() <= 64 {
                same_result(r, read)
            } else {
                r matches Err(WireError::DataTooLarge(n)) && n == frame.data@.len()
            },
            Err(_) => r matches Err(WireError::Deserialize),
        },
{
    if let Ok(frame) = read {
        assert(codec::reads_as(bytes@, frame@));
        let other = choose|other: crate::wire::WireView| #[trigger]
            codec::reads_as(bytes@, other) && match r {
                Ok(got) => got@ == other && other.data.len() <= codec::MAX_DATA_LEN,
                Err(e) => other.data.len() > codec::MAX_DATA_LEN && e == WireError::DataTooLarge(
                    other.data.len() as usize,
                ),
            };
        codec::reading_is_unambiguous(bytes@, frame@, other);
    }
}

/// The length of a payload is announced by two bytes, the most significant first, and accepted up
/// to 2048; above that the error tells the length.
pub proof fn two_bytes_announce_up_to_2048(header: [u8; 2], r: Result<usize, WireError>)
    requires
        call_ensures(payload_len, (header,), r),
    ensures
        ({
            let n = 256 * header@[0] + header@[1];
            match r {
                Ok(len) => len == n && n <= 2048,
                Err(e) => n > 2048 && (e matches WireError::PayloadTooLarge(m) && m == n),
            }
        }),
{
}

/// Sending a frame appends its length, in two bytes that announce it, and then its serialized form,
/// if that has at most 2048 bytes; else it appends nothing, and the error tells the length.
pub proof fn a_record_is_its_length_and_its_payload(
    stream: &mut Vec<u8>,
    frame: WireFrameV1,
    written: Result<Vec<u8>, WireError>,
    r: Result<(), WireError>,
)
    requires
        call_ensures(encode_payload, (&frame,), written),
        call_ensures(send_wire, (stream, &frame), r),
    ensures
        ({
            let payload = written->Ok_0@;
            let start = old(stream)@.len() as int;
            match r {
                Ok(_) => {
                    &&& payload.len() <= 2048
                    &&& final(stream)@.len() == start + 2 + payload.len()
                    &&& final(stream)@.take(start) == old(stream)@
                    &&& 256 * final(stream)@[start] + final(stream)@[start + 1] == payload.len()
                    &&& final(stream)@.skip(start + 2) == payload
                },
                Err(e) => {
                    &&& payload.len() > 2048
                    &&& final(stream)@ == old(stream)@
                    &&& e matches WireError::PayloadTooLarge(n) && n == payload.len()
                },
            }
        }),
{
    let payload = written->Ok_0@;
    let start = old(stream)@.len() as int;
    assert(payload.len() == written->Ok_0.len());
    if r is Ok {
        let n = payload.len();
        assert(final(stream)@[start] == codec::be16(n)[0] && final(stream)@[start + 1]
            == codec::be16(n)[1]);
        assert(final(stream)@.take(start) =~= old(stream)@);
        assert(final(stream)@.skip(start + 2) =~= payload);
    }
}

/// A reader starts with all the bytes that it is given, and says how many are left.
pub proof fn a_reader_starts_at_the_start(bytes: Vec<u8>, reader: WireReader, n: usize)
    requires
        call_ensures(WireReader::new, (bytes,), reader),
        call_ensures(WireReader::remaining, (&reader,), n),
    ensures
        reader.wf(),
        reader@ == bytes@,
        n == bytes@.len(),
{
}

/// What is left to be read is as many bytes as the reader says.
pub proof fn a_reader_says_how_many_bytes_are_left(reader: WireReader, n: usize)
    requires
        reader.wf(),
        call_ensures(WireReader::remaining, (&reader,), n),
    ensures
        n == reader@.len(),
{
}

/// Receiving takes two bytes, and then as many as they announce, if that many are allowed, and
/// makes of these what becomes of a payload. Nothing is taken beyond that; where the bytes end too
/// early, all are taken. The errors tell where it ended.
pub proof fn a_record_is_received_piece_by_piece(
    stream: &mut WireReader,
    r: Result<WireFrameV1, WireError>,
    header: [u8; 2],
    announced: Result<usize, WireError>,
    payload: &[u8],
    accepted: Result<WireFrameV1, WireError>,
)
    requires
        old(stream).wf(),
        call_ensures(recv_wire, (stream,), r),
        old(stream)@.len() >= 2 ==> header@ == old(stream)@.take(2) && call_ensures(
            payload_len,
            (header,),
            announced,
        ),
        announced matches Ok(n) ==> old(stream)@.len() >= 2 + n ==> payload@
            == old(stream)@.subrange(2, 2 + n) && call_ensures(
            accept_payload,
            (payload,),
            accepted,
        ),
    ensures
        final(stream).wf(),
        ({
            let s = old(stream)@;
            let left = final(stream)@;
            if s.len() < 2 {
                r matches Err(WireError::ReadLength) && left.len() == 0
            } else {
                match announced {
                    Err(e) => r == Err::<WireFrameV1, WireError>(e) && left == s.skip(2),
                    Ok(n) => if s.len() < 2 + n {
                        r matches Err(WireError::ReadPayload) && left.len() == 0
                    } else {
                        same_result(r, accepted) && left == s.skip(2 + n)
                    },
                }
            }
        }),
{
    let s = old(stream)@;
    if s.len() >= 2 {
        assert(header@[0] == s[0] && header@[1] == s[1]);
        if let Ok(n) = announced {
            if s.len() >= 2 + n {
                payloads_are_taken_one_way(payload@, r, accepted);
            }
        }
    }
}

/// What becomes of a payload is settled by its bytes.
proof fn payloads_are_taken_one_way(
    payload: Seq<u8>,
    a: Result<WireFrameV1, WireError>,
    b: Result<WireFrameV1, WireError>,
)
    requires
        codec::taken(payload, a),
        codec::taken(payload, b),
    ensures
        same_result(a, b),
{
    if codec::readable(payload) {
        let x = choose|x: crate::wire::WireView| #[trigger]
            codec::reads_as(payload, x) && match a {
                Ok(got) => got@ == x && x.data.len() <= codec::MAX_DATA_LEN,
                Err(e) => x.data.len() > codec::MAX_DATA_LEN && e == WireError::DataTooLarge(
                    x.data.len() as usize,
                ),
            };
        let y = choose|y: crate::wire::WireView| #[trigger]
            codec::reads_as(payload, y) && match b {
                Ok(got) => got@ == y && y.data.len() <= codec::MAX_DATA_LEN,
                Err(e) => y.data.len() > codec::MAX_DATA_LEN && e == WireError::DataTooLarge(
                    y.data.len() as usize,
                ),
            };
        codec::reading_is_unambiguous(payload, x, y);
    }
}

/// What is sent behind other records, and received after these, is the frame that was sent, if it
/// has at most 64 data bytes; and what was sent behind it is still to be received.
pub proof fn what_is_sent_is_received(
    stream: &mut Vec<u8>,
    frame: WireFrameV1,
    sent: Result<(), WireError>,
    reader: &mut WireReader,
    behind: Seq<u8>,
    r: Result<WireFrameV1, WireError>,
)
    requires
        frame.data@.len() <= 64,
        call_ensures(send_wire, (stream, &frame), sent),
        old(reader).wf(),
        old(reader)@ == final(stream)@.skip(old(stream)@.len() as int) + behind,
        call_ensures(recv_wire, (reader,), r),
    ensures
        sent is Ok,
        r is Ok,
        same_frame(r->Ok_0, frame),
        final(reader)@ == behind,
{
    codec::every_can_frame_fits_a_record(frame@);
    assert(final(stream)@.skip(old(stream)@.len() as int) =~= codec::record_of(frame@));
    codec::receiving_gives_back_what_was_sent(frame@, behind, r, final(reader)@);
}

/// No frame with more than 64 data bytes is ever received, and no record of more than 2048.
pub proof fn what_is_received_is_bounded(
    reader: &mut WireReader,
    r: Result<WireFrameV1, WireError>,
)
    requires
        old(reader).wf(),
        call_ensures(recv_wire, (reader,), r),
    ensures
        r matches Ok(frame) ==> frame.data@.len() <= 64,
        r is Ok ==> old(reader)@.len() - final(reader)@.len() <= 2050,
{
}

/// The number that decimal digits stand for.
pub open spec fn number_in(digits: Seq<char>) -> int
    decreases digits.len(),
{
    if digits.len() == 0 {
        0
    } else {
        10 * number_in(digits.drop_last()) + (digits.last() as u32 - 48)
    }
}

/// The text is made of decimal digits, with no zero in front of others.
pub open spec fn plain(digits: Seq<char>) -> bool {
    &&& digits.len() >= 1
    &&& forall|i: int| 0 <= i < digits.len() ==> 48 <= #[trigger] digits[i] as u32 <= 57
    &&& digits.len() > 1 ==> digits[0] as u32 != 48
}

/// A number is written in decimal digits, without zeros in front, that stand for it.
pub proof fn numbers_read_as_themselves(n: nat)
    ensures
        number_in(error::decimal(n)) == n,
        plain(error::decimal(n)),
        n > 0 ==> error::decimal(n)[0] as u32 != 48,
    decreases n,
{
    let s = error::decimal(n);
    let d = (48 + n % 10) as char;
    assert(d as u32 == 48 + n % 10);
    if n < 10 {
        assert(s.drop_last() =~= Seq::<char>::empty());
        assert(number_in(s.drop_last()) == 0);
        assert(s.last() == d);
    } else {
        numbers_read_as_themselves(n / 10);
        assert(s.drop_last() =~= error::decimal(n / 10));
        assert(s.last() == d);
        assert forall|i: int| 0 <= i < s.len() implies 48 <= #[trigger] s[i] as u32 <= 57 by {
            if i < s.len() - 1 {
                assert(s[i] == error::decimal(n / 10)[i]);
            }
        }
        assert(s[0] == error::decimal(n / 10)[0]);
    }
}

/// Every error that tells no number has a message of its own words.
pub proof fn errors_have_their_words(e: WireError, message: String)
    requires
        call_ensures(WireError::to_string, (&e,), message),
    ensures
        match e {
            WireError::Serialize => message@ == "Failed to serialize frame"@,
            WireError::ReadLength => message@ == "Failed to read length"@,
            WireError::ReadPayload => message@ == "Failed to read payload"@,
            WireError::Deserialize => message@ == "Failed to deserialize frame"@,
            WireError::ErrorFrame => message@ == "Cannot transmit error frames"@,
            WireError::InvalidExtendedId => message@ == "Invalid extended ID"@,
            WireError::InvalidStandardId => message@ == "Invalid standard ID"@,
            WireError::FdFrame => message@ == "Failed to create CAN FD data frame"@,
            WireError::RemoteFrame => message@ == "Failed to create remote frame"@,
            WireError::DataFrame => message@ == "Failed to create data frame"@,
            WireError::PayloadTooLarge(_) => true,
            WireError::DataTooLarge(_) => true,
        },
{
}

/// A message of three parts can be taken apart again.
proof fn parts_of_a_message(front: Seq<char>, digits: Seq<char>, back: Seq<char>)
    ensures
        ({
            let message = front + digits + back;
            let end = message.len() - back.len();
            &&& message.take(front.len() as int) == front
            &&& message.subrange(front.len() as int, end) == digits
            &&& message.skip(end) == back
        }),
{
    let message = front + digits + back;
    let end = message.len() - back.len();
    assert(message.take(front.len() as int) =~= front);
    assert(message.subrange(front.len() as int, end) =~= digits);
    assert(message.skip(end) =~= back);
}

/// The message for an error that tells a number holds that number between its words.
pub proof fn messages_hold_the_number(n: usize, payload: String, data: String)
    requires
        call_ensures(WireError::to_string, (&WireError::PayloadTooLarge(n),), payload),
        call_ensures(WireError::to_string, (&WireError::DataTooLarge(n),), data),
    ensures
        ({
            let digits = payload@.subrange(19, payload@.len() - 6);
            &&& payload@.take(19) == "Payload too large: "@
            &&& payload@.skip(payload@.len() - 6) == " bytes"@
            &&& number_in(digits) == n
            &&& plain(digits)
        }),
        ({
            let digits = data@.subrange(16, data@.len() - 6);
            &&& data@.take(16) == "Data too large: "@
            &&& data@.skip(data@.len() - 6) == " bytes"@
            &&& number_in(digits) == n
            &&& plain(digits)
        }),
{
    let digits = error::decimal(n as nat);
    numbers_read_as_themselves(n as nat);
    assert("Payload too large: "@.len() == 19) by {
        reveal_strlit("Payload too large: ");
    }
    assert("Data too large: "@.len() == 16) by {
        reveal_strlit("Data too large: ");
    }
    assert(" bytes"@.len() == 6) by {
        reveal_strlit(" bytes");
    }
    parts_of_a_message("Payload too large: "@, digits, " bytes"@);
    parts_of_a_message("Data too large: "@, digits, " bytes"@);
}

} // verus!
