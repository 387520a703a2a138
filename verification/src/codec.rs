//! Records on the TCP stream: the length of the payload as two bytes, big-endian, then the
//! payload, which is a frame serialized by postcard.
use vstd::prelude::*;

use crate::error::WireError;
use crate::varint;
use crate::wire::WireFrameV1;
use crate::wire::WireView;

verus! {

/// The longest payload of a record.
pub const MAX_PAYLOAD_LEN: usize = 2048;

/// The most data bytes that a CAN frame carries, which is what a CAN FD frame carries.
pub const MAX_DATA_LEN: usize = 64;

/// A 32-bit number as four bytes, big-endian.
pub open spec fn be32(n: u32) -> Seq<u8> {
    seq![
        (n / 0x100_0000) as u8,
        (n / 0x1_0000 % 0x100) as u8,
        (n / 0x100 % 0x100) as u8,
        (n % 0x100) as u8,
    ]
}

/// The bytes of a serialized frame: the version and the flags as they are, the identifier as four
/// bytes, big-endian, the number of data bytes as an integer of variable length, and the data
/// bytes.
pub open spec fn payload_of(frame: WireView) -> Seq<u8> {
    seq![frame.version, frame.flags] + be32(frame.can_id) + varint::varint(frame.data.len())
        + frame.data
}

/// The bytes start with a version, flags and an identifier of four bytes, and then, up to `j`, the
/// number of data bytes, with the data bytes behind that.
pub open spec fn fields_at(
    bytes: Seq<u8>,
    version: u8,
    flags: u8,
    id: Seq<u8>,
    data: Seq<u8>,
    j: int,
) -> bool {
    &&& 6 <= j
    &&& j + data.len() <= bytes.len()
    &&& bytes[0] == version
    &&& bytes[1] == flags
    &&& bytes.subrange(2, 6) == id
    &&& varint::is_varint(
        bytes.subrange(6, j),
        varint::varint_limit(usize::BITS as nat),
        usize::MAX as nat,
        data.len(),
    )
    &&& bytes.subrange(j, j + data.len()) == data
}

/// The bytes start with a serialized frame, with the number of data bytes up to `j`, and the data
/// bytes behind that.
pub open spec fn laid_out(bytes: Seq<u8>, frame: WireView, j: int) -> bool {
    fields_at(bytes, frame.version, frame.flags, be32(frame.can_id), frame.data, j)
}

/// The bytes start with a serialized form of the frame; what follows it does not matter.
pub open spec fn reads_as(bytes: Seq<u8>, frame: WireView) -> bool {
    exists|j: int| laid_out(bytes, frame, j)
}

/// The bytes start with a serialized form of some frame.
pub open spec fn readable(bytes: Seq<u8>) -> bool {
    exists|frame: WireView| reads_as(bytes, frame)
}

/// A number below `65536` as two bytes, big-endian.
pub open spec fn be16(n: nat) -> Seq<u8> {
    seq![(n / 256) as u8, (n % 256) as u8]
}

/// The number that two bytes hold, big-endian.
pub open spec fn be16_value(hi: u8, lo: u8) -> int {
    hi * 256 + lo
}

/// The record that carries a frame.
pub open spec fn record_of(frame: WireView) -> Seq<u8> {
    be16(payload_of(frame).len()) + payload_of(frame)
}

/// The error type of postcard.
#[verifier::external_type_specification]
#[verifier::external_body]
pub struct ExPostcardError(postcard::Error);

/// `postcard::to_stdvec` on the fields of a frame, which postcard writes one after the other,
/// without anything around them: a byte as it is, an array of bytes as these, and a slice of bytes
/// as their number and then these. It succeeds.
#[verifier::external_body]
fn postcard_encode(version: u8, flags: u8, id: [u8; 4], data: &[u8]) -> (r: Result<
    Vec<u8>,
    postcard::Error,
>)
    ensures
        r is Ok,
        r->Ok_0@ == seq![version, flags] + id@ + varint::varint(data@.len()) + data@,
{
    postcard::to_stdvec(&(version, flags, id, data))
}

/// `postcard::from_bytes` into the fields of a frame. It gives the fields that the bytes start
/// with, see [`fields_at`], and fails where they start with none; bytes behind them are ignored.
#[verifier::external_body]
fn postcard_decode(bytes: &[u8]) -> (r: Result<(u8, u8, [u8; 4], Vec<u8>), postcard::Error>)
    ensures
        match r {
            Ok((version, flags, id, data)) => exists|j: int|
                fields_at(bytes@, version, flags, id@, data@, j),
            Err(_) => forall|version: u8, flags: u8, id: Seq<u8>, data: Seq<u8>, j: int|
                !fields_at(bytes@, version, flags, id, data, j),
        },
{
    postcard::from_bytes(bytes)
}

/// An identifier as four bytes, big-endian.
fn id_bytes(can_id: u32) -> (id: [u8; 4])
    ensures
        id@ == be32(can_id),
{
    let id: [u8; 4] = [
        (can_id / 0x100_0000) as u8,
        (can_id / 0x1_0000 % 0x100) as u8,
        (can_id / 0x100 % 0x100) as u8,
        (can_id % 0x100) as u8,
    ];
    assert(id@ =~= be32(can_id));
    id
}

/// The identifier that four bytes hold, big-endian.
fn id_from_bytes(id: [u8; 4]) -> (can_id: u32)
    ensures
        be32(can_id) == id@,
{
    let a: u32 = id[0] as u32;
    let b: u32 = id[1] as u32;
    let c: u32 = id[2] as u32;
    let d: u32 = id[3] as u32;
    let can_id: u32 = a * 0x100_0000 + b * 0x1_0000 + c * 0x100 + d;
    assert(can_id / 0x100_0000 == a && can_id / 0x1_0000 % 0x100 == b && can_id / 0x100 % 0x100
        == c && can_id % 0x100 == d) by (bit_vector)
        requires
            a < 0x100,
            b < 0x100,
            c < 0x100,
            d < 0x100,
            can_id == a * 0x100_0000 + b * 0x1_0000 + c * 0x100 + d,
    ;
    assert(be32(can_id) =~= id@);
    can_id
}

/// Serializes a frame.
pub fn encode_payload(frame: &WireFrameV1) -> (r: Result<Vec<u8>, WireError>)
    ensures
        r matches Ok(bytes) && bytes@ == payload_of(frame@),
{
    let id = id_bytes(frame.can_id);
    match postcard_encode(frame.version, frame.flags, id, frame.data.as_slice()) {
        Ok(bytes) => Ok(bytes),
        Err(_) => Err(WireError::Serialize),
    }
}

/// Reads a serialized frame.
pub fn decode_payload(bytes: &[u8]) -> (r: Result<WireFrameV1, WireError>)
    ensures
        match r {
            Ok(frame) => reads_as(bytes@, frame@),
            Err(e) => e == WireError::Deserialize && !readable(bytes@),
        },
{
    match postcard_decode(bytes) {
        Ok((version, flags, id, data)) => {
            let frame = WireFrameV1 { version, flags, can_id: id_from_bytes(id), data };
            proof {
                let j = choose|j: int| fields_at(bytes@, version, flags, id@, data@, j);
                assert(laid_out(bytes@, frame@, j));
            }
            Ok(frame)
        },
        Err(_) => {
            proof {
                if readable(bytes@) {
                    let f = choose|frame: WireView| reads_as(bytes@, frame);
                    let j = choose|j: int| laid_out(bytes@, f, j);
                    assert(fields_at(bytes@, f.version, f.flags, be32(f.can_id), f.data, j));
                }
            }
            Err(WireError::Deserialize)
        },
    }
}

/// What becomes of the payload of a record: it is refused where it is not a serialized frame, and
/// where it is one with more data bytes than a CAN frame carries; else the frame is taken.
pub open spec fn taken(payload: Seq<u8>, r: Result<WireFrameV1, WireError>) -> bool {
    if readable(payload) {
        exists|frame: WireView| #[trigger]
            reads_as(payload, frame) && match r {
                Ok(got) => got@ == frame && frame.data.len() <= MAX_DATA_LEN,
                Err(e) => frame.data.len() > MAX_DATA_LEN && e == WireError::DataTooLarge(
                    frame.data.len() as usize,
                ),
            }
    } else {
        r == Err::<WireFrameV1, WireError>(WireError::Deserialize)
    }
}

/// Reads the payload of a record.
pub fn accept_payload(payload: &[u8]) -> (r: Result<WireFrameV1, WireError>)
    ensures
        taken(payload@, r),
{
    let frame = decode_payload(payload)?;
    assert(reads_as(payload@, frame@));
    if frame.data.len() > MAX_DATA_LEN {
        return Err(WireError::DataTooLarge(frame.data.len()));
    }
    Ok(frame)
}

/// The length of the payload that the first two bytes of a record announce, if it is not above
/// what a record may carry.
pub fn payload_len(header: [u8; 2]) -> (r: Result<usize, WireError>)
    ensures
        ({
            let n = be16_value(header[0], header[1]);
            if n > MAX_PAYLOAD_LEN {
                r == Err::<usize, WireError>(WireError::PayloadTooLarge(n as usize))
            } else {
                r == Ok::<usize, WireError>(n as usize)
            }
        }),
{
    let len: usize = header[0] as usize * 256 + header[1] as usize;
    if len > MAX_PAYLOAD_LEN {
        return Err(WireError::PayloadTooLarge(len));
    }
    Ok(len)
}

/// Appends the record of a frame to the bytes that go out over TCP. A frame whose serialized form
/// is longer than a record may carry is refused, and nothing is appended.
pub fn send_wire(stream: &mut Vec<u8>, frame: &WireFrameV1) -> (r: Result<(), WireError>)
    ensures
        ({
            let len = payload_of(frame@).len();
            if len > MAX_PAYLOAD_LEN {
                &&& r == Err::<(), WireError>(WireError::PayloadTooLarge(len as usize))
                &&& final(stream)@ == old(stream)@
            } else {
                &&& r is Ok
                &&& final(stream)@ == old(stream)@ + record_of(frame@)
            }
        }),
{
    let mut payload = encode_payload(frame)?;
    let len: usize = payload.len();
    if len > MAX_PAYLOAD_LEN {
        return Err(WireError::PayloadTooLarge(len));
    }
    stream.push((len / 256) as u8);
    stream.push((len % 256) as u8);
    stream.append(&mut payload);
    assert(stream@ =~= old(stream)@ + record_of(frame@));
    Ok(())
}

/// Bytes received over TCP, with a reading position.
pub struct WireReader {
    bytes: Vec<u8>,
    pos: usize,
}

impl View for WireReader {
    type V = Seq<u8>;

    /// The bytes that have not been read yet.
    closed spec fn view(&self) -> Seq<u8> {
        self.bytes@.skip(self.pos as int)
    }
}

impl WireReader {
    /// The reading position is not behind the end.
    pub closed spec fn wf(&self) -> bool {
        self.pos <= self.bytes@.len()
    }

    /// A reader at the start of the bytes.
    pub fn new(bytes: Vec<u8>) -> (reader: Self)
        ensures
            reader.wf(),
            reader@ == bytes@,
    {
        let reader = WireReader { bytes, pos: 0 };
        assert(reader@ =~= bytes@);
        reader
    }

    /// The number of bytes that have not been read yet.
    pub fn remaining(&self) -> (n: usize)
        requires
            self.wf(),
        ensures
            n == self@.len(),
    {
        self.bytes.len() - self.pos
    }

    /// Reads exactly `n` bytes. Where fewer are left they are used up, and nothing is returned.
    fn read_exact(&mut self, n: usize) -> (r: Option<Vec<u8>>)
        requires
            old(self).wf(),
        ensures
            final(self).wf(),
            if n <= old(self)@.len() {
                &&& r matches Some(bytes) && bytes@ == old(self)@.take(n as int)
                &&& final(self)@ == old(self)@.skip(n as int)
            } else {
                &&& r is None
                &&& final(self)@ == Seq::<u8>::empty()
            },
    {
        if n > self.bytes.len() - self.pos {
            self.pos = self.bytes.len();
            assert(self@ =~= Seq::<u8>::empty());
            return None;
        }
        let end: usize = self.pos + n;
        let part = vstd::slice::slice_to_vec(
            vstd::slice::slice_subrange(self.bytes.as_slice(), self.pos, end),
        );
        assert(part@ =~= old(self)@.take(n as int));
        self.pos = end;
        assert(self@ =~= old(self)@.skip(n as int));
        Some(part)
    }
}

/// What receiving from the bytes `s` comes to: the result, and the bytes that are left.
pub open spec fn received(
    s: Seq<u8>,
    r: Result<WireFrameV1, WireError>,
    left: Seq<u8>,
) -> bool {
    let n = be16_value(s[0], s[1]);
    if s.len() < 2 {
        &&& r == Err::<WireFrameV1, WireError>(WireError::ReadLength)
        &&& left == Seq::<u8>::empty()
    } else if n > MAX_PAYLOAD_LEN {
        &&& r == Err::<WireFrameV1, WireError>(WireError::PayloadTooLarge(n as usize))
        &&& left == s.skip(2)
    } else if s.len() < 2 + n {
        &&& r == Err::<WireFrameV1, WireError>(WireError::ReadPayload)
        &&& left == Seq::<u8>::empty()
    } else {
        &&& taken(s.subrange(2, 2 + n), r)
        &&& left == s.skip(2 + n)
    }
}

/// Reads one record from a byte stream. An announced length above what a record may carry is
/// refused before the payload is read. Where the stream ends within the record, the rest of it is
/// used up.
pub fn recv_wire(stream: &mut WireReader) -> (r: Result<WireFrameV1, WireError>)
    requires
        old(stream).wf(),
    ensures
        final(stream).wf(),
        received(old(stream)@, r, final(stream)@),
{
    let ghost s = stream@;
    let header = match stream.read_exact(2) {
        Some(header) => header,
        None => return Err(WireError::ReadLength),
    };
    let len: usize = payload_len([header[0], header[1]])?;
    let payload = match stream.read_exact(len) {
        Some(payload) => payload,
        None => return Err(WireError::ReadPayload),
    };
    assert(payload@ =~= s.subrange(2, 2 + len));
    assert(stream@ =~= s.skip(2 + len));
    accept_payload(payload.as_slice())
}

/// The records of several frames, one after the other.
pub open spec fn stream_of(frames: Seq<WireView>) -> Seq<u8>
    decreases frames.len(),
{
    if frames.len() == 0 {
        Seq::empty()
    } else {
        record_of(frames[0]) + stream_of(frames.drop_first())
    }
}

/// Bytes start with at most one serialized frame.
pub proof fn reading_is_unambiguous(bytes: Seq<u8>, a: WireView, b: WireView)
    requires
        reads_as(bytes, a),
        reads_as(bytes, b),
    ensures
        a == b,
{
    let j = choose|j: int| laid_out(bytes, a, j);
    let k = choose|k: int| laid_out(bytes, b, k);
    varint::varint_ends_at_one_place(bytes, 6, j, k);
    let x = be32(a.can_id);
    let y = be32(b.can_id);
    assert(x[0] == y[0] && x[1] == y[1] && x[2] == y[2] && x[3] == y[3]);
    assert(a =~= b);
}

/// Reading gives back what was serialized, whatever follows it.
pub proof fn reading_gives_back_what_was_serialized(frame: WireView, rest: Seq<u8>)
    requires
        frame.data.len() <= usize::MAX,
    ensures
        reads_as(payload_of(frame) + rest, frame),
        forall|other: WireView| reads_as(payload_of(frame) + rest, other) ==> other == frame,
{
    let count = varint::varint(frame.data.len());
    let bytes = payload_of(frame) + rest;
    varint::varint_of_usize(frame.data.len() as usize);
    let j: int = 6 + count.len() as int;
    assert(bytes.subrange(2, 6) =~= be32(frame.can_id));
    assert(bytes.subrange(6, j) =~= count);
    assert(bytes.subrange(j, j + frame.data.len()) =~= frame.data);
    assert(laid_out(bytes, frame, j));
    assert forall|other: WireView| reads_as(bytes, other) implies other == frame by {
        reading_is_unambiguous(bytes, frame, other);
    }
}

/// The serialized form of a frame with at most 64 data bytes fits into a record.
pub proof fn every_can_frame_fits_a_record(frame: WireView)
    requires
        frame.data.len() <= MAX_DATA_LEN,
    ensures
        payload_of(frame).len() <= MAX_PAYLOAD_LEN,
{
    varint::varint_of_usize(frame.data.len() as usize);
}

/// A record is received as the frame that was sent, and reading stops where the record ends.
pub proof fn receiving_gives_back_what_was_sent(
    frame: WireView,
    rest: Seq<u8>,
    r: Result<WireFrameV1, WireError>,
    left: Seq<u8>,
)
    requires
        frame.data.len() <= MAX_DATA_LEN,
        received(record_of(frame) + rest, r, left),
    ensures
        r matches Ok(got) && got@ == frame,
        left == rest,
{
    every_can_frame_fits_a_record(frame);
    let payload = payload_of(frame);
    let s = record_of(frame) + rest;
    let n = be16_value(s[0], s[1]);
    assert(n == payload.len());
    assert(s.subrange(2, 2 + n) =~= payload);
    assert(s.skip(2 + n) =~= rest);
    assert(payload + Seq::<u8>::empty() =~= payload);
    reading_gives_back_what_was_serialized(frame, Seq::empty());
    assert(readable(payload));
}

/// A frame with more data bytes than a CAN frame carries can be sent, as long as it fits into a
/// record, and is then refused by the receiver, which goes on behind the record.
pub proof fn oversized_data_are_refused_by_the_receiver(
    frame: WireView,
    rest: Seq<u8>,
    r: Result<WireFrameV1, WireError>,
    left: Seq<u8>,
)
    requires
        frame.data.len() > MAX_DATA_LEN,
        payload_of(frame).len() <= MAX_PAYLOAD_LEN,
        received(record_of(frame) + rest, r, left),
    ensures
        r == Err::<WireFrameV1, WireError>(WireError::DataTooLarge(frame.data.len() as usize)),
        left == rest,
{
    let payload = payload_of(frame);
    let s = record_of(frame) + rest;
    let n = be16_value(s[0], s[1]);
    assert(n == payload.len());
    assert(s.subrange(2, 2 + n) =~= payload);
    assert(s.skip(2 + n) =~= rest);
    assert(payload + Seq::<u8>::empty() =~= payload);
    reading_gives_back_what_was_serialized(frame, Seq::empty());
    assert(readable(payload));
}

/// Frames sent one after the other are received one after the other, in the same order: the first
/// receive gives the first frame, and leaves the stream of the others.
pub proof fn frames_arrive_in_order(
    frames: Seq<WireView>,
    r: Result<WireFrameV1, WireError>,
    left: Seq<u8>,
)
    requires
        frames.len() > 0,
        forall|i: int| 0 <= i < frames.len() ==> frames[i].data.len() <= MAX_DATA_LEN,
        received(stream_of(frames), r, left),
    ensures
        r matches Ok(got) && got@ == frames[0],
        left == stream_of(frames.drop_first()),
{
    receiving_gives_back_what_was_sent(
        frames[0],
        stream_of(frames.drop_first()),
        r,
        left,
    );
}

/// Sending one frame more puts its record behind those of the frames sent before.
pub proof fn sending_extends_the_stream(frames: Seq<WireView>, frame: WireView)
    ensures
        stream_of(frames.push(frame)) == stream_of(frames) + record_of(frame),
    decreases frames.len(),
{
    let longer = frames.push(frame);
    if frames.len() == 0 {
        assert(longer.drop_first() =~= Seq::<WireView>::empty());
        assert(stream_of(longer.drop_first()) =~= Seq::<u8>::empty());
        assert(stream_of(longer) =~= stream_of(frames) + record_of(frame));
    } else {
        assert(longer.drop_first() =~= frames.drop_first().push(frame));
        sending_extends_the_stream(frames.drop_first(), frame);
        assert(stream_of(longer) =~= stream_of(frames) + record_of(frame));
    }
}

/// No received frame has more data bytes than a CAN frame carries, whatever the bytes were.
pub proof fn received_frames_fit_a_can_frame(
    s: Seq<u8>,
    r: Result<WireFrameV1, WireError>,
    left: Seq<u8>,
)
    requires
        received(s, r, left),
    ensures
        r matches Ok(frame) ==> frame@.data.len() <= MAX_DATA_LEN,
{
}

} // verus!
