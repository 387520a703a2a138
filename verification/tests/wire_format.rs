use canbridge::codec::{accept_payload, decode_payload, encode_payload, payload_len};
use canbridge::{
    can_to_wire, frame_hash, recv_wire, send_wire, wire_to_can, CanFrame, CanId, WireError,
    WireFrameV1, WireReader, FLAG_BRS, FLAG_EFF, FLAG_ERR, FLAG_ESI, FLAG_FD, FLAG_RTR,
};
use serde::de::{Error, SeqAccess, Visitor};
use serde::ser::SerializeStruct;
use serde::{Deserialize, Deserializer, Serialize, Serializer};
use std::fmt::Formatter;

/// A number of four bytes, big-endian.
struct FixedBig(u32);

impl Serialize for FixedBig {
    fn serialize<S: Serializer>(&self, serializer: S) -> Result<S::Ok, S::Error> {
        postcard::fixint::be::serialize(&self.0, serializer)
    }
}

impl<'de> Deserialize<'de> for FixedBig {
    fn deserialize<D: Deserializer<'de>>(deserializer: D) -> Result<FixedBig, D::Error> {
        postcard::fixint::be::deserialize(deserializer).map(FixedBig)
    }
}

/// A frame as a struct of four named fields, for any serde format.
#[derive(Debug, PartialEq)]
struct NamedFields(WireFrameV1);

impl Serialize for NamedFields {
    fn serialize<S: Serializer>(&self, serializer: S) -> Result<S::Ok, S::Error> {
        let mut s = serializer.serialize_struct("WireFrameV1", 4)?;
        s.serialize_field("version", &self.0.version)?;
        s.serialize_field("flags", &self.0.flags)?;
        s.serialize_field("can_id", &FixedBig(self.0.can_id))?;
        s.serialize_field("data", &self.0.data)?;
        s.end()
    }
}

struct FieldsVisitor;

impl<'de> Visitor<'de> for FieldsVisitor {
    type Value = NamedFields;

    fn expecting(&self, f: &mut Formatter<'_>) -> std::fmt::Result {
        f.write_str("a frame")
    }

    fn visit_seq<A: SeqAccess<'de>>(self, mut seq: A) -> Result<NamedFields, A::Error> {
        let missing = || A::Error::custom("field missing");
        Ok(NamedFields(WireFrameV1 {
            version: seq.next_element()?.ok_or_else(missing)?,
            flags: seq.next_element()?.ok_or_else(missing)?,
            can_id: seq.next_element::<FixedBig>()?.ok_or_else(missing)?.0,
            data: seq.next_element()?.ok_or_else(missing)?,
        }))
    }
}

impl<'de> Deserialize<'de> for NamedFields {
    fn deserialize<D: Deserializer<'de>>(deserializer: D) -> Result<NamedFields, D::Error> {
        const FIELDS: &[&str] = &["version", "flags", "can_id", "data"];
        deserializer.deserialize_struct("WireFrameV1", FIELDS, FieldsVisitor)
    }
}

fn samples() -> Vec<WireFrameV1> {
    vec![
        WireFrameV1::new(0, &[], 0),
        WireFrameV1::new(0x7F, &[1], FLAG_RTR),
        WireFrameV1::new(0x80, &[2, 3], FLAG_FD),
        WireFrameV1::new(0x1FFF_FFFF, &[0xFF; 64], FLAG_FD | FLAG_EFF),
        WireFrameV1 {
            version: 200,
            flags: 0xFF,
            can_id: u32::MAX,
            data: vec![7; 300],
        },
    ]
}

#[test]
fn frames_are_serialized_field_by_field() {
    for frame in samples() {
        let bytes = encode_payload(&frame).unwrap();
        let named = NamedFields(frame);
        assert_eq!(bytes, postcard::to_stdvec(&named).unwrap());
        assert_eq!(postcard::from_bytes::<NamedFields>(&bytes).unwrap(), named);
        assert_eq!(decode_payload(&bytes).unwrap(), named.0);
    }
}

#[test]
fn a_serialized_frame_has_these_bytes() {
    let frame = WireFrameV1::new(0x123, &[0xDE, 0xAD, 0xBE, 0xEF], 0);
    assert_eq!(
        encode_payload(&frame).unwrap(),
        vec![1, 0, 0x00, 0x00, 0x01, 0x23, 4, 0xDE, 0xAD, 0xBE, 0xEF]
    );
    let mut stream = vec![0xAA];
    send_wire(&mut stream, &WireFrameV1::new(0x123, &[0xDE, 0xAD], 0)).unwrap();
    assert_eq!(
        stream,
        vec![0xAA, 0x00, 0x09, 0x01, 0x00, 0x00, 0x00, 0x01, 0x23, 0x02, 0xDE, 0xAD]
    );
    let frame = WireFrameV1::new(0x1234_5678, &[], FLAG_EFF);
    assert_eq!(encode_payload(&frame).unwrap(), vec![1, 1, 0x12, 0x34, 0x56, 0x78, 0]);
}

#[test]
fn the_flags_have_these_values() {
    assert_eq!(
        [FLAG_EFF, FLAG_RTR, FLAG_ERR, FLAG_FD, FLAG_BRS, FLAG_ESI],
        [0x01, 0x02, 0x04, 0x08, 0x10, 0x20]
    );
}

#[test]
fn longer_encodings_and_trailing_bytes_are_read_too() {
    // The number of data bytes in two bytes where one would do, and two bytes too many at the end.
    let frame = decode_payload(&[1, 0, 0, 0, 0, 5, 0x81, 0x00, 7, 9, 9]).unwrap();
    assert_eq!(frame, WireFrameV1::new(5, &[7], 0));
}

#[test]
fn a_number_of_data_bytes_that_is_too_long_is_not_read() {
    let mut bytes = vec![1, 0, 0xFF, 0xFF, 0xFF, 0xFF];
    assert_eq!(decode_payload(&bytes), Err(WireError::Deserialize));
    bytes.push(0);
    assert_eq!(decode_payload(&bytes).unwrap().can_id, u32::MAX);
    bytes.pop();
    bytes.extend([0x80; 10]);
    bytes.push(0);
    assert_eq!(decode_payload(&bytes), Err(WireError::Deserialize));
}

#[test]
fn a_payload_that_ends_early_is_refused() {
    let bytes = encode_payload(&WireFrameV1::new(0x123, &[1, 2, 3], 0)).unwrap();
    for n in 0..bytes.len() {
        assert_eq!(accept_payload(&bytes[..n]), Err(WireError::Deserialize));
    }
    assert!(accept_payload(&bytes).is_ok());
}

#[test]
fn more_than_64_data_bytes_are_refused_by_the_receiver() {
    let mut stream = Vec::new();
    send_wire(&mut stream, &WireFrameV1::new(1, &[0; 65], FLAG_FD)).unwrap();
    send_wire(&mut stream, &WireFrameV1::new(2, &[0; 64], FLAG_FD)).unwrap();
    let mut reader = WireReader::new(stream);
    let error = recv_wire(&mut reader).unwrap_err();
    assert_eq!(error, WireError::DataTooLarge(65));
    assert_eq!(error.to_string(), "Data too large: 65 bytes");
    // The stream goes on behind the refused record.
    assert_eq!(recv_wire(&mut reader).unwrap().can_id, 2);
    assert_eq!(reader.remaining(), 0);
}

#[test]
fn a_record_carries_at_most_2048_bytes() {
    let mut stream = vec![1, 2];
    send_wire(&mut stream, &WireFrameV1::new(5, &[0; 2040], 0)).unwrap();
    assert_eq!(stream.len(), 2 + 2 + 2048);
    let before = stream.clone();
    let error = send_wire(&mut stream, &WireFrameV1::new(5, &[0; 2041], 0)).unwrap_err();
    assert_eq!(error, WireError::PayloadTooLarge(2049));
    assert_eq!(error.to_string(), "Payload too large: 2049 bytes");
    assert_eq!(stream, before);

    assert_eq!(payload_len([0x08, 0x00]), Ok(2048));
    assert_eq!(payload_len([0x08, 0x01]), Err(WireError::PayloadTooLarge(2049)));
    assert_eq!(payload_len([0xFF, 0xFF]), Err(WireError::PayloadTooLarge(65535)));
}

#[test]
fn a_stream_that_ends_within_a_record_is_an_error() {
    let mut empty = WireReader::new(Vec::new());
    assert_eq!(recv_wire(&mut empty), Err(WireError::ReadLength));
    let mut half = WireReader::new(vec![0]);
    assert_eq!(recv_wire(&mut half), Err(WireError::ReadLength));
    assert_eq!(half.remaining(), 0);
    let mut cut = WireReader::new(vec![0, 8, 1, 0, 0, 0, 0, 5, 1]);
    assert_eq!(recv_wire(&mut cut), Err(WireError::ReadPayload));
    assert_eq!(cut.remaining(), 0);
    let mut nothing = WireReader::new(vec![0, 0, 7]);
    assert_eq!(recv_wire(&mut nothing), Err(WireError::Deserialize));
    assert_eq!(nothing.remaining(), 1);
}

#[test]
fn an_oversized_record_is_refused_before_its_payload_is_read() {
    let mut reader = WireReader::new(vec![0x0B, 0xB8, 1, 2, 3]);
    let error = recv_wire(&mut reader).unwrap_err();
    assert_eq!(error.to_string(), "Payload too large: 3000 bytes");
    assert_eq!(reader.remaining(), 3);
}

#[test]
fn every_error_has_its_message() {
    let messages = [
        (WireError::Serialize, "Failed to serialize frame"),
        (WireError::PayloadTooLarge(0), "Payload too large: 0 bytes"),
        (WireError::PayloadTooLarge(10), "Payload too large: 10 bytes"),
        (WireError::ReadLength, "Failed to read length"),
        (WireError::ReadPayload, "Failed to read payload"),
        (WireError::Deserialize, "Failed to deserialize frame"),
        (WireError::DataTooLarge(987), "Data too large: 987 bytes"),
        (WireError::ErrorFrame, "Cannot transmit error frames"),
        (WireError::InvalidExtendedId, "Invalid extended ID"),
        (WireError::InvalidStandardId, "Invalid standard ID"),
        (WireError::FdFrame, "Failed to create CAN FD data frame"),
        (WireError::RemoteFrame, "Failed to create remote frame"),
        (WireError::DataFrame, "Failed to create data frame"),
    ];
    for (error, message) in messages {
        assert_eq!(error.to_string(), message);
    }
}

#[test]
fn what_does_not_fit_a_can_frame_is_refused() {
    let refused = [
        (WireFrameV1::new(0x2000_0000, &[], FLAG_EFF), WireError::InvalidExtendedId),
        (WireFrameV1::new(0x800, &[], 0), WireError::InvalidStandardId),
        (WireFrameV1::new(1, &[0; 65], FLAG_FD), WireError::FdFrame),
        (WireFrameV1::new(1, &[0; 9], FLAG_RTR), WireError::RemoteFrame),
        (WireFrameV1::new(1, &[0; 9], 0), WireError::DataFrame),
        // Error frames are refused before the identifier is looked at, and the identifier before
        // the data.
        (WireFrameV1::new(0x800, &[0; 9], FLAG_ERR), WireError::ErrorFrame),
        (WireFrameV1::new(0x800, &[0; 9], 0), WireError::InvalidStandardId),
    ];
    for (wire, error) in refused {
        assert_eq!(wire_to_can(&wire), Err(error));
    }
}

#[test]
fn the_largest_frames_fit() {
    let id = CanId::Extended(0x1FFF_FFFF);
    assert_eq!(
        wire_to_can(&WireFrameV1::new(0x1FFF_FFFF, &[1; 8], FLAG_EFF)),
        Ok(CanFrame::Normal { id, remote: false, data: vec![1; 8] })
    );
    assert_eq!(
        wire_to_can(&WireFrameV1::new(0x1FFF_FFFF, &[1; 8], FLAG_EFF | FLAG_RTR)),
        Ok(CanFrame::Remote { id, dlc: 8 })
    );
    assert_eq!(
        wire_to_can(&WireFrameV1::new(0x1FFF_FFFF, &[1; 64], FLAG_EFF | FLAG_FD)),
        Ok(CanFrame::Fd { id, brs: false, esi: false, data: vec![1; 64] })
    );
}

#[test]
fn a_standard_identifier_is_never_cut() {
    for can_id in [0x800, 0xFFFF, 0x1_0000, 0x1_0123, u32::MAX] {
        assert_eq!(
            wire_to_can(&WireFrameV1::new(can_id, &[1, 2, 3], 0)),
            Err(WireError::InvalidStandardId)
        );
    }
    assert_eq!(
        wire_to_can(&WireFrameV1::new(0x7FF, &[], 0)),
        Ok(CanFrame::Normal { id: CanId::Standard(0x7FF), remote: false, data: vec![] })
    );
}

#[test]
fn a_can_fd_frame_keeps_its_two_bits() {
    for (brs, esi, flags) in [
        (false, false, FLAG_FD),
        (true, false, FLAG_FD | FLAG_BRS),
        (false, true, FLAG_FD | FLAG_ESI),
        (true, true, FLAG_FD | FLAG_BRS | FLAG_ESI),
    ] {
        let frame = CanFrame::Fd { id: CanId::Standard(5), brs, esi, data: vec![1] };
        let wire = can_to_wire(&frame);
        assert_eq!(wire, WireFrameV1::new(5, &[1], flags));
        assert_eq!(wire_to_can(&wire), Ok(frame));
    }
    // No other frame has them.
    assert_eq!(
        wire_to_can(&WireFrameV1::new(5, &[1], FLAG_BRS | FLAG_ESI)),
        Ok(CanFrame::Normal { id: CanId::Standard(5), remote: false, data: vec![1] })
    );
}

#[test]
fn data_of_a_can_fd_frame_are_padded() {
    let lengths = [(8, 8), (9, 12), (13, 16), (17, 20), (21, 24), (25, 32), (33, 48), (49, 64)];
    for (n, padded) in lengths {
        let wire = WireFrameV1::new(1, &vec![3; n], FLAG_FD);
        let mut expected = vec![3; n];
        expected.resize(padded, 0);
        assert_eq!(
            wire_to_can(&wire),
            Ok(CanFrame::Fd { id: CanId::Standard(1), brs: false, esi: false, data: expected })
        );
    }
}

#[test]
fn a_can_fd_frame_is_never_a_remote_request() {
    assert_eq!(
        wire_to_can(&WireFrameV1::new(1, &[2], FLAG_FD | FLAG_RTR)),
        Ok(CanFrame::Fd { id: CanId::Standard(1), brs: false, esi: false, data: vec![2] })
    );
}

#[test]
fn a_remote_request_forgets_its_length_on_the_way() {
    let request = CanFrame::Remote { id: CanId::Extended(0x12345), dlc: 4 };
    let wire = can_to_wire(&request);
    assert_eq!(wire, WireFrameV1::new(0x12345, &[], FLAG_EFF | FLAG_RTR));
    assert_eq!(
        wire_to_can(&wire),
        Ok(CanFrame::Remote { id: CanId::Extended(0x12345), dlc: 0 })
    );
}

#[test]
fn an_error_frame_goes_out_and_does_not_come_in() {
    let report = CanFrame::Error { data: vec![0, 1, 2, 3, 4, 5, 6, 7] };
    let wire = can_to_wire(&report);
    assert_eq!(wire, WireFrameV1::new(0, &[0, 1, 2, 3, 4, 5, 6, 7], FLAG_ERR));
    assert_eq!(wire_to_can(&wire), Err(WireError::ErrorFrame));
}

#[test]
fn a_classic_frame_may_be_a_remote_request() {
    let frame = CanFrame::Normal { id: CanId::Extended(5), remote: true, data: vec![] };
    assert_eq!(can_to_wire(&frame), WireFrameV1::new(5, &[], FLAG_EFF | FLAG_RTR));
}

#[test]
fn a_hash_has_this_value() {
    assert_eq!(frame_hash(0x123, &[1, 2, 3]), 0x03_0322);
    assert_eq!(frame_hash(0x123, &[]), 0x123);
    // The ninth byte falls into the lane of the first.
    assert_eq!(frame_hash(0, &[1, 0, 0, 0, 0, 0, 0, 0x80, 3]), 0x8000_0000_0000_0002);
}

#[test]
fn a_hash_ignores_zero_bytes_at_the_end() {
    assert_eq!(frame_hash(7, &[1, 2]), frame_hash(7, &[1, 2, 0, 0, 0, 0, 0, 0, 0, 0]));
}

#[test]
fn a_hash_tells_apart_data_of_one_length_up_to_8() {
    let a = [1, 2, 3, 4, 5, 6, 7, 8];
    for i in 0..8 {
        let mut b = a;
        b[i] ^= 0x40;
        assert_ne!(frame_hash(1, &a), frame_hash(1, &b));
    }
    assert_ne!(frame_hash(1, &[]), frame_hash(1, &[9]));
}

#[test]
fn a_frame_crosses_the_bridge_as_it_was() {
    let frames = [
        CanFrame::Normal { id: CanId::Standard(0x7FF), remote: false, data: vec![1, 2, 3] },
        CanFrame::Normal { id: CanId::Extended(0x1FFF_FFFF), remote: false, data: vec![] },
        CanFrame::Fd { id: CanId::Standard(0), brs: true, esi: false, data: vec![0xFF; 64] },
        CanFrame::Fd { id: CanId::Extended(0x800), brs: false, esi: true, data: vec![5; 12] },
        CanFrame::Remote { id: CanId::Standard(0x123), dlc: 0 },
    ];
    let mut stream = Vec::new();
    for frame in &frames {
        let wire = can_to_wire(frame);
        assert_eq!(wire.version, 1);
        assert_eq!(wire.flags & 0xC0, 0);
        send_wire(&mut stream, &wire).unwrap();
    }
    let mut reader = WireReader::new(stream);
    for frame in frames {
        assert_eq!(wire_to_can(&recv_wire(&mut reader).unwrap()), Ok(frame));
    }
    assert_eq!(reader.remaining(), 0);
}
