//! The hash by which a looped-back frame is recognised.
use vstd::prelude::*;

verus! {

/// The byte at position `i` of the data, in the byte lane it falls into: the lanes of a 64-bit
/// word are taken in turn, from the lowest.
pub open spec fn lane(byte: u8, i: nat) -> u64 {
    (byte as u64) << (((i % 8) * 8) as u64)
}

/// All bytes of the data, each in its lane, combined by exclusive or.
pub open spec fn data_hash(data: Seq<u8>) -> u64
    decreases data.len(),
{
    if data.len() == 0 {
        0
    } else {
        data_hash(data.drop_last()) ^ lane(data.last(), (data.len() - 1) as nat)
    }
}

/// The hash of a frame: its identifier combined with its data.
pub open spec fn hash_of(can_id: u32, data: Seq<u8>) -> u64 {
    can_id as u64 ^ data_hash(data)
}

/// Hashes a frame, for the recognition of frames that come back.
///
/// A frame written to a CAN interface is delivered by the kernel to every socket on that
/// interface, the one that the bridge reads included. Forwarding it again would send frames round
/// in a circle for ever. So the writer announces the hash of each frame before it writes the
/// frame, and the reader drops the first frame with an announced hash. Other programs on the
/// interface still see all frames.
pub fn frame_hash(can_id: u32, data: &[u8]) -> (hash: u64)
    ensures
        hash == hash_of(can_id, data@),
{
    let mut hash: u64 = can_id as u64;
    let mut i: usize = 0;
    assert(can_id as u64 ^ 0 == can_id as u64) by (bit_vector);
    assert(data@.take(0) =~= Seq::<u8>::empty());
    while i < data.len()
        invariant
            i <= data@.len(),
            hash == hash_of(can_id, data@.take(i as int)),
        decreases data@.len() - i,
    {
        let shifted: u64 = (data[i] as u64) << (((i % 8) * 8) as u64);
        let ghost before = data_hash(data@.take(i as int));
        assert(data@.take(i + 1).drop_last() =~= data@.take(i as int));
        assert((can_id as u64 ^ before) ^ shifted == can_id as u64 ^ (before ^ shifted))
            by (bit_vector);
        hash = hash ^ shifted;
        i += 1;
    }
    assert(data@.take(i as int) =~= data@);
    hash
}

/// Frames with the same data and different identifiers have different hashes.
pub proof fn hash_tells_identifiers_apart(a: u32, b: u32, data: Seq<u8>)
    requires
        a != b,
    ensures
        hash_of(a, data) != hash_of(b, data),
{
    let h = data_hash(data);
    assert(a as u64 ^ h != b as u64 ^ h) by (bit_vector)
        requires
            a != b,
    ;
}

/// Changing one byte of the data exchanges that byte's lane in the hash of the data.
proof fn data_hash_of_update(data: Seq<u8>, i: int, byte: u8)
    requires
        0 <= i < data.len(),
    ensures
        data_hash(data.update(i, byte)) == data_hash(data) ^ lane(data[i], i as nat) ^ lane(
            byte,
            i as nat,
        ),
    decreases data.len(),
{
    let changed = data.update(i, byte);
    let l = lane(data[i], i as nat);
    let m = lane(byte, i as nat);
    if i == data.len() - 1 {
        assert(changed.drop_last() =~= data.drop_last());
        let h = data_hash(data.drop_last());
        assert(h ^ m == h ^ l ^ l ^ m) by (bit_vector);
    } else {
        assert(changed.drop_last() =~= data.drop_last().update(i, byte));
        data_hash_of_update(data.drop_last(), i, byte);
        let h = data_hash(data.drop_last());
        let e = lane(data.last(), (data.len() - 1) as nat);
        assert((h ^ l ^ m) ^ e == h ^ e ^ l ^ m) by (bit_vector);
    }
}

/// Changing one byte of the data changes the hash of the frame.
pub proof fn hash_tells_a_changed_byte(can_id: u32, data: Seq<u8>, i: int, byte: u8)
    requires
        0 <= i < data.len(),
        byte != data[i],
    ensures
        hash_of(can_id, data.update(i, byte)) != hash_of(can_id, data),
{
    data_hash_of_update(data, i, byte);
    let old_byte = data[i];
    let shift = ((i as nat % 8) * 8) as u64;
    assert(shift < 64 && shift % 8 == 0);
    let h = data_hash(data);
    let id = can_id as u64;
    assert(id ^ (h ^ ((old_byte as u64) << shift) ^ ((byte as u64) << shift)) != id ^ h)
        by (bit_vector)
        requires
            shift < 64,
            shift % 8 == 0,
            byte != old_byte,
    ;
}

/// The byte in lane `k` of a 64-bit word.
pub open spec fn byte_in_lane(word: u64, k: nat) -> u8 {
    ((word >> ((k * 8) as u64)) & 0xff) as u8
}

/// Up to eight bytes of data lie side by side in the hash of the data.
pub proof fn data_hash_lanes(data: Seq<u8>, k: nat)
    requires
        data.len() <= 8,
        k < 8,
    ensures
        byte_in_lane(data_hash(data), k) == if k < data.len() {
            data[k as int]
        } else {
            0u8
        },
    decreases data.len(),
{
    let at = (k * 8) as u64;
    if data.len() == 0 {
        assert(((0u64 >> at) & 0xff) as u8 == 0u8) by (bit_vector)
            requires
                at < 64,
        ;
    } else {
        data_hash_lanes(data.drop_last(), k);
        let last = data.last();
        let h = data_hash(data.drop_last());
        let i = (data.len() - 1) as nat;
        let shift = ((i % 8) * 8) as u64;
        if k == i {
            assert((((h ^ ((last as u64) << shift)) >> shift) & 0xff) as u8 == last) by (bit_vector)
                requires
                    shift < 64,
                    shift % 8 == 0,
                    ((h >> shift) & 0xff) as u8 == 0u8,
            ;
        } else {
            assert((((h ^ ((last as u64) << shift)) >> at) & 0xff) as u8 == ((h >> at)
                & 0xff) as u8) by (bit_vector)
                requires
                    shift < 64,
                    shift % 8 == 0,
                    at < 64,
                    at % 8 == 0,
                    at != shift,
            ;
        }
    }
}

/// Two frames with the same identifier and as many data bytes, at most eight, have the same hash
/// only if they have the same data.
pub proof fn hash_tells_data_apart(can_id: u32, a: Seq<u8>, b: Seq<u8>)
    requires
        a.len() == b.len() <= 8,
        a != b,
    ensures
        hash_of(can_id, a) != hash_of(can_id, b),
{
    if hash_of(can_id, a) == hash_of(can_id, b) {
        let id = can_id as u64;
        let x = data_hash(a);
        let y = data_hash(b);
        assert(x == y) by (bit_vector)
            requires
                id ^ x == id ^ y,
        ;
        assert forall|k: int| 0 <= k < a.len() implies a[k] == b[k] by {
            data_hash_lanes(a, k as nat);
            data_hash_lanes(b, k as nat);
        }
        assert(a =~= b);
    }
}

/// Zero bytes at the end of the data leave the hash as it is.
pub proof fn hash_ignores_zero_padding(can_id: u32, data: Seq<u8>, zeros: nat)
    ensures
        hash_of(can_id, data + Seq::new(zeros, |i: int| 0u8)) == hash_of(can_id, data),
    decreases zeros,
{
    let padded = data + Seq::new(zeros, |i: int| 0u8);
    if zeros == 0 {
        assert(padded =~= data);
    } else {
        let fewer = (zeros - 1) as nat;
        hash_ignores_zero_padding(can_id, data, fewer);
        assert(padded.drop_last() =~= data + Seq::new(fewer, |i: int| 0u8));
        let shift = (((padded.len() - 1) as nat % 8) * 8) as u64;
        let h = data_hash(padded.drop_last());
        assert(h ^ (0u64 << shift) == h) by (bit_vector)
            requires
                shift < 64,
        ;
        assert(lane(0u8, (padded.len() - 1) as nat) == 0u64 << shift);
    }
}

/// A frame without data hashes unlike the same frame with one byte of data, unless that byte is
/// zero.
pub proof fn hash_tells_a_first_byte(can_id: u32, byte: u8)
    requires
        byte != 0,
    ensures
        hash_of(can_id, Seq::<u8>::empty()) != hash_of(can_id, seq![byte]),
{
    let id = can_id as u64;
    assert(seq![byte].drop_last() =~= Seq::<u8>::empty());
    assert(data_hash(seq![byte].drop_last()) == 0);
    assert(id ^ 0 != id ^ (0 ^ ((byte as u64) << 0u64))) by (bit_vector)
        requires
            byte != 0,
    ;
}

} // verus!
