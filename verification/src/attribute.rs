//! The attributes in a netlink message, as far as they must be looked at before the message is
//! decoded.
//!
//! An attribute is its length and its kind, two bytes each, in the byte order of the machine, and
//! then its value. The length counts all of that. Attributes start at multiples of four bytes. The
//! decoder of link messages takes the port of a `bareudp` link for two bytes without looking at its
//! length, and must not be given a message where that is wrong.
use vstd::prelude::*;

use vstd::endian::Endian;

verus! {

/// The number that two bytes hold.
pub open spec fn native16(order: Endian, s: Seq<u8>) -> int {
    match order {
        Endian::Little => s[0] + 0x100 * s[1],
        Endian::Big => s[1] + 0x100 * s[0],
    }
}

/// The number that four bytes hold.
pub open spec fn native32(order: Endian, s: Seq<u8>) -> int {
    match order {
        Endian::Little => s[0] + 0x100 * s[1] + 0x1_0000 * s[2] + 0x100_0000 * s[3],
        Endian::Big => s[3] + 0x100 * s[2] + 0x1_0000 * s[1] + 0x100_0000 * s[0],
    }
}

/// `u16::from_ne_bytes`: the number that the bytes hold in the byte order of the machine.
#[verifier::external_body]
fn read16(bytes: [u8; 2]) -> (n: u16)
    ensures
        n == native16(vstd::endian::endianness(), bytes@),
{
    u16::from_ne_bytes(bytes)
}

/// `u32::from_ne_bytes`: the number that the bytes hold in the byte order of the machine.
#[verifier::external_body]
fn read32(bytes: [u8; 4]) -> (n: u32)
    ensures
        n == native32(vstd::endian::endianness(), bytes@),
{
    u32::from_ne_bytes(bytes)
}

/// The least multiple of four from `length` up.
pub open spec fn aligned(length: nat) -> nat {
    (length + 3) / 4 * 4
}

/// The length of the attribute that the bytes start with.
pub open spec fn length_of(order: Endian, s: Seq<u8>) -> int {
    native16(order, s)
}

/// The bytes start with an attribute.
pub open spec fn starts(order: Endian, s: Seq<u8>) -> bool {
    s.len() >= 4 && 4 <= length_of(order, s) <= s.len()
}

/// The kind of the attribute that the bytes start with. The two highest bits are flags.
pub open spec fn kind_of(order: Endian, s: Seq<u8>) -> int {
    native16(order, s.skip(2)) % 0x4000
}

/// The value of the attribute that the bytes start with.
pub open spec fn value_of(order: Endian, s: Seq<u8>) -> Seq<u8> {
    s.subrange(4, length_of(order, s))
}

/// What follows the attribute that the bytes start with.
pub open spec fn after(order: Endian, s: Seq<u8>) -> Seq<u8> {
    let distance = aligned(length_of(order, s) as nat);
    if distance >= s.len() {
        Seq::empty()
    } else {
        s.skip(distance as int)
    }
}

/// The kinds of link that hold what matters here.
#[derive(Debug, Clone, Copy, PartialEq, Eq, Structural)]
pub enum LinkKind {
    /// A tunnel over UDP, `bareudp`.
    BareUdp,
    /// One of a pair, `veth` or `vxcan`, which holds its peer as a link of its own.
    Pair,
    /// One of a pair, `netkit`, which holds its peer among other attributes.
    Netkit,
    /// Any other kind.
    Other,
}

/// The bytes are those of the name, which may have a zero byte behind it.
pub open spec fn is_name(s: Seq<u8>, name: Seq<u8>) -> bool {
    s == name || s == name.push(0)
}

/// The kind of link that goes by a name.
pub open spec fn link_kind(s: Seq<u8>) -> LinkKind {
    if is_name(s, seq![0x62, 0x61, 0x72, 0x65, 0x75, 0x64, 0x70]) {
        LinkKind::BareUdp
    } else if is_name(s, seq![0x76, 0x65, 0x74, 0x68]) || is_name(
        s,
        seq![0x76, 0x78, 0x63, 0x61, 0x6e],
    ) {
        LinkKind::Pair
    } else if is_name(s, seq![0x6e, 0x65, 0x74, 0x6b, 0x69, 0x74]) {
        LinkKind::Netkit
    } else {
        LinkKind::Other
    }
}

/// A link, which is a header of 16 bytes and then attributes, holds a port of the wrong length.
pub open spec fn bad_link(order: Endian, s: Seq<u8>) -> bool
    decreases s.len(),
{
    s.len() >= 16 && bad_attributes(order, s.skip(16))
}

/// Among the attributes of a link is a description, of kind 18, that holds a port of the wrong
/// length.
pub open spec fn bad_attributes(order: Endian, s: Seq<u8>) -> bool
    decreases s.len(),
{
    starts(order, s) && (kind_of(order, s) == 18 && bad_description(
        order,
        value_of(order, s),
        LinkKind::Other,
    ) || bad_attributes(order, after(order, s)))
}

/// The attributes of a description, of which one of kind 1 names the kind of link and one of kind
/// 2 holds the data for the kind that was named last, hold a port of the wrong length. `kind` is
/// the kind that was named before them.
pub open spec fn bad_description(order: Endian, s: Seq<u8>, kind: LinkKind) -> bool
    decreases s.len(),
{
    starts(order, s) && if kind_of(order, s) == 1 {
        bad_description(order, after(order, s), link_kind(value_of(order, s)))
    } else {
        kind_of(order, s) == 2 && bad_data(order, value_of(order, s), kind) || bad_description(
            order,
            after(order, s),
            kind,
        )
    }
}

/// The data for a kind of link hold a port of the wrong length: as the attribute of kind 3, or in a
/// peer, which is the attribute of kind 1. Of a pair only the first attribute is looked at.
pub open spec fn bad_data(order: Endian, s: Seq<u8>, kind: LinkKind) -> bool
    decreases s.len(),
{
    starts(order, s) && match kind {
        LinkKind::BareUdp => kind_of(order, s) == 3 && value_of(order, s).len() != 2 || bad_data(
            order,
            after(order, s),
            kind,
        ),
        LinkKind::Pair => kind_of(order, s) == 1 && bad_link(order, value_of(order, s)),
        LinkKind::Netkit => kind_of(order, s) == 1 && bad_link(order, value_of(order, s))
            || bad_data(order, after(order, s), kind),
        LinkKind::Other => false,
    }
}

/// The bytes start with a message about a link, of type 16 to 19, that holds a port of the wrong
/// length. A message is its length, four bytes, its type, two bytes, ten bytes that do not matter
/// here, and then what it is about.
pub open spec fn bad_message(order: Endian, bytes: Seq<u8>) -> bool {
    &&& bytes.len() >= 16
    &&& 16 <= native32(order, bytes) <= bytes.len()
    &&& 16 <= native16(order, bytes.skip(4)) <= 19
    &&& bad_link(order, bytes.subrange(16, native32(order, bytes)))
}

/// The kind and the length of the attribute that the bytes start with.
fn first_attribute(s: &[u8]) -> (r: Option<(u16, usize)>)
    ensures
        ({
            let order = vstd::endian::endianness();
            match r {
                Some((kind, length)) => {
                    &&& starts(order, s@)
                    &&& kind == kind_of(order, s@)
                    &&& length == length_of(order, s@)
                },
                None => !starts(order, s@),
            }
        }),
{
    if s.len() < 4 {
        return None;
    }
    let length: u16 = read16([s[0], s[1]]);
    let kind: u16 = read16([s[2], s[3]]);
    if length < 4 || length as usize > s.len() {
        return None;
    }
    Some((kind % 0x4000, length as usize))
}

/// Whether the bytes are those of the name, which may have a zero byte behind it.
fn has_name(s: &[u8], name: &[u8]) -> (r: bool)
    ensures
        r == is_name(s@, name@),
{
    if s.len() < name.len() || s.len() - name.len() > 1 {
        return false;
    }
    let mut i: usize = 0;
    while i < name.len()
        invariant
            i <= name@.len() <= s@.len(),
            s@.take(i as int) == name@.take(i as int),
        decreases name@.len() - i,
    {
        if s[i] != name[i] {
            return false;
        }
        i += 1;
        assert(s@.take(i as int) =~= s@.take(i - 1).push(name@[i - 1]));
        assert(name@.take(i as int) =~= name@.take(i - 1).push(name@[i - 1]));
    }
    assert(name@.take(i as int) =~= name@);
    assert(s@.len() == i ==> s@.take(i as int) =~= s@);
    assert(s@.len() == i + 1 ==> s@ =~= s@.take(i as int).push(s@[i as int]));
    s.len() == name.len() || s[name.len()] == 0
}

/// The kind of link that goes by a name.
fn named_kind(s: &[u8]) -> (kind: LinkKind)
    ensures
        kind == link_kind(s@),
{
    let bareudp: [u8; 7] = [0x62, 0x61, 0x72, 0x65, 0x75, 0x64, 0x70];
    let veth: [u8; 4] = [0x76, 0x65, 0x74, 0x68];
    let vxcan: [u8; 5] = [0x76, 0x78, 0x63, 0x61, 0x6e];
    let netkit: [u8; 6] = [0x6e, 0x65, 0x74, 0x6b, 0x69, 0x74];
    assert(bareudp@ =~= seq![0x62, 0x61, 0x72, 0x65, 0x75, 0x64, 0x70]);
    assert(veth@ =~= seq![0x76, 0x65, 0x74, 0x68]);
    assert(vxcan@ =~= seq![0x76, 0x78, 0x63, 0x61, 0x6e]);
    assert(netkit@ =~= seq![0x6e, 0x65, 0x74, 0x6b, 0x69, 0x74]);
    if has_name(s, &bareudp) {
        LinkKind::BareUdp
    } else if has_name(s, &veth) || has_name(s, &vxcan) {
        LinkKind::Pair
    } else if has_name(s, &netkit) {
        LinkKind::Netkit
    } else {
        LinkKind::Other
    }
}

/// Whether a link holds a port of the wrong length.
fn is_bad_link(s: &[u8]) -> (r: bool)
    ensures
        r == bad_link(vstd::endian::endianness(), s@),
    decreases s@.len(),
{
    if s.len() < 16 {
        return false;
    }
    let ghost order = vstd::endian::endianness();
    let ghost all = s@.skip(16);
    let mut at: usize = 16;
    while at < s.len()
        invariant
            16 <= at <= s@.len(),
            order == vstd::endian::endianness(),
            all == s@.skip(16),
            bad_attributes(order, all) == bad_attributes(order, s@.skip(at as int)),
        decreases s@.len() - at,
    {
        let rest = vstd::slice::slice_subrange(s, at, s.len());
        assert(rest@ =~= s@.skip(at as int));
        let (kind, length) = match first_attribute(rest) {
            Some(attribute) => attribute,
            None => return false,
        };
        if kind == 18 && is_bad_description(vstd::slice::slice_subrange(rest, 4, length)) {
            return true;
        }
        let distance: usize = (length + 3) / 4 * 4;
        if distance >= rest.len() {
            assert(!bad_attributes(order, after(order, rest@)));
            return false;
        }
        assert(rest@.skip(distance as int) =~= s@.skip(at + distance));
        at += distance;
    }
    false
}

/// Whether a description of a link holds a port of the wrong length.
fn is_bad_description(s: &[u8]) -> (r: bool)
    ensures
        r == bad_description(vstd::endian::endianness(), s@, LinkKind::Other),
    decreases s@.len(),
{
    let ghost order = vstd::endian::endianness();
    let mut named = LinkKind::Other;
    let mut at: usize = 0;
    assert(s@.skip(0) =~= s@);
    while at < s.len()
        invariant
            at <= s@.len(),
            order == vstd::endian::endianness(),
            bad_description(order, s@, LinkKind::Other) == bad_description(
                order,
                s@.skip(at as int),
                named,
            ),
        decreases s@.len() - at,
    {
        let rest = vstd::slice::slice_subrange(s, at, s.len());
        assert(rest@ =~= s@.skip(at as int));
        let (kind, length) = match first_attribute(rest) {
            Some(attribute) => attribute,
            None => return false,
        };
        let value = vstd::slice::slice_subrange(rest, 4, length);
        if kind == 1 {
            named = named_kind(value);
        } else if kind == 2 && is_bad_data(value, named) {
            return true;
        }
        let distance: usize = (length + 3) / 4 * 4;
        if distance >= rest.len() {
            assert(!bad_description(order, after(order, rest@), named));
            return false;
        }
        assert(rest@.skip(distance as int) =~= s@.skip(at + distance));
        at += distance;
    }
    false
}

/// Whether the data for a kind of link hold a port of the wrong length.
fn is_bad_data(s: &[u8], link: LinkKind) -> (r: bool)
    ensures
        r == bad_data(vstd::endian::endianness(), s@, link),
    decreases s@.len(),
{
    let ghost order = vstd::endian::endianness();
    let mut at: usize = 0;
    assert(s@.skip(0) =~= s@);
    while at < s.len()
        invariant
            at <= s@.len(),
            order == vstd::endian::endianness(),
            bad_data(order, s@, link) == bad_data(order, s@.skip(at as int), link),
        decreases s@.len() - at,
    {
        let rest = vstd::slice::slice_subrange(s, at, s.len());
        assert(rest@ =~= s@.skip(at as int));
        let (kind, length) = match first_attribute(rest) {
            Some(attribute) => attribute,
            None => return false,
        };
        let value = vstd::slice::slice_subrange(rest, 4, length);
        match link {
            LinkKind::BareUdp => if kind == 3 && value.len() != 2 {
                return true;
            },
            LinkKind::Pair => return kind == 1 && is_bad_link(value),
            LinkKind::Netkit => if kind == 1 && is_bad_link(value) {
                return true;
            },
            LinkKind::Other => return false,
        }
        let distance: usize = (length + 3) / 4 * 4;
        if distance >= rest.len() {
            assert(!bad_data(order, after(order, rest@), link));
            return false;
        }
        assert(rest@.skip(distance as int) =~= s@.skip(at + distance));
        at += distance;
    }
    false
}

/// Whether the bytes start with a message that must not be given to the decoder.
pub fn is_bad_message(bytes: &[u8]) -> (r: bool)
    ensures
        r == bad_message(vstd::endian::endianness(), bytes@),
{
    if bytes.len() < 16 {
        return false;
    }
    let length: u32 = read32([bytes[0], bytes[1], bytes[2], bytes[3]]);
    let kind: u16 = read16([bytes[4], bytes[5]]);
    if length < 16 || length as u64 > bytes.len() as u64 || kind < 16 || kind > 19 {
        return false;
    }
    is_bad_link(vstd::slice::slice_subrange(bytes, 16, length as usize))
}

} // verus!
