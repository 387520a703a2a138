//! Which messages must not be given to the decoder, told by the attributes that they hold.
use vstd::prelude::*;

use vstd::endian::Endian;

use crate::attribute;
use crate::attribute::is_bad_message;
use crate::attribute::LinkKind;

verus! {

/// The number that two bytes hold.
pub open spec fn two(order: Endian, first: u8, second: u8) -> int {
    match order {
        Endian::Little => first + 256 * second,
        Endian::Big => 256 * first + second,
    }
}

/// The number that four bytes hold.
pub open spec fn four(order: Endian, s: Seq<u8>) -> int {
    match order {
        Endian::Little => two(order, s[0], s[1]) + 65536 * two(order, s[2], s[3]),
        Endian::Big => 65536 * two(order, s[0], s[1]) + two(order, s[2], s[3]),
    }
}

/// The attributes that bytes hold, one after the other, each as its kind and its value, up to the
/// end, or to where no attribute starts that ends within the bytes.
pub open spec fn pieces(order: Endian, s: Seq<u8>) -> Seq<(int, Seq<u8>)>
    decreases s.len(),
{
    let length = two(order, s[0], s[1]);
    if s.len() < 4 || length < 4 || length > s.len() {
        Seq::empty()
    } else {
        let next = length + (4 - length % 4) % 4;
        let rest = if next < s.len() {
            s.skip(next)
        } else {
            Seq::empty()
        };
        seq![(two(order, s[2], s[3]) % 16384, s.subrange(4, length))] + pieces(order, rest)
    }
}

/// The last of the values of kind 1 before the attribute at `i`.
pub open spec fn name_before(p: Seq<(int, Seq<u8>)>, i: int) -> Seq<u8>
    decreases i,
{
    if i <= 0 {
        Seq::empty()
    } else if p[i - 1].0 == 1 {
        p[i - 1].1
    } else {
        name_before(p, i - 1)
    }
}

/// The value is the word, with or without a zero byte behind it.
pub open spec fn says(value: Seq<u8>, word: Seq<u8>) -> bool {
    value == word || value == word + seq![0u8]
}

/// A link holds the port of a `bareudp` link in anything but two bytes: one of its descriptions,
/// which are of kind 18, does. Peers within peers are looked at down to the given depth.
pub open spec fn holds_wrong_port(order: Endian, link: Seq<u8>, depth: nat) -> bool
    decreases depth, 2nat,
{
    let p = pieces(order, link.skip(16));
    link.len() >= 16 && exists|i: int|
        0 <= i < p.len() && (#[trigger] p[i]).0 == 18 && description_holds_wrong_port(
            order,
            p[i].1,
            depth,
        )
}

/// A description holds such a port: the data in it, which are of kind 2, do, as data of a link of
/// the name that was given last before them, which is of kind 1.
pub open spec fn description_holds_wrong_port(order: Endian, s: Seq<u8>, depth: nat) -> bool
    decreases depth, 1nat,
{
    let p = pieces(order, s);
    exists|k: int|
        0 <= k < p.len() && (#[trigger] p[k]).0 == 2 && data_hold_wrong_port(
            order,
            name_before(p, k),
            p[k].1,
            depth,
        )
}

/// The data of a link of this name hold such a port: those of a `bareudp` link, as a value of kind
/// 3, and those of one of a pair in the peer, which is the first attribute, of kind 1, of a `veth`
/// or `vxcan` link, and any attribute of kind 1 of a `netkit` link.
pub open spec fn data_hold_wrong_port(
    order: Endian,
    name: Seq<u8>,
    data: Seq<u8>,
    depth: nat,
) -> bool
    decreases depth, 0nat,
{
    let p = pieces(order, data);
    let bareudp = seq![0x62u8, 0x61, 0x72, 0x65, 0x75, 0x64, 0x70];
    let veth = seq![0x76u8, 0x65, 0x74, 0x68];
    let vxcan = seq![0x76u8, 0x78, 0x63, 0x61, 0x6e];
    let netkit = seq![0x6eu8, 0x65, 0x74, 0x6b, 0x69, 0x74];
    ||| says(name, bareudp) && exists|j: int|
        0 <= j < p.len() && (#[trigger] p[j]).0 == 3 && p[j].1.len() != 2
    ||| depth > 0 && (says(name, veth) || says(name, vxcan)) && p.len() > 0 && p[0].0 == 1
        && holds_wrong_port(order, p[0].1, (depth - 1) as nat)
    ||| depth > 0 && says(name, netkit) && exists|j: int|
        0 <= j < p.len() && (#[trigger] p[j]).0 == 1 && holds_wrong_port(
            order,
            p[j].1,
            (depth - 1) as nat,
        )
}

/// The attributes of bytes are the first and those of what follows it.
proof fn first_piece(order: Endian, s: Seq<u8>)
    ensures
        attribute::starts(order, s) <==> pieces(order, s).len() > 0,
        attribute::starts(order, s) ==> {
            &&& pieces(order, s) == seq![
                (attribute::kind_of(order, s), attribute::value_of(order, s)),
            ] + pieces(order, attribute::after(order, s))
            &&& attribute::after(order, s).len() < s.len()
        },
{
    if s.len() >= 4 {
        let length = two(order, s[0], s[1]);
        assert(s.skip(2)[0] == s[2] && s.skip(2)[1] == s[3]);
        if 4 <= length <= s.len() {
            assert(length + (4 - length % 4) % 4 == attribute::aligned(length as nat));
        }
    }
}

/// The value of an attribute is shorter than what it is in.
proof fn values_are_shorter(order: Endian, s: Seq<u8>, i: int)
    requires
        0 <= i < pieces(order, s).len(),
    ensures
        pieces(order, s)[i].1.len() + 4 <= s.len(),
    decreases s.len(),
{
    first_piece(order, s);
    if i > 0 {
        let rest = attribute::after(order, s);
        assert(pieces(order, s)[i] == pieces(order, rest)[i - 1]);
        values_are_shorter(order, rest, i - 1);
    }
}

/// Among attributes of a link is a bad one if one of the pieces is a bad description.
proof fn bad_among_attributes(order: Endian, s: Seq<u8>)
    ensures
        attribute::bad_attributes(order, s) <==> exists|i: int|
            0 <= i < pieces(order, s).len() && (#[trigger] pieces(order, s)[i]).0 == 18
                && attribute::bad_description(order, pieces(order, s)[i].1, LinkKind::Other),
    decreases s.len(),
{
    first_piece(order, s);
    if attribute::starts(order, s) {
        let p = pieces(order, s);
        let rest = attribute::after(order, s);
        let q = pieces(order, rest);
        bad_among_attributes(order, rest);
        if attribute::bad_attributes(order, rest) {
            let i = choose|i: int|
                0 <= i < q.len() && (#[trigger] q[i]).0 == 18 && attribute::bad_description(
                    order,
                    q[i].1,
                    LinkKind::Other,
                );
            assert(p[i + 1] == q[i]);
        }
        assert(p[0] == (attribute::kind_of(order, s), attribute::value_of(order, s)));
        if exists|i: int|
            0 <= i < p.len() && (#[trigger] p[i]).0 == 18 && attribute::bad_description(
                order,
                p[i].1,
                LinkKind::Other,
            ) {
            let i = choose|i: int|
                0 <= i < p.len() && (#[trigger] p[i]).0 == 18 && attribute::bad_description(
                    order,
                    p[i].1,
                    LinkKind::Other,
                );
            if i > 0 {
                assert(p[i] == q[i - 1]);
            }
        }
    }
}

/// The kind of link that was named last before `k`, or `kind` if none was.
spec fn kind_before(p: Seq<(int, Seq<u8>)>, k: int, kind: LinkKind) -> LinkKind
    decreases k,
{
    if k <= 0 {
        kind
    } else if p[k - 1].0 == 1 {
        attribute::link_kind(p[k - 1].1)
    } else {
        kind_before(p, k - 1, kind)
    }
}

/// What was named first counts only where nothing was named after it.
proof fn kind_before_with_first(
    first: (int, Seq<u8>),
    q: Seq<(int, Seq<u8>)>,
    k: int,
    kind: LinkKind,
)
    requires
        0 <= k <= q.len(),
    ensures
        kind_before(seq![first] + q, k + 1, kind) == kind_before(
            q,
            k,
            if first.0 == 1 {
                attribute::link_kind(first.1)
            } else {
                kind
            },
        ),
    decreases k,
{
    let p = seq![first] + q;
    if k > 0 {
        assert(p[k] == q[k - 1]);
        kind_before_with_first(first, q, k - 1, kind);
    } else {
        assert(p[0] == first);
        assert(kind_before(p, 0, kind) == kind);
    }
}

/// The kind of link is that of the name.
proof fn kind_is_that_of_the_name(p: Seq<(int, Seq<u8>)>, k: int)
    ensures
        kind_before(p, k, LinkKind::Other) == attribute::link_kind(name_before(p, k)),
    decreases k,
{
    if k > 0 {
        kind_is_that_of_the_name(p, k - 1);
    } else {
        let nothing = Seq::<u8>::empty();
        kinds_have_names(nothing);
        assert(nothing.len() == 0);
        assert(attribute::link_kind(nothing) is Other);
    }
}

/// The piece at `k` of a description holds bad data for the kind of link named before it.
spec fn bad_piece(order: Endian, p: Seq<(int, Seq<u8>)>, k: int, kind: LinkKind) -> bool {
    p[k].0 == 2 && attribute::bad_data(order, p[k].1, kind_before(p, k, kind))
}

/// Pieces behind the first hold bad data if they do without it.
proof fn bad_piece_behind_first(
    order: Endian,
    first: (int, Seq<u8>),
    q: Seq<(int, Seq<u8>)>,
    k: int,
    kind: LinkKind,
)
    requires
        0 <= k < q.len(),
    ensures
        bad_piece(order, seq![first] + q, k + 1, kind) == bad_piece(
            order,
            q,
            k,
            if first.0 == 1 {
                attribute::link_kind(first.1)
            } else {
                kind
            },
        ),
{
    kind_before_with_first(first, q, k, kind);
    assert((seq![first] + q)[k + 1] == q[k]);
}

/// In a description are bad data if one of the pieces holds some.
proof fn bad_in_description(order: Endian, s: Seq<u8>, kind: LinkKind)
    ensures
        attribute::bad_description(order, s, kind) <==> exists|k: int|
            0 <= k < pieces(order, s).len() && #[trigger] bad_piece(
                order,
                pieces(order, s),
                k,
                kind,
            ),
    decreases s.len(),
{
    first_piece(order, s);
    if attribute::starts(order, s) {
        let first = (attribute::kind_of(order, s), attribute::value_of(order, s));
        let p = pieces(order, s);
        let rest = attribute::after(order, s);
        let q = pieces(order, rest);
        let named = if first.0 == 1 {
            attribute::link_kind(first.1)
        } else {
            kind
        };
        assert(p == seq![first] + q);
        bad_in_description(order, rest, named);
        assert(bad_piece(order, p, 0, kind) == (first.0 == 2 && attribute::bad_data(
            order,
            first.1,
            kind,
        )));
        assert(attribute::bad_description(order, s, kind) == (bad_piece(order, p, 0, kind)
            || attribute::bad_description(order, rest, named)));
        if attribute::bad_description(order, rest, named) {
            let k = choose|k: int| 0 <= k < q.len() && #[trigger] bad_piece(order, q, k, named);
            bad_piece_behind_first(order, first, q, k, kind);
            assert(bad_piece(order, p, k + 1, kind));
        }
        if exists|k: int| 0 <= k < p.len() && #[trigger] bad_piece(order, p, k, kind) {
            let k = choose|k: int| 0 <= k < p.len() && #[trigger] bad_piece(order, p, k, kind);
            if k > 0 {
                bad_piece_behind_first(order, first, q, k - 1, kind);
                assert(bad_piece(order, q, k - 1, named));
            }
        }
    }
}

/// Data of a `bareudp` link are bad if one of the pieces is a port of the wrong length.
proof fn bad_bareudp_data(order: Endian, s: Seq<u8>)
    ensures
        attribute::bad_data(order, s, LinkKind::BareUdp) <==> exists|j: int|
            0 <= j < pieces(order, s).len() && (#[trigger] pieces(order, s)[j]).0 == 3 && pieces(
                order,
                s,
            )[j].1.len() != 2,
    decreases s.len(),
{
    first_piece(order, s);
    if attribute::starts(order, s) {
        let p = pieces(order, s);
        let rest = attribute::after(order, s);
        let q = pieces(order, rest);
        bad_bareudp_data(order, rest);
        assert(p[0] == (attribute::kind_of(order, s), attribute::value_of(order, s)));
        if attribute::bad_data(order, rest, LinkKind::BareUdp) {
            let j = choose|j: int|
                0 <= j < q.len() && (#[trigger] q[j]).0 == 3 && q[j].1.len() != 2;
            assert(p[j + 1] == q[j]);
        }
        if exists|j: int| 0 <= j < p.len() && (#[trigger] p[j]).0 == 3 && p[j].1.len() != 2 {
            let j = choose|j: int|
                0 <= j < p.len() && (#[trigger] p[j]).0 == 3 && p[j].1.len() != 2;
            if j > 0 {
                assert(p[j] == q[j - 1]);
            }
        }
    }
}

/// Data of a `netkit` link are bad if one of the pieces is a bad peer.
proof fn bad_netkit_data(order: Endian, s: Seq<u8>)
    ensures
        attribute::bad_data(order, s, LinkKind::Netkit) <==> exists|j: int|
            0 <= j < pieces(order, s).len() && (#[trigger] pieces(order, s)[j]).0 == 1
                && attribute::bad_link(order, pieces(order, s)[j].1),
    decreases s.len(),
{
    first_piece(order, s);
    if attribute::starts(order, s) {
        let p = pieces(order, s);
        let rest = attribute::after(order, s);
        let q = pieces(order, rest);
        bad_netkit_data(order, rest);
        assert(p[0] == (attribute::kind_of(order, s), attribute::value_of(order, s)));
        if attribute::bad_data(order, rest, LinkKind::Netkit) {
            let j = choose|j: int|
                0 <= j < q.len() && (#[trigger] q[j]).0 == 1 && attribute::bad_link(order, q[j].1);
            assert(p[j + 1] == q[j]);
        }
        if exists|j: int|
            0 <= j < p.len() && (#[trigger] p[j]).0 == 1 && attribute::bad_link(order, p[j].1) {
            let j = choose|j: int|
                0 <= j < p.len() && (#[trigger] p[j]).0 == 1 && attribute::bad_link(order, p[j].1);
            if j > 0 {
                assert(p[j] == q[j - 1]);
            }
        }
    }
}

/// The kinds of link that matter go by four names.
proof fn kinds_have_names(name: Seq<u8>)
    ensures
        ({
            let kind = attribute::link_kind(name);
            &&& kind is BareUdp <==> says(name, seq![0x62u8, 0x61, 0x72, 0x65, 0x75, 0x64, 0x70])
            &&& kind is Pair <==> says(name, seq![0x76u8, 0x65, 0x74, 0x68]) || says(
                name,
                seq![0x76u8, 0x78, 0x63, 0x61, 0x6e],
            )
            &&& kind is Netkit <==> says(name, seq![0x6eu8, 0x65, 0x74, 0x6b, 0x69, 0x74])
        }),
{
    let bareudp = seq![0x62u8, 0x61, 0x72, 0x65, 0x75, 0x64, 0x70];
    let veth = seq![0x76u8, 0x65, 0x74, 0x68];
    let vxcan = seq![0x76u8, 0x78, 0x63, 0x61, 0x6e];
    let netkit = seq![0x6eu8, 0x65, 0x74, 0x6b, 0x69, 0x74];
    assert(bareudp.push(0) =~= bareudp + seq![0u8]);
    assert(veth.push(0) =~= veth + seq![0u8]);
    assert(vxcan.push(0) =~= vxcan + seq![0u8]);
    assert(netkit.push(0) =~= netkit + seq![0u8]);
    assert(bareudp[0] == 0x62 && veth[0] == 0x76 && vxcan[0] == 0x76 && netkit[0] == 0x6e);
    assert(bareudp.push(0)[0] == 0x62 && veth.push(0)[0] == 0x76 && vxcan.push(0)[0] == 0x76
        && netkit.push(0)[0] == 0x6e);
}

/// The data of a link are bad if they hold a wrong port.
proof fn bad_data_hold_wrong_port(order: Endian, name: Seq<u8>, s: Seq<u8>, depth: nat)
    requires
        depth >= s.len(),
    ensures
        attribute::bad_data(order, s, attribute::link_kind(name)) <==> data_hold_wrong_port(
            order,
            name,
            s,
            depth,
        ),
    decreases depth, 0nat,
{
    let p = pieces(order, s);
    kinds_have_names(name);
    first_piece(order, s);
    bad_bareudp_data(order, s);
    bad_netkit_data(order, s);
    assert forall|j: int| 0 <= j < p.len() implies attribute::bad_link(order, (#[trigger] p[j]).1)
        == holds_wrong_port(order, p[j].1, (depth - 1) as nat) by {
        values_are_shorter(order, s, j);
        bad_links_hold_wrong_port(order, p[j].1, (depth - 1) as nat);
    }
}

/// A link is bad if it holds a wrong port.
proof fn bad_links_hold_wrong_port(order: Endian, link: Seq<u8>, depth: nat)
    requires
        depth >= link.len(),
    ensures
        attribute::bad_link(order, link) <==> holds_wrong_port(order, link, depth),
    decreases depth, 1nat,
{
    if link.len() >= 16 {
        let s = link.skip(16);
        let p = pieces(order, s);
        bad_among_attributes(order, s);
        assert forall|i: int| 0 <= i < p.len() implies attribute::bad_description(
            order,
            (#[trigger] p[i]).1,
            LinkKind::Other,
        ) == description_holds_wrong_port(order, p[i].1, depth) by {
            values_are_shorter(order, s, i);
            let d = p[i].1;
            let q = pieces(order, d);
            bad_in_description(order, d, LinkKind::Other);
            assert forall|k: int| 0 <= k < q.len() implies bad_piece(
                order,
                q,
                k,
                LinkKind::Other,
            ) == ((#[trigger] q[k]).0 == 2 && data_hold_wrong_port(
                order,
                name_before(q, k),
                q[k].1,
                depth,
            )) by {
                values_are_shorter(order, d, k);
                kind_is_that_of_the_name(q, k);
                bad_data_hold_wrong_port(order, name_before(q, k), q[k].1, depth);
            }
        }
    }
}

/// A message must not be given to the decoder if and only if it is about a link, that is of type 16
/// to 19, ends within the bytes, and its link, which is what follows the first 16 bytes of it,
/// holds the port of a `bareudp` link in anything but two bytes, at whatever depth.
pub proof fn messages_with_a_wrong_port_are_bad(bytes: &[u8], r: bool)
    requires
        call_ensures(is_bad_message, (bytes,), r),
    ensures
        ({
            let order = vstd::endian::endianness();
            let length = four(order, bytes@);
            r <==> bytes@.len() >= 16 && 16 <= length <= bytes@.len() && 16 <= two(
                order,
                bytes@[4],
                bytes@[5],
            ) <= 19 && holds_wrong_port(order, bytes@.subrange(16, length), length as nat)
        }),
{
    let order = vstd::endian::endianness();
    let length = four(order, bytes@);
    if bytes@.len() >= 16 && 16 <= length <= bytes@.len() {
        assert(bytes@.skip(4)[0] == bytes@[4] && bytes@.skip(4)[1] == bytes@[5]);
        bad_links_hold_wrong_port(order, bytes@.subrange(16, length), length as nat);
    }
}

/// What follows a message, and the ten bytes of it that do not matter, do not make it bad or good.
pub proof fn a_message_is_bad_by_itself(bytes: &[u8], other: &[u8], r: bool, r_other: bool)
    requires
        call_ensures(is_bad_message, (bytes,), r),
        call_ensures(is_bad_message, (other,), r_other),
        bytes@.len() >= 16,
        other@.len() >= 16,
        bytes@.take(6) == other@.take(6),
        ({
            let length = four(vstd::endian::endianness(), bytes@);
            &&& 16 <= length <= bytes@.len()
            &&& length <= other@.len()
            &&& bytes@.subrange(16, length) == other@.subrange(16, length)
        }),
    ensures
        r == r_other,
{
    messages_with_a_wrong_port_are_bad(bytes, r);
    messages_with_a_wrong_port_are_bad(other, r_other);
    assert forall|i: int| 0 <= i < 6 implies bytes@[i] == other@[i] by {
        assert(bytes@[i] == bytes@.take(6)[i] && other@[i] == other@.take(6)[i]);
    }
}

} // verus!
