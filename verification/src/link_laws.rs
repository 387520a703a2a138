//! What the calls that watch an interface have to do with each other and with the messages.
use vstd::prelude::*;

use crate::attribute;
use crate::attribute::is_bad_message;
use crate::link;
use crate::link::decode_message;
use crate::link::link_is_up;
use crate::link::link_name;
use crate::link::link_oper_state;
use crate::link::observe_event;
use crate::link::process_link_datagram;
use crate::link::take_message;
use crate::link::EventView;
use crate::link::LinkMessage;
use crate::link::LinkStep;
use crate::link::NetlinkEvent;
use crate::link::RoutePayload;
use crate::link::State;

verus! {

/// Where an operational state is reported the flags do not matter: the link is down in three states
/// and up in all others.
pub proof fn a_reported_state_decides_whatever_the_flags(
    state: State,
    flags: u32,
    other_flags: u32,
    r: bool,
    r_other: bool,
)
    requires
        call_ensures(link_is_up, (Some(state), flags), r),
        call_ensures(link_is_up, (Some(state), other_flags), r_other),
    ensures
        r == r_other,
        state is Down || state is LowerLayerDown || state is NotPresent ==> !r,
        state is Up || state is Unknown || state is Testing || state is Dormant ==> r,
        state is Other ==> r,
{
}

/// Where no state is reported the lowest of the flags alone decides.
pub proof fn without_a_state_the_lowest_flag_decides(flags: u32, r: bool)
    requires
        call_ensures(link_is_up, (None::<State>, flags), r),
    ensures
        r <==> flags % 2 == 1,
{
    assert(flags & 1 != 0 <==> flags % 2 == 1) by (bit_vector);
}

/// Every number is that of one state: six numbers of the states that have a name, in order, and any
/// other number its own.
pub proof fn states_have_numbers(code: u8, state: State)
    requires
        call_ensures(State::from_code, (code,), state),
    ensures
        state is Unknown <==> code == 0,
        state is NotPresent <==> code == 1,
        state is Down <==> code == 2,
        state is LowerLayerDown <==> code == 3,
        state is Testing <==> code == 4,
        state is Dormant <==> code == 5,
        state is Up <==> code == 6,
        state is Other <==> code > 6,
        state matches State::Other(c) ==> c == code,
{
}

/// The first state among the attributes is at the place of the first such attribute.
proof fn first_state_is_at(attributes: Seq<link::AttributeView>, i: int)
    requires
        0 <= i < attributes.len(),
        attributes[i] is OperState,
        forall|k: int| 0 <= k < i ==> !(#[trigger] attributes[k] is OperState),
    ensures
        link::first_state(attributes) == Some(State::of_code(attributes[i]->OperState_0)),
    decreases i,
{
    if i > 0 {
        let rest = attributes.drop_first();
        assert(!(attributes[0] is OperState));
        assert(rest[i - 1] == attributes[i]);
        assert forall|k: int| 0 <= k < i - 1 implies !(#[trigger] rest[k] is OperState) by {
            assert(rest[k] == attributes[k + 1]);
        }
        first_state_is_at(rest, i - 1);
    }
}

/// There is no first state where no attribute is one.
proof fn no_first_state(attributes: Seq<link::AttributeView>)
    requires
        forall|k: int| 0 <= k < attributes.len() ==> !(#[trigger] attributes[k] is OperState),
    ensures
        link::first_state(attributes) is None,
    decreases attributes.len(),
{
    if attributes.len() > 0 {
        let rest = attributes.drop_first();
        assert(!(attributes[0] is OperState));
        assert forall|k: int| 0 <= k < rest.len() implies !(#[trigger] rest[k] is OperState) by {
            assert(rest[k] == attributes[k + 1]);
        }
        no_first_state(rest);
    }
}

/// The first name among the attributes is at the place of the first such attribute.
proof fn first_name_is_at(attributes: Seq<link::AttributeView>, i: int)
    requires
        0 <= i < attributes.len(),
        attributes[i] is IfName,
        forall|k: int| 0 <= k < i ==> !(#[trigger] attributes[k] is IfName),
    ensures
        link::first_name(attributes) == Some(attributes[i]->IfName_0),
    decreases i,
{
    if i > 0 {
        let rest = attributes.drop_first();
        assert(!(attributes[0] is IfName));
        assert(rest[i - 1] == attributes[i]);
        assert forall|k: int| 0 <= k < i - 1 implies !(#[trigger] rest[k] is IfName) by {
            assert(rest[k] == attributes[k + 1]);
        }
        first_name_is_at(rest, i - 1);
    }
}

/// There is no first name where no attribute is one.
proof fn no_first_name(attributes: Seq<link::AttributeView>)
    requires
        forall|k: int| 0 <= k < attributes.len() ==> !(#[trigger] attributes[k] is IfName),
    ensures
        link::first_name(attributes) is None,
    decreases attributes.len(),
{
    if attributes.len() > 0 {
        let rest = attributes.drop_first();
        assert(!(attributes[0] is IfName));
        assert forall|k: int| 0 <= k < rest.len() implies !(#[trigger] rest[k] is IfName) by {
            assert(rest[k] == attributes[k + 1]);
        }
        no_first_name(rest);
    }
}

/// The state of a link is the one with the number that its first attribute for a state gives,
/// wherever that stands among the attributes, and there is none without such an attribute.
pub proof fn the_first_state_counts(
    message: LinkMessage,
    i: int,
    state: State,
    r: Option<State>,
)
    requires
        call_ensures(link_oper_state, (&message,), r),
    ensures
        (forall|k: int|
            0 <= k < message.attributes@.len() ==> !(#[trigger] message.attributes@[k] is
                OperState)) ==> r is None,
        0 <= i < message.attributes@.len() && message.attributes@[i] is OperState && (forall|k: int|
            0 <= k < i ==> !(#[trigger] message.attributes@[k] is OperState)) && call_ensures(
            State::from_code,
            (message.attributes@[i]->OperState_0,),
            state,
        ) ==> r == Some(state),
{
    let raw = message.attributes@;
    let attributes = message@.attributes;
    assert forall|k: int| 0 <= k < raw.len() implies (#[trigger] attributes[k] is OperState
        <==> raw[k] is OperState) by {
        assert(attributes[k] == raw[k]@);
    }
    if forall|k: int| 0 <= k < raw.len() ==> !(#[trigger] raw[k] is OperState) {
        no_first_state(attributes);
    }
    if 0 <= i < raw.len() && raw[i] is OperState && (forall|k: int|
        0 <= k < i ==> !(#[trigger] raw[k] is OperState)) {
        first_state_is_at(attributes, i);
    }
}

/// The name of a link is the one that its first attribute for a name gives, wherever that stands
/// among the attributes, and there is none without such an attribute.
pub proof fn the_first_name_counts(message: LinkMessage, i: int, r: Option<&str>)
    requires
        call_ensures(link_name, (&message,), r),
    ensures
        (forall|k: int|
            0 <= k < message.attributes@.len() ==> !(#[trigger] message.attributes@[k] is IfName))
            ==> r is None,
        0 <= i < message.attributes@.len() && message.attributes@[i] is IfName && (forall|k: int|
            0 <= k < i ==> !(#[trigger] message.attributes@[k] is IfName)) ==> (r matches Some(name)
            && name@ == message.attributes@[i]->IfName_0@),
{
    let raw = message.attributes@;
    let attributes = message@.attributes;
    assert forall|k: int| 0 <= k < raw.len() implies (#[trigger] attributes[k] is IfName
        <==> raw[k] is IfName) by {
        assert(attributes[k] == raw[k]@);
    }
    if forall|k: int| 0 <= k < raw.len() ==> !(#[trigger] raw[k] is IfName) {
        no_first_name(attributes);
    }
    if 0 <= i < raw.len() && raw[i] is IfName && (forall|k: int|
        0 <= k < i ==> !(#[trigger] raw[k] is IfName)) {
        first_name_is_at(attributes, i);
        assert(attributes[i] == raw[i]@);
    }
}

/// A message that is not about a link, or about one with another name or none, changes nothing.
pub proof fn messages_about_others_change_nothing(
    event: NetlinkEvent,
    iface: &str,
    prev: &mut Option<bool>,
    r: bool,
    name: Option<&str>,
)
    requires
        call_ensures(observe_event, (&event, iface, prev), r),
        match event.payload {
            RoutePayload::NewLink(message) => call_ensures(link_name, (&message,), name),
            RoutePayload::DelLink(message) => call_ensures(link_name, (&message,), name),
            RoutePayload::Other => true,
        },
        event.payload is Other || name is None || name->Some_0@ != iface@,
    ensures
        !r,
        *final(prev) == *old(prev),
{
}

/// A message about the interface tells whether it is up, from its state and flags; that it is gone
/// tells that it is down. It came back if it is up and was known to be down, and then nothing else
/// is noted; in every other case what the message tells is what is known from then on.
pub proof fn messages_about_the_interface_are_noted(
    event: NetlinkEvent,
    iface: &str,
    prev: &mut Option<bool>,
    r: bool,
    message: LinkMessage,
    name: &str,
    state: Option<State>,
    up: bool,
)
    requires
        call_ensures(observe_event, (&event, iface, prev), r),
        event.payload == RoutePayload::NewLink(message) || event.payload == RoutePayload::DelLink(
            message,
        ),
        call_ensures(link_name, (&message,), Some(name)),
        name@ == iface@,
        call_ensures(link_oper_state, (&message,), state),
        call_ensures(link_is_up, (state, message.flags), up),
    ensures
        event.payload is DelLink ==> !r && *final(prev) == Some(false),
        event.payload is NewLink ==> (r <==> up && *old(prev) == Some(false)),
        event.payload is NewLink && !r ==> *final(prev) == Some(up),
        r ==> *final(prev) == Some(false),
{
}

/// Nothing is taken where there is no message, or one that gives itself no length.
pub proof fn no_message_is_taken_from_nothing(
    decoded: Option<NetlinkEvent>,
    rest: usize,
    iface: &str,
    prev: &mut Option<bool>,
    r: LinkStep,
)
    requires
        decoded is None || decoded->Some_0.length == 0,
        call_ensures(take_message, (&decoded, rest, iface, prev), r),
    ensures
        r is Done,
        *final(prev) == *old(prev),
{
}

/// A message is taken note of, and where the interface did not come back with it the next one
/// starts at the first multiple of four from its length on, if that is still within the datagram.
pub proof fn the_next_message_starts_at_a_multiple_of_four(
    event: NetlinkEvent,
    rest: usize,
    iface: &str,
    prev: &mut Option<bool>,
    r: LinkStep,
    noted: &mut Option<bool>,
    came_back: bool,
    place: int,
)
    requires
        event.length > 0,
        *old(noted) == *old(prev),
        call_ensures(take_message, (&Some(event), rest, iface, prev), r),
        call_ensures(observe_event, (&event, iface, noted), came_back),
    ensures
        *final(prev) == *final(noted),
        r is CameBack <==> came_back,
        r matches LinkStep::Next(distance) ==> {
            &&& distance % 4 == 0
            &&& event.length <= distance < event.length + 4
            &&& distance < rest
        },
        r is Done && place % 4 == 0 && place >= event.length ==> place >= rest,
{
}

/// A message is decoded as the decoder decodes it, unless the decoder must not be given it.
pub proof fn messages_are_decoded_by_the_decoder(bytes: &[u8], bad: bool, r: Option<NetlinkEvent>)
    requires
        call_ensures(is_bad_message, (bytes,), bad),
        call_ensures(decode_message, (bytes,), r),
    ensures
        bad ==> r is None,
        !bad ==> (r is None <==> link::netlink_message(
            vstd::endian::endianness(),
            usize::BITS,
            bytes@,
        ) is None),
        r matches Some(event) ==> link::netlink_message(
            vstd::endian::endianness(),
            usize::BITS,
            bytes@,
        ) == Some(event@),
{
}

/// The interface came back with one more observation in front if it came back with that, or, that
/// being what is known, with the others.
proof fn one_observation_in_front(prev: Option<bool>, now: bool, later: Seq<bool>)
    ensures
        ({
            let all = seq![now] + later;
            if now && prev == Some(false) {
                link::came_back(prev, all) && link::known_after(prev, all) == Some(false)
            } else {
                &&& link::came_back(prev, all) == link::came_back(Some(now), later)
                &&& link::known_after(prev, all) == link::known_after(Some(now), later)
            }
        }),
{
    let one = seq![now];
    let all = one + later;
    assert(all[0] == now);
    if now && prev == Some(false) {
        assert(all[0] && link::down_before(prev, all, 0));
    } else {
        assert(!link::came_back(prev, one)) by {
            if link::came_back(prev, one) {
                let i = choose|i: int|
                    0 <= i < one.len() && #[trigger] one[i] && link::down_before(prev, one, i);
                assert(i == 0);
            }
        }
        link::datagrams_add_up(prev, one, later);
    }
}

/// A datagram is walked message by message: what comes of it is what comes of its first message
/// and, where that is not the end, of the datagram that starts with the next one. Of an empty
/// datagram nothing comes.
pub proof fn datagrams_are_walked_message_by_message(
    buf: &[u8],
    iface: &str,
    prev: &mut Option<bool>,
    r: bool,
    decoded: Option<NetlinkEvent>,
    noted: &mut Option<bool>,
    step: LinkStep,
    rest: &[u8],
    walked: &mut Option<bool>,
    r_rest: bool,
)
    requires
        call_ensures(process_link_datagram, (buf, iface, prev), r),
        buf@.len() <= usize::MAX,
        buf@.len() > 0 ==> {
            &&& call_ensures(decode_message, (buf,), decoded)
            &&& *old(noted) == *old(prev)
            &&& call_ensures(take_message, (&decoded, buf@.len() as usize, iface, noted), step)
            &&& step matches LinkStep::Next(distance) ==> {
                &&& rest@ == buf@.skip(distance as int)
                &&& *old(walked) == *final(noted)
                &&& call_ensures(process_link_datagram, (rest, iface, walked), r_rest)
            }
        },
    ensures
        buf@.len() == 0 ==> !r && *final(prev) == *old(prev),
        buf@.len() > 0 ==> match step {
            LinkStep::CameBack => r && *final(prev) == *final(noted),
            LinkStep::Done => !r && *final(prev) == *final(noted),
            LinkStep::Next(_) => r == r_rest && *final(prev) == *final(walked),
        },
{
    let order = vstd::endian::endianness();
    let all = link::observations(link::messages(order, buf@), iface@);
    let before = *old(prev);
    if buf@.len() == 0 {
        assert(link::messages(order, buf@).len() == 0);
        assert(all.len() == 0);
    } else if decoded is None || decoded->Some_0.length == 0 {
        assert(link::messages(order, buf@).len() == 0);
        assert(all.len() == 0);
    } else {
        let event = decoded->Some_0;
        let distance = attribute::aligned(event.length as nat);
        let tail = if distance >= buf@.len() {
            Seq::<EventView>::empty()
        } else {
            link::messages(order, buf@.skip(distance as int))
        };
        let later = link::observations(tail, iface@);
        assert(link::messages(order, buf@) =~= seq![event@] + tail);
        assert((seq![event@] + tail).drop_first() =~= tail);
        let seen = link::observation(event@.payload, iface@);
        match seen {
            None => {
                assert(all == later);
            },
            Some(now) => {
                assert(all == seq![now] + later);
                one_observation_in_front(before, now, later);
            },
        }
        if distance >= buf@.len() {
            assert(later.len() == 0);
        }
    }
}

/// The interface came back if and only if, somewhere in the observations, it was up when the last
/// that was known of it, from the observation before or from before all of them, was that it is
/// down.
pub proof fn coming_back_is_going_from_down_to_up(prev: Option<bool>, seen: Seq<bool>, now: bool)
    ensures
        !link::came_back(prev, Seq::empty()),
        link::came_back(prev, seen.push(now)) <==> link::came_back(prev, seen) || now && (
        if seen.len() == 0 {
            prev == Some(false)
        } else {
            !seen.last()
        }),
{
    let longer = seen.push(now);
    assert(longer.last() == now);
    if link::came_back(prev, seen) {
        let i = choose|i: int|
            0 <= i < seen.len() && #[trigger] seen[i] && link::down_before(prev, seen, i);
        assert(longer[i] && link::down_before(prev, longer, i));
    }
    if now && (if seen.len() == 0 {
        prev == Some(false)
    } else {
        !seen.last()
    }) {
        assert(longer[seen.len() as int] && link::down_before(prev, longer, seen.len() as int));
    }
    if link::came_back(prev, longer) {
        let i = choose|i: int|
            0 <= i < longer.len() && #[trigger] longer[i] && link::down_before(prev, longer, i);
        if i < seen.len() {
            assert(seen[i] && link::down_before(prev, seen, i));
        }
    }
}

} // verus!
