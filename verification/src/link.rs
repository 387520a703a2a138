//! Watching an interface over netlink: telling from the messages of the kernel whether it came
//! back up.
use vstd::prelude::*;

use crate::attribute;
use netlink_packet_core::NetlinkMessage;
use netlink_packet_core::NetlinkPayload::InnerMessage;
use netlink_packet_route::link::LinkAttribute as Attribute;
use netlink_packet_route::RouteNetlinkMessage;
use netlink_packet_route::RouteNetlinkMessage::DelLink;
use netlink_packet_route::RouteNetlinkMessage::NewLink;

verus! {

/// The flag of an interface that is administratively up.
pub const IFF_UP: u32 = 1;

/// The operational state of an interface.
#[derive(Debug, Clone, Copy, PartialEq, Eq, Structural)]
pub enum State {
    /// The state cannot be determined; CAN interfaces report this while they are up.
    Unknown,
    /// Some component is missing.
    NotPresent,
    /// Down.
    Down,
    /// Down because of the layer below.
    LowerLayerDown,
    /// In some test mode.
    Testing,
    /// Not up, but waiting for something outside.
    Dormant,
    /// Up.
    Up,
    /// Any other state.
    Other(u8),
}

impl State {
    /// The state that the kernel gives this number.
    pub open spec fn of_code(code: u8) -> State {
        match code {
            0 => State::Unknown,
            1 => State::NotPresent,
            2 => State::Down,
            3 => State::LowerLayerDown,
            4 => State::Testing,
            5 => State::Dormant,
            6 => State::Up,
            _ => State::Other(code),
        }
    }

    /// The state that the kernel gives this number.
    pub fn from_code(code: u8) -> (state: State)
        ensures
            state == State::of_code(code),
    {
        match code {
            0 => State::Unknown,
            1 => State::NotPresent,
            2 => State::Down,
            3 => State::LowerLayerDown,
            4 => State::Testing,
            5 => State::Dormant,
            6 => State::Up,
            _ => State::Other(code),
        }
    }
}

/// An attribute of a link.
#[derive(Debug)]
pub enum LinkAttribute {
    /// The name of the interface.
    IfName(String),
    /// The number of the operational state.
    OperState(u8),
    /// An attribute that does not matter here.
    Other,
}

/// A link as a message describes it.
#[derive(Debug)]
pub struct LinkMessage {
    /// Flags such as [`IFF_UP`].
    pub flags: u32,
    pub attributes: Vec<LinkAttribute>,
}

/// What a netlink message is about.
#[derive(Debug)]
pub enum RoutePayload {
    /// A link is new, or has changed.
    NewLink(LinkMessage),
    /// A link is gone.
    DelLink(LinkMessage),
    /// Something that does not matter here.
    Other,
}

/// A netlink message.
#[derive(Debug)]
pub struct NetlinkEvent {
    /// The length that the message gives itself, header included.
    pub length: u32,
    pub payload: RoutePayload,
}

/// What a [`LinkAttribute`] holds.
pub enum AttributeView {
    IfName(Seq<char>),
    OperState(u8),
    Other,
}

/// What a [`LinkMessage`] holds.
pub struct LinkView {
    pub flags: u32,
    pub attributes: Seq<AttributeView>,
}

/// What a [`RoutePayload`] holds.
pub enum PayloadView {
    NewLink(LinkView),
    DelLink(LinkView),
    Other,
}

/// What a [`NetlinkEvent`] holds.
pub struct EventView {
    pub length: u32,
    pub payload: PayloadView,
}

impl View for LinkAttribute {
    type V = AttributeView;

    open spec fn view(&self) -> AttributeView {
        match self {
            LinkAttribute::IfName(name) => AttributeView::IfName(name@),
            LinkAttribute::OperState(code) => AttributeView::OperState(*code),
            LinkAttribute::Other => AttributeView::Other,
        }
    }
}

impl View for LinkMessage {
    type V = LinkView;

    open spec fn view(&self) -> LinkView {
        LinkView {
            flags: self.flags,
            attributes: self.attributes@.map_values(|a: LinkAttribute| a@),
        }
    }
}

impl View for RoutePayload {
    type V = PayloadView;

    open spec fn view(&self) -> PayloadView {
        match self {
            RoutePayload::NewLink(link) => PayloadView::NewLink(link@),
            RoutePayload::DelLink(link) => PayloadView::DelLink(link@),
            RoutePayload::Other => PayloadView::Other,
        }
    }
}

impl View for NetlinkEvent {
    type V = EventView;

    open spec fn view(&self) -> EventView {
        EventView { length: self.length, payload: self.payload@ }
    }
}

/// The first name among the attributes.
pub open spec fn first_name(attributes: Seq<AttributeView>) -> Option<Seq<char>>
    decreases attributes.len(),
{
    if attributes.len() == 0 {
        None
    } else {
        match attributes[0] {
            AttributeView::IfName(name) => Some(name),
            _ => first_name(attributes.drop_first()),
        }
    }
}

/// The first operational state among the attributes.
pub open spec fn first_state(attributes: Seq<AttributeView>) -> Option<State>
    decreases attributes.len(),
{
    if attributes.len() == 0 {
        None
    } else {
        match attributes[0] {
            AttributeView::OperState(code) => Some(State::of_code(code)),
            _ => first_state(attributes.drop_first()),
        }
    }
}

/// A link is down if its operational state says so; without an operational state, if it is not
/// administratively up.
pub open spec fn up(oper: Option<State>, flags: u32) -> bool {
    match oper {
        Some(state) => !(state == State::Down || state == State::LowerLayerDown || state
            == State::NotPresent),
        None => flags & IFF_UP != 0,
    }
}

/// What a message tells about the interface, if it is about the interface: whether it is up.
pub open spec fn observation(payload: PayloadView, iface: Seq<char>) -> Option<bool> {
    match payload {
        PayloadView::NewLink(link) => if first_name(link.attributes) == Some(iface) {
            Some(up(first_state(link.attributes), link.flags))
        } else {
            None
        },
        PayloadView::DelLink(link) => if first_name(link.attributes) == Some(iface) {
            Some(false)
        } else {
            None
        },
        PayloadView::Other => None,
    }
}

/// Whether a link is up, from its operational state or, where it reports none, from its flags. CAN
/// interfaces report an unknown state while they are up, so only the states that say otherwise
/// count as down.
pub fn link_is_up(oper: Option<State>, flags: u32) -> (r: bool)
    ensures
        r == up(oper, flags),
{
    match oper {
        Some(State::Down) | Some(State::LowerLayerDown) | Some(State::NotPresent) => false,
        Some(_) => true,
        None => flags & IFF_UP != 0,
    }
}

/// The operational state that a link reports, if it reports one.
pub fn link_oper_state(link: &LinkMessage) -> (state: Option<State>)
    ensures
        state == first_state(link@.attributes),
{
    let mut i: usize = 0;
    assert(link@.attributes.skip(0) =~= link@.attributes);
    while i < link.attributes.len()
        invariant
            i <= link.attributes@.len(),
            first_state(link@.attributes) == first_state(link@.attributes.skip(i as int)),
        decreases link.attributes@.len() - i,
    {
        assert(link@.attributes.skip(i as int)[0] == link.attributes@[i as int]@);
        if let LinkAttribute::OperState(code) = &link.attributes[i] {
            return Some(State::from_code(*code));
        }
        assert(link@.attributes.skip(i as int).drop_first() =~= link@.attributes.skip(i + 1));
        i += 1;
    }
    None
}

/// The name of the interface that a link message is about, if it gives one.
pub fn link_name(link: &LinkMessage) -> (name: Option<&str>)
    ensures
        match name {
            Some(name) => first_name(link@.attributes) == Some(name@),
            None => first_name(link@.attributes) is None,
        },
{
    let mut i: usize = 0;
    assert(link@.attributes.skip(0) =~= link@.attributes);
    while i < link.attributes.len()
        invariant
            i <= link.attributes@.len(),
            first_name(link@.attributes) == first_name(link@.attributes.skip(i as int)),
        decreases link.attributes@.len() - i,
    {
        assert(link@.attributes.skip(i as int)[0] == link.attributes@[i as int]@);
        if let LinkAttribute::IfName(name) = &link.attributes[i] {
            return Some(name.as_str());
        }
        assert(link@.attributes.skip(i as int).drop_first() =~= link@.attributes.skip(i + 1));
        i += 1;
    }
    None
}

/// What `netlink_packet_core::NetlinkMessage::deserialize`, for the messages of
/// `netlink_packet_route`, makes of bytes on a machine of this byte order, with pointers of so many
/// bits.
pub uninterp spec fn netlink_message(
    order: vstd::endian::Endian,
    bits: u32,
    bytes: Seq<u8>,
) -> Option<EventView>;

/// `netlink_packet_core::NetlinkMessage::deserialize`, for the messages of `netlink_packet_route`:
/// the message that the bytes start with, or nothing where it fails. The numbers in a netlink
/// message are in the byte order of the machine, and how long a wireless event must be goes by the
/// width of its pointers, so that on Linux, Android not counted, the result depends on these two
/// and on the bytes. What it is for given bytes is not stated. It panics on a link message that
/// holds the port of a `bareudp` link in anything but two bytes, so such a message is left out.
#[verifier::external_body]
fn netlink_decode(bytes: &[u8]) -> (r: Option<NetlinkEvent>)
    requires
        !attribute::bad_message(vstd::endian::endianness(), bytes@),
    ensures
        r is Some <==> netlink_message(vstd::endian::endianness(), usize::BITS, bytes@) is Some,
        r is Some ==> netlink_message(vstd::endian::endianness(), usize::BITS, bytes@) == Some(
            r->Some_0@,
        ),
{
    let m = NetlinkMessage::<RouteNetlinkMessage>::deserialize(bytes).ok()?;
    let length = m.header.length;
    let (link, payload): (_, fn(LinkMessage) -> RoutePayload) = match m.payload {
        InnerMessage(NewLink(link)) => (link, RoutePayload::NewLink),
        InnerMessage(DelLink(link)) => (link, RoutePayload::DelLink),
        _ => return Some(NetlinkEvent { length, payload: RoutePayload::Other }),
    };
    let attributes = link.attributes.into_iter().map(|a| match a {
        Attribute::IfName(name) => LinkAttribute::IfName(name),
        Attribute::OperState(state) => LinkAttribute::OperState(state.into()),
        _ => LinkAttribute::Other,
    }).collect();
    let payload = payload(LinkMessage { flags: link.header.flags.bits(), attributes });
    Some(NetlinkEvent { length, payload })
}

/// The message that the bytes start with, if they start with one that can be decoded.
pub open spec fn message_at(order: vstd::endian::Endian, bytes: Seq<u8>) -> Option<EventView> {
    if attribute::bad_message(order, bytes) {
        None
    } else {
        netlink_message(order, usize::BITS, bytes)
    }
}

/// Decodes the message that the bytes start with.
pub fn decode_message(bytes: &[u8]) -> (r: Option<NetlinkEvent>)
    ensures
        match r {
            Some(event) => message_at(vstd::endian::endianness(), bytes@) == Some(event@),
            None => message_at(vstd::endian::endianness(), bytes@) is None,
        },
{
    if attribute::is_bad_message(bytes) {
        None
    } else {
        netlink_decode(bytes)
    }
}

/// The messages in a datagram, one after the other. They end where the datagram ends, or where the
/// rest of it is not a message that can be decoded, or one that gives itself no length.
pub open spec fn messages(order: vstd::endian::Endian, buf: Seq<u8>) -> Seq<EventView>
    decreases buf.len(),
{
    if buf.len() == 0 {
        Seq::empty()
    } else {
        match message_at(order, buf) {
            None => Seq::empty(),
            Some(event) => if event.length == 0 {
                Seq::empty()
            } else if attribute::aligned(event.length as nat) >= buf.len() {
                seq![event]
            } else {
                let distance = attribute::aligned(event.length as nat);
                seq![event] + messages(order, buf.skip(distance as int))
            },
        }
    }
}

/// What messages tell about the interface, in turn: whether it is up.
pub open spec fn observations(events: Seq<EventView>, iface: Seq<char>) -> Seq<bool>
    decreases events.len(),
{
    if events.len() == 0 {
        Seq::empty()
    } else {
        let rest = observations(events.drop_first(), iface);
        match observation(events[0].payload, iface) {
            None => rest,
            Some(now) => seq![now] + rest,
        }
    }
}

/// Whether the interface is known to have been down just before the observation at `i`.
pub open spec fn down_before(prev: Option<bool>, seen: Seq<bool>, i: int) -> bool {
    if i == 0 {
        prev == Some(false)
    } else {
        !seen[i - 1]
    }
}

/// The interface went from down to up. `prev` is what was known of it before the observations.
pub open spec fn came_back(prev: Option<bool>, seen: Seq<bool>) -> bool {
    exists|i: int| 0 <= i < seen.len() && #[trigger] seen[i] && down_before(prev, seen, i)
}

/// What is known of the interface after the observations. Where it came back, what was known just
/// before that.
pub open spec fn known_after(prev: Option<bool>, seen: Seq<bool>) -> Option<bool> {
    if came_back(prev, seen) {
        Some(false)
    } else if seen.len() == 0 {
        prev
    } else {
        Some(seen.last())
    }
}

/// Takes note of what one message tells about the interface, and returns whether the interface
/// came back up with it. The first observation only sets what is known.
pub fn observe_event(event: &NetlinkEvent, iface: &str, prev_up: &mut Option<bool>) -> (r: bool)
    ensures
        match observation(event@.payload, iface@) {
            None => !r && *final(prev_up) == *old(prev_up),
            Some(now) => if now && *old(prev_up) == Some(false) {
                r && *final(prev_up) == *old(prev_up)
            } else {
                !r && *final(prev_up) == Some(now)
            },
        },
{
    let (link, gone) = match &event.payload {
        RoutePayload::NewLink(link) => (link, false),
        RoutePayload::DelLink(link) => (link, true),
        RoutePayload::Other => return false,
    };
    match link_name(link) {
        Some(name) => if name.to_owned() != iface.to_owned() {
            return false;
        },
        None => return false,
    }
    if gone {
        *prev_up = Some(false);
        return false;
    }
    let now = link_is_up(link_oper_state(link), link.flags);
    if now && *prev_up == Some(false) {
        return true;
    }
    *prev_up = Some(now);
    false
}

/// What the interface came back with is the first observation of it being up while it is known to
/// be down.
proof fn one_more_observation(prev: Option<bool>, seen: Seq<bool>, now: bool)
    requires
        !came_back(prev, seen),
    ensures
        came_back(prev, seen.push(now)) == (now && known_after(prev, seen) == Some(false)),
{
    let longer = seen.push(now);
    if now && known_after(prev, seen) == Some(false) {
        assert(longer[seen.len() as int] && down_before(prev, longer, seen.len() as int));
    }
    if came_back(prev, longer) {
        let i = choose|i: int|
            0 <= i < longer.len() && #[trigger] longer[i] && down_before(prev, longer, i);
        if i < seen.len() {
            assert(seen[i] && down_before(prev, seen, i));
        }
    }
}

/// What came back stays so, whatever is observed afterwards.
proof fn later_observations_change_nothing(prev: Option<bool>, seen: Seq<bool>, later: Seq<bool>)
    requires
        came_back(prev, seen),
    ensures
        came_back(prev, seen + later),
{
    let i = choose|i: int| 0 <= i < seen.len() && #[trigger] seen[i] && down_before(prev, seen, i);
    assert((seen + later)[i] && down_before(prev, seen + later, i));
}

/// What a datagram tells is what its first message tells, and then what the rest tells.
proof fn observations_of_first(event: EventView, rest: Seq<EventView>, iface: Seq<char>)
    ensures
        observations(seq![event] + rest, iface) == match observation(event.payload, iface) {
            None => observations(rest, iface),
            Some(now) => seq![now] + observations(rest, iface),
        },
{
    assert((seq![event] + rest).drop_first() =~= rest);
}

/// What to do after a message of a datagram.
#[derive(Debug, Clone, Copy, PartialEq, Eq, Structural)]
pub enum LinkStep {
    /// The interface went from down to up.
    CameBack,
    /// The next message starts so many bytes further on.
    Next(usize),
    /// There is no further message.
    Done,
}

/// Takes one message off a datagram. `decoded` is the message that the rest of the datagram, which
/// has `rest` bytes, starts with, if it starts with one.
pub fn take_message(
    decoded: &Option<NetlinkEvent>,
    rest: usize,
    iface: &str,
    prev_up: &mut Option<bool>,
) -> (r: LinkStep)
    ensures
        match *decoded {
            None => r == LinkStep::Done && *final(prev_up) == *old(prev_up),
            Some(event) => if event.length == 0 {
                r == LinkStep::Done && *final(prev_up) == *old(prev_up)
            } else {
                let seen = observation(event@.payload, iface@);
                let distance = attribute::aligned(event.length as nat);
                if seen == Some(true) && *old(prev_up) == Some(false) {
                    r == LinkStep::CameBack && *final(prev_up) == *old(prev_up)
                } else {
                    &&& *final(prev_up) == if seen is Some {
                        seen
                    } else {
                        *old(prev_up)
                    }
                    &&& r == if distance < rest {
                        LinkStep::Next(distance as usize)
                    } else {
                        LinkStep::Done
                    }
                }
            },
        },
{
    let event = match decoded {
        Some(event) => event,
        None => return LinkStep::Done,
    };
    if event.length == 0 {
        return LinkStep::Done;
    }
    if observe_event(event, iface, prev_up) {
        return LinkStep::CameBack;
    }
    let distance: u64 = (event.length as u64 + 3) / 4 * 4;
    if distance < rest as u64 {
        LinkStep::Next(distance as usize)
    } else {
        LinkStep::Done
    }
}

/// Goes through the messages of one datagram, taking note of what they tell about the interface,
/// and returns whether the interface went from down to up. It stops there: the caller should then
/// open its sockets anew, as they are stale.
pub fn process_link_datagram(buf: &[u8], iface: &str, prev_up: &mut Option<bool>) -> (r: bool)
    ensures
        ({
            let seen = observations(messages(vstd::endian::endianness(), buf@), iface@);
            &&& r == came_back(*old(prev_up), seen)
            &&& *final(prev_up) == known_after(*old(prev_up), seen)
        }),
{
    let ghost order = vstd::endian::endianness();
    let ghost all = observations(messages(order, buf@), iface@);
    let ghost mut done = Seq::<bool>::empty();
    let mut off: usize = 0;
    assert(buf@.skip(0) =~= buf@);
    assert(done + all =~= all);
    while off < buf.len()
        invariant_except_break
            off <= buf@.len(),
            all == done + observations(messages(order, buf@.skip(off as int)), iface@),
        invariant
            order == vstd::endian::endianness(),
            all == observations(messages(order, buf@), iface@),
            !came_back(*old(prev_up), done),
            *prev_up == known_after(*old(prev_up), done),
        ensures
            all == done,
        decreases buf@.len() - off,
    {
        let ghost rest = buf@.skip(off as int);
        let decoded = decode_message(vstd::slice::slice_subrange(buf, off, buf.len()));
        proof {
            assert(done + Seq::<bool>::empty() =~= done);
            if let Some(event) = &decoded {
                if event.length != 0 {
                    let tail = if attribute::aligned(event.length as nat) >= rest.len() {
                        Seq::<EventView>::empty()
                    } else {
                        messages(order, rest.skip(attribute::aligned(event.length as nat) as int))
                    };
                    let later = observations(tail, iface@);
                    let earlier = done;
                    assert(messages(order, rest) =~= seq![event@] + tail);
                    observations_of_first(event@, tail, iface@);
                    if let Some(now) = observation(event@.payload, iface@) {
                        done = earlier.push(now);
                        one_more_observation(*old(prev_up), earlier, now);
                        assert(earlier + (seq![now] + later) =~= done + later);
                        assert(done + Seq::<bool>::empty() =~= done);
                        if came_back(*old(prev_up), done) {
                            later_observations_change_nothing(*old(prev_up), done, later);
                        }
                    }
                }
            }
        }
        match take_message(&decoded, buf.len() - off, iface, prev_up) {
            LinkStep::CameBack => return true,
            LinkStep::Done => break,
            LinkStep::Next(distance) => {
                assert(rest.skip(distance as int) =~= buf@.skip(off + distance));
                off += distance;
            },
        }
    }
    false
}

/// The first observation of an interface never counts as its coming back; it only sets what is
/// known.
pub proof fn first_observation_only_seeds(now: bool)
    ensures
        !came_back(None, seq![now]),
        known_after(None, seq![now]) == Some(now),
{
}

/// An interface that is not known to be down and is only ever observed up never counts as coming
/// back, however often it is observed.
pub proof fn staying_up_is_not_coming_back(prev: Option<bool>, seen: Seq<bool>)
    requires
        prev != Some(false),
        forall|i: int| 0 <= i < seen.len() ==> seen[i],
    ensures
        !came_back(prev, seen),
{
}

/// An interface that is observed down and right afterwards up counts as coming back, also within
/// one datagram.
pub proof fn down_then_up_is_coming_back(prev: Option<bool>, seen: Seq<bool>, i: int)
    requires
        0 <= i < seen.len() - 1,
        !seen[i],
        seen[i + 1],
    ensures
        came_back(prev, seen),
{
    assert(seen[i + 1] && down_before(prev, seen, i + 1));
}

/// Messages about other interfaces, and other messages, change nothing.
pub proof fn foreign_messages_are_ignored(
    events: Seq<EventView>,
    iface: Seq<char>,
    prev: Option<bool>,
)
    requires
        forall|i: int|
            0 <= i < events.len() ==> observation(#[trigger] events[i].payload, iface) is None,
    ensures
        !came_back(prev, observations(events, iface)),
        known_after(prev, observations(events, iface)) == prev,
    decreases events.len(),
{
    if events.len() > 0 {
        let rest = events.drop_first();
        assert forall|i: int| 0 <= i < rest.len() implies observation(
            #[trigger] rest[i].payload,
            iface,
        ) is None by {
            assert(rest[i] == events[i + 1]);
        }
        foreign_messages_are_ignored(rest, iface, prev);
        assert(observation(events[0].payload, iface) is None);
    }
}

/// A transition is found wherever it lies: observations spread over two datagrams, processed one
/// after the other, come to the same as all of them in one.
pub proof fn datagrams_add_up(prev: Option<bool>, first: Seq<bool>, second: Seq<bool>)
    requires
        !came_back(prev, first),
    ensures
        came_back(prev, first + second) == came_back(known_after(prev, first), second),
        known_after(prev, first + second) == known_after(known_after(prev, first), second),
{
    let both = first + second;
    let between = known_after(prev, first);
    if came_back(between, second) {
        let i = choose|i: int|
            0 <= i < second.len() && #[trigger] second[i] && down_before(between, second, i);
        let j = first.len() + i;
        assert(both[j] == second[i]);
        if i > 0 {
            assert(both[j - 1] == second[i - 1]);
        }
        assert(both[j] && down_before(prev, both, j));
    }
    if came_back(prev, both) {
        let j = choose|j: int|
            0 <= j < both.len() && #[trigger] both[j] && down_before(prev, both, j);
        if j < first.len() {
            assert(first[j] && down_before(prev, first, j));
        } else {
            let i = j - first.len();
            assert(second[i] && down_before(between, second, i));
        }
    }
}

} // verus!
