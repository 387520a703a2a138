use canbridge::attribute::is_bad_message;
use canbridge::bridge::{
    judge_write_error, on_read_error, on_wire, on_write_error, reader_next, reader_turn,
    writer_next, ReadVerdict, ReaderOutcome, ReaderStage, Turn, WriteVerdict, WriterOutcome,
    WriterStage, CLEANUP_THRESHOLD_NANOS,
};
use canbridge::faults::{
    is_benign_recv_error, is_read_timeout, is_transient_errno, is_transient_write_err, Errnos,
    IoErrorKind, IoFailure,
};
use canbridge::link;
use canbridge::link::{
    decode_message, link_is_up, link_name, link_oper_state, observe_event, process_link_datagram,
    take_message, LinkStep, NetlinkEvent, RoutePayload, State, IFF_UP,
};
use canbridge::session::{
    client_next, connection_first, connection_next, monitor_judge, monitor_known, monitor_next,
    server_next,
    ClientStage, ConnectionStage, MonitorOutcome, MonitorStage, ServerStage,
};
use canbridge::{
    CanFrame, CanId, DedupMsg, LoopbackFilter, WireError, WireFrameV1, FLAG_ERR, FLAG_RTR,
};
use netlink_packet_core::NetlinkMessage;
use netlink_packet_route::link::{LinkAttribute, LinkFlags, LinkMessage, State as KernelState};
use netlink_packet_route::RouteNetlinkMessage;
use std::io::{Error, ErrorKind};
use std::time::Duration;

/// Serialize a netlink message.
fn datagram(message: RouteNetlinkMessage) -> Vec<u8> {
    let mut msg = NetlinkMessage::from(message);
    msg.finalize();
    let mut buf = vec![0u8; msg.buffer_len()];
    msg.serialize(&mut buf);
    buf
}

fn kernel_link(iface: &str, oper: KernelState) -> LinkMessage {
    let mut link = LinkMessage::default();
    link.attributes.push(LinkAttribute::IfName(iface.into()));
    link.attributes.push(LinkAttribute::OperState(oper));
    link
}

/// Serialize a single RTM_NEWLINK datagram for `iface` reporting operstate `oper`.
fn newlink(iface: &str, oper: KernelState) -> Vec<u8> {
    datagram(RouteNetlinkMessage::NewLink(kernel_link(iface, oper)))
}

/// Serialize a single RTM_DELLINK datagram for `iface`.
fn dellink(iface: &str) -> Vec<u8> {
    datagram(RouteNetlinkMessage::DelLink(kernel_link(iface, KernelState::Up)))
}

fn state(oper: KernelState) -> Option<State> {
    Some(State::from_code(oper.into()))
}

fn failure(e: &Error) -> IoFailure {
    IoFailure {
        kind: match e.kind() {
            ErrorKind::WouldBlock => IoErrorKind::WouldBlock,
            ErrorKind::TimedOut => IoErrorKind::TimedOut,
            ErrorKind::Interrupted => IoErrorKind::Interrupted,
            _ => IoErrorKind::Other,
        },
        raw_os_error: e.raw_os_error(),
    }
}

fn errno(code: i32) -> IoFailure {
    failure(&Error::from_raw_os_error(code))
}

// The filter

#[test]
fn dropped_retracts_a_pending_loopback_hash() {
    let now = 0;
    let mut f = LoopbackFilter::default();
    f.apply(DedupMsg::Sent(42), now);
    // The write was dropped, so no loopback will come: the hash must be retracted, and a real
    // incoming frame with the same hash must NOT be filtered.
    f.apply(DedupMsg::Dropped(42), now);
    assert!(!f.is_loopback(42));
    assert_eq!(f.len(), 0);
}

#[test]
fn sent_hash_filters_exactly_one_loopback() {
    let now = 0;
    let mut f = LoopbackFilter::default();
    f.apply(DedupMsg::Sent(7), now);
    assert!(f.is_loopback(7)); // our loopback is filtered once...
    assert!(!f.is_loopback(7)); // ...and a later real frame with the same hash passes through
}

#[test]
fn a_drop_retracts_only_its_own_instance_not_a_concurrent_send() {
    let now = 0;
    let mut f = LoopbackFilter::default();
    // Two same-hash writes in flight: the first succeeded, the second was dropped (ENOBUFS).
    f.apply(DedupMsg::Sent(9), now);
    f.apply(DedupMsg::Sent(9), now);
    f.apply(DedupMsg::Dropped(9), now);
    // The dropped write retracts only one instance, so the successful write's loopback is still
    // filtered (not echoed back over TCP), and only that one.
    assert!(f.is_loopback(9));
    assert!(!f.is_loopback(9));
}

#[test]
fn stale_hashes_are_evicted_after_the_threshold() {
    let start = 0;
    let mut f = LoopbackFilter::default();
    f.apply(DedupMsg::Sent(1), start);
    let later = start + Duration::from_millis(101).as_nanos();
    assert_eq!(f.evict_older_than(later, Duration::from_millis(100).as_nanos()), 1);
    assert!(!f.is_loopback(1));
}

#[test]
fn eviction_keeps_what_is_not_older_than_the_threshold() {
    let mut f = LoopbackFilter::default();
    f.apply(DedupMsg::Sent(1), 0);
    f.apply(DedupMsg::Sent(1), 0);
    f.apply(DedupMsg::Sent(2), 1);
    f.apply(DedupMsg::Sent(3), 900);
    // The first is exactly as old as the threshold, the third was announced after `now`.
    assert_eq!(f.evict_older_than(100, 100), 0);
    assert_eq!(f.len(), 3);
    assert_eq!(f.evict_older_than(101, 100), 1);
    assert_eq!(f.len(), 2);
    assert_eq!(f.pending(1), 0);
    assert_eq!(f.pending(2), 1);
    assert_eq!(f.pending(3), 1);
}

#[test]
fn an_entry_as_old_as_the_threshold_stays() {
    let mut f = LoopbackFilter::default();
    f.apply(DedupMsg::Sent(1), 0);
    let threshold = Duration::from_millis(100).as_nanos();
    assert_eq!(f.evict_older_than(threshold, threshold), 0);
    assert_eq!(f.len(), 1);
    assert_eq!(f.evict_older_than(threshold + 1, threshold), 1);
    assert_eq!(f.len(), 0);
}

#[test]
fn a_new_announcement_renews_the_hash() {
    let mut f = LoopbackFilter::default();
    f.apply(DedupMsg::Sent(5), 0);
    f.apply(DedupMsg::Sent(5), 90);
    assert_eq!(f.evict_older_than(190, 100), 0);
    assert_eq!(f.pending(5), 2);
    assert_eq!(f.evict_older_than(191, 100), 1);
    assert_eq!(f.len(), 0);
}

#[test]
fn messages_are_noted_in_turn() {
    let mut f = LoopbackFilter::default();
    let msgs = [
        DedupMsg::Dropped(9),
        DedupMsg::Sent(9),
        DedupMsg::Sent(8),
        DedupMsg::Sent(9),
        DedupMsg::Dropped(8),
        DedupMsg::Sent(9),
        DedupMsg::Dropped(9),
    ];
    assert!(f.has_room(&msgs));
    f.apply_all(&msgs, 0);
    assert_eq!(f.pending(9), 2);
    assert_eq!(f.pending(8), 0);
    assert_eq!(f.len(), 1);
    f.apply_all(&[], 0);
    assert_eq!(f.len(), 1);
}

#[test]
fn consuming_an_unknown_hash_changes_nothing() {
    let mut f = LoopbackFilter::default();
    f.apply(DedupMsg::Dropped(1), 0);
    f.consume(2);
    assert_eq!(f.len(), 0);
    f.apply(DedupMsg::Sent(1), 0);
    f.consume(2);
    assert_eq!(f.pending(1), 1);
}

// Errors

#[test]
fn transient_write_errors_keep_the_loop_alive() {
    assert!(is_transient_write_err(&errno(libc::ENOBUFS)));
    // EAGAIN == EWOULDBLOCK on Linux.
    assert!(is_transient_write_err(&errno(libc::EAGAIN)));
    assert!(is_transient_write_err(&errno(libc::EWOULDBLOCK)));
}

#[test]
fn fatal_write_errors_are_not_transient() {
    assert!(!is_transient_write_err(&errno(libc::ENETDOWN)));
    assert!(!is_transient_write_err(&errno(libc::EPERM)));
    // No errno at all (not an OS error) is treated as fatal.
    assert!(!is_transient_write_err(&failure(&Error::other("no errno"))));
}

#[test]
fn read_timeout_lets_the_reader_check_for_teardown() {
    // SO_RCVTIMEO surfaces as WouldBlock on Linux; poll-based timeouts as TimedOut.
    assert!(is_read_timeout(&errno(libc::EAGAIN)));
    assert!(is_read_timeout(&failure(&Error::from(ErrorKind::WouldBlock))));
    assert!(is_read_timeout(&failure(&Error::from(ErrorKind::TimedOut))));
    // A real read failure is not a timeout and must stay fatal.
    assert!(!is_read_timeout(&errno(libc::ENETDOWN)));
}

const MIPS: Errnos = Errnos {
    enobufs: 132,
    eagain: 11,
    ewouldblock: 11,
};

#[test]
fn error_numbers_are_those_of_the_host() {
    assert!(is_transient_errno(Some(132), &MIPS));
    assert!(!is_transient_errno(Some(105), &MIPS));
    assert!(is_transient_errno(Some(11), &MIPS));
    assert!(!is_transient_errno(None, &MIPS));
    let other = Errnos {
        enobufs: 1,
        eagain: 2,
        ewouldblock: 3,
    };
    assert!(is_transient_errno(Some(1), &other));
    assert!(is_transient_errno(Some(2), &other));
    assert!(is_transient_errno(Some(3), &other));
    assert!(!is_transient_errno(Some(4), &other));
}

#[test]
fn an_interrupted_or_overflowed_receive_is_benign() {
    let interrupted = failure(&Error::from(ErrorKind::Interrupted));
    assert!(is_benign_recv_error(&interrupted, &MIPS));
    let overflowed = IoFailure {
        kind: IoErrorKind::Other,
        raw_os_error: Some(132),
    };
    assert!(is_benign_recv_error(&overflowed, &MIPS));
    // Unlike a write, a receive that would block is not ridden out.
    let again = IoFailure {
        kind: IoErrorKind::WouldBlock,
        raw_os_error: Some(11),
    };
    assert!(!is_benign_recv_error(&again, &MIPS));
}

// The link

#[test]
fn link_is_up_unless_operstate_down() {
    let up = LinkFlags::Up.bits();
    let empty = LinkFlags::empty().bits();
    // CAN reports Unknown when up.
    assert!(link_is_up(state(KernelState::Up), empty));
    assert!(link_is_up(state(KernelState::Unknown), empty));
    assert!(!link_is_up(state(KernelState::Down), up));
    assert!(!link_is_up(state(KernelState::LowerLayerDown), empty));
    assert!(!link_is_up(state(KernelState::NotPresent), empty));
    // No operstate attribute: fall back to the admin IFF_UP flag.
    assert!(link_is_up(None, up));
    assert!(!link_is_up(None, empty));
}

#[test]
fn every_operational_state_has_its_number() {
    assert_eq!(state(KernelState::Unknown), Some(State::Unknown));
    assert_eq!(state(KernelState::NotPresent), Some(State::NotPresent));
    assert_eq!(state(KernelState::Down), Some(State::Down));
    assert_eq!(state(KernelState::LowerLayerDown), Some(State::LowerLayerDown));
    assert_eq!(state(KernelState::Testing), Some(State::Testing));
    assert_eq!(state(KernelState::Dormant), Some(State::Dormant));
    assert_eq!(state(KernelState::Up), Some(State::Up));
    assert_eq!(state(KernelState::Other(99)), Some(State::Other(99)));
}

#[test]
fn detects_transition_across_two_messages_in_one_datagram() {
    // Two concatenated NEWLINK messages (down, then up) exercise the multi-message + NLMSG_ALIGN
    // walk: the down seeds Some(false), and the up in the SAME datagram is the trigger.
    let mut buf = newlink("can0", KernelState::Down);
    while buf.len() % 4 != 0 {
        buf.push(0); // pad to NLMSG_ALIGN before the next message, as the kernel does
    }
    buf.extend(newlink("can0", KernelState::Up));

    let mut prev_up = None;
    assert!(process_link_datagram(&buf, "can0", &mut prev_up));
}

#[test]
fn first_observation_seeds_without_triggering() {
    let buf = newlink("can0", KernelState::Up);
    let mut prev_up = None;
    assert!(!process_link_datagram(&buf, "can0", &mut prev_up));
    assert_eq!(prev_up, Some(true));
}

#[test]
fn foreign_interface_is_ignored() {
    let buf = newlink("eth0", KernelState::Up);
    let mut prev_up = Some(false);
    assert!(!process_link_datagram(&buf, "can0", &mut prev_up));
    assert_eq!(prev_up, Some(false)); // untouched
}

#[test]
fn a_link_that_is_gone_is_down() {
    let mut prev_up = Some(true);
    assert!(!process_link_datagram(&dellink("can0"), "can0", &mut prev_up));
    assert_eq!(prev_up, Some(false));
    assert!(!process_link_datagram(&dellink("can0"), "can0", &mut prev_up));
    assert!(process_link_datagram(&newlink("can0", KernelState::Unknown), "can0", &mut prev_up));
    assert_eq!(prev_up, Some(false));
}

#[test]
fn staying_up_does_not_trigger() {
    let mut prev_up = None;
    for _ in 0..3 {
        assert!(!process_link_datagram(&newlink("can0", KernelState::Up), "can0", &mut prev_up));
    }
    assert_eq!(prev_up, Some(true));
}

#[test]
fn observations_over_two_datagrams_add_up() {
    let mut prev_up = None;
    assert!(!process_link_datagram(&newlink("can0", KernelState::Down), "can0", &mut prev_up));
    assert_eq!(prev_up, Some(false));
    assert!(process_link_datagram(&newlink("can0", KernelState::Up), "can0", &mut prev_up));
}

#[test]
fn without_a_state_the_flags_decide() {
    let mut message = LinkMessage::default();
    message.attributes.push(LinkAttribute::IfName("can0".into()));
    let down = datagram(RouteNetlinkMessage::NewLink(message.clone()));
    message.header.flags = LinkFlags::Up;
    let up = datagram(RouteNetlinkMessage::NewLink(message));
    let mut prev_up = None;
    assert!(!process_link_datagram(&down, "can0", &mut prev_up));
    assert_eq!(prev_up, Some(false));
    assert!(process_link_datagram(&up, "can0", &mut prev_up));
}

#[test]
fn a_link_without_a_name_is_ignored() {
    let mut message = LinkMessage::default();
    message.attributes.push(LinkAttribute::OperState(KernelState::Up));
    let buf = datagram(RouteNetlinkMessage::NewLink(message));
    let mut prev_up = Some(false);
    assert!(!process_link_datagram(&buf, "can0", &mut prev_up));
    assert_eq!(prev_up, Some(false));
}

#[test]
fn other_route_messages_are_passed_over() {
    let mut buf = datagram(RouteNetlinkMessage::GetLink(kernel_link("can0", KernelState::Down)));
    while buf.len() % 4 != 0 {
        buf.push(0);
    }
    buf.extend(newlink("can0", KernelState::Up));
    let mut prev_up = None;
    assert!(!process_link_datagram(&buf, "can0", &mut prev_up));
    assert_eq!(prev_up, Some(true));
}

#[test]
fn what_is_no_message_ends_the_datagram() {
    let mut prev_up = Some(false);
    assert!(!process_link_datagram(&[], "can0", &mut prev_up));
    assert!(!process_link_datagram(&[0; 3], "can0", &mut prev_up));
    let mut buf = vec![0u8; 16];
    buf.extend(newlink("can0", KernelState::Up));
    assert!(!process_link_datagram(&buf, "can0", &mut prev_up));
    let mut cut = newlink("can0", KernelState::Up);
    cut.pop();
    assert!(!process_link_datagram(&cut, "can0", &mut prev_up));
    assert_eq!(prev_up, Some(false));
}

/// An attribute, padded to a multiple of four bytes.
fn attribute(kind: u16, value: &[u8]) -> Vec<u8> {
    let mut bytes = ((value.len() + 4) as u16).to_ne_bytes().to_vec();
    bytes.extend(kind.to_ne_bytes());
    bytes.extend(value);
    while bytes.len() % 4 != 0 {
        bytes.push(0);
    }
    bytes
}

/// A link: a header of zeros, its name, and a description of its kind.
fn described_link(kind: &[u8], data: &[u8]) -> Vec<u8> {
    let mut link = vec![0u8; 16];
    link.extend(attribute(3, b"can0\0"));
    let mut description = attribute(1, kind);
    description.extend(attribute(0x8002, data));
    link.extend(attribute(0x8012, &description));
    link
}

fn new_link_message(link: &[u8]) -> Vec<u8> {
    let mut bytes = ((link.len() + 16) as u32).to_ne_bytes().to_vec();
    bytes.extend(16u16.to_ne_bytes());
    bytes.extend([0; 10]);
    bytes.extend(link);
    bytes
}

#[test]
fn a_port_of_the_wrong_length_is_found() {
    for kind in [&b"bareudp"[..], &b"bareudp\0"[..]] {
        for (port, bad) in [(&[1u8, 2][..], false), (&[1][..], true), (&[1, 2, 3][..], true)] {
            let mut data = attribute(1, &[0, 80]);
            data.extend(attribute(3, port));
            let message = new_link_message(&described_link(kind, &data));
            assert_eq!(is_bad_message(&message), bad);
            assert_eq!(decode_message(&message).is_none(), bad);
        }
    }
    // The data mean something else for any other kind of link.
    let message = new_link_message(&described_link(b"bareudp\0\0", &attribute(3, &[1])));
    assert!(!is_bad_message(&message));
    let message = new_link_message(&described_link(b"dummy", &attribute(3, &[1])));
    assert!(!is_bad_message(&message));
    assert!(decode_message(&message).is_some());
}

#[test]
fn a_port_of_the_wrong_length_is_found_in_a_peer() {
    let bad = described_link(b"bareudp", &attribute(3, &[1]));
    let good = described_link(b"bareudp", &attribute(3, &[1, 2]));
    for kind in [&b"veth"[..], &b"vxcan\0"[..], &b"netkit"[..]] {
        let message = new_link_message(&described_link(kind, &attribute(1, &bad)));
        assert!(is_bad_message(&message));
        assert!(decode_message(&message).is_none());
        let message = new_link_message(&described_link(kind, &attribute(1, &good)));
        assert!(!is_bad_message(&message));
        assert!(decode_message(&message).is_some());
    }
}

#[test]
fn a_wireless_event_goes_by_the_width_of_pointers() {
    let mut link = vec![0u8; 16];
    link.extend(attribute(3, b"can0\0"));
    link.extend(attribute(11, &[0; 4]));
    let message = new_link_message(&link);
    assert!(!is_bad_message(&message));
    assert_eq!(decode_message(&message).is_some(), usize::BITS == 32);
}

#[test]
fn only_messages_about_links_hold_a_port() {
    let mut message = new_link_message(&described_link(b"bareudp", &attribute(3, &[1])));
    assert!(is_bad_message(&message));
    for kind in [16u16, 17, 18, 19] {
        message[4..6].copy_from_slice(&kind.to_ne_bytes());
        assert!(is_bad_message(&message));
    }
    for kind in [2u16, 15, 20, 24] {
        message[4..6].copy_from_slice(&kind.to_ne_bytes());
        assert!(!is_bad_message(&message));
    }
    assert!(!is_bad_message(&message[..15]));
    assert!(!is_bad_message(&[]));
}

#[test]
fn a_message_with_a_bad_port_ends_the_datagram() {
    let mut buf = new_link_message(&described_link(b"bareudp", &attribute(3, &[1])));
    buf.extend(newlink("can0", KernelState::Up));
    let mut prev_up = Some(false);
    assert!(!process_link_datagram(&buf, "can0", &mut prev_up));
    assert_eq!(prev_up, Some(false));
    let mut buf = new_link_message(&described_link(b"bareudp", &attribute(3, &[1, 2])));
    buf.extend(newlink("can0", KernelState::Up));
    assert!(process_link_datagram(&buf, "can0", &mut prev_up));
}

fn seen_link(name: &str, code: u8) -> link::LinkMessage {
    link::LinkMessage {
        flags: 0,
        attributes: vec![
            link::LinkAttribute::Other,
            link::LinkAttribute::IfName(name.to_string()),
            link::LinkAttribute::OperState(code),
            link::LinkAttribute::IfName("second".to_string()),
            link::LinkAttribute::OperState(9),
        ],
    }
}

fn seen_event(length: u32, name: &str, code: u8) -> Option<NetlinkEvent> {
    Some(NetlinkEvent { length, payload: RoutePayload::NewLink(seen_link(name, code)) })
}

#[test]
fn the_first_name_and_the_first_state_count() {
    let link = seen_link("can0", 2);
    assert_eq!(link_name(&link), Some("can0"));
    assert_eq!(link_oper_state(&link), Some(State::Down));
    let bare = link::LinkMessage { flags: IFF_UP, attributes: vec![link::LinkAttribute::Other] };
    assert_eq!(link_name(&bare), None);
    assert_eq!(link_oper_state(&bare), None);
}

#[test]
fn an_event_is_taken_note_of() {
    let up = seen_event(16, "can0", 6).unwrap();
    let mut prev_up = None;
    assert!(!observe_event(&up, "eth0", &mut prev_up));
    assert_eq!(prev_up, None);
    assert!(!observe_event(&up, "can0", &mut prev_up));
    assert_eq!(prev_up, Some(true));
    let gone = NetlinkEvent { length: 16, payload: RoutePayload::DelLink(seen_link("can0", 6)) };
    assert!(!observe_event(&gone, "can0", &mut prev_up));
    assert_eq!(prev_up, Some(false));
    let other = NetlinkEvent { length: 16, payload: RoutePayload::Other };
    assert!(!observe_event(&other, "can0", &mut prev_up));
    assert!(observe_event(&up, "can0", &mut prev_up));
    assert_eq!(prev_up, Some(false));
}

#[test]
fn messages_start_at_multiples_of_four_bytes() {
    let mut prev_up = None;
    assert_eq!(take_message(&None, 40, "can0", &mut prev_up), LinkStep::Done);
    assert_eq!(take_message(&seen_event(0, "can0", 2), 40, "can0", &mut prev_up), LinkStep::Done);
    assert_eq!(prev_up, None);
    let event = seen_event(17, "can0", 2);
    assert_eq!(take_message(&event, 40, "can0", &mut prev_up), LinkStep::Next(20));
    assert_eq!(take_message(&event, 21, "can0", &mut prev_up), LinkStep::Next(20));
    assert_eq!(take_message(&event, 20, "can0", &mut prev_up), LinkStep::Done);
    assert_eq!(prev_up, Some(false));
    let up = seen_event(16, "can0", 0);
    assert_eq!(take_message(&up, 40, "eth0", &mut prev_up), LinkStep::Next(16));
    assert_eq!(take_message(&up, 40, "can0", &mut prev_up), LinkStep::CameBack);
    let longest = seen_event(u32::MAX, "can0", 2);
    assert_eq!(take_message(&longest, 40, "can0", &mut prev_up), LinkStep::Done);
}

// The reader and the writer

fn classic(raw: u16, data: &[u8]) -> CanFrame {
    CanFrame::Normal {
        id: CanId::Standard(raw),
        remote: false,
        data: data.to_vec(),
    }
}

#[test]
fn a_read_timeout_is_idle_or_the_end() {
    let timeout = failure(&Error::from(ErrorKind::WouldBlock));
    assert_eq!(on_read_error(&timeout, false), ReadVerdict::Idle);
    assert_eq!(on_read_error(&timeout, true), ReadVerdict::Stop);
    let down = errno(libc::ENETDOWN);
    assert_eq!(on_read_error(&down, false), ReadVerdict::Fail);
    assert_eq!(on_read_error(&down, true), ReadVerdict::Fail);
}

#[test]
fn an_own_frame_is_not_sent_back() {
    let wire = WireFrameV1::new(0x123, &[1, 2, 3], 0);
    let t = on_wire(&wire).unwrap();
    assert_eq!(t.hash, 0x030322);
    assert_eq!(t.announce, DedupMsg::Sent(0x030322));
    assert_eq!(t.frame, classic(0x123, &[1, 2, 3]));

    let mut filter = LoopbackFilter::default();
    filter.apply(t.announce, 0);
    // The reader waits for a loopback up to and including the threshold.
    let now = CLEANUP_THRESHOLD_NANOS;
    assert_eq!(reader_turn(&mut filter, &[], now, Some(&t.frame)), (0, Turn::OwnFrame));
    // The same frame from elsewhere goes out.
    assert_eq!(
        reader_turn(&mut filter, &[], now, Some(&t.frame)),
        (0, Turn::Forward(WireFrameV1::new(0x123, &[1, 2, 3], 0)))
    );
}

#[test]
fn a_padded_frame_is_recognised_as_well() {
    let wire = WireFrameV1::new(0x123, &[9; 13], canbridge::FLAG_FD);
    let t = on_wire(&wire).unwrap();
    let mut filter = LoopbackFilter::default();
    let msgs = [t.announce];
    assert_eq!(reader_turn(&mut filter, &msgs, 1, Some(&t.frame)), (0, Turn::OwnFrame));
}

#[test]
fn a_remote_request_with_data_is_recognised_as_well() {
    let wire = WireFrameV1::new(0x123, &[1, 2, 3], FLAG_RTR);
    let t = on_wire(&wire).unwrap();
    assert_eq!(t.frame, CanFrame::Remote { id: CanId::Standard(0x123), dlc: 3 });
    // What reaches the bus, and comes back, is the request without the data.
    assert_eq!(t.hash, 0x123);
    assert_eq!(t.announce, DedupMsg::Sent(0x123));
    let mut filter = LoopbackFilter::default();
    let msgs = [t.announce];
    assert_eq!(reader_turn(&mut filter, &msgs, 1, Some(&t.frame)), (0, Turn::OwnFrame));
}

#[test]
fn a_frame_whose_write_was_dropped_is_forwarded() {
    let wire = WireFrameV1::new(0x123, &[1, 2, 3], 0);
    let t = on_wire(&wire).unwrap();
    let mut filter = LoopbackFilter::default();
    filter.apply(t.announce, 0);
    match on_write_error(t.hash, &errno(libc::ENOBUFS)) {
        WriteVerdict::Drop { retract, pause_millis } => {
            assert_eq!(retract, DedupMsg::Dropped(t.hash));
            assert_eq!(pause_millis, 1);
            filter.apply(retract, 0);
        }
        WriteVerdict::Fail => panic!("Expected the frame to be dropped"),
    }
    assert_eq!(reader_turn(&mut filter, &[], 1, Some(&t.frame)), (0, Turn::Forward(wire)));
}

#[test]
fn an_idle_turn_evicts_what_is_stale() {
    let mut filter = LoopbackFilter::default();
    filter.apply(DedupMsg::Sent(1), 0);
    filter.apply(DedupMsg::Sent(2), 1);
    let now = CLEANUP_THRESHOLD_NANOS + 1;
    assert_eq!(reader_turn(&mut filter, &[DedupMsg::Sent(3)], now, None), (1, Turn::Idle));
    assert_eq!(filter.len(), 2);
}

#[test]
fn a_frame_that_cannot_be_converted_is_skipped() {
    let wire = WireFrameV1::new(0, &[1], FLAG_ERR);
    assert_eq!(on_wire(&wire), Err(WireError::ErrorFrame));
}

#[test]
fn a_fatal_write_error_ends_the_writer() {
    assert_eq!(on_write_error(5, &errno(libc::ENETDOWN)), WriteVerdict::Fail);
    let without = failure(&Error::other("no errno"));
    assert_eq!(on_write_error(5, &without), WriteVerdict::Fail);
    let full = IoFailure {
        kind: IoErrorKind::Other,
        raw_os_error: Some(132),
    };
    assert_eq!(
        judge_write_error(5, &full, &MIPS),
        WriteVerdict::Drop {
            retract: DedupMsg::Dropped(5),
            pause_millis: 1
        }
    );
}

#[test]
fn the_reader_ends_with_a_failed_send_and_stops_when_told() {
    let worked = ReaderOutcome::Worked;
    let failed = ReaderOutcome::Failed;
    let nothing = ReaderOutcome::NothingToSend;
    assert_eq!(reader_next(ReaderStage::Read, worked), ReaderStage::Decide);
    let timeout = failure(&Error::from(ErrorKind::WouldBlock));
    let idle = ReaderOutcome::Unread(on_read_error(&timeout, false));
    assert_eq!(reader_next(ReaderStage::Read, idle), ReaderStage::Decide);
    let stop = ReaderOutcome::Unread(on_read_error(&timeout, true));
    assert_eq!(reader_next(ReaderStage::Read, stop), ReaderStage::Stopped);
    let fail = ReaderOutcome::Unread(on_read_error(&errno(libc::ENETDOWN), false));
    assert_eq!(reader_next(ReaderStage::Read, fail), ReaderStage::Failed);
    assert_eq!(reader_next(ReaderStage::Decide, worked), ReaderStage::Send);
    assert_eq!(reader_next(ReaderStage::Decide, nothing), ReaderStage::Read);
    assert_eq!(reader_next(ReaderStage::Send, worked), ReaderStage::Read);
    assert_eq!(reader_next(ReaderStage::Send, failed), ReaderStage::Failed);
    assert_eq!(reader_next(ReaderStage::Stopped, worked), ReaderStage::Stopped);
    assert_eq!(reader_next(ReaderStage::Failed, worked), ReaderStage::Failed);
}

#[test]
fn an_own_frame_is_recognised_among_other_messages() {
    let t = on_wire(&WireFrameV1::new(0x123, &[1, 2, 3], 0)).unwrap();
    let msgs = [
        t.announce,
        DedupMsg::Sent(7),
        DedupMsg::Dropped(t.hash),
        DedupMsg::Dropped(7),
        t.announce,
    ];
    let mut filter = LoopbackFilter::default();
    assert_eq!(reader_turn(&mut filter, &msgs, 5, Some(&t.frame)), (0, Turn::OwnFrame));
    let forwarded = Turn::Forward(WireFrameV1::new(0x123, &[1, 2, 3], 0));
    let msgs = [t.announce, DedupMsg::Sent(7), DedupMsg::Dropped(t.hash)];
    assert_eq!(reader_turn(&mut filter, &msgs, 6, Some(&t.frame)), (0, forwarded));
}

#[test]
fn the_writer_announces_then_writes_and_takes_back_what_is_dropped() {
    let worked = WriterOutcome::Worked;
    let failed = WriterOutcome::Failed;
    assert_eq!(writer_next(WriterStage::Receive, worked), WriterStage::Convert);
    assert_eq!(writer_next(WriterStage::Receive, failed), WriterStage::Failed);
    assert_eq!(writer_next(WriterStage::Convert, worked), WriterStage::Announce);
    assert_eq!(writer_next(WriterStage::Convert, failed), WriterStage::Receive);
    assert_eq!(writer_next(WriterStage::Announce, worked), WriterStage::Write);
    assert_eq!(writer_next(WriterStage::Announce, failed), WriterStage::Write);
    assert_eq!(writer_next(WriterStage::Write, worked), WriterStage::Receive);
    let dropped = WriterOutcome::Judged(on_write_error(5, &errno(libc::ENOBUFS)));
    assert_eq!(writer_next(WriterStage::Write, dropped), WriterStage::Retract);
    let fatal = WriterOutcome::Judged(on_write_error(5, &errno(libc::ENETDOWN)));
    assert_eq!(writer_next(WriterStage::Write, fatal), WriterStage::Failed);
    assert_eq!(writer_next(WriterStage::Retract, worked), WriterStage::Pause);
    assert_eq!(writer_next(WriterStage::Pause, worked), WriterStage::Receive);
    assert_eq!(writer_next(WriterStage::Failed, worked), WriterStage::Failed);
}

// The order of things

#[test]
fn the_server_serves_one_connection_after_the_other() {
    let mut stage = ServerStage::Bind;
    let mut seen = vec![stage];
    for ok in [true, true, true, false, true, false] {
        stage = server_next(stage, ok);
        seen.push(stage);
    }
    assert_eq!(
        seen,
        vec![
            ServerStage::Bind,
            ServerStage::OpenCan,
            ServerStage::Accept,
            ServerStage::Bridge,
            ServerStage::OpenCan,
            ServerStage::Accept,
            ServerStage::OpenCan,
        ]
    );
    assert_eq!(server_next(ServerStage::Bind, false), ServerStage::Failed);
    assert_eq!(server_next(ServerStage::OpenCan, false), ServerStage::Failed);
    assert_eq!(server_next(ServerStage::Failed, true), ServerStage::Failed);
}

#[test]
fn the_client_connects_again_and_again() {
    assert_eq!(client_next(ClientStage::Connect, true), ClientStage::Bridge);
    assert_eq!(client_next(ClientStage::Connect, false), ClientStage::Pause);
    assert_eq!(client_next(ClientStage::Bridge, true), ClientStage::Pause);
    assert_eq!(client_next(ClientStage::Bridge, false), ClientStage::Pause);
    assert_eq!(client_next(ClientStage::Pause, true), ClientStage::Connect);
}

#[test]
fn a_connection_is_set_up_and_torn_down_in_order() {
    assert_eq!(connection_first(true), ConnectionStage::OpenWrite);
    let mut stage = connection_first(false);
    let mut seen = vec![stage];
    while stage != ConnectionStage::Closed {
        // The time limit on reading is not needed, and the writer always ends with an error.
        let ok = stage != ConnectionStage::LimitRead && stage != ConnectionStage::RunWriter;
        stage = connection_next(stage, ok);
        seen.push(stage);
    }
    assert_eq!(
        seen,
        vec![
            ConnectionStage::OpenRead,
            ConnectionStage::OpenWrite,
            ConnectionStage::LimitRead,
            ConnectionStage::CloneForReceiving,
            ConnectionStage::CloneForSending,
            ConnectionStage::StartReader,
            ConnectionStage::RunWriter,
            ConnectionStage::SignalReader,
            ConnectionStage::CloseStream,
            ConnectionStage::JoinReader,
            ConnectionStage::Closed,
        ]
    );
    assert_eq!(connection_next(ConnectionStage::Closed, true), ConnectionStage::Closed);
    for needed in [
        ConnectionStage::OpenRead,
        ConnectionStage::OpenWrite,
        ConnectionStage::CloneForReceiving,
        ConnectionStage::CloneForSending,
    ] {
        assert_eq!(connection_next(needed, false), ConnectionStage::Failed);
    }
}

#[test]
fn the_monitor_starts_over_after_an_error() {
    let worked = MonitorOutcome::Worked;
    let failed = MonitorOutcome::Failed(errno(libc::ENETDOWN));
    assert_eq!(monitor_next(MonitorStage::Open, worked), MonitorStage::Bind);
    assert_eq!(monitor_next(MonitorStage::Bind, worked), MonitorStage::Subscribe);
    assert_eq!(monitor_next(MonitorStage::Subscribe, worked), MonitorStage::Receive);
    assert_eq!(monitor_next(MonitorStage::Receive, worked), MonitorStage::Receive);
    for stage in [
        MonitorStage::Open,
        MonitorStage::Bind,
        MonitorStage::Subscribe,
        MonitorStage::Receive,
    ] {
        assert_eq!(monitor_next(stage, failed), MonitorStage::Pause);
    }
    assert_eq!(monitor_next(MonitorStage::Pause, worked), MonitorStage::Open);
}

#[test]
fn the_monitor_forgets_with_its_socket_and_not_with_an_error() {
    let worked = MonitorOutcome::Worked;
    let interrupted = MonitorOutcome::Failed(errno(libc::EINTR));
    assert_eq!(monitor_known(MonitorStage::Subscribe, worked, Some(false)), None);
    assert_eq!(monitor_known(MonitorStage::Subscribe, interrupted, Some(false)), Some(false));
    assert_eq!(monitor_known(MonitorStage::Receive, interrupted, Some(false)), Some(false));
    assert_eq!(monitor_known(MonitorStage::Receive, worked, Some(true)), Some(true));
    assert_eq!(monitor_known(MonitorStage::Receive, worked, None), None);
}

#[test]
fn the_monitor_rides_out_benign_errors_and_exits_on_a_return() {
    let overflowed = MonitorOutcome::Failed(errno(libc::ENOBUFS));
    assert_eq!(monitor_next(MonitorStage::Receive, overflowed), MonitorStage::Receive);
    let interrupted = MonitorOutcome::Failed(errno(libc::EINTR));
    assert_eq!(monitor_next(MonitorStage::Receive, interrupted), MonitorStage::Receive);
    // While the socket is set up, no error is benign.
    assert_eq!(monitor_next(MonitorStage::Bind, interrupted), MonitorStage::Pause);
    assert_eq!(
        monitor_next(MonitorStage::Receive, MonitorOutcome::CameBack),
        MonitorStage::Exit
    );
    assert_eq!(monitor_next(MonitorStage::Exit, overflowed), MonitorStage::Exit);
    let full = IoFailure {
        kind: IoErrorKind::Other,
        raw_os_error: Some(105),
    };
    assert_eq!(
        monitor_judge(MonitorStage::Receive, MonitorOutcome::Failed(full), &MIPS),
        MonitorStage::Pause
    );
}
