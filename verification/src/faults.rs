//! What the bridge reads off an I/O error, and which errors it rides out.
use vstd::prelude::*;

verus! {

/// The kinds of I/O error that the bridge tells apart.
#[derive(Debug, Clone, Copy, PartialEq, Eq, Structural)]
pub enum IoErrorKind {
    /// The operation would have had to block.
    WouldBlock,
    /// The operation ran into its time limit.
    TimedOut,
    /// The operation was interrupted before it did anything.
    Interrupted,
    /// Any other kind of error.
    Other,
}

/// An I/O error as the bridge sees it: its kind, and the operating system's error number where
/// the error came from the operating system.
#[derive(Debug, Clone, Copy, PartialEq, Eq, Structural)]
pub struct IoFailure {
    pub kind: IoErrorKind,
    pub raw_os_error: Option<i32>,
}

/// The error numbers that the bridge recognises, as the host's C library defines them.
#[derive(Debug, Clone, Copy, PartialEq, Eq, Structural)]
pub struct Errnos {
    /// The transmit queue, or the receive buffer, is full.
    pub enobufs: i32,
    /// Try again.
    pub eagain: i32,
    /// The operation would block.
    pub ewouldblock: i32,
}

/// The error numbers are those of Linux, on one of the machines that it runs on.
pub open spec fn of_linux(errnos: Errnos) -> bool {
    &&& errnos.enobufs == 105 || errnos.enobufs == 132 || errnos.enobufs == 55
    &&& errnos.eagain == 11
    &&& errnos.ewouldblock == 11
}

/// A write that failed with `raw_os_error` loses one frame and nothing more.
pub open spec fn transient(raw_os_error: Option<i32>, errnos: Errnos) -> bool {
    raw_os_error matches Some(code) && (code == errnos.enobufs || code == errnos.eagain || code
        == errnos.ewouldblock)
}

/// A receive on the link-event socket that failed with `failure` leaves the socket usable.
pub open spec fn benign(failure: IoFailure, errnos: Errnos) -> bool {
    failure.kind == IoErrorKind::Interrupted || failure.raw_os_error == Some(errnos.enobufs)
}

/// A read that failed with `failure` only ran into its time limit.
pub open spec fn timed_out(failure: IoFailure) -> bool {
    failure.kind == IoErrorKind::WouldBlock || failure.kind == IoErrorKind::TimedOut
}

/// Whether a CAN read error is the timeout set on the socket, so that the reader can look for a
/// teardown, rather than a real read failure.
pub fn is_read_timeout(failure: &IoFailure) -> (r: bool)
    ensures
        r == timed_out(*failure),
{
    matches!(failure.kind, IoErrorKind::WouldBlock | IoErrorKind::TimedOut)
}

/// Whether an error number is one of those after which a CAN write loses one frame only: the
/// transmit queue is momentarily full, or the write would block. Without an error number the
/// error is fatal, and so is any other number.
pub fn is_transient_errno(raw_os_error: Option<i32>, errnos: &Errnos) -> (r: bool)
    ensures
        r == transient(raw_os_error, *errnos),
{
    match raw_os_error {
        Some(code) => code == errnos.enobufs || code == errnos.eagain || code
            == errnos.ewouldblock,
        None => false,
    }
}

/// Whether a receive error on the link-event socket leaves the socket usable: the call was
/// interrupted, or the receive buffer overflowed and messages were dropped.
pub fn is_benign_recv_error(failure: &IoFailure, errnos: &Errnos) -> (r: bool)
    ensures
        r == benign(*failure, *errnos),
{
    failure.kind == IoErrorKind::Interrupted || failure.raw_os_error == Some(errnos.enobufs)
}

/// `libc::ENOBUFS`. On Linux, in whatever flavour, it is 105, but for MIPS, where it is 132, and
/// SPARC, where it is 55. The bridge runs nowhere else, as it needs the CAN sockets of Linux.
#[verifier::external_body]
fn enobufs() -> (code: i32)
    ensures
        code == 105 || code == 132 || code == 55,
{
    libc::ENOBUFS
}

/// `libc::EAGAIN`. On Linux it is 11, on every machine.
#[verifier::external_body]
fn eagain() -> (code: i32)
    ensures
        code == 11,
{
    libc::EAGAIN
}

/// `libc::EWOULDBLOCK`. On Linux it is the same number as `libc::EAGAIN`, on every machine.
#[verifier::external_body]
fn ewouldblock() -> (code: i32)
    ensures
        code == 11,
{
    libc::EWOULDBLOCK
}

/// The error numbers of the host.
pub(crate) fn host_errnos() -> (errnos: Errnos)
    ensures
        of_linux(errnos),
{
    Errnos { enobufs: enobufs(), eagain: eagain(), ewouldblock: ewouldblock() }
}

/// Whether a CAN write error is transient: the frame is dropped and the loop kept alive, rather
/// than tearing the whole connection down. The error number is held against the host's own, see
/// [`is_transient_errno`].
pub fn is_transient_write_err(failure: &IoFailure) -> (r: bool)
    ensures
        exists|errnos: Errnos|
            of_linux(errnos) && r == #[trigger] transient(failure.raw_os_error, errnos),
{
    let errnos = host_errnos();
    is_transient_errno(failure.raw_os_error, &errnos)
}

} // verus!
