//! Which errors are ridden out, and what that depends on.
use vstd::prelude::*;

use crate::faults::is_benign_recv_error;
use crate::faults::is_read_timeout;
use crate::faults::is_transient_errno;
use crate::faults::is_transient_write_err;
use crate::faults::Errnos;
use crate::faults::IoFailure;

verus! {

/// A read only ran into its time limit if its error is of one of two kinds, whatever its number.
pub proof fn a_timeout_goes_by_its_kind(failure: IoFailure, r: bool)
    requires
        call_ensures(is_read_timeout, (&failure,), r),
    ensures
        failure.kind is WouldBlock || failure.kind is TimedOut ==> r,
        failure.kind is Interrupted || failure.kind is Other ==> !r,
{
}

/// A write error loses one frame only if its number is one of three of the host, and without a
/// number it never does.
pub proof fn a_transient_error_goes_by_its_number(code: i32, errnos: Errnos, none: bool, some: bool)
    requires
        call_ensures(is_transient_errno, (None::<i32>, &errnos), none),
        call_ensures(is_transient_errno, (Some(code), &errnos), some),
    ensures
        !none,
        code == errnos.enobufs ==> some,
        code == errnos.eagain ==> some,
        code == errnos.ewouldblock ==> some,
        some ==> code == errnos.enobufs || code == errnos.eagain || code == errnos.ewouldblock,
{
}

/// On the host itself, the number for a write that would block always counts, and no number but
/// that and the one for a full queue does; a missing number never does, and the kind does not
/// matter.
pub proof fn on_the_host_few_numbers_are_transient(failure: IoFailure, r: bool)
    requires
        call_ensures(is_transient_write_err, (&failure,), r),
    ensures
        failure.raw_os_error == Some(11i32) ==> r,
        r ==> (failure.raw_os_error matches Some(code) && (code == 11 || code == 105 || code == 132
            || code == 55)),
{
}

/// A receive error leaves the link-event socket usable if the call was interrupted, whatever the
/// number, or if the number is that for a full buffer, whatever the kind, and in no other case: a
/// receive that would block is not ridden out on that account.
pub proof fn a_benign_error_is_an_interruption_or_an_overflow(
    failure: IoFailure,
    errnos: Errnos,
    r: bool,
)
    requires
        call_ensures(is_benign_recv_error, (&failure, &errnos), r),
    ensures
        failure.kind is Interrupted ==> r,
        failure.raw_os_error == Some(errnos.enobufs) ==> r,
        r && !(failure.kind is Interrupted) ==> failure.raw_os_error == Some(errnos.enobufs),
{
}

} // verus!
