//! What the calls of a [`LoopbackFilter`] have to do with each other. In these laws `before` and
//! `after` of a call are what the filter holds around it, and an entry counts loopbacks and knows
//! when the last of them was announced.
use vstd::prelude::*;

use crate::filter;
use crate::filter::DedupMsg;
use crate::filter::LoopbackFilter;

verus! {

/// A filter is in order if and only if it has finitely many entries, and none that counts nothing.
pub proof fn a_filter_in_order_counts_something(f: LoopbackFilter)
    ensures
        f.wf() <==> f@.dom().finite() && forall|hash: u64| #[trigger]
            f@.contains_key(hash) ==> f@[hash].count > 0,
{
}

/// A new filter expects no loopback of any frame.
pub proof fn a_new_filter_expects_nothing(f: LoopbackFilter, hash: u64, pending: u32, len: usize)
    requires
        call_ensures(<LoopbackFilter as Default>::default, (), f),
        call_ensures(LoopbackFilter::pending, (&f, hash), pending),
        call_ensures(LoopbackFilter::len, (&f,), len),
    ensures
        f.wf(),
        !f@.contains_key(hash),
        pending == 0,
        len == 0,
{
}

/// The count of an entry is what `pending` gives, which is zero where there is none, and `len` is
/// the number of entries.
pub proof fn what_is_held_can_be_asked_for(f: LoopbackFilter, hash: u64, pending: u32, len: usize)
    requires
        f.wf(),
        call_ensures(LoopbackFilter::pending, (&f, hash), pending),
        call_ensures(LoopbackFilter::len, (&f,), len),
    ensures
        pending > 0 <==> f@.contains_key(hash),
        f@.contains_key(hash) ==> f@[hash].count == pending,
        len == f@.dom().len(),
        f@.dom().finite(),
{
}

/// An announcement raises the count of its hash by one, from zero where there was no entry, and
/// makes the entry as young as the announcement. All other entries stay as they are.
pub proof fn an_announcement_counts_once(
    f: &mut LoopbackFilter,
    hash: u64,
    now: u128,
    other: u64,
    before: u32,
    after: u32,
)
    requires
        old(f).wf(),
        before < u32::MAX,
        call_ensures(LoopbackFilter::pending, (&*old(f), hash), before),
        call_ensures(LoopbackFilter::apply, (f, DedupMsg::Sent(hash), now), ()),
        call_ensures(LoopbackFilter::pending, (&*final(f), hash), after),
    ensures
        final(f).wf(),
        after == before + 1,
        final(f)@[hash].last == now,
        other != hash ==> final(f)@.contains_key(other) == old(f)@.contains_key(other),
        other != hash && old(f)@.contains_key(other) ==> final(f)@[other] == old(f)@[other],
        final(f)@.len() == old(f)@.len() + if before == 0 {
            1nat
        } else {
            0nat
        },
{
}

/// A dropped write, a consumed loopback and a frame that is looked up all lower the count of the
/// hash by one, where it is not zero, and leave the age of the entry; the entry goes with the last.
/// All other entries stay as they are.
pub proof fn a_loopback_is_taken_once(
    f: &mut LoopbackFilter,
    hash: u64,
    now: u128,
    other: u64,
    r: bool,
    before: u32,
    after: u32,
)
    requires
        old(f).wf(),
        call_ensures(LoopbackFilter::pending, (&*old(f), hash), before),
        call_ensures(LoopbackFilter::apply, (f, DedupMsg::Dropped(hash), now), ())
            || call_ensures(LoopbackFilter::consume, (f, hash), ()) || call_ensures(
            LoopbackFilter::is_loopback,
            (f, hash),
            r,
        ),
        call_ensures(LoopbackFilter::pending, (&*final(f), hash), after),
    ensures
        final(f).wf(),
        before > 0 ==> after == before - 1,
        before == 0 ==> after == 0,
        after > 0 ==> final(f)@[hash].last == old(f)@[hash].last,
        other != hash ==> final(f)@.contains_key(other) == old(f)@.contains_key(other),
        other != hash && old(f)@.contains_key(other) ==> final(f)@[other] == old(f)@[other],
        before == 0 ==> final(f)@ == old(f)@,
        final(f)@.len() == old(f)@.len() - if before == 1 {
            1int
        } else {
            0int
        },
{
    if before == 0 {
        assert(final(f)@ =~= old(f)@);
    }
}

/// A frame is one of the bridge's own if and only if a loopback is to come for its hash.
pub proof fn own_frames_are_those_to_come(f: &mut LoopbackFilter, hash: u64, r: bool, pending: u32)
    requires
        old(f).wf(),
        call_ensures(LoopbackFilter::pending, (&*old(f), hash), pending),
        call_ensures(LoopbackFilter::is_loopback, (f, hash), r),
    ensures
        r <==> pending > 0,
{
}

/// What is announced and right away looked up is one of the bridge's own, and then everything for
/// other hashes, and the count for this one, is as before.
pub proof fn a_lookup_undoes_an_announcement(
    f: &mut LoopbackFilter,
    g: &mut LoopbackFilter,
    hash: u64,
    now: u128,
    r: bool,
    other: u64,
    before: u32,
    after: u32,
)
    requires
        old(f).wf(),
        before < u32::MAX,
        call_ensures(LoopbackFilter::pending, (&*old(f), other), before),
        old(f)@.contains_key(hash) ==> old(f)@[hash].count < u32::MAX,
        call_ensures(LoopbackFilter::apply, (f, DedupMsg::Sent(hash), now), ()),
        *old(g) == *final(f),
        call_ensures(LoopbackFilter::is_loopback, (g, hash), r),
        call_ensures(LoopbackFilter::pending, (&*final(g), other), after),
    ensures
        r,
        after == before,
{
}

/// Eviction keeps an entry, as it was and with its age, if that is at most the threshold, and else
/// drops it. An entry that was announced after `now` has no age. What is returned is how many
/// entries are gone.
pub proof fn eviction_goes_by_age_alone(
    f: &mut LoopbackFilter,
    now: u128,
    threshold: u128,
    evicted: usize,
    hash: u64,
)
    requires
        old(f).wf(),
        call_ensures(LoopbackFilter::evict_older_than, (f, now, threshold), evicted),
    ensures
        final(f).wf(),
        final(f)@.contains_key(hash) <==> old(f)@.contains_key(hash) && now <= old(f)@[hash].last
            + threshold,
        final(f)@.contains_key(hash) ==> final(f)@[hash] == old(f)@[hash],
        final(f)@.len() + evicted == old(f)@.len(),
{
}

/// An entry that was just announced survives every eviction until it is older than the threshold,
/// also several in a row, and none after that.
pub proof fn an_announcement_lasts_for_the_threshold(
    f: &mut LoopbackFilter,
    g: &mut LoopbackFilter,
    h: &mut LoopbackFilter,
    hash: u64,
    announced_at: u128,
    first: u128,
    second: u128,
    threshold: u128,
    evicted_first: usize,
    evicted_second: usize,
    pending: u32,
)
    requires
        old(f).wf(),
        old(f)@.contains_key(hash) ==> old(f)@[hash].count < u32::MAX,
        announced_at <= first <= second,
        call_ensures(LoopbackFilter::apply, (f, DedupMsg::Sent(hash), announced_at), ()),
        *old(g) == *final(f),
        call_ensures(LoopbackFilter::evict_older_than, (g, first, threshold), evicted_first),
        *old(h) == *final(g),
        call_ensures(LoopbackFilter::evict_older_than, (h, second, threshold), evicted_second),
        call_ensures(LoopbackFilter::pending, (&*final(h), hash), pending),
    ensures
        pending > 0 <==> second - announced_at <= threshold,
{
}

/// Evicting twice is evicting at the later time, and counts every entry once.
pub proof fn evicting_twice_is_evicting_late(
    f: &mut LoopbackFilter,
    g: &mut LoopbackFilter,
    h: &mut LoopbackFilter,
    first: u128,
    second: u128,
    threshold: u128,
    evicted_first: usize,
    evicted_second: usize,
    evicted_late: usize,
)
    requires
        old(f).wf(),
        *old(h) == *old(f),
        first <= second,
        call_ensures(LoopbackFilter::evict_older_than, (f, first, threshold), evicted_first),
        *old(g) == *final(f),
        call_ensures(LoopbackFilter::evict_older_than, (g, second, threshold), evicted_second),
        call_ensures(LoopbackFilter::evict_older_than, (h, second, threshold), evicted_late),
    ensures
        final(g)@ == final(h)@,
        evicted_first + evicted_second == evicted_late,
{
    assert(final(g)@ =~= final(h)@);
}

/// Taking note of several messages is taking note of all but the last, and then of the last; of
/// none it changes nothing.
pub proof fn messages_are_noted_one_by_one(
    f: &mut LoopbackFilter,
    g: &mut LoopbackFilter,
    h: &mut LoopbackFilter,
    msgs: &[DedupMsg],
    fewer: &[DedupMsg],
    now: u128,
)
    requires
        old(f).wf(),
        filter::room(old(f)@, msgs@, now),
        *old(g) == *old(f),
        call_ensures(LoopbackFilter::apply_all, (f, msgs, now), ()),
        msgs@.len() > 0 ==> fewer@ == msgs@.drop_last(),
        msgs@.len() > 0 ==> call_ensures(LoopbackFilter::apply_all, (g, fewer, now), ()),
        msgs@.len() > 0 ==> *old(h) == *final(g),
        msgs@.len() > 0 ==> call_ensures(LoopbackFilter::apply, (h, msgs@.last(), now), ()),
    ensures
        final(f).wf(),
        msgs@.len() == 0 ==> final(f)@ == old(f)@,
        msgs@.len() > 0 ==> final(f)@ == final(h)@,
{
}

/// There is room for messages if and only if there is room for all but the last, and that is not an
/// announcement that meets the highest count. There is always room for none.
pub proof fn room_is_needed_for_announcements_only(
    f: &mut LoopbackFilter,
    msgs: &[DedupMsg],
    fewer: &[DedupMsg],
    now: u128,
    pending: u32,
)
    requires
        old(f).wf(),
        msgs@.len() > 0,
        fewer@ == msgs@.drop_last(),
        filter::room(old(f)@, fewer@, now),
        call_ensures(LoopbackFilter::apply_all, (f, fewer, now), ()),
        msgs@.last() matches DedupMsg::Sent(hash) ==> call_ensures(
            LoopbackFilter::pending,
            (&*final(f), hash),
            pending,
        ),
    ensures
        filter::room(old(f)@, msgs@, now) <==> (msgs@.last() is Sent ==> pending < u32::MAX),
        filter::room(old(f)@, Seq::empty(), now),
{
    let last = msgs@.len() - 1;
    assert(msgs@.take(last) =~= fewer@);
    assert forall|k: int| 0 <= k < last implies #[trigger] msgs@.take(k) == fewer@.take(k) by {
        assert(msgs@.take(k) =~= fewer@.take(k));
    }
    if msgs@.last() is Sent ==> pending < u32::MAX {
        assert forall|k: int| 0 <= k < msgs@.len() implies (#[trigger] msgs@[k] matches
            DedupMsg::Sent(hash) ==> filter::pending_of(
            filter::applied(old(f)@, msgs@.take(k), now),
            hash,
        ) < u32::MAX) by {
            if k < last {
                assert(msgs@[k] == fewer@[k]);
            }
        }
    } else {
        assert(msgs@[last] is Sent);
    }
}

/// Where there is said to be room, there is; and it is denied only where a message announces a hash
/// to whose count as many loopbacks as there are messages cannot be added.
pub proof fn room_is_not_said_in_vain(f: LoopbackFilter, msgs: &[DedupMsg], now: u128, r: bool)
    requires
        f.wf(),
        call_ensures(LoopbackFilter::has_room, (&f, msgs), r),
    ensures
        r ==> filter::room(f@, msgs@, now),
        r <==> forall|k: int|
            0 <= k < msgs@.len() ==> (#[trigger] msgs@[k] matches DedupMsg::Sent(hash) ==> (if
            f@.contains_key(hash) {
                f@[hash].count as int
            } else {
                0
            }) + msgs@.len() <= u32::MAX),
{
}

} // verus!
