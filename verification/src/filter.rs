//! The filter that recognises the bridge's own frames when the kernel loops them back.
use std::collections::HashMap;
use vstd::prelude::*;

verus! {

broadcast use vstd::std_specs::hash::group_hash_axioms;

/// What the writer tells the reader about a frame, by the frame's hash. The writer announces each
/// frame that it is about to put on the bus, so that the reader can drop the kernel's loopback; if
/// the write is dropped it takes the announcement back, so that a frame from elsewhere with the
/// same identifier and data is not filtered.
#[derive(Debug, Clone, Copy, PartialEq, Eq, Structural)]
pub enum DedupMsg {
    /// A frame is written to CAN: expect its loopback, and filter it.
    Sent(u64),
    /// A frame was dropped before it reached the bus: no loopback will come.
    Dropped(u64),
}

/// The loopbacks that are still to come for one hash: how many, as identical frames can be in
/// flight at once, and when the last of them was announced.
#[derive(Debug, Clone, Copy, PartialEq, Eq, Structural)]
pub struct Pending {
    pub count: u32,
    /// In nanoseconds since an origin that the caller of the filter chooses.
    pub last: u128,
}

/// The number of loopbacks that are still to come for a hash.
pub open spec fn pending_of(m: Map<u64, Pending>, hash: u64) -> nat {
    if m.contains_key(hash) {
        m[hash].count as nat
    } else {
        0
    }
}

/// One more loopback is to come for the hash.
pub open spec fn announced(m: Map<u64, Pending>, hash: u64, now: u128) -> Map<u64, Pending> {
    m.insert(hash, Pending { count: (pending_of(m, hash) + 1) as u32, last: now })
}

/// One loopback fewer is to come for the hash, if any was.
pub open spec fn consumed(m: Map<u64, Pending>, hash: u64) -> Map<u64, Pending> {
    if pending_of(m, hash) <= 1 {
        m.remove(hash)
    } else {
        m.insert(hash, Pending { count: (m[hash].count - 1) as u32, last: m[hash].last })
    }
}

/// The time from `last` to `now`, which is zero if `last` is the later of the two.
pub open spec fn age(now: u128, last: u128) -> int {
    if now >= last {
        now - last
    } else {
        0
    }
}

/// The entries whose last announcement is not older than `threshold`.
pub open spec fn kept(m: Map<u64, Pending>, now: u128, threshold: u128) -> Map<u64, Pending> {
    Map::new(
        |hash: u64| m.contains_key(hash) && age(now, m[hash].last) <= threshold,
        |hash: u64| m[hash],
    )
}

/// Every entry stands for a loopback.
pub open spec fn all_pending(m: Map<u64, Pending>) -> bool {
    forall|hash: u64| #[trigger] m.contains_key(hash) ==> m[hash].count >= 1
}

/// The state after the writer told of several frames.
pub open spec fn applied(m: Map<u64, Pending>, msgs: Seq<DedupMsg>, now: u128) -> Map<u64, Pending>
    decreases msgs.len(),
{
    if msgs.len() == 0 {
        m
    } else {
        let before = applied(m, msgs.drop_last(), now);
        match msgs.last() {
            DedupMsg::Sent(hash) => announced(before, hash, now),
            DedupMsg::Dropped(hash) => consumed(before, hash),
        }
    }
}

/// No announcement meets a count that cannot be raised.
pub open spec fn room(m: Map<u64, Pending>, msgs: Seq<DedupMsg>, now: u128) -> bool {
    forall|k: int|
        0 <= k < msgs.len() ==> (#[trigger] msgs[k] matches DedupMsg::Sent(hash) ==> pending_of(
            applied(m, msgs.take(k), now),
            hash,
        ) < u32::MAX)
}

/// The hashes of the frames that the writer put on the bus, so that the reader can drop their
/// loopback. An announcement adds one loopback for a hash, and a dropped write takes one back: the
/// count per hash is what lets it take back its own, and not that of another write that succeeded.
/// Eviction is a safety net against unbounded growth.
pub struct LoopbackFilter {
    sent: HashMap<u64, Pending>,
}

impl View for LoopbackFilter {
    type V = Map<u64, Pending>;

    closed spec fn view(&self) -> Map<u64, Pending> {
        self.sent@
    }
}

impl Default for LoopbackFilter {
    /// A filter that expects no loopback.
    fn default() -> (filter: Self)
        ensures
            filter.wf(),
            filter@ == Map::<u64, Pending>::empty(),
    {
        LoopbackFilter { sent: HashMap::new() }
    }
}

impl LoopbackFilter {
    /// Every entry stands for a loopback, and there are finitely many.
    pub open spec fn wf(&self) -> bool {
        all_pending(self@) && self@.dom().finite()
    }

    /// Takes note of what the writer did. A dropped write takes back one loopback, not all that
    /// are to come for its hash, so that another write of the same identifier and data keeps its
    /// own.
    pub fn apply(&mut self, msg: DedupMsg, now: u128)
        requires
            old(self).wf(),
            msg matches DedupMsg::Sent(hash) ==> pending_of(old(self)@, hash) < u32::MAX,
        ensures
            final(self).wf(),
            final(self)@ == match msg {
                DedupMsg::Sent(hash) => announced(old(self)@, hash, now),
                DedupMsg::Dropped(hash) => consumed(old(self)@, hash),
            },
    {
        match msg {
            DedupMsg::Sent(hash) => {
                let count: u32 = self.pending(hash);
                self.sent.insert(hash, Pending { count: count + 1, last: now });
            },
            DedupMsg::Dropped(hash) => self.consume(hash),
        }
    }

    /// Takes note of all that the writer told, in turn.
    pub fn apply_all(&mut self, msgs: &[DedupMsg], now: u128)
        requires
            old(self).wf(),
            room(old(self)@, msgs@, now),
        ensures
            final(self).wf(),
            final(self)@ == applied(old(self)@, msgs@, now),
    {
        let mut next: usize = 0;
        assert(msgs@.take(0) =~= Seq::<DedupMsg>::empty());
        while next < msgs.len()
            invariant
                next <= msgs@.len(),
                self.wf(),
                room(old(self)@, msgs@, now),
                self@ == applied(old(self)@, msgs@.take(next as int), now),
            decreases msgs@.len() - next,
        {
            self.apply(msgs[next], now);
            assert(msgs@.take(next + 1).drop_last() =~= msgs@.take(next as int));
            next += 1;
        }
        assert(msgs@.take(next as int) =~= msgs@);
    }

    /// Whether there is room for the announcements even if each message were one for the same
    /// hash. There is always room then.
    pub fn has_room(&self, msgs: &[DedupMsg]) -> (r: bool)
        ensures
            r == forall|k: int|
                0 <= k < msgs@.len() ==> (#[trigger] msgs@[k] matches DedupMsg::Sent(hash)
                    ==> pending_of(self@, hash) + msgs@.len() <= u32::MAX),
            r ==> forall|now: u128| room(self@, msgs@, now),
    {
        let mut next: usize = 0;
        while next < msgs.len()
            invariant
                next <= msgs@.len(),
                forall|k: int|
                    0 <= k < next ==> (#[trigger] msgs@[k] matches DedupMsg::Sent(hash)
                        ==> pending_of(self@, hash) + msgs@.len() <= u32::MAX),
            decreases msgs@.len() - next,
        {
            if let DedupMsg::Sent(hash) = msgs[next] {
                if self.pending(hash) as u128 + msgs.len() as u128 > u32::MAX as u128 {
                    return false;
                }
            }
            next += 1;
        }
        assert forall|now: u128| room(self@, msgs@, now) by {
            assert forall|k: int| 0 <= k < msgs@.len() implies (#[trigger] msgs@[k] matches
                DedupMsg::Sent(hash) ==> pending_of(applied(self@, msgs@.take(k), now), hash)
                < u32::MAX) by {
                if let DedupMsg::Sent(hash) = msgs@[k] {
                    each_message_adds_at_most_one(self@, msgs@.take(k), now, hash);
                }
            }
        }
        true
    }

    /// Drops one loopback that is to come for the hash, and the entry with the last one.
    pub fn consume(&mut self, hash: u64)
        requires
            old(self).wf(),
        ensures
            final(self).wf(),
            final(self)@ == consumed(old(self)@, hash),
            final(self)@.len() == if pending_of(old(self)@, hash) == 1 {
                old(self)@.len() - 1
            } else {
                old(self)@.len() as int
            },
    {
        match self.sent.get(&hash) {
            Some(entry) => {
                let left = Pending { count: entry.count - 1, last: entry.last };
                if left.count == 0 {
                    self.sent.remove(&hash);
                } else {
                    self.sent.insert(hash, left);
                }
            },
            None => {
                assert(self@ =~= self@.remove(hash));
            },
        }
    }

    /// Drops the entries whose last announcement is older than `threshold`, and returns how many
    /// those were.
    pub fn evict_older_than(&mut self, now: u128, threshold: u128) -> (evicted: usize)
        requires
            old(self).wf(),
        ensures
            final(self).wf(),
            final(self)@ == kept(old(self)@, now, threshold),
            evicted == old(self)@.len() - final(self)@.len(),
    {
        let before: usize = self.sent.len();
        let ghost m = self.sent@;
        let mut stale: Vec<u64> = Vec::new();
        let ghost entries = vstd::std_specs::iter::IteratorSpec::remaining(&self.sent.iter());
        for entry in it: self.sent.iter()
            invariant
                m == self.sent@,
                it.seq() == entries,
                forall|i: int|
                    0 <= i < stale@.len() ==> m.contains_key(#[trigger] stale@[i]) && age(
                        now,
                        m[stale@[i]].last,
                    ) > threshold,
                forall|i: int|
                    0 <= i < it.index() && age(now, (*entries[i].1).last) > threshold
                        ==> stale@.contains(*(#[trigger] entries[i]).0),
        {
            let (hash, pending) = entry;
            let ghost before_push = stale@;
            if now.saturating_sub(pending.last) > threshold {
                stale.push(*hash);
                assert(stale@.last() == *hash);
            }
            assert forall|h: u64| before_push.contains(h) implies stale@.contains(h) by {
                let j = choose|j: int| 0 <= j < before_push.len() && before_push[j] == h;
                assert(stale@[j] == h);
            }
        }
        assert forall|h: u64| #[trigger]
            m.contains_key(h) && age(now, m[h].last) > threshold implies stale@.contains(h) by {
            assert(entries.contains((&h, &m[h])));
        }
        let mut next: usize = 0;
        while next < stale.len()
            invariant
                next <= stale@.len(),
                self.sent@.submap_of(m),
                forall|h: u64| #[trigger]
                    m.contains_key(h) && !stale@.take(next as int).contains(h)
                        ==> self.sent@.contains_key(h),
                forall|h: u64| #[trigger]
                    stale@.take(next as int).contains(h) ==> !self.sent@.contains_key(h),
            decreases stale@.len() - next,
        {
            let hash: u64 = stale[next];
            self.sent.remove(&hash);
            let ghost earlier = stale@.take(next as int);
            assert(stale@.take(next + 1) =~= earlier.push(hash));
            assert forall|h: u64|
                #[trigger] stale@.take(next + 1).contains(h) == (earlier.contains(h) || h
                    == hash) by {
                if earlier.contains(h) {
                    let j = choose|j: int| 0 <= j < earlier.len() && earlier[j] == h;
                    assert(earlier.push(hash)[j] == h);
                }
                assert(earlier.push(hash)[earlier.len() as int] == hash);
            }
            next += 1;
        }
        assert(stale@.take(next as int) =~= stale@);
        assert forall|h: u64| #[trigger] self@.contains_key(h) == kept(
            m,
            now,
            threshold,
        ).contains_key(h) by {
            if stale@.contains(h) {
                let j = choose|j: int| 0 <= j < stale@.len() && stale@[j] == h;
                assert(m.contains_key(stale@[j]));
            }
            assert(m.contains_key(h) && !stale@.contains(h) ==> self.sent@.contains_key(h));
            assert(m.contains_key(h) && age(now, m[h].last) > threshold ==> stale@.contains(h));
        }
        assert(self@ =~= kept(m, now, threshold));
        proof {
            vstd::set_lib::lemma_len_subset(self.sent@.dom(), m.dom());
        }
        before - self.sent.len()
    }

    /// Whether a loopback is to come for the hash, which is then used up: the frame with this hash
    /// is one of our own.
    pub fn is_loopback(&mut self, hash: u64) -> (r: bool)
        requires
            old(self).wf(),
        ensures
            final(self).wf(),
            r == (pending_of(old(self)@, hash) > 0),
            final(self)@ == consumed(old(self)@, hash),
    {
        if self.sent.contains_key(&hash) {
            self.consume(hash);
            true
        } else {
            assert(self@ =~= self@.remove(hash));
            false
        }
    }

    /// The number of hashes for which a loopback is to come.
    pub fn len(&self) -> (n: usize)
        ensures
            n == self@.len(),
    {
        self.sent.len()
    }

    /// The number of loopbacks that are to come for the hash.
    pub fn pending(&self, hash: u64) -> (n: u32)
        ensures
            n == pending_of(self@, hash),
    {
        match self.sent.get(&hash) {
            Some(entry) => entry.count,
            None => 0,
        }
    }
}

/// The state after so many frames with the hash were seen.
pub open spec fn consumed_times(m: Map<u64, Pending>, hash: u64, n: nat) -> Map<u64, Pending>
    decreases n,
{
    if n == 0 {
        m
    } else {
        consumed(consumed_times(m, hash, (n - 1) as nat), hash)
    }
}

/// No message adds more than one loopback for a hash.
proof fn each_message_adds_at_most_one(
    m: Map<u64, Pending>,
    msgs: Seq<DedupMsg>,
    now: u128,
    hash: u64,
)
    requires
        pending_of(m, hash) + msgs.len() <= u32::MAX,
    ensures
        pending_of(applied(m, msgs, now), hash) <= pending_of(m, hash) + msgs.len(),
    decreases msgs.len(),
{
    if msgs.len() > 0 {
        each_message_adds_at_most_one(m, msgs.drop_last(), now, hash);
    }
}

/// An announcement adds one loopback for its hash, and leaves all other hashes alone.
pub proof fn announcing_adds_one(m: Map<u64, Pending>, hash: u64, now: u128, other: u64)
    requires
        all_pending(m),
        pending_of(m, hash) < u32::MAX,
    ensures
        all_pending(announced(m, hash, now)),
        pending_of(announced(m, hash, now), other) == pending_of(m, other) + if other == hash {
            1nat
        } else {
            0nat
        },
{
}

/// A dropped write, and likewise a loopback, takes away one loopback for its hash, if one is to
/// come, and leaves all other hashes alone.
pub proof fn consuming_takes_one(m: Map<u64, Pending>, hash: u64, other: u64)
    requires
        all_pending(m),
    ensures
        all_pending(consumed(m, hash)),
        pending_of(consumed(m, hash), other) == if other == hash && pending_of(m, hash) > 0 {
            (pending_of(m, hash) - 1) as nat
        } else {
            pending_of(m, other)
        },
{
}

/// A dropped write takes back what its announcement added: as many loopbacks are to come, for
/// every hash, as before both. If none was to come for its hash, everything is as before.
pub proof fn a_drop_takes_back_its_announcement(
    m: Map<u64, Pending>,
    hash: u64,
    now: u128,
    other: u64,
)
    requires
        all_pending(m),
        pending_of(m, hash) < u32::MAX,
    ensures
        pending_of(consumed(announced(m, hash, now), hash), other) == pending_of(m, other),
        pending_of(m, hash) == 0 ==> consumed(announced(m, hash, now), hash) == m,
{
    announcing_adds_one(m, hash, now, hash);
    announcing_adds_one(m, hash, now, other);
    consuming_takes_one(announced(m, hash, now), hash, other);
    if pending_of(m, hash) == 0 {
        assert(consumed(announced(m, hash, now), hash) =~= m);
    }
}

/// How often a message occurs.
pub open spec fn times(msgs: Seq<DedupMsg>, msg: DedupMsg) -> nat
    decreases msgs.len(),
{
    if msgs.len() == 0 {
        0
    } else {
        times(msgs.drop_last(), msg) + if msgs.last() == msg {
            1nat
        } else {
            0nat
        }
    }
}

/// No drop of a frame with the hash comes before the announcement that it takes back.
pub open spec fn drops_follow(msgs: Seq<DedupMsg>, hash: u64) -> bool {
    forall|k: int|
        0 <= k <= msgs.len() ==> times(#[trigger] msgs.take(k), DedupMsg::Dropped(hash)) <= times(
            msgs.take(k),
            DedupMsg::Sent(hash),
        )
}

/// Of the frames with a hash, as many loopbacks are to come as were announced and not dropped,
/// in whatever order the writer told of these and of other frames, as long as no drop comes before
/// the announcement that it takes back. Their age counts from then.
pub proof fn drops_take_back_as_many_as_they_are(
    m: Map<u64, Pending>,
    msgs: Seq<DedupMsg>,
    now: u128,
    hash: u64,
)
    requires
        all_pending(m),
        pending_of(m, hash) + times(msgs, DedupMsg::Sent(hash)) <= u32::MAX,
        drops_follow(msgs, hash),
    ensures
        applied(m, msgs, now).contains_key(hash) ==> applied(m, msgs, now)[hash].count >= 1,
        pending_of(applied(m, msgs, now), hash) == pending_of(m, hash) + times(
            msgs,
            DedupMsg::Sent(hash),
        ) - times(msgs, DedupMsg::Dropped(hash)),
        times(msgs, DedupMsg::Sent(hash)) > 0 && applied(m, msgs, now).contains_key(hash)
            ==> applied(m, msgs, now)[hash].last == now,
    decreases msgs.len(),
{
    if msgs.len() > 0 {
        let fewer = msgs.drop_last();
        assert forall|k: int| 0 <= k <= fewer.len() implies times(
            #[trigger] fewer.take(k),
            DedupMsg::Dropped(hash),
        ) <= times(fewer.take(k), DedupMsg::Sent(hash)) by {
            assert(fewer.take(k) =~= msgs.take(k));
        }
        assert(msgs.take(msgs.len() as int) =~= msgs);
        drops_take_back_as_many_as_they_are(m, fewer, now, hash);
    }
}

/// As many frames with a hash are filtered as loopbacks are to come for it, and not one more.
pub proof fn each_loopback_is_filtered_once(m: Map<u64, Pending>, hash: u64, n: nat)
    requires
        all_pending(m),
    ensures
        all_pending(consumed_times(m, hash, n)),
        pending_of(consumed_times(m, hash, n), hash) > 0 <==> n < pending_of(m, hash),
        n <= pending_of(m, hash) ==> pending_of(consumed_times(m, hash, n), hash) == pending_of(
            m,
            hash,
        ) - n,
    decreases n,
{
    if n > 0 {
        let fewer = (n - 1) as nat;
        each_loopback_is_filtered_once(m, hash, fewer);
        consuming_takes_one(consumed_times(m, hash, fewer), hash, hash);
    }
}

/// Eviction forgets the hashes announced too long ago, whole, and nothing else.
pub proof fn eviction_forgets_what_is_stale(
    m: Map<u64, Pending>,
    now: u128,
    threshold: u128,
    hash: u64,
)
    requires
        all_pending(m),
    ensures
        all_pending(kept(m, now, threshold)),
        pending_of(kept(m, now, threshold), hash) == if m.contains_key(hash) && age(
            now,
            m[hash].last,
        ) <= threshold {
            pending_of(m, hash)
        } else {
            0
        },
{
}

} // verus!
