//! Pending timeouts, ordered by absolute deadline with insertion-order
//! tie-break.
//!
//! Deadlines are instants on a monotonic clock, supplied by the caller as
//! plain integers. Each inserted timeout receives a [`TimeoutToken`] that is
//! never reissued by the same wheel, so a cancelled or fired entry can never
//! be confused with a later one. The store keeps its entries sorted by
//! `(deadline, insertion)`, which makes the set of expired entries a prefix:
//! `drain_expired` returns exactly the entries due at `now`, in firing
//! order, and removes them so no entry is ever delivered twice.

use vstd::prelude::*;

verus! {

/// Names one pending timeout; unique over the lifetime of its wheel.
#[derive(Clone, Copy, PartialEq, Eq, Structural, Debug)]
pub struct TimeoutToken {
    /// Insertion number of the timeout this token stands for.
    pub id: u64,
}

/// One pending timeout: when it is due, when it was inserted, and what to
/// hand back when it fires.
pub struct TimerEntry<T> {
    /// Absolute monotonic deadline at which the entry is due.
    pub deadline: u64,
    /// Insertion number: the tie-break among equal deadlines.
    pub seq: u64,
    /// Opaque payload delivered when the entry fires.
    pub payload: T,
}

/// Entry `a` fires no later than entry `b`: earlier deadline, or the same
/// deadline and earlier insertion.
pub open spec fn fires_before<T>(a: TimerEntry<T>, b: TimerEntry<T>) -> bool {
    a.deadline < b.deadline || (a.deadline == b.deadline && a.seq < b.seq)
}

/// A sequence of entries stands in firing order.
pub open spec fn firing_ordered<T>(s: Seq<TimerEntry<T>>) -> bool {
    forall|i: int, j: int| 0 <= i < j < s.len() ==> fires_before(s[i], s[j])
}

/// No two entries of the sequence share an insertion number.
pub open spec fn distinct_seqs<T>(s: Seq<TimerEntry<T>>) -> bool {
    forall|i: int, j: int| 0 <= i < j < s.len() ==> s[i].seq != s[j].seq
}

/// Dropping one entry keeps a sequence firing-ordered and its insertion
/// numbers distinct.
proof fn lemma_remove_keeps_order<T>(s: Seq<TimerEntry<T>>, k: int)
    requires
        firing_ordered(s),
        distinct_seqs(s),
        0 <= k < s.len(),
    ensures
        firing_ordered(s.remove(k)),
        distinct_seqs(s.remove(k)),
{
    let r = s.remove(k);
    assert(r.len() == s.len() - 1);
    assert forall|i: int, j: int| 0 <= i < j < r.len() implies fires_before(r[i], r[j]) && r[i].seq
        != r[j].seq by {
        let si = if i < k {
            i
        } else {
            i + 1
        };
        let sj = if j < k {
            j
        } else {
            j + 1
        };
        assert(r[i] == s[si] && r[j] == s[sj]);
    }
}

/// How many leading entries of a firing-ordered sequence are due at `now`.
pub open spec fn expired_count<T>(s: Seq<TimerEntry<T>>, now: u64) -> int
    decreases s.len(),
{
    if s.len() == 0 {
        0
    } else if s[0].deadline <= now {
        1 + expired_count(s.skip(1), now)
    } else {
        0
    }
}

/// Stores pending timeouts and answers which are due; entries leave by
/// firing or by cancellation, never both.
pub struct TimerWheel<T> {
    entries: Vec<TimerEntry<T>>,
    next_seq: u64,
}

impl<T> TimerWheel<T> {
    /// The pending entries, in firing order.
    pub closed spec fn pending(self) -> Seq<TimerEntry<T>> {
        self.entries@
    }

    /// The insertion number the next `insert` will use.
    pub closed spec fn next_insertion(self) -> u64 {
        self.next_seq
    }

    /// The wheel's invariant: entries stand in firing order, no two share
    /// an insertion number, and every number already issued is below the
    /// next one.
    pub open spec fn wf(self) -> bool {
        &&& firing_ordered(self.pending())
        &&& forall|i: int|
            0 <= i < self.pending().len() ==> self.pending()[i].seq < self.next_insertion()
        &&& distinct_seqs(self.pending())
    }

    /// The index of the pending entry a token names, if it is still
    /// pending.
    pub open spec fn index_of(self, t: TimeoutToken) -> int {
        choose|i: int| 0 <= i < self.pending().len() && self.pending()[i].seq == t.id
    }

    /// Whether the token's entry is still pending.
    pub open spec fn is_pending(self, t: TimeoutToken) -> bool {
        exists|i: int| 0 <= i < self.pending().len() && self.pending()[i].seq == t.id
    }

    /// How many entries were ever inserted: the next insertion number.
    pub fn insertions(&self) -> (r: u64)
        ensures
            r == self.next_insertion(),
    {
        self.next_seq
    }

    /// A wheel with nothing pending.
    pub fn new() -> (r: TimerWheel<T>)
        ensures
            r.wf(),
            r.pending() == Seq::<TimerEntry<T>>::empty(),
            r.next_insertion() == 0,
    {
        TimerWheel { entries: Vec::new(), next_seq: 0 }
    }

    /// Schedules a payload for an absolute deadline. The new entry takes its
    /// place in firing order: after every pending entry due no later than
    /// it, before every entry due strictly later; its token was never issued
    /// before.
    pub fn insert(&mut self, deadline: u64, payload: T) -> (t: TimeoutToken)
        requires
            old(self).wf(),
            old(self).next_insertion() < 0xFFFF_FFFF_FFFF_FFFF,
        ensures
            final(self).wf(),
            t.id == old(self).next_insertion(),
            !old(self).is_pending(t),
            final(self).next_insertion() == old(self).next_insertion() + 1,
            ({
                let k = insert_pos(old(self).pending(), deadline);
                &&& 0 <= k <= old(self).pending().len()
                &&& (forall|j: int| 0 <= j < k ==> old(self).pending()[j].deadline <= deadline)
                &&& (k == old(self).pending().len() || old(self).pending()[k].deadline > deadline)
                &&& final(self).pending() == old(self).pending().take(k).push(
                    TimerEntry { deadline, seq: t.id, payload },
                ) + old(self).pending().skip(k)
            }),
    {
        let ghost pre = self.entries@;
        let mut i: usize = 0;
        while i < self.entries.len() && self.entries[i].deadline <= deadline
            invariant
                0 <= i <= self.entries.len(),
                forall|j: int| 0 <= j < i ==> self.entries@[j].deadline <= deadline,
                self.entries@ == pre,
            decreases self.entries.len() - i,
        {
            i = i + 1;
        }
        proof {
            lemma_insert_pos_boundary(pre, deadline, i as int);
        }
        let seq = self.next_seq;
        let entry = TimerEntry { deadline, seq, payload };
        self.entries.insert(i, entry);
        self.next_seq = seq + 1;
        let t = TimeoutToken { id: seq };
        proof {
            assert(final(self).pending() =~= pre.take(i as int).push(
                TimerEntry { deadline, seq: t.id, payload: entry.payload },
            ) + pre.skip(i as int));
            assert forall|a: int, b: int|
                0 <= a < b < final(self).pending().len() implies fires_before(
                final(self).pending()[a],
                final(self).pending()[b],
            ) by {
                let s = final(self).pending();
                if b == i {
                    assert(s[a] == pre[a] && pre[a].deadline <= deadline);
                    assert(pre[a].seq < seq);
                } else if a == i {
                    assert(s[b] == pre[b - 1]);
                    if b - 1 > i {
                        assert(fires_before(pre[i as int], pre[b - 1]));
                    }
                    assert(pre[b - 1].deadline > deadline);
                } else if a < i && b > i {
                    assert(s[a] == pre[a] && s[b] == pre[b - 1]);
                } else if a > i {
                    assert(s[a] == pre[a - 1] && s[b] == pre[b - 1]);
                } else {
                    assert(s[a] == pre[a] && s[b] == pre[b]);
                }
            }
            assert forall|a: int, b: int|
                0 <= a < b < final(self).pending().len() implies final(self).pending()[a].seq
                != final(self).pending()[b].seq by {
                let s = final(self).pending();
                if b == i {
                    assert(s[a] == pre[a] && pre[a].seq < seq);
                } else if a == i {
                    assert(s[b] == pre[b - 1] && pre[b - 1].seq < seq);
                } else if a < i && b > i {
                    assert(s[a] == pre[a] && s[b] == pre[b - 1]);
                } else if a > i {
                    assert(s[a] == pre[a - 1] && s[b] == pre[b - 1]);
                } else {
                    assert(s[a] == pre[a] && s[b] == pre[b]);
                }
            }
            assert forall|a: int| 0 <= a < final(self).pending().len() implies final(
                self).pending()[a].seq < final(self).next_insertion() by {
                let s = final(self).pending();
                if a < i {
                    assert(s[a] == pre[a]);
                } else if a > i {
                    assert(s[a] == pre[a - 1]);
                }
            }
            assert(!old(self).is_pending(t));
        }
        t
    }

    /// The deadline of the entry that fires first, bounding how long the
    /// loop may block: no pending entry is due before it.
    pub fn next_deadline(&self) -> (r: Option<u64>)
        requires
            self.wf(),
        ensures
            self.pending().len() == 0 ==> r is None,
            self.pending().len() > 0 ==> r == Some(self.pending()[0].deadline),
            r is Some ==> forall|i: int|
                0 <= i < self.pending().len() ==> r->Some_0 <= self.pending()[i].deadline,
    {
        if self.entries.len() == 0 {
            None
        } else {
            proof {
                assert forall|i: int|
                    0 <= i < self.pending().len() implies self.pending()[0].deadline <= #[trigger]
                self.pending()[i].deadline by {
                    if i > 0 {
                        assert(fires_before(self.pending()[0], self.pending()[i]));
                    }
                }
            }
            Some(self.entries[0].deadline)
        }
    }

    /// Cancels a pending timeout, handing its payload back; succeeds as a
    /// no-op when the entry already fired or was already cancelled, so a
    /// cancellation that loses the race cannot cause a second delivery.
    pub fn cancel(&mut self, t: TimeoutToken) -> (r: Option<T>)
        requires
            old(self).wf(),
        ensures
            final(self).wf(),
            final(self).next_insertion() == old(self).next_insertion(),
            r is Some <==> old(self).is_pending(t),
            old(self).is_pending(t) ==> {
                let k = old(self).index_of(t);
                &&& r == Some(old(self).pending()[k].payload)
                &&& final(self).pending() == old(self).pending().remove(k)
            },
            !old(self).is_pending(t) ==> final(self).pending() == old(self).pending(),
    {
        let ghost pre = self.entries@;
        let mut i: usize = 0;
        while i < self.entries.len() && self.entries[i].seq != t.id
            invariant
                0 <= i <= self.entries.len(),
                forall|j: int| 0 <= j < i ==> self.entries@[j].seq != t.id,
                self.entries@ == pre,
            decreases self.entries.len() - i,
        {
            i = i + 1;
        }
        if i < self.entries.len() {
            let entry = self.entries.remove(i);
            proof {
                assert(pre[i as int].seq == t.id);
                assert(old(self).is_pending(t));
                let k = old(self).index_of(t);
                assert(0 <= k < pre.len() && pre[k].seq == t.id);
                if k < i as int {
                    assert(pre[k].seq != pre[i as int].seq);
                } else if k > i as int {
                    assert(pre[i as int].seq != pre[k].seq);
                }
                assert(k == i as int);
                lemma_remove_keeps_order(pre, k);
                assert(final(self).pending() =~= pre.remove(k));
            }
            Some(entry.payload)
        } else {
            proof {
                assert(!old(self).is_pending(t));
            }
            None
        }
    }

    /// Removes and returns every entry due at `now`: exactly those with
    /// `deadline <= now`, as the leading `expired_count` entries, in firing
    /// order; everything later stays pending, so a drained entry can never
    /// be reported expired again.
    pub fn drain_expired(&mut self, now: u64) -> (fired: Vec<T>)
        requires
            old(self).wf(),
        ensures
            final(self).wf(),
            final(self).next_insertion() == old(self).next_insertion(),
            ({
                let k = expired_count(old(self).pending(), now);
                &&& fired@ == old(self).pending().take(k).map_values(
                    |e: TimerEntry<T>| e.payload,
                )
                &&& final(self).pending() == old(self).pending().skip(k)
            }),
    {
        let ghost pre = self.entries@;
        let mut fired: Vec<T> = Vec::new();
        proof {
            lemma_expired_prefix(pre, now);
            assert(self.entries@ =~= pre.skip(0));
            assert(fired@ =~= pre.take(0).map_values(|e: TimerEntry<T>| e.payload));
        }
        loop
            invariant
                self.next_seq == old(self).next_seq,
                fired@.len() <= expired_count(pre, now),
                self.entries@ == pre.skip(fired@.len() as int),
                fired@ == pre.take(fired@.len() as int).map_values(|e: TimerEntry<T>| e.payload),
                firing_ordered(pre),
                distinct_seqs(pre),
                forall|i: int| 0 <= i < pre.len() ==> pre[i].seq < self.next_seq,
                0 <= expired_count(pre, now) <= pre.len(),
                forall|i: int| 0 <= i < expired_count(pre, now) ==> pre[i].deadline <= now,
                forall|i: int| expired_count(pre, now) <= i < pre.len() ==> pre[i].deadline > now,
            ensures
                self.next_seq == old(self).next_seq,
                fired@.len() == expired_count(pre, now),
                self.entries@ == pre.skip(fired@.len() as int),
                fired@ == pre.take(fired@.len() as int).map_values(|e: TimerEntry<T>| e.payload),
            decreases expired_count(pre, now) - fired@.len(),
        {
            let ghost done = fired@.len() as int;
            if self.entries.len() == 0 {
                proof {
                    assert(pre.skip(done).len() == 0);
                    assert(done == pre.len());
                    assert(fired@.len() == expired_count(pre, now));
                }
                break ;
            }
            if self.entries[0].deadline > now {
                proof {
                    assert(self.entries@[0] == pre[done]);
                    assert(pre[done].deadline > now);
                    assert(done >= expired_count(pre, now));
                    assert(fired@.len() == expired_count(pre, now));
                }
                break ;
            }
            proof {
                assert(self.entries@[0] == pre[done]);
                assert(pre[done].deadline <= now);
                assert(done < expired_count(pre, now));
            }
            let entry = self.entries.remove(0);
            fired.push(entry.payload);
            proof {
                assert(self.entries@ =~= pre.skip(fired@.len() as int));
                assert(fired@ =~= pre.take(fired@.len() as int).map_values(
                    |e: TimerEntry<T>| e.payload,
                ));
            }
        }
        proof {
            let k = expired_count(pre, now);
            assert(final(self).pending() =~= pre.skip(k));
            assert forall|a: int, b: int|
                0 <= a < b < final(self).pending().len() implies fires_before(
                final(self).pending()[a],
                final(self).pending()[b],
            ) && final(self).pending()[a].seq != final(self).pending()[b].seq by {
                assert(final(self).pending()[a] == pre[a + k]);
                assert(final(self).pending()[b] == pre[b + k]);
            }
        }
        fired
    }
}

/// Where a new deadline lands in a firing-ordered sequence: after the
/// entries due no later, before the rest.
pub open spec fn insert_pos<T>(s: Seq<TimerEntry<T>>, deadline: u64) -> int {
    choose|k: int|
        0 <= k <= s.len() && (forall|j: int| 0 <= j < k ==> s[j].deadline <= deadline) && (k
            == s.len() || s[k].deadline > deadline)
}

/// The boundary the insertion scan stops at is the insertion position.
proof fn lemma_insert_pos_boundary<T>(s: Seq<TimerEntry<T>>, deadline: u64, i: int)
    requires
        0 <= i <= s.len(),
        forall|j: int| 0 <= j < i ==> s[j].deadline <= deadline,
        i == s.len() || s[i].deadline > deadline,
    ensures
        insert_pos(s, deadline) == i,
{
    assert(0 <= i <= s.len() && (forall|j: int| 0 <= j < i ==> s[j].deadline <= deadline) && (i
        == s.len() || s[i].deadline > deadline));
    let k = insert_pos(s, deadline);
    if k < i {
        assert(s[k].deadline <= deadline);
    }
    if k > i {
        assert(s[i].deadline <= deadline);
    }
}

/// The expired count never exceeds the sequence length.
proof fn lemma_expired_count_bounds<T>(s: Seq<TimerEntry<T>>, now: u64)
    ensures
        0 <= expired_count(s, now) <= s.len(),
    decreases s.len(),
{
    if s.len() > 0 {
        lemma_expired_count_bounds(s.skip(1), now);
    }
}

/// Draining is exact. For any pending entries in wheel order, the drained
/// prefix holds exactly the entries with `deadline <= now`; they come out
/// in non-decreasing deadline order with ties broken by insertion order;
/// and no drained entry shares an insertion number with one left pending,
/// so repeated calls can never hand the same entry out twice.
pub proof fn lemma_drain_exact<T>(s: Seq<TimerEntry<T>>, now: u64)
    requires
        firing_ordered(s),
        distinct_seqs(s),
    ensures
        0 <= expired_count(s, now) <= s.len(),
        forall|i: int| 0 <= i < expired_count(s, now) ==> s[i].deadline <= now,
        forall|i: int| expired_count(s, now) <= i < s.len() ==> s[i].deadline > now,
        forall|i: int, j: int|
            0 <= i < j < expired_count(s, now) ==> s[i].deadline < s[j].deadline || (s[i].deadline
                == s[j].deadline && s[i].seq < s[j].seq),
        forall|i: int, j: int|
            0 <= i < expired_count(s, now) && expired_count(s, now) <= j < s.len() ==> s[i].seq
                != s[j].seq,
{
    lemma_expired_prefix(s, now);
    assert forall|i: int, j: int| 0 <= i < j < expired_count(s, now) implies s[i].deadline
        < s[j].deadline || (s[i].deadline == s[j].deadline && s[i].seq < s[j].seq) by {
        assert(fires_before(s[i], s[j]));
    }
}

/// A timeout cancelled before its deadline is gone for good: once no
/// pending entry carries its insertion number, no drain, now or later, can
/// return it, because draining only removes entries.
pub proof fn lemma_cancelled_absent<T>(s: Seq<TimerEntry<T>>, id: u64, now: u64)
    requires
        forall|i: int| 0 <= i < s.len() ==> s[i].seq != id,
    ensures
        forall|i: int| 0 <= i < expired_count(s, now) ==> s[i].seq != id,
        forall|i: int|
            0 <= i < s.skip(expired_count(s, now)).len() ==> s.skip(expired_count(s, now))[i].seq
                != id,
{
    lemma_expired_count_bounds(s, now);
    let k = expired_count(s, now);
    assert forall|i: int| 0 <= i < s.skip(k).len() implies s.skip(k)[i].seq != id by {
        assert(s.skip(k)[i] == s[i + k]);
    }
}

/// In a firing-ordered sequence the entries due at `now` are exactly the
/// leading `expired_count` ones.
pub proof fn lemma_expired_prefix<T>(s: Seq<TimerEntry<T>>, now: u64)
    requires
        firing_ordered(s),
    ensures
        0 <= expired_count(s, now) <= s.len(),
        forall|i: int| 0 <= i < expired_count(s, now) ==> s[i].deadline <= now,
        forall|i: int| expired_count(s, now) <= i < s.len() ==> s[i].deadline > now,
    decreases s.len(),
{
    lemma_expired_count_bounds(s, now);
    if s.len() > 0 {
        let tail = s.skip(1);
        assert(firing_ordered(tail)) by {
            assert forall|a: int, b: int| 0 <= a < b < tail.len() implies fires_before(
                tail[a],
                tail[b],
            ) by {
                assert(tail[a] == s[a + 1] && tail[b] == s[b + 1]);
            }
        }
        lemma_expired_prefix(tail, now);
        let k = expired_count(s, now);
        if s[0].deadline <= now {
            assert(k == 1 + expired_count(tail, now));
            assert forall|i: int| 0 <= i < k implies s[i].deadline <= now by {
                if i > 0 {
                    assert(s[i] == tail[i - 1]);
                }
            }
            assert forall|i: int| k <= i < s.len() implies s[i].deadline > now by {
                assert(s[i] == tail[i - 1]);
            }
        } else {
            assert(k == 0);
            assert forall|i: int| 0 <= i < s.len() implies s[i].deadline > now by {
                if i > 0 {
                    assert(fires_before(s[0], s[i]));
                }
            }
        }
    }
}

} // verus!
