//! The event loop driver: queue draining, readiness dispatch, timer expiry.
//!
//! The loop owns the resource registry, the timer store and the
//! cross-thread queue. One iteration, in order: drain the queue and apply
//! every action, compute the poll deadline as the nearest pending timeout,
//! let the platform driver block in the multiplexer up to that deadline,
//! dispatch every readiness report to exactly the interested waiters, and
//! fire the timeouts now due. The multiplexer itself stays outside: every
//! registration change is handed back as a [`MuxOp`] for the driver to
//! forward, and readiness comes back in as plain [`ReadyEvent`] values.

use vstd::prelude::*;

use crate::queue::CrossQueue;
use crate::queue::QueueError;
use crate::queue::QueueItem;
use crate::registry::Registry;
use crate::registry::RegistryError;
use crate::slot::DESC_LIMIT;
use crate::slot::SlotState;
use crate::slot::Token;
use crate::timer::TimeoutToken;
use crate::timer::TimerEntry;
use crate::timer::TimerWheel;
use crate::timer::expired_count;
use crate::timer::firing_ordered;
use crate::timer::distinct_seqs;
use crate::timer::insert_pos;

verus! {

/// Where the loop stands in its poll/dispatch cycle.
#[derive(Clone, Copy, PartialEq, Eq, Structural, Debug)]
pub enum LoopState {
    /// No work in hand: the driver may block in the multiplexer.
    Idle,
    /// Processing a batch of ready tokens and expired timeouts.
    Dispatching,
    /// Applying actions drained from the cross-thread queue.
    DrainingQueue,
}

/// A unit of cross-thread work, as a closed set of tagged variants the
/// loop enumerates each iteration.
#[derive(Clone, Copy, PartialEq, Eq, Structural, Debug)]
pub enum Action {
    /// Register a resource with an initial interest mask.
    Register {
        /// Opaque descriptor handle, at most [`DESC_LIMIT`].
        desc: u64,
        /// Initial read interest.
        read: bool,
        /// Initial write interest.
        write: bool,
    },
    /// Deregister a live resource.
    Deregister {
        /// The token to vacate.
        token: Token,
    },
    /// Schedule a timeout for an absolute monotonic deadline.
    ScheduleTimeout {
        /// The absolute deadline.
        deadline: u64,
        /// Work tag handed back when the timeout fires.
        work: u64,
    },
    /// Cancel a pending timeout.
    CancelTimeout {
        /// The token the timeout was scheduled under.
        token: TimeoutToken,
    },
    /// Run a piece of work on the loop thread at the next opportunity.
    RunOnLoop {
        /// Work tag handed back to the driver to run.
        work: u64,
    },
}

/// A registration change the driver must forward to the multiplexer,
/// synchronously, from the loop thread.
#[derive(Clone, Copy, PartialEq, Eq, Structural, Debug)]
pub enum MuxOp {
    /// Add a descriptor under a fresh token with this interest mask.
    Add {
        /// The token the multiplexer will report readiness under.
        token: Token,
        /// The descriptor to watch.
        desc: u64,
        /// Watch for readability.
        read: bool,
        /// Watch for writability.
        write: bool,
    },
    /// Replace the interest mask of an already-added descriptor.
    Update {
        /// The token whose interest changes.
        token: Token,
        /// The descriptor it was added with.
        desc: u64,
        /// Watch for readability.
        read: bool,
        /// Watch for writability.
        write: bool,
    },
    /// Remove a descriptor; its token is vacated.
    Remove {
        /// The token being vacated.
        token: Token,
        /// The descriptor it was added with.
        desc: u64,
    },
}

/// One readiness report from the multiplexer.
#[derive(Clone, Copy, PartialEq, Eq, Structural, Debug)]
pub struct ReadyEvent {
    /// The token the multiplexer reports on.
    pub token: Token,
    /// The resource became readable.
    pub readable: bool,
    /// The resource became writable.
    pub writable: bool,
}

/// A waiter the dispatch step decided to wake.
#[derive(Clone, Copy, PartialEq, Eq, Structural, Debug)]
pub enum Wake {
    /// The waiter parked on this token's readable direction.
    Reader(Token),
    /// The waiter parked on this token's writable direction.
    Writer(Token),
}

/// What one readiness-stream poll observes.
#[derive(Clone, Copy, PartialEq, Eq, Structural, Debug)]
pub enum PollOutcome {
    /// A readiness event was pending; it is consumed by this poll.
    Ready,
    /// Nothing pending; the caller is parked as the direction's waiter.
    Parked,
    /// A waiter is already parked on this direction: a usage error.
    AlreadyWaiting,
    /// The token is not live.
    UnknownToken,
}

/// What applying one queued action produced.
#[derive(Clone, Copy, PartialEq, Eq, Structural, Debug)]
pub enum ApplyOutcome {
    /// Forward this registration change to the multiplexer now.
    Forward(MuxOp),
    /// The timeout was scheduled under this token.
    Scheduled(TimeoutToken),
    /// The cancellation was applied, or the timeout had already left.
    Cancelled,
    /// Run this work tag on the loop thread now.
    Run(u64),
    /// The action aimed at a token that is not live.
    Rejected(RegistryError),
}

/// A reader waiter is woken by this event: the report says readable and
/// the slot both cares and has someone parked.
pub open spec fn wakes_reader(s: SlotState, ev: ReadyEvent) -> bool {
    ev.readable && s.read_interest && s.read_waiter
}

/// A writer waiter is woken by this event.
pub open spec fn wakes_writer(s: SlotState, ev: ReadyEvent) -> bool {
    ev.writable && s.write_interest && s.write_waiter
}

/// The slot after a readiness report lands on it: readiness the slot has
/// interest in is latched until consumed, and a woken waiter is unparked.
pub open spec fn slot_after_event(s: SlotState, ev: ReadyEvent) -> SlotState {
    SlotState {
        read_ready: s.read_ready || (ev.readable && s.read_interest),
        write_ready: s.write_ready || (ev.writable && s.write_interest),
        read_waiter: s.read_waiter && !wakes_reader(s, ev),
        write_waiter: s.write_waiter && !wakes_writer(s, ev),
        ..s
    }
}

/// The wakeups one readiness report owes: the reader's waiter first, then
/// the writer's, each only when the report, the interest and a parked
/// waiter all line up.
pub open spec fn wake_list(s: SlotState, ev: ReadyEvent) -> Seq<Wake> {
    (if wakes_reader(s, ev) {
        seq![Wake::Reader(ev.token)]
    } else {
        Seq::<Wake>::empty()
    }) + (if wakes_writer(s, ev) {
        seq![Wake::Writer(ev.token)]
    } else {
        Seq::<Wake>::empty()
    })
}

/// Dispatch wakes nobody else. Every wakeup a readiness report produces
/// targets the reported token, the reader's waiter is woken exactly when
/// the report says readable to an interested, parked reader, and likewise
/// for the writer — so one resource's readiness can wake neither another
/// resource's waiter nor the other direction's.
pub proof fn lemma_wake_isolation(s: SlotState, ev: ReadyEvent)
    ensures
        wake_list(s, ev).contains(Wake::Reader(ev.token)) <==> wakes_reader(s, ev),
        wake_list(s, ev).contains(Wake::Writer(ev.token)) <==> wakes_writer(s, ev),
        forall|w: Wake|
            wake_list(s, ev).contains(w) ==> w == Wake::Reader(ev.token) || w == Wake::Writer(
                ev.token,
            ),
{
    let l = wake_list(s, ev);
    if wakes_reader(s, ev) {
        assert(l[0] == Wake::Reader(ev.token));
    }
    if wakes_writer(s, ev) {
        assert(l[l.len() - 1] == Wake::Writer(ev.token));
    }
    assert forall|w: Wake| l.contains(w) implies w == Wake::Reader(ev.token) || w == Wake::Writer(
        ev.token,
    ) by {
        let i = choose|i: int| 0 <= i < l.len() && l[i] == w;
        assert(l[i] == w);
    }
}

/// An action is well-formed when the values it carries fit the machine
/// limits the loop's own operations put on them.
pub open spec fn action_wf(a: Action) -> bool {
    a matches Action::Register { desc, .. } ==> desc <= DESC_LIMIT
}

/// The loop's own structures, abstracted: what one queued action steps.
pub struct CoreModel {
    /// Live token index to slot.
    pub slots: Map<int, SlotState>,
    /// Pending timeouts in firing order.
    pub timers: Seq<TimerEntry<u64>>,
    /// The insertion number the next scheduled timeout takes.
    pub timers_next: u64,
}

/// How one action steps the loop's structures and what it hands the
/// driver: the relation every entry of an applied batch satisfies.
pub open spec fn action_step(pre: CoreModel, a: Action, r: ApplyOutcome, post: CoreModel) -> bool {
    match a {
        Action::Register { desc, read, write } => post.timers == pre.timers && post.timers_next
            == pre.timers_next && (r matches ApplyOutcome::Forward(op) && op matches MuxOp::Add {
            token,
            desc: d,
            read: rd,
            write: wr,
        } && d == desc && rd == read && wr == write && !pre.slots.dom().contains(token.idx as int)
            && post.slots == pre.slots.insert(
            token.idx as int,
            SlotState::initial_spec(desc, read, write),
        )),
        Action::Deregister { token } => post.timers == pre.timers && post.timers_next
            == pre.timers_next && (if pre.slots.dom().contains(token.idx as int) {
            post.slots == pre.slots.remove(token.idx as int) && r == ApplyOutcome::Forward(
                MuxOp::Remove { token, desc: pre.slots[token.idx as int].desc },
            )
        } else {
            post.slots == pre.slots && r == ApplyOutcome::Rejected(RegistryError::UnknownToken)
        }),
        Action::ScheduleTimeout { deadline, work } => post.slots == pre.slots && (
        r matches ApplyOutcome::Scheduled(t) && t.id == pre.timers_next && post.timers_next
            == pre.timers_next + 1 && post.timers == pre.timers.take(
            insert_pos(pre.timers, deadline),
        ).push(TimerEntry { deadline, seq: t.id, payload: work }) + pre.timers.skip(
            insert_pos(pre.timers, deadline),
        )),
        Action::CancelTimeout { token } => post.slots == pre.slots && r == ApplyOutcome::Cancelled
            && post.timers_next == pre.timers_next && (if (exists|k: int|
            0 <= k < pre.timers.len() && pre.timers[k].seq == token.id) {
            exists|k: int|
                0 <= k < pre.timers.len() && pre.timers[k].seq == token.id && post.timers
                    == pre.timers.remove(k)
        } else {
            post.timers == pre.timers
        }),
        Action::RunOnLoop { work } => post.slots == pre.slots && post.timers == pre.timers
            && post.timers_next == pre.timers_next && r == ApplyOutcome::Run(work),
    }
}

/// The bare actions of a sequence of queue items, in order.
pub open spec fn action_values(s: Seq<QueueItem<Action>>) -> Seq<Action> {
    s.map_values(|it: QueueItem<Action>| it.value)
}

/// A batch of actions was applied in order: the trace of models starts at
/// `first`, ends at `last`, and each consecutive pair is one action's step.
pub open spec fn batch_applied(
    trace: Seq<CoreModel>,
    acts: Seq<Action>,
    outs: Seq<ApplyOutcome>,
    first: CoreModel,
    last: CoreModel,
) -> bool {
    &&& trace.len() == acts.len() + 1
    &&& outs.len() == acts.len()
    &&& trace[0] == first
    &&& trace[acts.len() as int] == last
    &&& forall|i: int|
        0 <= i < acts.len() ==> #[trigger] action_step(trace[i], acts[i], outs[i], trace[i + 1])
}

/// The event loop: registry, timer store, queue, and the cycle state.
pub struct EventLoop {
    registry: Registry,
    wheel: TimerWheel<u64>,
    queue: CrossQueue<Action>,
    state: LoopState,
    id: u64,
}

impl EventLoop {
    /// The live resources: token index to slot.
    pub closed spec fn slots(self) -> Map<int, SlotState> {
        self.registry.slots_map()
    }

    /// Whether a token is live.
    pub open spec fn is_live(self, t: Token) -> bool {
        self.slots().dom().contains(t.idx as int)
    }

    /// The pending timeouts, in firing order.
    pub closed spec fn timers(self) -> Seq<TimerEntry<u64>> {
        self.wheel.pending()
    }

    /// The insertion number the next scheduled timeout will take.
    pub closed spec fn timers_next(self) -> u64 {
        self.wheel.next_insertion()
    }

    /// The queued cross-thread actions not yet drained.
    pub closed spec fn queued(self) -> Seq<QueueItem<Action>> {
        self.queue.pending()
    }

    /// Whether the queue still accepts pushes.
    pub closed spec fn queue_open(self) -> bool {
        self.queue.is_open()
    }

    /// Where the loop stands in its cycle.
    pub closed spec fn state_spec(self) -> LoopState {
        self.state
    }

    /// The loop's identity, checked by loop-affine data.
    pub closed spec fn id_spec(self) -> u64 {
        self.id
    }

    /// The loop's invariant: its timer store is well-formed and nothing
    /// queued asks for more than the machine limits allow.
    pub open spec fn wf(self) -> bool {
        &&& firing_ordered(self.timers())
        &&& distinct_seqs(self.timers())
        &&& forall|i: int| 0 <= i < self.timers().len() ==> self.timers()[i].seq < self.timers_next()
        &&& forall|i: int|
            0 <= i < self.queued().len() ==> action_wf(#[trigger] self.queued()[i].value)
    }

    /// The loop's structures as the model one queued action steps.
    pub open spec fn model(self) -> CoreModel {
        CoreModel { slots: self.slots(), timers: self.timers(), timers_next: self.timers_next() }
    }

    /// A fresh loop: Idle, nothing registered, pending or queued.
    pub fn new(id: u64) -> (r: EventLoop)
        ensures
            r.wf(),
            r.slots() == Map::<int, SlotState>::empty(),
            r.timers() == Seq::<TimerEntry<u64>>::empty(),
            r.timers_next() == 0,
            r.queued() == Seq::<QueueItem<Action>>::empty(),
            r.queue_open(),
            r.state_spec() == LoopState::Idle,
            r.id_spec() == id,
    {
        EventLoop {
            registry: Registry::new(),
            wheel: TimerWheel::new(),
            queue: CrossQueue::new(),
            state: LoopState::Idle,
            id,
        }
    }

    /// Where the loop stands in its cycle.
    pub fn state(&self) -> (r: LoopState)
        ensures
            r == self.state_spec(),
    {
        self.state
    }

    /// The loop's identity.
    pub fn id(&self) -> (r: u64)
        ensures
            r == self.id_spec(),
    {
        self.id
    }

    /// How many timeouts were ever scheduled: the next insertion number,
    /// letting a driver check the scheduling limit before it applies a
    /// drained action.
    pub fn timer_insertions(&self) -> (r: u64)
        ensures
            r == self.timers_next(),
    {
        self.wheel.insertions()
    }

    /// How many cross-thread actions wait in the queue.
    pub fn queued_len(&self) -> (r: usize)
        ensures
            r == self.queued().len(),
    {
        self.queue.len()
    }

    /// Registers a resource on the loop thread: a token not live before is
    /// issued for it, and the matching add is handed back for the driver to
    /// forward to the multiplexer synchronously.
    pub fn register(&mut self, desc: u64, read: bool, write: bool) -> (r: (Token, MuxOp))
        requires
            desc <= DESC_LIMIT,
        ensures
            !old(self).is_live(r.0),
            final(self).slots() == old(self).slots().insert(
                r.0.idx as int,
                SlotState::initial_spec(desc, read, write),
            ),
            r.1 == (MuxOp::Add { token: r.0, desc, read, write }),
            final(self).only_slots_changed(*old(self)),
    {
        let t = self.registry.register(desc, read, write);
        (t, MuxOp::Add { token: t, desc, read, write })
    }

    /// Replaces a live token's interest mask and hands back the update to
    /// forward; a token that is not live is a reported error.
    pub fn reregister(&mut self, t: Token, read: bool, write: bool) -> (r: Result<MuxOp, RegistryError>)
        ensures
            r is Ok <==> old(self).is_live(t),
            old(self).is_live(t) ==> final(self).slots() == old(self).slots().insert(
                t.idx as int,
                SlotState { read_interest: read, write_interest: write, ..old(self).slots()[t.idx as int] },
            ) && r == Ok::<MuxOp, RegistryError>(
                MuxOp::Update { token: t, desc: old(self).slots()[t.idx as int].desc, read, write },
            ),
            !old(self).is_live(t) ==> final(self).slots() == old(self).slots() && r == Err::<
                MuxOp,
                RegistryError,
            >(RegistryError::UnknownToken),
            final(self).only_slots_changed(*old(self)),
    {
        match self.registry.resolve(t) {
            Some(s) => {
                let res = self.registry.reregister(t, read, write);
                proof {
                    assert(res is Ok);
                }
                Ok(MuxOp::Update { token: t, desc: s.desc, read, write })
            },
            None => {
                let res = self.registry.reregister(t, read, write);
                Err(RegistryError::UnknownToken)
            },
        }
    }

    /// Deregisters a live token, handing back the removal to forward;
    /// deregistering a token that is not live is a reported error, not
    /// undefined behavior.
    pub fn deregister(&mut self, t: Token) -> (r: Result<MuxOp, RegistryError>)
        ensures
            r is Ok <==> old(self).is_live(t),
            old(self).is_live(t) ==> final(self).slots() == old(self).slots().remove(t.idx as int)
                && r == Ok::<MuxOp, RegistryError>(
                MuxOp::Remove { token: t, desc: old(self).slots()[t.idx as int].desc },
            ),
            !old(self).is_live(t) ==> final(self).slots() == old(self).slots() && r == Err::<
                MuxOp,
                RegistryError,
            >(RegistryError::UnknownToken),
            final(self).only_slots_changed(*old(self)),
    {
        match self.registry.resolve(t) {
            Some(s) => {
                let res = self.registry.deregister(t);
                proof {
                    assert(res is Ok);
                }
                Ok(MuxOp::Remove { token: t, desc: s.desc })
            },
            None => {
                let res = self.registry.deregister(t);
                Err(RegistryError::UnknownToken)
            },
        }
    }

    /// Resolves a token to its slot for the dispatch step.
    pub fn resolve(&self, t: Token) -> (r: Option<SlotState>)
        ensures
            self.is_live(t) ==> r == Some(self.slots()[t.idx as int]),
            !self.is_live(t) ==> r is None,
    {
        self.registry.resolve(t)
    }

    /// Schedules work for an absolute deadline; the token was never issued
    /// by this loop before, and the entry takes its place in firing order.
    pub fn schedule_timeout(&mut self, deadline: u64, work: u64) -> (t: TimeoutToken)
        requires
            old(self).wf(),
            old(self).timers_next() < 0xFFFF_FFFF_FFFF_FFFF,
        ensures
            final(self).wf(),
            t.id == old(self).timers_next(),
            final(self).timers_next() == old(self).timers_next() + 1,
            ({
                let k = insert_pos(old(self).timers(), deadline);
                &&& 0 <= k <= old(self).timers().len()
                &&& (forall|j: int| 0 <= j < k ==> old(self).timers()[j].deadline <= deadline)
                &&& (k == old(self).timers().len() || old(self).timers()[k].deadline > deadline)
                &&& final(self).timers() == old(self).timers().take(k).push(
                    TimerEntry { deadline, seq: t.id, payload: work },
                ) + old(self).timers().skip(k)
            }),
            final(self).only_timers_changed(*old(self)),
    {
        let t = self.wheel.insert(deadline, work);
        proof {
            assert(final(self).queued() == old(self).queued());
            assert forall|i: int|
                0 <= i < final(self).queued().len() implies action_wf(
                #[trigger] final(self).queued()[i].value) by {
                assert(action_wf(old(self).queued()[i].value));
            }
        }
        t
    }

    /// Cancels a pending timeout; succeeds as a no-op when the entry
    /// already fired or was already cancelled, so the race between firing
    /// and cancelling can never deliver twice.
    pub fn cancel_timeout(&mut self, t: TimeoutToken) -> (r: Option<u64>)
        requires
            old(self).wf(),
        ensures
            final(self).wf(),
            final(self).timers_next() == old(self).timers_next(),
            r is Some <==> old(self).timer_pending(t),
            old(self).timer_pending(t) ==> final(self).timers() == old(self).timers().remove(
                old(self).timer_index(t),
            ) && r == Some(old(self).timers()[old(self).timer_index(t)].payload),
            !old(self).timer_pending(t) ==> final(self).timers() == old(self).timers(),
            final(self).only_timers_changed(*old(self)),
    {
        let r = self.wheel.cancel(t);
        proof {
            assert(final(self).queued() == old(self).queued());
            assert forall|i: int|
                0 <= i < final(self).queued().len() implies action_wf(
                #[trigger] final(self).queued()[i].value) by {
                assert(action_wf(old(self).queued()[i].value));
            }
        }
        r
    }

    /// Whether the timeout named by a token is still pending.
    pub open spec fn timer_pending(self, t: TimeoutToken) -> bool {
        exists|i: int| 0 <= i < self.timers().len() && self.timers()[i].seq == t.id
    }

    /// The index of a pending timeout's entry.
    pub open spec fn timer_index(self, t: TimeoutToken) -> int {
        choose|i: int| 0 <= i < self.timers().len() && self.timers()[i].seq == t.id
    }

    /// The deadline to hand the multiplexer: the earlier of the explicit
    /// request and the nearest pending timeout, so a timeout scheduled this
    /// iteration already bounds this iteration's poll.
    pub fn poll_deadline(&self, explicit: Option<u64>) -> (r: Option<u64>)
        requires
            self.wf(),
        ensures
            self.timers().len() == 0 && explicit is None ==> r is None,
            self.timers().len() == 0 && explicit is Some ==> r == explicit,
            self.timers().len() > 0 ==> (r matches Some(d) && d <= self.timers()[0].deadline && (
            match explicit {
                Some(e) => d == if e <= self.timers()[0].deadline {
                    e
                } else {
                    self.timers()[0].deadline
                },
                None => d == self.timers()[0].deadline,
            })),
    {
        let nearest = self.wheel.next_deadline();
        match (explicit, nearest) {
            (None, None) => None,
            (Some(e), None) => Some(e),
            (None, Some(d)) => Some(d),
            (Some(e), Some(d)) => if e <= d {
                Some(e)
            } else {
                Some(d)
            },
        }
    }

    /// Fires every timeout due at `now`: exactly the entries with deadline
    /// at or before it, in deadline order with insertion-order tie-break,
    /// each removed so it can never fire again.
    pub fn expire_timers(&mut self, now: u64) -> (fired: Vec<u64>)
        requires
            old(self).wf(),
        ensures
            final(self).wf(),
            final(self).timers_next() == old(self).timers_next(),
            ({
                let k = expired_count(old(self).timers(), now);
                &&& fired@ == old(self).timers().take(k).map_values(
                    |e: TimerEntry<u64>| e.payload,
                )
                &&& final(self).timers() == old(self).timers().skip(k)
            }),
            final(self).only_timers_changed(*old(self)),
    {
        let fired = self.wheel.drain_expired(now);
        proof {
            assert(final(self).queued() == old(self).queued());
            assert forall|i: int|
                0 <= i < final(self).queued().len() implies action_wf(
                #[trigger] final(self).queued()[i].value) by {
                assert(action_wf(old(self).queued()[i].value));
            }
        }
        fired
    }

    /// A handle operation from any thread: registration becomes a queue
    /// item, never a direct touch of the registry.
    pub fn handle_register(&mut self, from: u64, desc: u64, read: bool, write: bool) -> (r: Result<
        (),
        QueueError,
    >)
        requires
            desc <= DESC_LIMIT,
        ensures
            final(self).only_queued_changed(*old(self)),
            old(self).queue_open() ==> r is Ok && final(self).queued() == old(self).queued().push(
                QueueItem { from, value: Action::Register { desc, read, write } },
            ),
            !old(self).queue_open() ==> r == Err::<(), QueueError>(QueueError::LoopGone) && final(
                self).queued() == old(self).queued(),
    {
        self.queue.push(from, Action::Register { desc, read, write })
    }

    /// A handle operation: deregistration becomes a queue item.
    pub fn handle_deregister(&mut self, from: u64, token: Token) -> (r: Result<(), QueueError>)
        ensures
            final(self).only_queued_changed(*old(self)),
            old(self).queue_open() ==> r is Ok && final(self).queued() == old(self).queued().push(
                QueueItem { from, value: Action::Deregister { token } },
            ),
            !old(self).queue_open() ==> r == Err::<(), QueueError>(QueueError::LoopGone) && final(
                self).queued() == old(self).queued(),
    {
        self.queue.push(from, Action::Deregister { token })
    }

    /// A handle operation: a timeout request becomes a queue item.
    pub fn handle_schedule_timeout(&mut self, from: u64, deadline: u64, work: u64) -> (r: Result<
        (),
        QueueError,
    >)
        ensures
            final(self).only_queued_changed(*old(self)),
            old(self).queue_open() ==> r is Ok && final(self).queued() == old(self).queued().push(
                QueueItem { from, value: Action::ScheduleTimeout { deadline, work } },
            ),
            !old(self).queue_open() ==> r == Err::<(), QueueError>(QueueError::LoopGone) && final(
                self).queued() == old(self).queued(),
    {
        self.queue.push(from, Action::ScheduleTimeout { deadline, work })
    }

    /// A handle operation: a cancellation becomes a queue item.
    pub fn handle_cancel_timeout(&mut self, from: u64, token: TimeoutToken) -> (r: Result<
        (),
        QueueError,
    >)
        ensures
            final(self).only_queued_changed(*old(self)),
            old(self).queue_open() ==> r is Ok && final(self).queued() == old(self).queued().push(
                QueueItem { from, value: Action::CancelTimeout { token } },
            ),
            !old(self).queue_open() ==> r == Err::<(), QueueError>(QueueError::LoopGone) && final(
                self).queued() == old(self).queued(),
    {
        self.queue.push(from, Action::CancelTimeout { token })
    }

    /// A handle operation: work to run on the loop thread at the next
    /// opportunity becomes a queue item.
    pub fn handle_spawn(&mut self, from: u64, work: u64) -> (r: Result<(), QueueError>)
        ensures
            final(self).only_queued_changed(*old(self)),
            old(self).queue_open() ==> r is Ok && final(self).queued() == old(self).queued().push(
                QueueItem { from, value: Action::RunOnLoop { work } },
            ),
            !old(self).queue_open() ==> r == Err::<(), QueueError>(QueueError::LoopGone) && final(
                self).queued() == old(self).queued(),
    {
        self.queue.push(from, Action::RunOnLoop { work })
    }

    /// Tears the queue's consumer side down: later handle operations are
    /// reported as `LoopGone` instead of silently dropped.
    pub fn close_queue(&mut self)
        ensures
            final(self).only_queued_changed(*old(self)),
            !final(self).queue_open(),
            final(self).queued() == old(self).queued(),
    {
        self.queue.close()
    }

    /// Step one of an iteration: takes every action queued so far, in push
    /// order, leaving the queue empty; the loop enters its draining state.
    /// Work queued during this iteration is applied before the deadline is
    /// computed, so no extra wakeup cycle is ever needed.
    pub fn drain_queue(&mut self) -> (r: Vec<QueueItem<Action>>)
        ensures
            r@ == old(self).queued(),
            final(self).queued() == Seq::<QueueItem<Action>>::empty(),
            final(self).queue_open() == old(self).queue_open(),
            final(self).state_spec() == LoopState::DrainingQueue,
            final(self).slots() == old(self).slots(),
            final(self).timers() == old(self).timers(),
            final(self).timers_next() == old(self).timers_next(),
            final(self).id_spec() == old(self).id_spec(),
    {
        self.state = LoopState::DrainingQueue;
        self.queue.pop_all()
    }

    /// Step one of an iteration, whole: drains the queue and applies every
    /// action, in push order. The outcomes come back in the same order, one
    /// per action, and some trace of intermediate models connects the
    /// loop's structures before the batch to the ones after it, each link
    /// being exactly one action's step.
    pub fn apply_queued(&mut self) -> (outs: Vec<ApplyOutcome>)
        requires
            old(self).wf(),
            old(self).timers_next() + old(self).queued().len() <= 0xFFFF_FFFF_FFFF_FFFF,
        ensures
            final(self).wf(),
            final(self).queued() == Seq::<QueueItem<Action>>::empty(),
            final(self).queue_open() == old(self).queue_open(),
            final(self).state_spec() == LoopState::DrainingQueue,
            final(self).id_spec() == old(self).id_spec(),
            outs@.len() == old(self).queued().len(),
            exists|trace: Seq<CoreModel>|
                #[trigger] batch_applied(
                    trace,
                    action_values(old(self).queued()),
                    outs@,
                    old(self).model(),
                    final(self).model(),
                ),
    {
        let items = self.drain_queue();
        let ghost acts = action_values(items@);
        let ghost mut trace: Seq<CoreModel> = seq![self.model()];
        let mut outs: Vec<ApplyOutcome> = Vec::new();
        let mut i: usize = 0;
        while i < items.len()
            invariant
                0 <= i <= items.len(),
                items@ == old(self).queued(),
                acts == action_values(items@),
                old(self).wf(),
                old(self).timers_next() + items@.len() <= 0xFFFF_FFFF_FFFF_FFFF,
                self.wf(),
                self.queued() == Seq::<QueueItem<Action>>::empty(),
                self.queue_open() == old(self).queue_open(),
                self.state_spec() == LoopState::DrainingQueue,
                self.id_spec() == old(self).id_spec(),
                self.timers_next() <= old(self).timers_next() + i,
                outs@.len() == i,
                trace.len() == i + 1,
                trace[0] == old(self).model(),
                trace[i as int] == self.model(),
                forall|j: int|
                    0 <= j < i ==> #[trigger] action_step(trace[j], acts[j], outs@[j], trace[j + 1]),
            decreases items.len() - i,
        {
            let a = items[i].value;
            proof {
                assert(acts[i as int] == a);
                assert(action_wf(a)) by {
                    assert(action_wf(old(self).queued()[i as int].value));
                }
            }
            let ghost pre = *self;
            let out = self.apply_action(a);
            outs.push(out);
            i = i + 1;
            proof {
                trace = trace.push(self.model());
                assert(trace[(i - 1) as int] == pre.model());
                assert(action_step(pre.model(), a, out, self.model())) by {
                    match a {
                        Action::CancelTimeout { token } => {
                            if pre.timer_pending(token) {
                                let k = pre.timer_index(token);
                                assert(0 <= k < pre.timers().len() && pre.timers()[k].seq
                                    == token.id && self.timers() == pre.timers().remove(k));
                            }
                        },
                        _ => {},
                    }
                }
            }
        }
        proof {
            assert(batch_applied(trace, acts, outs@, old(self).model(), final(self).model()));
        }
        outs
    }

    /// Applies one drained action to the loop's own structures, handing
    /// back what the driver must do: forward a registration change, run a
    /// spawned piece of work, or nothing more.
    pub fn apply_action(&mut self, a: Action) -> (r: ApplyOutcome)
        requires
            old(self).wf(),
            action_wf(a),
            old(self).timers_next() < 0xFFFF_FFFF_FFFF_FFFF,
        ensures
            final(self).wf(),
            final(self).queued() == old(self).queued(),
            final(self).queue_open() == old(self).queue_open(),
            final(self).state_spec() == old(self).state_spec(),
            final(self).id_spec() == old(self).id_spec(),
            match a {
                Action::Register { desc, read, write } => final(self).timers() == old(
                    self).timers() && final(self).timers_next() == old(self).timers_next() && (
                r matches ApplyOutcome::Forward(op) && op matches MuxOp::Add {
                    token,
                    desc: d,
                    read: rd,
                    write: wr,
                } && d == desc && rd == read && wr == write && !old(self).is_live(token) && final(
                    self).slots() == old(self).slots().insert(
                    token.idx as int,
                    SlotState::initial_spec(desc, read, write),
                )),
                Action::Deregister { token } => final(self).timers() == old(self).timers() && final(
                    self).timers_next() == old(self).timers_next() && (if old(self).is_live(
                    token,
                ) {
                    final(self).slots() == old(self).slots().remove(token.idx as int) && r
                        == ApplyOutcome::Forward(
                        MuxOp::Remove { token, desc: old(self).slots()[token.idx as int].desc },
                    )
                } else {
                    final(self).slots() == old(self).slots() && r == ApplyOutcome::Rejected(
                        RegistryError::UnknownToken,
                    )
                }),
                Action::ScheduleTimeout { deadline, work } => final(self).slots() == old(
                    self).slots() && (r matches ApplyOutcome::Scheduled(t) && t.id == old(
                    self).timers_next() && final(self).timers_next() == old(self).timers_next() + 1
                    && final(self).timers() == old(self).timers().take(
                    insert_pos(old(self).timers(), deadline),
                ).push(TimerEntry { deadline, seq: t.id, payload: work }) + old(
                    self).timers().skip(insert_pos(old(self).timers(), deadline))),
                Action::CancelTimeout { token } => final(self).slots() == old(self).slots() && r
                    == ApplyOutcome::Cancelled && final(self).timers_next() == old(
                    self).timers_next() && (if old(self).timer_pending(token) {
                    final(self).timers() == old(self).timers().remove(
                        old(self).timer_index(token),
                    )
                } else {
                    final(self).timers() == old(self).timers()
                }),
                Action::RunOnLoop { work } => final(self).slots() == old(self).slots() && final(
                    self).timers() == old(self).timers() && final(self).timers_next() == old(
                    self).timers_next() && r == ApplyOutcome::Run(work),
            },
    {
        match a {
            Action::Register { desc, read, write } => {
                let (t, op) = self.register(desc, read, write);
                ApplyOutcome::Forward(op)
            },
            Action::Deregister { token } => match self.deregister(token) {
                Ok(op) => ApplyOutcome::Forward(op),
                Err(e) => ApplyOutcome::Rejected(e),
            },
            Action::ScheduleTimeout { deadline, work } => {
                let t = self.schedule_timeout(deadline, work);
                ApplyOutcome::Scheduled(t)
            },
            Action::CancelTimeout { token } => {
                let cancelled = self.cancel_timeout(token);
                ApplyOutcome::Cancelled
            },
            Action::RunOnLoop { work } => ApplyOutcome::Run(work),
        }
    }

    /// Step four of an iteration: one readiness report is dispatched. Only
    /// the reported token's slot moves, and only its parked, interested
    /// waiters are woken, in reader-then-writer order; a report for a token
    /// no longer live wakes nobody and changes nothing.
    pub fn dispatch_event(&mut self, ev: ReadyEvent) -> (wakes: Vec<Wake>)
        ensures
            final(self).timers() == old(self).timers(),
            final(self).timers_next() == old(self).timers_next(),
            final(self).queued() == old(self).queued(),
            final(self).queue_open() == old(self).queue_open(),
            final(self).id_spec() == old(self).id_spec(),
            final(self).state_spec() == LoopState::Dispatching,
            !old(self).is_live(ev.token) ==> final(self).slots() == old(self).slots() && wakes@
                == Seq::<Wake>::empty(),
            old(self).is_live(ev.token) ==> final(self).slots() == old(self).slots().insert(
                ev.token.idx as int,
                slot_after_event(old(self).slots()[ev.token.idx as int], ev),
            ) && wakes@ == wake_list(old(self).slots()[ev.token.idx as int], ev),
    {
        self.state = LoopState::Dispatching;
        let mut wakes: Vec<Wake> = Vec::new();
        match self.registry.resolve(ev.token) {
            Some(s) => {
                if ev.readable && s.read_interest && s.read_waiter {
                    wakes.push(Wake::Reader(ev.token));
                }
                if ev.writable && s.write_interest && s.write_waiter {
                    wakes.push(Wake::Writer(ev.token));
                }
                let updated = SlotState {
                    read_ready: s.read_ready || (ev.readable && s.read_interest),
                    write_ready: s.write_ready || (ev.writable && s.write_interest),
                    read_waiter: s.read_waiter && !(ev.readable && s.read_interest),
                    write_waiter: s.write_waiter && !(ev.writable && s.write_interest),
                    ..s
                };
                let res = self.registry.set_slot(ev.token, updated);
                proof {
                    assert(res is Ok);
                    assert(wakes@ =~= wake_list(old(self).slots()[ev.token.idx as int], ev));
                }
                wakes
            },
            None => {
                proof {
                    assert(wakes@ =~= Seq::<Wake>::empty());
                }
                wakes
            },
        }
    }

    /// One poll of a token's readable direction. A latched readable report
    /// is consumed — asking again suspends until a fresh report arrives; a
    /// second concurrent waiter on the same direction is a usage error,
    /// reported deterministically and changing nothing.
    pub fn poll_read(&mut self, t: Token) -> (r: PollOutcome)
        ensures
            final(self).only_slots_changed(*old(self)),
            !old(self).is_live(t) ==> r == PollOutcome::UnknownToken && final(self).slots() == old(
                self).slots(),
            old(self).is_live(t) ==> ({
                let s = old(self).slots()[t.idx as int];
                if s.read_ready {
                    r == PollOutcome::Ready && final(self).slots() == old(self).slots().insert(
                        t.idx as int,
                        SlotState { read_ready: false, ..s },
                    )
                } else if s.read_waiter {
                    r == PollOutcome::AlreadyWaiting && final(self).slots() == old(self).slots()
                } else {
                    r == PollOutcome::Parked && final(self).slots() == old(self).slots().insert(
                        t.idx as int,
                        SlotState { read_waiter: true, ..s },
                    )
                }
            }),
    {
        match self.registry.resolve(t) {
            None => PollOutcome::UnknownToken,
            Some(s) => {
                if s.read_ready {
                    let res = self.registry.set_slot(t, SlotState { read_ready: false, ..s });
                    proof {
                        assert(res is Ok);
                    }
                    PollOutcome::Ready
                } else if s.read_waiter {
                    PollOutcome::AlreadyWaiting
                } else {
                    let res = self.registry.set_slot(t, SlotState { read_waiter: true, ..s });
                    proof {
                        assert(res is Ok);
                    }
                    PollOutcome::Parked
                }
            },
        }
    }

    /// One poll of a token's writable direction, under the same discipline
    /// as the readable one.
    pub fn poll_write(&mut self, t: Token) -> (r: PollOutcome)
        ensures
            final(self).only_slots_changed(*old(self)),
            !old(self).is_live(t) ==> r == PollOutcome::UnknownToken && final(self).slots() == old(
                self).slots(),
            old(self).is_live(t) ==> ({
                let s = old(self).slots()[t.idx as int];
                if s.write_ready {
                    r == PollOutcome::Ready && final(self).slots() == old(self).slots().insert(
                        t.idx as int,
                        SlotState { write_ready: false, ..s },
                    )
                } else if s.write_waiter {
                    r == PollOutcome::AlreadyWaiting && final(self).slots() == old(self).slots()
                } else {
                    r == PollOutcome::Parked && final(self).slots() == old(self).slots().insert(
                        t.idx as int,
                        SlotState { write_waiter: true, ..s },
                    )
                }
            }),
    {
        match self.registry.resolve(t) {
            None => PollOutcome::UnknownToken,
            Some(s) => {
                if s.write_ready {
                    let res = self.registry.set_slot(t, SlotState { write_ready: false, ..s });
                    proof {
                        assert(res is Ok);
                    }
                    PollOutcome::Ready
                } else if s.write_waiter {
                    PollOutcome::AlreadyWaiting
                } else {
                    let res = self.registry.set_slot(t, SlotState { write_waiter: true, ..s });
                    proof {
                        assert(res is Ok);
                    }
                    PollOutcome::Parked
                }
            },
        }
    }

    /// Re-arms a token's readable interest after its consumer hit a
    /// would-block: readiness is reported again only once this has been
    /// asked for, and the matching interest update is handed back for the
    /// driver to forward. Writable interest is untouched, so a reader's
    /// re-arm can never wake a writer.
    pub fn rearm_read(&mut self, t: Token) -> (r: Result<MuxOp, RegistryError>)
        ensures
            final(self).only_slots_changed(*old(self)),
            r is Ok <==> old(self).is_live(t),
            !old(self).is_live(t) ==> final(self).slots() == old(self).slots() && r == Err::<
                MuxOp,
                RegistryError,
            >(RegistryError::UnknownToken),
            old(self).is_live(t) ==> ({
                let s = old(self).slots()[t.idx as int];
                final(self).slots() == old(self).slots().insert(
                    t.idx as int,
                    SlotState { read_interest: true, read_ready: false, ..s },
                ) && r == Ok::<MuxOp, RegistryError>(
                    MuxOp::Update { token: t, desc: s.desc, read: true, write: s.write_interest },
                )
            }),
    {
        match self.registry.resolve(t) {
            None => Err(RegistryError::UnknownToken),
            Some(s) => {
                let res = self.registry.set_slot(
                    t,
                    SlotState { read_interest: true, read_ready: false, ..s },
                );
                proof {
                    assert(res is Ok);
                }
                Ok(MuxOp::Update { token: t, desc: s.desc, read: true, write: s.write_interest })
            },
        }
    }

    /// Re-arms a token's writable interest after a would-block, leaving
    /// readable interest untouched.
    pub fn rearm_write(&mut self, t: Token) -> (r: Result<MuxOp, RegistryError>)
        ensures
            final(self).only_slots_changed(*old(self)),
            r is Ok <==> old(self).is_live(t),
            !old(self).is_live(t) ==> final(self).slots() == old(self).slots() && r == Err::<
                MuxOp,
                RegistryError,
            >(RegistryError::UnknownToken),
            old(self).is_live(t) ==> ({
                let s = old(self).slots()[t.idx as int];
                final(self).slots() == old(self).slots().insert(
                    t.idx as int,
                    SlotState { write_interest: true, write_ready: false, ..s },
                ) && r == Ok::<MuxOp, RegistryError>(
                    MuxOp::Update { token: t, desc: s.desc, read: s.read_interest, write: true },
                )
            }),
    {
        match self.registry.resolve(t) {
            None => Err(RegistryError::UnknownToken),
            Some(s) => {
                let res = self.registry.set_slot(
                    t,
                    SlotState { write_interest: true, write_ready: false, ..s },
                );
                proof {
                    assert(res is Ok);
                }
                Ok(MuxOp::Update { token: t, desc: s.desc, read: s.read_interest, write: true })
            },
        }
    }

    /// Step five's close: the batch is done and the loop is Idle again,
    /// ready to block in the multiplexer.
    pub fn become_idle(&mut self)
        ensures
            final(self).state_spec() == LoopState::Idle,
            final(self).slots() == old(self).slots(),
            final(self).timers() == old(self).timers(),
            final(self).timers_next() == old(self).timers_next(),
            final(self).queued() == old(self).queued(),
            final(self).queue_open() == old(self).queue_open(),
            final(self).id_spec() == old(self).id_spec(),
    {
        self.state = LoopState::Idle;
    }

    /// Everything but the queue is as in `other`.
    pub open spec fn only_queued_changed(self, other: EventLoop) -> bool {
        &&& self.slots() == other.slots()
        &&& self.timers() == other.timers()
        &&& self.timers_next() == other.timers_next()
        &&& self.state_spec() == other.state_spec()
        &&& self.id_spec() == other.id_spec()
    }

    /// Everything but the slots is as in `other`.
    pub open spec fn only_slots_changed(self, other: EventLoop) -> bool {
        &&& self.timers() == other.timers()
        &&& self.timers_next() == other.timers_next()
        &&& self.queued() == other.queued()
        &&& self.queue_open() == other.queue_open()
        &&& self.state_spec() == other.state_spec()
        &&& self.id_spec() == other.id_spec()
    }

    /// Everything but the timer store is as in `other`.
    pub open spec fn only_timers_changed(self, other: EventLoop) -> bool {
        &&& self.slots() == other.slots()
        &&& self.queued() == other.queued()
        &&& self.queue_open() == other.queue_open()
        &&& self.state_spec() == other.state_spec()
        &&& self.id_spec() == other.id_spec()
    }
}

} // verus!
