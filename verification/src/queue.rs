//! The cross-thread work queue, as the loop thread observes it.
//!
//! Producers holding a loop handle push tagged work items; the loop thread
//! alone drains them. This module gives the queue's functional contract:
//! a push appends, a drain hands back everything pushed so far in queue
//! order and leaves the queue empty, and a push after the consumer side is
//! gone is reported to the caller rather than silently dropped. Each item
//! carries its producer's tag, so delivery in queue order is delivery in
//! push order for every single producer.

use vstd::prelude::*;

verus! {

/// Pushing failed because the consuming loop is gone.
#[derive(Clone, Copy, PartialEq, Eq, Structural, Debug)]
pub enum QueueError {
    /// The loop that would have drained the item has been torn down.
    LoopGone,
}

/// One unit of cross-thread work, tagged with the producer that pushed it.
pub struct QueueItem<T> {
    /// Tag of the producer that pushed this item.
    pub from: u64,
    /// The work itself.
    pub value: T,
}

/// The queue feeding cross-thread work into the loop, modeled from the
/// consumer's side: the items pushed and not yet drained, in push order.
pub struct CrossQueue<T> {
    items: Vec<QueueItem<T>>,
    open: bool,
}

/// The items of `s` pushed by producer `p`, in order.
pub open spec fn of_producer<T>(s: Seq<QueueItem<T>>, p: u64) -> Seq<QueueItem<T>> {
    s.filter(|it: QueueItem<T>| it.from == p)
}

impl<T> CrossQueue<T> {
    /// The items pushed so far and not yet drained, oldest first.
    pub closed spec fn pending(self) -> Seq<QueueItem<T>> {
        self.items@
    }

    /// Whether the consuming loop still accepts work.
    pub closed spec fn is_open(self) -> bool {
        self.open
    }

    /// An empty queue whose consumer is alive.
    pub fn new() -> (r: CrossQueue<T>)
        ensures
            r.pending() == Seq::<QueueItem<T>>::empty(),
            r.is_open(),
    {
        CrossQueue { items: Vec::new(), open: true }
    }

    /// Pushes one work item: appended behind everything already pending
    /// while the loop is alive; reported back as `LoopGone`, and not
    /// enqueued, once the consumer side has been torn down.
    pub fn push(&mut self, from: u64, value: T) -> (r: Result<(), QueueError>)
        ensures
            final(self).is_open() == old(self).is_open(),
            old(self).is_open() ==> r is Ok && final(self).pending() == old(self).pending().push(
                QueueItem { from, value },
            ),
            !old(self).is_open() ==> r == Err::<(), QueueError>(QueueError::LoopGone) && final(
                self).pending() == old(self).pending(),
    {
        if self.open {
            self.items.push(QueueItem { from, value });
            Ok(())
        } else {
            Err(QueueError::LoopGone)
        }
    }

    /// Drains everything enqueued so far, in push order, leaving the queue
    /// empty; only the loop thread calls this.
    pub fn pop_all(&mut self) -> (r: Vec<QueueItem<T>>)
        ensures
            r@ == old(self).pending(),
            final(self).pending() == Seq::<QueueItem<T>>::empty(),
            final(self).is_open() == old(self).is_open(),
    {
        let mut drained: Vec<QueueItem<T>> = Vec::new();
        core::mem::swap(&mut drained, &mut self.items);
        drained
    }

    /// How many items wait in the queue.
    pub fn len(&self) -> (r: usize)
        ensures
            r == self.pending().len(),
    {
        self.items.len()
    }

    /// Tears the consumer side down: pushes from now on are reported as
    /// `LoopGone`; what was already pending stays readable by the owner.
    pub fn close(&mut self)
        ensures
            !final(self).is_open(),
            final(self).pending() == old(self).pending(),
    {
        self.open = false;
    }
}

/// Every producer observes its pushes in order. A push extends the queue's
/// view for its own producer by exactly that item and leaves every other
/// producer's view untouched; since a drain returns the pending items
/// verbatim, each producer's items come out in its push order.
pub proof fn lemma_producer_fifo<T>(s: Seq<QueueItem<T>>, item: QueueItem<T>, p: u64)
    ensures
        item.from == p ==> of_producer(s.push(item), p) == of_producer(s, p).push(item),
        item.from != p ==> of_producer(s.push(item), p) == of_producer(s, p),
{
    reveal(Seq::filter);
    let pred = |it: QueueItem<T>| it.from == p;
    assert(s.push(item).drop_last() =~= s);
    assert(s.push(item).last() == item);
    assert(s.push(item).filter(pred) == if pred(item) {
        s.filter(pred).push(item)
    } else {
        s.filter(pred)
    });
}

} // verus!
