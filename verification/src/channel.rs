//! A sender/receiver channel layered on the cross-thread queue.
//!
//! Senders are cloneable and may live on any thread; the single receiver is
//! consumed by loop-resident code. A value sent while the receiver is alive
//! is queued in send order and delivered exactly once; a send after the
//! receiver is gone fails with [`ChannelError::Closed`]. Once every sender
//! is dropped and the buffer runs dry, the receiving side observes the end
//! of the stream instead of suspending forever.

use vstd::prelude::*;

verus! {

/// Sending failed: the receiving side no longer exists.
#[derive(Clone, Copy, PartialEq, Eq, Structural, Debug)]
pub enum ChannelError {
    /// The receiver has been dropped; the value was not enqueued.
    Closed,
}

/// What one receive attempt observes.
pub enum RecvPoll<T> {
    /// The oldest undelivered value, removed from the channel.
    Value(T),
    /// Nothing buffered yet, but a sender is still alive: suspend.
    Pending,
    /// Nothing buffered and every sender is gone: the stream has ended.
    Closed,
}

/// The state one endpoint pair shares: the undelivered values in send
/// order, how many senders are live, and whether the receiver is.
pub struct Channel<T> {
    buf: Vec<T>,
    senders: u64,
    receiver_live: bool,
}

impl<T> Channel<T> {
    /// The values sent and not yet delivered, oldest first.
    pub closed spec fn queued(self) -> Seq<T> {
        self.buf@
    }

    /// How many sender endpoints are live.
    pub closed spec fn sender_count(self) -> u64 {
        self.senders
    }

    /// Whether the receiver endpoint is live.
    pub closed spec fn receiver_alive(self) -> bool {
        self.receiver_live
    }

    /// A fresh endpoint pair: one sender, a live receiver, nothing queued.
    pub fn new() -> (r: Channel<T>)
        ensures
            r.queued() == Seq::<T>::empty(),
            r.sender_count() == 1,
            r.receiver_alive(),
    {
        Channel { buf: Vec::new(), senders: 1, receiver_live: true }
    }

    /// Clones a sender endpoint.
    pub fn clone_sender(&mut self)
        requires
            old(self).sender_count() < 0xFFFF_FFFF_FFFF_FFFF,
        ensures
            final(self).sender_count() == old(self).sender_count() + 1,
            final(self).queued() == old(self).queued(),
            final(self).receiver_alive() == old(self).receiver_alive(),
    {
        self.senders = self.senders + 1;
    }

    /// Drops a sender endpoint; when the last one goes, the receiver will
    /// observe the end of the stream once the buffer is drained.
    pub fn drop_sender(&mut self)
        requires
            old(self).sender_count() > 0,
        ensures
            final(self).sender_count() == old(self).sender_count() - 1,
            final(self).queued() == old(self).queued(),
            final(self).receiver_alive() == old(self).receiver_alive(),
    {
        self.senders = self.senders - 1;
    }

    /// Drops the receiver endpoint: every later send is refused.
    pub fn drop_receiver(&mut self)
        ensures
            !final(self).receiver_alive(),
            final(self).queued() == old(self).queued(),
            final(self).sender_count() == old(self).sender_count(),
    {
        self.receiver_live = false;
    }

    /// Sends a value: appended behind the queued ones while the receiver is
    /// alive, so delivery keeps send order; refused once it is gone.
    pub fn send(&mut self, value: T) -> (r: Result<(), ChannelError>)
        ensures
            final(self).sender_count() == old(self).sender_count(),
            final(self).receiver_alive() == old(self).receiver_alive(),
            old(self).receiver_alive() ==> r is Ok && final(self).queued() == old(
                self).queued().push(value),
            !old(self).receiver_alive() ==> r == Err::<(), ChannelError>(ChannelError::Closed)
                && final(self).queued() == old(self).queued(),
    {
        if self.receiver_live {
            self.buf.push(value);
            Ok(())
        } else {
            Err(ChannelError::Closed)
        }
    }

    /// One receive attempt: the oldest value if any is queued (delivered
    /// exactly once: it leaves the channel), else end-of-stream when every
    /// sender is gone, else a suspension.
    pub fn poll_recv(&mut self) -> (r: RecvPoll<T>)
        ensures
            final(self).sender_count() == old(self).sender_count(),
            final(self).receiver_alive() == old(self).receiver_alive(),
            old(self).queued().len() > 0 ==> final(self).queued() == old(self).queued().skip(1)
                && (r matches RecvPoll::Value(v) && v == old(self).queued()[0]),
            old(self).queued().len() == 0 && old(self).sender_count() == 0 ==> final(self).queued()
                == old(self).queued() && (r matches RecvPoll::Closed),
            old(self).queued().len() == 0 && old(self).sender_count() > 0 ==> final(self).queued()
                == old(self).queued() && (r matches RecvPoll::Pending),
    {
        if self.buf.len() > 0 {
            let v = self.buf.remove(0);
            proof {
                assert(final(self).queued() =~= old(self).queued().skip(1));
            }
            RecvPoll::Value(v)
        } else if self.senders == 0 {
            RecvPoll::Closed
        } else {
            RecvPoll::Pending
        }
    }
}

} // verus!
