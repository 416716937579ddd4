//! Component-level behavior: slots, the timer store, the queue, the
//! channel, and loop-affine data.

use reactor_core::Channel;
use reactor_core::ChannelError;
use reactor_core::CrossQueue;
use reactor_core::LoopData;
use reactor_core::QueueError;
use reactor_core::RecvPoll;
use reactor_core::SlotState;
use reactor_core::TimerWheel;
use reactor_core::DESC_LIMIT;
use reactor_core::pack;
use reactor_core::unpack;

#[test]
fn slot_pack_roundtrip() {
    let s = SlotState {
        desc: 1234,
        read_interest: true,
        write_interest: false,
        read_ready: true,
        write_ready: true,
        read_waiter: false,
        write_waiter: true,
    };
    assert_eq!(unpack(pack(s)), s);
}

#[test]
fn slot_pack_roundtrip_largest_desc() {
    let s = SlotState {
        desc: DESC_LIMIT,
        read_interest: true,
        write_interest: true,
        read_ready: false,
        write_ready: false,
        read_waiter: true,
        write_waiter: false,
    };
    assert_eq!(unpack(pack(s)), s);
}

#[test]
fn timer_drain_orders_by_deadline_then_insertion() {
    let mut wheel: TimerWheel<u64> = TimerWheel::new();
    wheel.insert(30, 100);
    wheel.insert(10, 200);
    wheel.insert(20, 300);
    wheel.insert(10, 400);
    let fired = wheel.drain_expired(20);
    assert_eq!(fired, vec![200, 400, 300]);
}

#[test]
fn timer_drain_never_delivers_twice() {
    let mut wheel: TimerWheel<u64> = TimerWheel::new();
    wheel.insert(5, 1);
    wheel.insert(7, 2);
    assert_eq!(wheel.drain_expired(6), vec![1]);
    assert_eq!(wheel.drain_expired(6), Vec::<u64>::new());
    assert_eq!(wheel.drain_expired(7), vec![2]);
    assert_eq!(wheel.drain_expired(7), Vec::<u64>::new());
}

#[test]
fn timer_drain_leaves_later_deadlines() {
    let mut wheel: TimerWheel<u64> = TimerWheel::new();
    wheel.insert(1, 10);
    wheel.insert(9, 20);
    assert_eq!(wheel.next_deadline(), Some(1));
    assert_eq!(wheel.drain_expired(1), vec![10]);
    assert_eq!(wheel.next_deadline(), Some(9));
}

#[test]
fn timer_cancel_before_deadline_absent_from_drains() {
    let mut wheel: TimerWheel<u64> = TimerWheel::new();
    let keep = wheel.insert(4, 1);
    let gone = wheel.insert(4, 2);
    let _ = keep;
    assert_eq!(wheel.cancel(gone), Some(2));
    assert_eq!(wheel.drain_expired(100), vec![1]);
}

#[test]
fn timer_cancel_after_fire_is_noop() {
    let mut wheel: TimerWheel<u64> = TimerWheel::new();
    let t = wheel.insert(0, 7);
    assert_eq!(wheel.drain_expired(0), vec![7]);
    assert_eq!(wheel.cancel(t), None);
    assert_eq!(wheel.drain_expired(100), Vec::<u64>::new());
}

#[test]
fn timer_zero_deadline_fires_at_zero() {
    let mut wheel: TimerWheel<u64> = TimerWheel::new();
    wheel.insert(0, 42);
    assert_eq!(wheel.next_deadline(), Some(0));
    assert_eq!(wheel.drain_expired(0), vec![42]);
}

#[test]
fn queue_single_producer_pop_all_in_push_order() {
    let mut q: CrossQueue<u64> = CrossQueue::new();
    for v in 0..50u64 {
        q.push(1, v).unwrap();
    }
    let drained = q.pop_all();
    assert_eq!(drained.len(), 50);
    for (i, item) in drained.iter().enumerate() {
        assert_eq!(item.from, 1);
        assert_eq!(item.value, i as u64);
    }
}

#[test]
fn queue_interleaved_producers_each_keep_their_order() {
    let producers: u64 = 10;
    let per_producer: u64 = 100;
    let mut q: CrossQueue<u64> = CrossQueue::new();
    for round in 0..per_producer {
        for p in 0..producers {
            q.push(p, round).unwrap();
        }
    }
    let drained = q.pop_all();
    assert_eq!(drained.len(), (producers * per_producer) as usize);
    for p in 0..producers {
        let seen: Vec<u64> = drained
            .iter()
            .filter(|item| item.from == p)
            .map(|item| item.value)
            .collect();
        let expected: Vec<u64> = (0..per_producer).collect();
        assert_eq!(seen, expected);
    }
    assert_eq!(q.pop_all().len(), 0);
}

#[test]
fn queue_push_after_close_reports_loop_gone() {
    let mut q: CrossQueue<u64> = CrossQueue::new();
    q.push(0, 1).unwrap();
    q.close();
    assert_eq!(q.push(0, 2), Err(QueueError::LoopGone));
    let drained = q.pop_all();
    assert_eq!(drained.len(), 1);
    assert_eq!(drained[0].value, 1);
}

#[test]
fn channel_delivers_in_send_order_exactly_once() {
    let mut ch: Channel<u64> = Channel::new();
    ch.send(10).unwrap();
    ch.send(20).unwrap();
    assert!(matches!(ch.poll_recv(), RecvPoll::Value(10)));
    assert!(matches!(ch.poll_recv(), RecvPoll::Value(20)));
    assert!(matches!(ch.poll_recv(), RecvPoll::Pending));
}

#[test]
fn channel_ends_when_all_senders_gone() {
    let mut ch: Channel<u64> = Channel::new();
    ch.clone_sender();
    ch.send(5).unwrap();
    ch.drop_sender();
    ch.drop_sender();
    assert!(matches!(ch.poll_recv(), RecvPoll::Value(5)));
    assert!(matches!(ch.poll_recv(), RecvPoll::Closed));
}

#[test]
fn channel_send_after_receiver_dropped_fails() {
    let mut ch: Channel<u64> = Channel::new();
    ch.drop_receiver();
    assert_eq!(ch.send(1), Err(ChannelError::Closed));
}

#[test]
fn loop_data_checks_loop_identity() {
    let cell: LoopData<u64> = LoopData::new(7, 99);
    assert_eq!(cell.get(7).copied(), Ok(99));
    assert!(cell.get(8).is_err());
}

#[test]
fn loop_data_replace_only_on_owner() {
    let mut cell: LoopData<u64> = LoopData::new(3, 1);
    assert!(cell.replace(4, 2).is_err());
    assert_eq!(cell.get(3).copied(), Ok(1));
    assert_eq!(cell.replace(3, 2), Ok(1));
    assert_eq!(cell.get(3).copied(), Ok(2));
}
