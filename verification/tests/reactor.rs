//! Loop-level scenarios: registration round trips, dispatch isolation,
//! queued actions, and immediate timeouts.

use reactor_core::Action;
use reactor_core::ApplyOutcome;
use reactor_core::EventLoop;
use reactor_core::LoopState;
use reactor_core::MuxOp;
use reactor_core::PollOutcome;
use reactor_core::ReadyEvent;
use reactor_core::RegistryError;
use reactor_core::Registry;
use reactor_core::SlotState;
use reactor_core::Wake;

#[test]
fn token_resolves_while_live() {
    let mut lp = EventLoop::new(1);
    let (a, _) = lp.register(10, true, false);
    let (b, _) = lp.register(11, false, true);
    let sa = lp.resolve(a).expect("a is live");
    assert_eq!(sa.desc, 10);
    assert!(sa.read_interest && !sa.write_interest);
    let sb = lp.resolve(b).expect("b is live");
    assert_eq!(sb.desc, 11);
    let op = lp.deregister(a).expect("a was live");
    assert_eq!(op, MuxOp::Remove { token: a, desc: 10 });
    assert!(lp.resolve(a).is_none());
    assert_eq!(lp.resolve(b).expect("b survives").desc, 11);
}

#[test]
fn register_then_deregister_round_trip() {
    let mut lp = EventLoop::new(1);
    let (t, _) = lp.register(5, true, true);
    lp.deregister(t).expect("live");
    assert!(lp.resolve(t).is_none());
    assert_eq!(lp.deregister(t), Err(RegistryError::UnknownToken));
}

#[test]
fn registry_rejects_unknown_token_deterministically() {
    let mut reg = Registry::new();
    let t = reg.register(1, true, false);
    assert!(reg.contains(t));
    assert!(reg.deregister(t).is_ok());
    assert_eq!(reg.deregister(t), Err(RegistryError::UnknownToken));
    assert_eq!(reg.reregister(t, true, true), Err(RegistryError::UnknownToken));
}

#[test]
fn reregister_replaces_interest_keeps_rest() {
    let mut reg = Registry::new();
    let t = reg.register(9, true, false);
    reg.reregister(t, false, true).expect("live");
    let s = reg.resolve(t).expect("live");
    assert_eq!(
        s,
        SlotState {
            desc: 9,
            read_interest: false,
            write_interest: true,
            read_ready: false,
            write_ready: false,
            read_waiter: false,
            write_waiter: false,
        }
    );
}

#[test]
fn dispatch_wakes_only_the_ready_resource() {
    let mut lp = EventLoop::new(1);
    let (a, _) = lp.register(10, true, false);
    let (b, _) = lp.register(11, true, false);
    assert_eq!(lp.poll_read(a), PollOutcome::Parked);
    assert_eq!(lp.poll_read(b), PollOutcome::Parked);
    let wakes = lp.dispatch_event(ReadyEvent { token: a, readable: true, writable: false });
    assert_eq!(wakes, vec![Wake::Reader(a)]);
    assert_eq!(lp.poll_read(a), PollOutcome::Ready);
    assert_eq!(lp.poll_read(b), PollOutcome::AlreadyWaiting);
}

#[test]
fn reader_readiness_does_not_wake_writer() {
    let mut lp = EventLoop::new(1);
    let (t, _) = lp.register(10, true, true);
    assert_eq!(lp.poll_read(t), PollOutcome::Parked);
    assert_eq!(lp.poll_write(t), PollOutcome::Parked);
    let wakes = lp.dispatch_event(ReadyEvent { token: t, readable: true, writable: false });
    assert_eq!(wakes, vec![Wake::Reader(t)]);
    let wakes = lp.dispatch_event(ReadyEvent { token: t, readable: false, writable: true });
    assert_eq!(wakes, vec![Wake::Writer(t)]);
}

#[test]
fn readiness_needs_rearm_after_consumption() {
    let mut lp = EventLoop::new(1);
    let (t, _) = lp.register(10, true, false);
    lp.dispatch_event(ReadyEvent { token: t, readable: true, writable: false });
    assert_eq!(lp.poll_read(t), PollOutcome::Ready);
    assert_eq!(lp.poll_read(t), PollOutcome::Parked);
    let op = lp.rearm_read(t).expect("live");
    assert_eq!(op, MuxOp::Update { token: t, desc: 10, read: true, write: false });
}

#[test]
fn dispatch_on_stale_token_wakes_nobody() {
    let mut lp = EventLoop::new(1);
    let (t, _) = lp.register(10, true, false);
    lp.deregister(t).expect("live");
    let wakes = lp.dispatch_event(ReadyEvent { token: t, readable: true, writable: true });
    assert!(wakes.is_empty());
    assert_eq!(lp.poll_read(t), PollOutcome::UnknownToken);
}

#[test]
fn zero_timeout_fires_on_next_iteration() {
    let mut lp = EventLoop::new(1);
    assert_eq!(lp.poll_deadline(None), None);
    lp.handle_schedule_timeout(1, 0, 77).expect("queue open");
    let actions = lp.drain_queue();
    assert_eq!(actions.len(), 1);
    let mut scheduled = None;
    for item in actions {
        match lp.apply_action(item.value) {
            ApplyOutcome::Scheduled(t) => scheduled = Some(t),
            _ => panic!("expected a scheduled timeout"),
        }
    }
    assert!(scheduled.is_some());
    assert_eq!(lp.poll_deadline(None), Some(0));
    assert_eq!(lp.expire_timers(0), vec![77]);
    lp.become_idle();
    assert_eq!(lp.poll_deadline(None), None);
}

#[test]
fn queued_actions_apply_in_push_order() {
    let mut lp = EventLoop::new(1);
    lp.handle_register(1, 10, true, false).expect("open");
    lp.handle_schedule_timeout(2, 50, 5).expect("open");
    lp.handle_spawn(3, 9).expect("open");
    let actions = lp.drain_queue();
    assert_eq!(actions.len(), 3);
    assert_eq!(actions[0].from, 1);
    assert_eq!(actions[1].from, 2);
    assert_eq!(actions[2].from, 3);
    let mut outcomes = Vec::new();
    for item in actions {
        outcomes.push(lp.apply_action(item.value));
    }
    match outcomes[0] {
        ApplyOutcome::Forward(MuxOp::Add { desc, read, write, .. }) => {
            assert_eq!(desc, 10);
            assert!(read && !write);
        }
        _ => panic!("expected a forwarded add"),
    }
    assert!(matches!(outcomes[1], ApplyOutcome::Scheduled(_)));
    assert_eq!(outcomes[2], ApplyOutcome::Run(9));
}

#[test]
fn cancel_action_resolves_race_as_already_delivered() {
    let mut lp = EventLoop::new(1);
    let tok = lp.schedule_timeout(0, 4);
    assert_eq!(lp.expire_timers(0), vec![4]);
    let outcome = lp.apply_action(Action::CancelTimeout { token: tok });
    assert_eq!(outcome, ApplyOutcome::Cancelled);
    assert_eq!(lp.expire_timers(u64::MAX), Vec::<u64>::new());
}

#[test]
fn poll_deadline_takes_nearest_of_explicit_and_timers() {
    let mut lp = EventLoop::new(1);
    lp.schedule_timeout(40, 1);
    assert_eq!(lp.poll_deadline(None), Some(40));
    assert_eq!(lp.poll_deadline(Some(25)), Some(25));
    assert_eq!(lp.poll_deadline(Some(60)), Some(40));
}

#[test]
fn loop_state_follows_the_cycle() {
    let mut lp = EventLoop::new(1);
    assert_eq!(lp.state(), LoopState::Idle);
    lp.drain_queue();
    assert_eq!(lp.state(), LoopState::DrainingQueue);
    let (t, _) = lp.register(10, true, false);
    lp.dispatch_event(ReadyEvent { token: t, readable: false, writable: false });
    assert_eq!(lp.state(), LoopState::Dispatching);
    lp.become_idle();
    assert_eq!(lp.state(), LoopState::Idle);
}

#[test]
fn deregister_action_on_unknown_token_is_rejected() {
    let mut lp = EventLoop::new(1);
    let (t, _) = lp.register(10, true, false);
    lp.deregister(t).expect("live");
    let outcome = lp.apply_action(Action::Deregister { token: t });
    assert_eq!(outcome, ApplyOutcome::Rejected(RegistryError::UnknownToken));
}

#[test]
fn cancel_through_queue_removes_pending_timeout() {
    let mut lp = EventLoop::new(1);
    lp.handle_schedule_timeout(1, 30, 8).expect("open");
    let actions = lp.drain_queue();
    let mut token = None;
    for item in actions {
        if let ApplyOutcome::Scheduled(t) = lp.apply_action(item.value) {
            token = Some(t);
        }
    }
    let token = token.expect("scheduled");
    lp.handle_cancel_timeout(2, token).expect("open");
    for item in lp.drain_queue() {
        assert_eq!(lp.apply_action(item.value), ApplyOutcome::Cancelled);
    }
    assert_eq!(lp.poll_deadline(None), None);
    assert_eq!(lp.expire_timers(u64::MAX), Vec::<u64>::new());
}

#[test]
fn apply_queued_runs_whole_batch_in_order() {
    let mut lp = EventLoop::new(1);
    lp.handle_spawn(1, 100).expect("open");
    lp.handle_schedule_timeout(2, 0, 200).expect("open");
    lp.handle_spawn(3, 300).expect("open");
    let outs = lp.apply_queued();
    assert_eq!(outs.len(), 3);
    assert_eq!(outs[0], ApplyOutcome::Run(100));
    assert!(matches!(outs[1], ApplyOutcome::Scheduled(_)));
    assert_eq!(outs[2], ApplyOutcome::Run(300));
    assert_eq!(lp.expire_timers(0), vec![200]);
}

#[test]
fn closed_loop_reports_gone_to_handles() {
    let mut lp = EventLoop::new(1);
    lp.close_queue();
    assert!(lp.handle_spawn(1, 2).is_err());
}
