use prio_pipeline::scheduler::{run_tiers, Scheduler, SpawnError, TaskState, Ticker, Tier, TierRun};

#[test]
fn elevated_tier_keeps_ticking_while_normal_blocks() {
    assert_eq!(run_tiers(1000, 5000), TierRun { elevated_ticks: 5, normal_ticks: 0 });
    assert_eq!(run_tiers(1000, 5999), TierRun { elevated_ticks: 5, normal_ticks: 0 });
    assert_eq!(run_tiers(7, 3), TierRun { elevated_ticks: 0, normal_ticks: 0 });
    assert_eq!(run_tiers(1, 0), TierRun { elevated_ticks: 0, normal_ticks: 0 });
    assert_eq!(run_tiers(1, 37), TierRun { elevated_ticks: 37, normal_ticks: 0 });
    assert_eq!(run_tiers(3, 3), TierRun { elevated_ticks: 1, normal_ticks: 0 });
}

#[test]
fn ticker_skips_missed_ticks() {
    let mut t = Ticker::new(0, 10);
    assert_eq!(t.deadline(), 10);
    assert!(!t.poll(9));
    assert!(t.poll(10));
    assert_eq!(t.deadline(), 20);
    // late by three and a half periods: one release, the next a full period later
    assert!(t.poll(55));
    assert_eq!(t.deadline(), 65);
    assert!(!t.poll(60));
    assert!(t.poll(65));
    assert_eq!(t.deadline(), 75);
}

#[test]
fn ticker_keeps_minimum_period_after_late_release() {
    let mut t = Ticker::new(0, 10);
    assert!(t.poll(25));
    assert_eq!(t.deadline(), 35);
    assert!(!t.poll(30));
}

#[test]
fn ticker_saturates_at_end_of_time() {
    let mut t = Ticker::new(u64::MAX - 3, 10);
    assert_eq!(t.deadline(), u64::MAX);
    assert!(!t.poll(u64::MAX - 1));
    assert!(t.poll(u64::MAX));
    assert_eq!(t.deadline(), u64::MAX);
}

#[test]
fn spawn_respects_tier_capacity() {
    let mut s = Scheduler::new(2, 1);
    assert_eq!(s.spawn(Tier::Normal), Ok(0));
    assert_eq!(s.spawn(Tier::Elevated), Ok(1));
    assert_eq!(s.spawn(Tier::Elevated), Err(SpawnError::CapacityExceeded));
    assert_eq!(s.spawn(Tier::Normal), Ok(2));
    assert_eq!(s.spawn(Tier::Normal), Err(SpawnError::CapacityExceeded));
    assert_eq!(s.len(), 3);
    assert_eq!(s.task(1).tier, Tier::Elevated);
    assert_eq!(s.task(1).state, TaskState::Ready);
}

#[test]
fn dispatch_prefers_elevated_and_rotates_within_tier() {
    let mut s = Scheduler::new(3, 1);
    let a = s.spawn(Tier::Normal).unwrap();
    let b = s.spawn(Tier::Normal).unwrap();
    let c = s.spawn(Tier::Normal).unwrap();
    let e = s.spawn(Tier::Elevated).unwrap();
    assert_eq!(s.dispatch(), Some(e));
    s.suspend(e);
    assert_eq!(s.dispatch(), Some(a));
    s.yield_now(a);
    assert_eq!(s.dispatch(), Some(b));
    s.yield_now(b);
    // the timer wakes the elevated task: it goes before the next normal one
    s.wake(e);
    assert_eq!(s.dispatch(), Some(e));
    s.suspend(e);
    assert_eq!(s.dispatch(), Some(c));
    s.yield_now(c);
    assert_eq!(s.dispatch(), Some(a));
}

#[test]
fn blocking_task_starves_only_its_own_tier() {
    let mut s = Scheduler::new(2, 1);
    let blocker = s.spawn(Tier::Normal).unwrap();
    let sibling = s.spawn(Tier::Normal).unwrap();
    let ticker = s.spawn(Tier::Elevated).unwrap();
    s.suspend(ticker);
    assert_eq!(s.task(ticker).state, TaskState::Ready);
    assert_eq!(s.dispatch(), Some(ticker));
    s.suspend(ticker);
    assert_eq!(s.dispatch(), Some(blocker));
    // blocker never yields; the elevated task still gets dispatched
    s.wake(ticker);
    assert_eq!(s.dispatch(), Some(ticker));
    s.suspend(ticker);
    assert_eq!(s.dispatch(), None);
    assert_eq!(s.task(sibling).state, TaskState::Ready);
    assert_eq!(s.task(blocker).state, TaskState::Running);
}

#[test]
fn terminated_task_is_never_dispatched_again() {
    let mut s = Scheduler::new(1, 0);
    let t = s.spawn(Tier::Normal).unwrap();
    assert_eq!(s.spawn(Tier::Elevated), Err(SpawnError::CapacityExceeded));
    assert_eq!(s.dispatch(), Some(t));
    s.terminate(t);
    s.wake(t);
    s.yield_now(t);
    assert_eq!(s.task(t).state, TaskState::Terminated);
    assert_eq!(s.dispatch(), None);
}
