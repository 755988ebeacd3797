use break_enforcer::check_inputs::{InactivityTracker, TrackResult};
use break_enforcer::config::InputFilter;
use break_enforcer::guard::LockGuard;
use break_enforcer::identity::InputId;
use break_enforcer::scheduler::{
    validate_filters, BreakState, ConfigError, Scheduler, WaitDecision,
};

// Milliseconds, as the scheduler counts them.
const SEC: u64 = 1000;

fn short_cycle_scheduler() -> Scheduler {
    Scheduler::new(10 * SEC, 3 * SEC, None, None).unwrap()
}

#[test]
fn config_rejects_short_long_break() {
    let r = Scheduler::new(10 * SEC, 3 * SEC, Some(3 * SEC), Some(20 * SEC));
    assert!(matches!(r, Err(ConfigError::LongBreakTooShort)));
    assert!(Scheduler::new(10 * SEC, 3 * SEC, Some(30 * SEC), Some(20 * SEC)).is_ok());
}

#[test]
fn config_rejects_empty_filters() {
    let none: Vec<InputFilter> = vec![];
    assert!(matches!(validate_filters(&none), Err(ConfigError::NoDevicesConfigured)));
    let one = vec![InputFilter { id: InputId::new(1, 2, 3), names: vec!["kbd".to_string()] }];
    assert!(validate_filters(&one).is_ok());
}

// Feeding an activity tick every second through a ten second session:
// the session runs out and the idle tail stays under a break.
#[test]
fn tracker_steady_activity_owes_break() {
    let tracker = InactivityTracker::new(3 * SEC);
    let ticks: Vec<u64> = (1..=9).map(|s| s * SEC).collect();
    match tracker.reset_or_timeout(0, &ticks, 10 * SEC) {
        TrackResult::ShouldBreak { user_idle } => {
            assert_eq!(user_idle, SEC);
            assert!(user_idle < 3 * SEC);
        },
        TrackResult::ShouldReset => panic!("steady activity must not reset the session"),
    }
}

// One tick at the start, then a silence that reaches a full break length
// before the session is over: the formal break is skipped.
#[test]
fn tracker_long_pause_resets() {
    let tracker = InactivityTracker::new(3 * SEC);
    let ticks: Vec<u64> = vec![1 * SEC];
    match tracker.reset_or_timeout(0, &ticks, 10 * SEC) {
        TrackResult::ShouldReset => {},
        TrackResult::ShouldBreak { .. } => panic!("a mid-session pause must reset"),
    }
}

// A silence that reaches a full break exactly at the session's end still
// counts as a reset, so an owed break always comes with strictly less
// idle time than a break.
#[test]
fn tracker_boundary_silence_resets() {
    let tracker = InactivityTracker::new(3 * SEC);
    let ticks: Vec<u64> = vec![2 * SEC, 4500, 7 * SEC];
    assert!(matches!(tracker.reset_or_timeout(0, &ticks, 10 * SEC), TrackResult::ShouldReset));
}

#[test]
fn tracker_no_ticks_resets() {
    let tracker = InactivityTracker::new(3 * SEC);
    let ticks: Vec<u64> = vec![];
    assert!(matches!(tracker.reset_or_timeout(0, &ticks, 10 * SEC), TrackResult::ShouldReset));
}

// Long-break accounting: with a twenty second threshold and ten second
// sessions, two full cycles of accumulated active time make the next
// break the long one, which leaves the accumulator at exactly zero.
#[test]
fn third_break_is_long() {
    let mut s = Scheduler::new(10 * SEC, 3 * SEC, Some(30 * SEC), Some(20 * SEC)).unwrap();
    let mut now: u64 = 0;

    // first cycle: 10 s of work, 1 s already idle at the decision
    s.begin_work(now);
    now += 10 * SEC;
    let plan1 = s.start_break(now, 1 * SEC, 10 * SEC);
    assert!(!plan1.long);
    assert_eq!(plan1.len, 2 * SEC);
    assert_eq!(s.worked_since_long_break, 9 * SEC);
    now += plan1.len;
    s.end_break(); // unlocks follow; accumulator now 9 s

    // second cycle
    s.begin_work(now);
    now += 10 * SEC;
    let plan2 = s.start_break(now, 1 * SEC, 10 * SEC);
    assert!(!plan2.long, "18 s stays under the 20 s threshold");
    assert_eq!(s.worked_since_long_break, 18 * SEC);
    now += plan2.len;
    s.end_break();

    // third cycle crosses the threshold: the long break fires
    s.begin_work(now);
    now += 10 * SEC;
    let plan3 = s.start_break(now, 1 * SEC, 10 * SEC);
    assert!(plan3.long);
    assert_eq!(plan3.len, 29 * SEC);
    assert_eq!(s.worked_since_long_break, 0, "the long break empties the accumulator");
}

// WaitingLongReset with a 30 s long break and 3 s short break waits 27 s;
// idling through that window zeroes the accumulator without any break.
#[test]
fn idle_through_long_reset_window_forgives() {
    let mut s = Scheduler::new(10 * SEC, 3 * SEC, Some(30 * SEC), Some(20 * SEC)).unwrap();
    s.begin_work(0);
    s.note_reset(23 * SEC); // a session that ended in a reset left 20 s of work
    assert_eq!(s.worked_since_long_break, 20 * SEC);

    let decision = s.begin_wait();
    assert_eq!(decision, WaitDecision::WaitLongReset { timeout: 27 * SEC });
    assert!(matches!(s.state, BreakState::WaitingLongReset { long_break_duration: 30_000 }));

    // no activity until the window passes
    s.long_reset_timeout();
    assert_eq!(s.worked_since_long_break, 0);
    assert!(matches!(s.state, BreakState::Waiting), "no break was entered");
}

#[test]
fn waiting_without_accumulated_work_has_no_deadline() {
    let mut s = short_cycle_scheduler();
    assert_eq!(s.begin_wait(), WaitDecision::WaitForActivity);
    assert!(matches!(s.state, BreakState::Waiting));
}

// The full cycle: activity starts a session at t=0, the user keeps
// working, so at t=10 s the configured filter is locked and a break with
// roughly 3 s left begins; at its end the lock is released and the
// scheduler waits again.
#[test]
fn end_to_end_lock_cycle() {
    let filter = InputFilter { id: InputId::new(4660, 22136, 1), names: vec!["kbd".to_string()] };
    let to_block = vec![filter];
    assert!(validate_filters(&to_block).is_ok());

    let mut s = short_cycle_scheduler();
    let tracker = InactivityTracker::new(3 * SEC);
    let mut lock_orders: Vec<InputFilter> = Vec::new();
    let mut unlock_orders: Vec<InputFilter> = Vec::new();

    assert_eq!(s.begin_wait(), WaitDecision::WaitForActivity);
    // activity at t=0 starts the session
    s.begin_work(0);
    assert!(matches!(s.state, BreakState::Work { next_break: 10_000 }));

    // the user keeps typing until just before the deadline
    let mut ticks: Vec<u64> = (1..=9).map(|sec| sec * SEC).collect();
    ticks.push(9999);
    let user_idle = match tracker.reset_or_timeout(0, &ticks, 10 * SEC) {
        TrackResult::ShouldBreak { user_idle } => user_idle,
        TrackResult::ShouldReset => panic!("continuous work must owe a break"),
    };
    assert_eq!(user_idle, 1);

    // t = 10 s: lock everything configured, then sleep through the break
    let now = 10 * SEC;
    let plan = s.start_break(now, user_idle, 10 * SEC);
    let mut guards: Vec<LockGuard> = Vec::new();
    for f in &to_block {
        lock_orders.push(f.clone());
        guards.push(LockGuard::new(f.clone()));
    }
    assert!(!plan.long);
    assert_eq!(plan.len, 2999);
    match s.state {
        BreakState::Break { next_work } => assert_eq!(next_work, 12_999),
        _ => panic!("the scheduler must be in a break"),
    }

    // t ~= 13 s: the break is over; every guard sends its unlock order
    s.end_break();
    for g in guards {
        unlock_orders.push(g.unlock());
    }
    assert!(matches!(s.state, BreakState::Waiting));
    assert_eq!(lock_orders.len(), 1);
    assert_eq!(unlock_orders.len(), 1);
    assert_eq!(lock_orders[0].id, InputId::new(4660, 22136, 1));
    assert_eq!(unlock_orders[0].id, InputId::new(4660, 22136, 1));
    assert_eq!(unlock_orders[0].names, vec!["kbd".to_string()]);
}
