use break_enforcer::config::InputFilter;
use break_enforcer::guard::LockGuard;
use break_enforcer::identity::InputId;

fn a_filter() -> InputFilter {
    InputFilter { id: InputId::new(1, 2, 3), names: vec!["kbd".to_string()] }
}

// A guard dropped without an explicit unlock still produces exactly one
// unlock order: the spy counts what the registry would receive.
#[test]
fn discarded_guard_sends_exactly_one_unlock() {
    let mut registry_spy: Vec<InputFilter> = Vec::new();

    let guard = LockGuard::new(a_filter());
    // the guard goes out of scope without unlock(); the end-of-scope path
    // produces its best-effort order
    if let Some(order) = guard.end_of_scope() {
        registry_spy.push(order);
    }
    assert_eq!(registry_spy.len(), 1);
    assert_eq!(registry_spy[0].id, InputId::new(1, 2, 3));
    assert_eq!(registry_spy[0].names, vec!["kbd".to_string()]);
}

#[test]
fn explicit_unlock_sends_exactly_one_order() {
    let mut registry_spy: Vec<InputFilter> = Vec::new();

    let guard = LockGuard::new(a_filter());
    let order = guard.unlock();
    registry_spy.push(order);
    // the guard was consumed: no end-of-scope order can follow
    assert_eq!(registry_spy.len(), 1);
}

#[test]
fn second_take_produces_no_order() {
    let mut guard = LockGuard::new(a_filter());
    let first = guard.take_unlock_order();
    let second = guard.take_unlock_order();
    assert!(first.is_some());
    assert!(second.is_none(), "an unlock is honored at most once per guard");
}
