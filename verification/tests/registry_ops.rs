use break_enforcer::config::InputFilter;
use break_enforcer::identity::InputId;
use break_enforcer::registry::{DeviceHandle, Registry, RegistryError};

fn filter(id: InputId, names: &[&str]) -> InputFilter {
    InputFilter { id, names: names.iter().map(|n| n.to_string()).collect() }
}

fn add(reg: &mut Registry, id: InputId, name: &str, path: &str) -> bool {
    reg.insert(id, name.to_string(), path.to_string(), DeviceHandle::Synthetic)
}

// Whatever the interleaving of inserts and removes, the listing groups
// node paths exactly by identity, one group per identity, with as many
// names as paths, each group's names sorted.
#[test]
fn listing_groups_by_identity() {
    let kbd = InputId::new(1, 2, 3);
    let mouse = InputId::new(7, 8, 9);
    let mut reg = Registry::new();

    assert!(add(&mut reg, kbd, "Keyboard", "/dev/input/event0"));
    // registered after "Keyboard" but listed before it: groups are sorted
    assert!(add(&mut reg, kbd, "Alpha Keys", "/dev/input/event1"));
    assert!(add(&mut reg, mouse, "Mouse", "/dev/input/event2"));
    // a node already present is replaced, not duplicated
    assert!(!add(&mut reg, kbd, "Keyboard", "/dev/input/event0"));

    let groups = reg.list_inputs().unwrap();
    assert_eq!(groups.len(), 2);
    let kbd_group = groups.iter().find(|g| g.id == kbd).unwrap();
    assert_eq!(kbd_group.names, vec!["Alpha Keys".to_string(), "Keyboard".to_string()]);
    let mouse_group = groups.iter().find(|g| g.id == mouse).unwrap();
    assert_eq!(mouse_group.names, vec!["Mouse".to_string()]);

    // removing one node shrinks its group; removing the last node of an
    // identity removes the group
    let removed = reg.remove(&"/dev/input/event1".to_string());
    assert_eq!(removed, vec!["Alpha Keys".to_string()]);
    let removed = reg.remove(&"/dev/input/event2".to_string());
    assert_eq!(removed, vec!["Mouse".to_string()]);

    let groups = reg.list_inputs().unwrap();
    assert_eq!(groups.len(), 1);
    assert_eq!(groups[0].id, kbd);
    assert_eq!(groups[0].names, vec!["Keyboard".to_string()]);
}

#[test]
fn removing_unknown_path_reports_nothing() {
    let mut reg = Registry::new();
    assert!(add(&mut reg, InputId::new(1, 2, 3), "Keyboard", "/dev/input/event0"));
    let removed = reg.remove(&"/dev/input/event9".to_string());
    assert!(removed.is_empty());
    assert_eq!(reg.list_inputs().unwrap().len(), 1);
}

// Locking the same filter twice is idempotent: the second order changes
// nothing and reports success.
#[test]
fn double_lock_is_idempotent() {
    let kbd = InputId::new(1, 2, 3);
    let mut reg = Registry::new();
    add(&mut reg, kbd, "Keyboard", "/dev/input/event0");
    add(&mut reg, kbd, "Numpad", "/dev/input/event1");

    let f = filter(kbd, &["Keyboard"]);
    assert!(reg.lock_all_matching(&f).is_ok());
    let locked: Vec<bool> = reg.devices.iter().map(|d| d.locked).collect();
    assert_eq!(locked, vec![true, false], "only the named device is grabbed");

    assert!(reg.lock_all_matching(&f).is_ok());
    let locked_again: Vec<bool> = reg.devices.iter().map(|d| d.locked).collect();
    assert_eq!(locked_again, vec![true, false]);

    assert!(reg.unlock_all_matching(&f).is_ok());
    assert!(reg.devices.iter().all(|d| !d.locked));
    // unlocking with nothing locked is just as idempotent
    assert!(reg.unlock_all_matching(&f).is_ok());
}

#[test]
fn lock_of_unknown_identity_succeeds_quietly() {
    let mut reg = Registry::new();
    add(&mut reg, InputId::new(1, 2, 3), "Keyboard", "/dev/input/event0");
    let f = filter(InputId::new(9, 9, 9), &["Ghost"]);
    assert!(reg.lock_all_matching(&f).is_ok());
    assert!(reg.devices.iter().all(|d| !d.locked));
}

// The sticky systemic error is surfaced to exactly the next caller, then
// cleared.
#[test]
fn sticky_error_surfaces_once() {
    let kbd = InputId::new(1, 2, 3);
    let mut reg = Registry::new();
    add(&mut reg, kbd, "Keyboard", "/dev/input/event0");
    reg.report_error("inotify could not read events".to_string());

    let f = filter(kbd, &["Keyboard"]);
    match reg.lock_all_matching(&f) {
        Err(RegistryError::Systemic(m)) => {
            assert_eq!(m, "inotify could not read events");
        },
        other => panic!("the sticky error must surface first, got {other:?}"),
    }
    // surfaced once: the next call goes through
    assert!(reg.lock_all_matching(&f).is_ok());
    assert!(reg.devices[0].locked);
}

#[test]
fn listing_surfaces_sticky_error_too() {
    let mut reg = Registry::new();
    reg.report_error("watcher gone".to_string());
    match reg.list_inputs() {
        Err(m) => assert_eq!(m, "watcher gone"),
        Ok(_) => panic!("the sticky error must surface"),
    }
    assert!(reg.list_inputs().is_ok());
}

// A device rejoining a held identity group is locked again on arrival.
#[test]
fn hot_added_device_is_relocked() {
    let kbd = InputId::new(1, 2, 3);
    let mut reg = Registry::new();
    add(&mut reg, kbd, "Keyboard", "/dev/input/event0");
    let held = vec![filter(kbd, &["Keyboard"])];
    assert!(reg.lock_all_matching(&held[0]).is_ok());

    // the same node path reappears (replug): announced as known, relocked
    let announced = reg.on_device_added(
        kbd,
        "Keyboard".to_string(),
        "/dev/input/event0".to_string(),
        DeviceHandle::Synthetic,
        &held,
    );
    assert!(announced.is_none());
    assert!(reg.devices[0].locked, "the replugged device is grabbed again");

    // a new node of the same identity is announced and locked
    let announced = reg.on_device_added(
        kbd,
        "Keyboard".to_string(),
        "/dev/input/event5".to_string(),
        DeviceHandle::Synthetic,
        &held,
    );
    let new_input = announced.unwrap();
    assert_eq!(new_input.id, kbd);
    assert_eq!(new_input.path, "/dev/input/event5");
    assert!(reg.devices.iter().all(|d| d.locked));

    // a hot-add of an unrelated device touches neither existing locks
    // nor the sticky status, even with nothing held
    let none_held: Vec<InputFilter> = vec![];
    let announced = reg.on_device_added(
        InputId::new(9, 9, 9),
        "Gamepad".to_string(),
        "/dev/input/event7".to_string(),
        DeviceHandle::Synthetic,
        &none_held,
    );
    assert!(announced.is_some());
    assert!(reg.devices.iter().filter(|d| d.id == kbd).all(|d| d.locked));
    assert!(reg.status_err.is_none());
}
