use break_enforcer::check_inputs::{device_removed, input_matches_filters, is_removed_indication};
use break_enforcer::config::{
    clone_filter, filters_equal, held_insert, held_remove, names_contain, InputFilter,
};
use break_enforcer::identity::{display_name, InputId, NewInput};
use break_enforcer::lock::{parse_device_line, parse_device_lines, CommandError, ListedDevice};
use break_enforcer::names::{sort_names, str_lex_le};
use break_enforcer::registry::is_event_node;

#[test]
fn identity_encodes_to_base64() {
    // bytes 00 01 00 02 00 03, url-safe without padding
    assert_eq!(InputId::new(1, 2, 3).to_base64(), "AAEAAgAD");
    // 0xffff vendor exercises the url-safe alphabet ('-' and '_')
    assert_eq!(InputId::new(0xffff, 0xffff, 0xffff).to_base64(), "________");
}

#[test]
fn display_name_prefers_advertised_name() {
    let id = InputId::new(1, 2, 3);
    assert_eq!(display_name(Some("Kbd".to_string()), Some("serial".to_string()), &id), "Kbd");
    assert_eq!(display_name(None, Some("serial".to_string()), &id), "serial");
    assert_eq!(display_name(None, None, &id), "Unknown device, id: AAEAAgAD");
}

#[test]
fn event_nodes_recognised() {
    assert!(is_event_node(&b"event0".to_vec()));
    assert!(is_event_node(&b"event17".to_vec()));
    assert!(is_event_node(&b"event".to_vec()));
    assert!(!is_event_node(&b"mouse0".to_vec()));
    assert!(!is_event_node(&b"js0".to_vec()));
    assert!(!is_event_node(&b"ev".to_vec()));
}

#[test]
fn removal_indication_is_code_19_with_message() {
    assert!(is_removed_indication(Some(19), "No such device (os error 19)"));
    assert!(!is_removed_indication(Some(19), "something else"));
    assert!(!is_removed_indication(Some(5), "No such device"));
    assert!(!is_removed_indication(None, "No such device"));

    let gone = std::io::Error::from_raw_os_error(19);
    assert!(device_removed(&gone));
    let busy = std::io::Error::from_raw_os_error(16);
    assert!(!device_removed(&busy));
}

#[test]
fn watcher_only_follows_blocked_devices() {
    let kbd = InputId::new(1, 2, 3);
    let to_block = vec![InputFilter { id: kbd, names: vec!["Keyboard".to_string()] }];
    let matching = NewInput {
        id: kbd,
        name: "Keyboard".to_string(),
        path: "/dev/input/event0".to_string(),
    };
    let wrong_name = NewInput {
        id: kbd,
        name: "Numpad".to_string(),
        path: "/dev/input/event1".to_string(),
    };
    let wrong_id = NewInput {
        id: InputId::new(9, 9, 9),
        name: "Keyboard".to_string(),
        path: "/dev/input/event2".to_string(),
    };
    assert!(input_matches_filters(&matching, &to_block));
    assert!(!input_matches_filters(&wrong_name, &to_block));
    assert!(!input_matches_filters(&wrong_id, &to_block));
}

#[test]
fn filter_set_semantics() {
    let kbd = InputId::new(1, 2, 3);
    let f1 = InputFilter { id: kbd, names: vec!["Keyboard".to_string()] };
    let f2 = clone_filter(&f1);
    assert!(filters_equal(&f1, &f2));
    assert!(names_contain(&f1.names, &"Keyboard".to_string()));
    assert!(!names_contain(&f1.names, &"Mouse".to_string()));

    let mut held: Vec<InputFilter> = Vec::new();
    held_insert(&mut held, f1);
    held_insert(&mut held, f2);
    assert_eq!(held.len(), 1, "an equal selection is held once");
    let different = InputFilter { id: kbd, names: vec!["Numpad".to_string()] };
    held_insert(&mut held, different);
    assert_eq!(held.len(), 2);

    let back = InputFilter { id: kbd, names: vec!["Keyboard".to_string()] };
    held_remove(&mut held, &back);
    assert_eq!(held.len(), 1);
    assert_eq!(held[0].names, vec!["Numpad".to_string()]);
}

#[test]
fn listing_lines_parse() {
    let line = "/dev/input/event3:\tSome Vendor Keyboard ";
    let dev = parse_device_line(line).unwrap();
    assert_eq!(dev.event_path, "/dev/input/event3");
    assert_eq!(dev.name, "Some Vendor Keyboard");
    assert_eq!(dev.event_path(), "/dev/input/event3");

    assert!(parse_device_line("discovering input devices").is_none());
    assert!(parse_device_line("/dev/input/mouse0: Mouse").is_none());

    let lines = vec![
        "discovering input devices".to_string(),
        "/dev/input/event0:  Kbd".to_string(),
        "/dev/input/event1:  Mouse: with colon".to_string(),
    ];
    let devs: Vec<ListedDevice> = parse_device_lines(&lines);
    assert_eq!(devs.len(), 2);
    assert_eq!(devs[0].event_path, "/dev/input/event0");
    assert_eq!(devs[0].name, "Kbd");
    assert_eq!(devs[1].name, "Mouse: with colon");
}

#[test]
fn name_lists_sort() {
    assert!(str_lex_le("Alpha", "Beta"));
    assert!(!str_lex_le("Beta", "Alpha"));
    assert!(str_lex_le("Key", "Keyboard"), "a prefix comes first");
    assert!(str_lex_le("same", "same"));

    let mut names = vec![
        "Zeta Pad".to_string(),
        "Alpha Keys".to_string(),
        "Midi Board".to_string(),
        "Alpha Keys".to_string(),
    ];
    sort_names(&mut names);
    assert_eq!(
        names,
        vec![
            "Alpha Keys".to_string(),
            "Alpha Keys".to_string(),
            "Midi Board".to_string(),
            "Zeta Pad".to_string(),
        ]
    );

    let mut empty: Vec<String> = vec![];
    sort_names(&mut empty);
    assert!(empty.is_empty());
}

#[test]
fn command_error_wraps_io() {
    let err = CommandError::io(std::io::Error::from_raw_os_error(13));
    assert!(matches!(err, CommandError::Io(_)));
    assert!(matches!(CommandError::NotRunningAsRoot, CommandError::NotRunningAsRoot));
}
