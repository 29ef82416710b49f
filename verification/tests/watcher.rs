use seashell::watcher::{BusName, StatusNotifierWatcher, WatcherEvent, WATCHER_NAME, WATCHER_PATH};

fn listed(w: &StatusNotifierWatcher) -> Vec<String> {
    w.registered_status_notifier_items()
}

#[test]
fn new_watcher_lists_nothing() {
    let w = StatusNotifierWatcher::new();
    assert!(listed(&w).is_empty());
    assert!(w.is_status_notifier_host_registered());
    assert_eq!(w.protocol_version(), 0);
    assert_eq!(WATCHER_NAME, "org.kde.StatusNotifierWatcher");
    assert_eq!(WATCHER_PATH, "/StatusNotifierWatcher");
}

#[test]
fn path_service_is_qualified_with_sender() {
    let mut w = StatusNotifierWatcher::new();
    let r = w.register_status_notifier_item("/org/ayatana/NotificationItem/nm", Some(":1.42"));
    assert_eq!(r.as_deref(), Some(":1.42/org/ayatana/NotificationItem/nm"));
    assert_eq!(listed(&w), vec![":1.42/org/ayatana/NotificationItem/nm"]);
}

#[test]
fn bus_name_service_is_listed_as_given() {
    let mut w = StatusNotifierWatcher::new();
    let r = w.register_status_notifier_item("org.kde.StatusNotifierItem-1234-1", Some(":1.7"));
    assert_eq!(r.as_deref(), Some("org.kde.StatusNotifierItem-1234-1"));
    let r = w.register_status_notifier_item("", Some(":1.8"));
    assert_eq!(r.as_deref(), Some(""));
    assert_eq!(listed(&w), vec!["org.kde.StatusNotifierItem-1234-1", ""]);
}

#[test]
fn registration_without_sender_is_ignored() {
    let mut w = StatusNotifierWatcher::new();
    assert!(w.register_status_notifier_item("/x", None).is_none());
    assert!(listed(&w).is_empty());
    w.register_status_notifier_host("org.kde.StatusNotifierHost-1");
    assert!(listed(&w).is_empty());
}

#[test]
fn leaving_peer_drops_its_first_item() {
    let mut w = StatusNotifierWatcher::new();
    w.register_status_notifier_item("a.b.one", Some(":1.1"));
    w.register_status_notifier_item("a.b.two", Some(":1.2"));
    w.register_status_notifier_item("a.b.three", Some(":1.1"));
    let own = Some(":1.0".to_string());
    match w.on_name_owner_changed(&BusName::Unique(":1.1".to_string()), &None, &own) {
        WatcherEvent::ItemUnregistered(s) => assert_eq!(s, "a.b.one"),
        e => panic!("unexpected {:?}", e),
    }
    assert_eq!(listed(&w), vec!["a.b.two", "a.b.three"]);
    match w.on_name_owner_changed(&BusName::Unique(":1.9".to_string()), &None, &own) {
        WatcherEvent::Nothing => {}
        e => panic!("unexpected {:?}", e),
    }
    assert_eq!(listed(&w), vec!["a.b.two", "a.b.three"]);
}

#[test]
fn register_then_leave_restores() {
    let mut w = StatusNotifierWatcher::new();
    w.register_status_notifier_item("a.b.keep", Some(":1.3"));
    w.register_status_notifier_item("/item", Some(":1.4"));
    match w.on_name_owner_changed(&BusName::Unique(":1.4".to_string()), &None, &None) {
        WatcherEvent::ItemUnregistered(s) => assert_eq!(s, ":1.4/item"),
        e => panic!("unexpected {:?}", e),
    }
    assert_eq!(listed(&w), vec!["a.b.keep"]);
}

#[test]
fn ownership_of_the_watcher_name() {
    let mut w = StatusNotifierWatcher::new();
    let own = Some(":1.0".to_string());
    let name = BusName::WellKnown(WATCHER_NAME.to_string());
    match w.on_name_owner_changed(&name, &Some(":1.5".to_string()), &own) {
        WatcherEvent::Nothing => {}
        e => panic!("unexpected {:?}", e),
    }
    match w.on_name_owner_changed(&name, &own, &own) {
        WatcherEvent::NameAcquired => {}
        e => panic!("unexpected {:?}", e),
    }
    match w.on_name_owner_changed(&name, &Some(":1.5".to_string()), &own) {
        WatcherEvent::NameLost => {}
        e => panic!("unexpected {:?}", e),
    }
    match w.on_name_owner_changed(&name, &None, &own) {
        WatcherEvent::Nothing => {}
        e => panic!("unexpected {:?}", e),
    }
}

#[test]
fn other_well_known_names_are_ignored() {
    let mut w = StatusNotifierWatcher::new();
    w.register_status_notifier_item("a.b.c", Some(":1.1"));
    let own = Some(":1.0".to_string());
    match w.on_name_owner_changed(&BusName::WellKnown(":1.1".to_string()), &own, &own) {
        WatcherEvent::Nothing => {}
        e => panic!("unexpected {:?}", e),
    }
    assert_eq!(listed(&w), vec!["a.b.c"]);
}
