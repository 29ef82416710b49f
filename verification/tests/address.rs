use seashell::watcher::StatusNotifierWatcher;
use seashell::address::{AddressError, TrayItem, TrayServer};

#[test]
fn service_with_path_is_split_at_first_slash() {
    let item = TrayItem::new(":1.42/org/ayatana/NotificationItem/nm".to_string()).unwrap();
    assert_eq!(item.destination(), ":1.42");
    assert_eq!(item.path(), "/org/ayatana/NotificationItem/nm");
}

#[test]
fn bare_service_uses_default_path() {
    let item = TrayItem::new("org.kde.StatusNotifierItem-4077-1".to_string()).unwrap();
    assert_eq!(item.destination(), "org.kde.StatusNotifierItem-4077-1");
    assert_eq!(item.path(), "/StatusNotifierItem");
}

#[test]
fn invalid_destination_is_refused() {
    assert_eq!(TrayItem::new("".to_string()).unwrap_err(), AddressError::InvalidDestination);
    assert_eq!(
        TrayItem::new("nodots/path".to_string()).unwrap_err(),
        AddressError::InvalidDestination
    );
}

#[test]
fn invalid_path_is_refused() {
    assert_eq!(TrayItem::new(":1.4/a//b".to_string()).unwrap_err(), AddressError::InvalidPath);
    assert_eq!(TrayItem::new(":1.4/a/".to_string()).unwrap_err(), AddressError::InvalidPath);
    assert_eq!(TrayItem::new(":1.4/a-b".to_string()).unwrap_err(), AddressError::InvalidPath);
}

#[test]
fn root_path_is_accepted() {
    let item = TrayItem::new(":1.4/".to_string()).unwrap();
    assert_eq!(item.destination(), ":1.4");
    assert_eq!(item.path(), "/");
}

#[test]
fn server_reads_the_watcher() {
    let server = TrayServer::new();
    assert_eq!(server.destination(), "org.kde.StatusNotifierWatcher");
    assert_eq!(server.path(), "/StatusNotifierWatcher");
}

#[test]
fn server_keeps_reachable_items_in_order() {
    let server = TrayServer::new();
    let items = server.items(vec![
        ":1.2/StatusNotifierItem".to_string(),
        "bad/name".to_string(),
        "org.example.App".to_string(),
        ":1.3/a//b".to_string(),
    ]);
    let got: Vec<(String, String)> = items
        .iter()
        .map(|i| (i.destination().to_string(), i.path().to_string()))
        .collect();
    assert_eq!(
        got,
        vec![
            (":1.2".to_string(), "/StatusNotifierItem".to_string()),
            ("org.example.App".to_string(), "/StatusNotifierItem".to_string()),
        ]
    );
}

#[test]
fn listed_path_service_reaches_its_sender() {
    let mut w = StatusNotifierWatcher::new();
    let listed = w.register_status_notifier_item("/item", Some(":1.4")).unwrap();
    let item = TrayItem::new(listed).unwrap();
    assert_eq!(item.destination(), ":1.4");
    assert_eq!(item.path(), "/item");
    let listed = w.register_status_notifier_item("org.example.Tray", Some(":1.5")).unwrap();
    let item = TrayItem::new(listed).unwrap();
    assert_eq!(item.destination(), "org.example.Tray");
    assert_eq!(item.path(), "/StatusNotifierItem");
}
