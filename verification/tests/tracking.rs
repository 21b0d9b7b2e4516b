use dotfiledesk_core::models::{Category, ConfigKind, Sensitivity};
use dotfiledesk_core::tracking::{
    category_str, kind_str, parse_category, parse_kind, parse_sensitivity, sensitivity_str, Store,
};

#[test]
fn add_list_remove_roundtrip() {
    let mut store = Store::open(":memory:").unwrap();
    let config = store
        .add_configuration(Some("zsh"), "Zsh", "/home/u/.zshrc", Category::Shell, ConfigKind::File, Sensitivity::Normal)
        .unwrap();

    let listed = store.list_configurations(false).unwrap();
    assert_eq!(listed.len(), 1);
    assert_eq!(listed[0].id, config.id);

    let fetched = store.get_configuration(&config.id).unwrap().unwrap();
    assert_eq!(fetched.path, "/home/u/.zshrc");

    store.remove_configuration(&config.id).unwrap();
    assert!(store.list_configurations(false).unwrap().is_empty());
}

#[test]
fn records_snapshots_and_updates_last_snapshot_at() {
    let mut store = Store::open(":memory:").unwrap();
    let config = store
        .add_configuration(None, "Custom", "/home/u/.customrc", Category::Other, ConfigKind::File, Sensitivity::Normal)
        .unwrap();

    store.record_snapshot(&config.id, "abc123", "Initial snapshot").unwrap();
    let snaps = store.list_snapshots(&config.id).unwrap();
    assert_eq!(snaps.len(), 1);

    let refreshed = store.get_configuration(&config.id).unwrap().unwrap();
    assert!(refreshed.last_snapshot_at.is_some());
}

#[test]
fn stored_names_read_back_as_the_same_values() {
    for c in [
        Category::Shell,
        Category::Git,
        Category::Terminal,
        Category::Editor,
        Category::Ssh,
        Category::PackageManagers,
        Category::DeveloperTools,
        Category::Other,
    ] {
        assert_eq!(parse_category(category_str(c)), c);
    }
    for k in [ConfigKind::File, ConfigKind::Directory] {
        assert_eq!(parse_kind(kind_str(k)), k);
    }
    for s in [Sensitivity::Normal, Sensitivity::PotentialSecret, Sensitivity::HighlySensitive] {
        assert_eq!(parse_sensitivity(sensitivity_str(s)), s);
    }
    assert_eq!(category_str(Category::PackageManagers), "package_managers");
    assert_eq!(sensitivity_str(Sensitivity::PotentialSecret), "potential_secret");
    assert_eq!(kind_str(ConfigKind::Directory), "directory");
}

#[test]
fn archived_configurations_are_listed_apart() {
    let mut store = Store::open(":memory:").unwrap();
    let a = store
        .add_configuration(None, "A", "/home/u/a", Category::Other, ConfigKind::File, Sensitivity::Normal)
        .unwrap();
    let b = store
        .add_configuration(None, "B", "/home/u/b", Category::Other, ConfigKind::File, Sensitivity::Normal)
        .unwrap();
    store.set_configuration_archived(&a.id, true).unwrap();
    let active = store.list_configurations(false).unwrap();
    assert_eq!(active.len(), 1);
    assert_eq!(active[0].id, b.id);
    assert_eq!(store.list_configurations(true).unwrap().len(), 2);
    let archived = store.list_archived_configurations().unwrap();
    assert_eq!(archived.len(), 1);
    assert_eq!(archived[0].id, a.id);
}

#[test]
fn snapshot_flags_and_deletion() {
    let mut store = Store::open(":memory:").unwrap();
    let c = store
        .add_configuration(None, "C", "/home/u/c", Category::Other, ConfigKind::File, Sensitivity::Normal)
        .unwrap();
    let s = store.record_snapshot(&c.id, "abc", "Manual snapshot").unwrap();
    assert!(!s.favorite && !s.archived);
    store.set_snapshot_favorite(&s.id, true).unwrap();
    store.set_snapshot_archived(&s.id, true).unwrap();
    let listed = store.list_snapshots(&c.id).unwrap();
    assert!(listed[0].favorite && listed[0].archived);
    assert_eq!(listed[0].reason, "Manual snapshot");
    store.delete_snapshot(&s.id).unwrap();
    assert!(store.list_snapshots(&c.id).unwrap().is_empty());
}

#[test]
fn unknown_configuration_is_none() {
    let mut store = Store::open(":memory:").unwrap();
    assert!(store.get_configuration("nope").unwrap().is_none());
}
