use dotfiledesk_core::backup::restore_reason_text;
use dotfiledesk_core::history::status_from;
use dotfiledesk_core::models::{Category, ConfigKind, Configuration, Sensitivity, Snapshot, Status};
use dotfiledesk_core::summary::summarize;
use dotfiledesk_core::discovery::Registry;
use dotfiledesk_core::models::Platform;
use dotfiledesk_core::snippets::SnippetCatalog;
use dotfiledesk_core::{admission, expand_home_path, file_content_from, previous_commit, snapshot_reason, Core, CoreError};

fn configuration(kind: ConfigKind, path: &str) -> Configuration {
    Configuration {
        id: "c1".to_string(),
        definition_id: None,
        name: "C".to_string(),
        path: path.to_string(),
        category: Category::Other,
        kind,
        sensitivity: Sensitivity::Normal,
        added_at: "2026-01-01T00:00:00Z".to_string(),
        last_snapshot_at: None,
    }
}

fn snapshot(commit: &str) -> Snapshot {
    Snapshot {
        id: format!("s-{commit}"),
        configuration_id: "c1".to_string(),
        created_at: "2026-01-01T00:00:00Z".to_string(),
        git_commit: commit.to_string(),
        reason: "Manual snapshot".to_string(),
        favorite: false,
        archived: false,
    }
}

#[test]
fn private_keys_are_refused_before_anything_else() {
    assert!(matches!(admission(true, Sensitivity::Normal, true), Err(CoreError::PrivateKeyBlocked)));
    assert!(matches!(admission(true, Sensitivity::HighlySensitive, false), Err(CoreError::PrivateKeyBlocked)));
    assert!(matches!(admission(false, Sensitivity::PotentialSecret, false), Err(CoreError::ConfirmationRequired)));
    assert!(admission(false, Sensitivity::PotentialSecret, true).is_ok());
    assert!(admission(false, Sensitivity::Normal, false).is_ok());
}

#[test]
fn editor_content_of_text_and_binary_files() {
    let text = file_content_from(None, &b"original\n".to_vec());
    assert!(!text.is_binary);
    assert_eq!(text.content, "original\n");
    assert_eq!(text.relative_path, None);
    let binary = file_content_from(Some("img.png"), &vec![0x89, 0x50, 0xff, 0xfe]);
    assert!(binary.is_binary);
    assert_eq!(binary.content, "");
    assert_eq!(binary.relative_path, Some("img.png".to_string()));
}

#[test]
fn previous_commit_is_the_next_older_snapshot() {
    let history = vec![snapshot("ccc"), snapshot("bbb"), snapshot("aaa")];
    assert_eq!(previous_commit(&history, "ccc"), Some(Some("bbb".to_string())));
    assert_eq!(previous_commit(&history, "bbb"), Some(Some("aaa".to_string())));
    assert_eq!(previous_commit(&history, "aaa"), Some(None));
    assert_eq!(previous_commit(&history, "zzz"), None);
}

#[test]
fn editor_paths_for_files_and_directories() {
    let dir = tempfile::tempdir().unwrap();
    let data = dir.path().to_str().unwrap().to_string();
    let core = Core::init_with_home(&data, &data, Platform::Linux, Registry::new(Vec::new()), SnippetCatalog::new(Vec::new())).unwrap();
    let file = configuration(ConfigKind::File, "/h/editable.conf");
    assert_eq!(core.resolve_editor_path(&file, None).unwrap(), "/h/editable.conf");
    assert_eq!(core.resolve_editor_path(&file, Some("ignored")).unwrap(), "/h/editable.conf");
    let dir_config = configuration(ConfigKind::Directory, "/h/nvim");
    assert_eq!(core.resolve_editor_path(&dir_config, Some("lua/plugins.lua")).unwrap(), "/h/nvim/lua/plugins.lua");
    match core.resolve_editor_path(&dir_config, None) {
        Err(CoreError::InvalidPath(m)) => assert_eq!(m, "a file within the directory must be selected"),
        _ => panic!("a directory needs a chosen file"),
    }
}

#[test]
fn snapshots_without_a_message_are_manual() {
    assert_eq!(snapshot_reason(None), "Manual snapshot");
    assert_eq!(snapshot_reason(Some("Before upgrade")), "Before upgrade");
}

#[test]
fn restore_messages_use_seven_characters_of_the_commit() {
    assert_eq!(restore_reason_text("b1e2c85f00112233"), "Restored to b1e2c85");
    assert_eq!(restore_reason_text("abc"), "Restored to abc");
}

#[test]
fn status_from_existence_history_and_difference() {
    assert_eq!(status_from(false, true, false), Status::Missing);
    assert_eq!(status_from(false, false, false), Status::NotTracked);
    assert_eq!(status_from(true, false, true), Status::NotTracked);
    assert_eq!(status_from(true, true, true), Status::Modified);
    assert_eq!(status_from(true, true, false), Status::Synced);
}

#[test]
fn summary_counts_and_sums() {
    let s = summarize(
        &vec![Status::Modified, Status::Missing, Status::Synced, Status::Modified],
        &vec![1, 0, 2, 1],
        &vec![Some(6), None, Some(20), Some(4)],
        &vec![1, 1, 0, 3],
    );
    assert_eq!(s.configuration_count, 4);
    assert_eq!(s.file_count, 4);
    assert_eq!(s.total_size_bytes, 30);
    assert_eq!(s.modified_count, 2);
    assert_eq!(s.missing_count, 1);
    assert_eq!(s.snapshot_count, 5);
}

#[test]
fn summary_sums_stop_at_the_largest_value() {
    let s = summarize(&vec![Status::Synced, Status::Synced], &vec![usize::MAX, 1], &vec![Some(u64::MAX), Some(5)], &vec![0, 0]);
    assert_eq!(s.file_count, usize::MAX);
    assert_eq!(s.total_size_bytes, u64::MAX);
}

#[test]
fn plain_paths_are_not_expanded() {
    assert_eq!(expand_home_path("/etc/hosts"), "/etc/hosts");
    assert_eq!(expand_home_path("relative/x"), "relative/x");
}
