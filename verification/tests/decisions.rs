//! The decisions the core takes on what the disk, the database and the
//! repository answered, checked on answers given by hand.

use dotfiledesk_core::discovery::{first_true, hit_of, scan_from_probes, Registry};
use dotfiledesk_core::disk::{count_files, WalkItem};
use dotfiledesk_core::filemap::{file_map_of, FileEntry, FileMap};
use dotfiledesk_core::git::is_nul_free;
use dotfiledesk_core::history::{commit_needed, files_below, listed_files, restore_plan_from, staging_from_walk};
use dotfiledesk_core::models::{Category, ConfigDefinition, ConfigKind, Configuration, Platform, Sensitivity, Snapshot};
use dotfiledesk_core::snippets::SnippetCatalog;
use dotfiledesk_core::tracking::{configuration_params, flag_and_id_params, SqlValue};
use dotfiledesk_core::{tally_snapshots, tracked_definitions, Core, CoreError};

fn def(id: &str, kind: ConfigKind, paths: &[&str], platform: Platform, sensitivity: Sensitivity) -> ConfigDefinition {
    ConfigDefinition {
        id: id.to_string(),
        application: format!("App {id}"),
        category: Category::Other,
        kind,
        paths: paths.iter().map(|p| p.to_string()).collect(),
        platforms: vec![platform],
        sensitivity,
    }
}

fn definitions() -> Vec<ConfigDefinition> {
    vec![
        def("zsh", ConfigKind::File, &["~/.zshrc", "~/.zshenv"], Platform::Linux, Sensitivity::Normal),
        def("mac_only", ConfigKind::File, &["~/.macrc"], Platform::Macos, Sensitivity::Normal),
        def("nvim", ConfigKind::Directory, &["~/.config/nvim"], Platform::Linux, Sensitivity::Normal),
        def("ssh_key", ConfigKind::File, &["~/.ssh/id_rsa"], Platform::Linux, Sensitivity::HighlySensitive),
        def("aws", ConfigKind::File, &["~/.aws/credentials"], Platform::Linux, Sensitivity::PotentialSecret),
        def("empty", ConfigKind::File, &[], Platform::Linux, Sensitivity::Normal),
    ]
}

fn configuration(id: &str, name: &str, definition_id: Option<&str>) -> Configuration {
    Configuration {
        id: id.to_string(),
        definition_id: definition_id.map(|d| d.to_string()),
        name: name.to_string(),
        path: format!("/home/u/{name}"),
        category: Category::Other,
        kind: ConfigKind::File,
        sensitivity: Sensitivity::Normal,
        added_at: "2026-01-01T00:00:00Z".to_string(),
        last_snapshot_at: None,
    }
}

fn snapshot(configuration_id: &str, commit: &str) -> Snapshot {
    Snapshot {
        id: format!("s-{commit}"),
        configuration_id: configuration_id.to_string(),
        created_at: "2026-01-01T00:00:00Z".to_string(),
        git_commit: commit.to_string(),
        reason: "Manual snapshot".to_string(),
        favorite: false,
        archived: false,
    }
}

fn item(path: &str, is_file: bool, is_dir: bool) -> WalkItem {
    WalkItem { path: path.to_string(), is_file, is_dir }
}

fn walk() -> Vec<WalkItem> {
    vec![
        item("/cfg/nvim", false, true),
        item("/cfg/nvim/init.lua", true, false),
        item("/cfg/nvim/lua", false, true),
        item("/cfg/nvim/lua/plugins.lua", true, false),
        item("/cfg/nvim/link", false, false),
    ]
}

fn make_core() -> (Core, tempfile::TempDir) {
    let data = tempfile::tempdir().unwrap();
    let dir = data.path().to_str().unwrap().to_string();
    let core = Core::init_with_home(&dir, "/home/u", Platform::Linux, Registry::new(definitions()), SnippetCatalog::new(vec![])).unwrap();
    (core, data)
}

#[test]
fn first_true_stops_at_the_first_hit_below_the_bound() {
    assert_eq!(first_true(&vec![false, true, true], 3), Some(1));
    assert_eq!(first_true(&vec![false, true], 1), None);
    assert_eq!(first_true(&vec![], 4), None);
    let d = def("zsh", ConfigKind::File, &["~/.zshrc", "~/.zshenv"], Platform::Linux, Sensitivity::Normal);
    assert_eq!(hit_of(&d, &vec![false, true]), Some(1));
    assert_eq!(hit_of(&d, &vec![false, false, true]), None);
}

#[test]
fn scan_reports_the_first_existing_candidate_of_each_applying_definition() {
    let registry = Registry::new(definitions());
    let probes = vec![vec![false, true], vec![true], vec![true], vec![true], vec![false], vec![]];
    let found = scan_from_probes(&registry, "/home/u", Platform::Linux, &probes);
    let ids: Vec<&str> = found.iter().map(|d| d.definition_id.as_str()).collect();
    assert_eq!(ids, vec!["zsh", "nvim", "ssh_key"]);
    assert_eq!(found[0].path, "/home/u/.zshenv");
    assert_eq!(found[0].application, "App zsh");
    assert!(!found[0].is_private_key);
    assert_eq!(found[1].path, "/home/u/.config/nvim");
    assert_eq!(found[1].kind, ConfigKind::Directory);
    assert!(found[2].is_private_key);
    assert_eq!(found[2].sensitivity, Sensitivity::HighlySensitive);
}

#[test]
fn scan_reports_nothing_when_no_candidate_exists() {
    let registry = Registry::new(definitions());
    let probes = vec![vec![false, false], vec![true], vec![false], vec![false], vec![false], vec![]];
    assert!(scan_from_probes(&registry, "/home/u", Platform::Linux, &probes).is_empty());
}

#[test]
fn suggestions_offer_what_is_missing_at_the_first_candidate() {
    let (core, _data) = make_core();
    let taken = vec!["nvim".to_string()];
    let probes = vec![vec![false, false], vec![], vec![], vec![false], vec![false], vec![]];
    let present = vec![false, false, false, false, false, false];
    let offered = core.suggestions_from_probes(&taken, &probes, &present);
    let ids: Vec<&str> = offered.iter().map(|s| s.definition_id.as_str()).collect();
    assert_eq!(ids, vec!["zsh", "aws"]);
    assert_eq!(offered[0].path, "/home/u/.zshrc");
    assert_eq!(offered[1].path, "/home/u/.aws/credentials");
}

#[test]
fn suggestions_skip_what_exists_in_any_form() {
    let (core, _data) = make_core();
    let probes = vec![vec![false, true], vec![], vec![false], vec![false], vec![false], vec![]];
    let present = vec![false, false, false, false, true, false];
    let offered = core.suggestions_from_probes(&vec![], &probes, &present);
    let ids: Vec<&str> = offered.iter().map(|s| s.definition_id.as_str()).collect();
    assert_eq!(ids, vec!["nvim"]);
}

#[test]
fn scan_and_suggestions_never_overlap_on_the_same_probes() {
    let (core, _data) = make_core();
    let registry = Registry::new(definitions());
    let probes = vec![vec![true], vec![], vec![false], vec![false], vec![false], vec![]];
    let present = vec![false; 6];
    let found = scan_from_probes(&registry, "/home/u", Platform::Linux, &probes);
    let offered = core.suggestions_from_probes(&vec![], &probes, &present);
    assert_eq!(found.len(), 1);
    assert_eq!(offered.len(), 2);
    for d in &found {
        assert!(offered.iter().all(|s| s.definition_id != d.definition_id));
    }
}

#[test]
fn suggestion_targets_follow_the_checks_in_order() {
    let (core, _data) = make_core();
    let t = core.suggestion_from_probes("zsh", false, &vec![false, true]).unwrap();
    assert_eq!(t.path, "/home/u/.zshenv");
    let t = core.suggestion_from_probes("zsh", false, &vec![false, false]).unwrap();
    assert_eq!(t.path, "/home/u/.zshrc");
    assert_eq!(t.kind, ConfigKind::File);
    assert!(matches!(core.suggestion_from_probes("nope", true, &vec![]), Err(CoreError::NotFound(m)) if m == "nope"));
    assert!(matches!(core.suggestion_from_probes("empty", true, &vec![]), Err(CoreError::InvalidPath(m)) if m == "empty"));
    assert!(matches!(core.suggestion_from_probes("ssh_key", true, &vec![false]), Err(CoreError::PrivateKeyBlocked)));
    assert!(matches!(core.suggestion_from_probes("aws", false, &vec![false]), Err(CoreError::ConfirmationRequired)));
    assert_eq!(core.suggestion_from_probes("aws", true, &vec![false]).unwrap().path, "/home/u/.aws/credentials");
}

#[test]
fn tracked_definitions_skip_custom_configurations() {
    let configs = vec![configuration("a", "A", Some("zsh")), configuration("b", "B", None), configuration("c", "C", Some("nvim"))];
    assert_eq!(tracked_definitions(&configs), vec!["zsh".to_string(), "nvim".to_string()]);
}

#[test]
fn walked_files_are_keyed_relative_to_the_root() {
    let files = files_below("/cfg/nvim", walk());
    assert_eq!(files.len(), 2);
    assert_eq!(files[0].key, "init.lua");
    assert_eq!(files[0].source, "/cfg/nvim/init.lua");
    assert_eq!(files[1].key, "lua/plugins.lua");
    assert_eq!(count_files(&walk()), 2);
    assert_eq!(count_files(&vec![]), 0);
}

#[test]
fn listed_files_are_sorted_relative_names() {
    let items = vec![item("/r", false, true), item("/r/z.txt", true, false), item("/r/a/b.txt", true, false), item("/r/m", true, false)];
    assert_eq!(listed_files("/r", items), vec!["a/b.txt".to_string(), "m".to_string(), "z.txt".to_string()]);
}

#[test]
fn staging_mirrors_directories_and_files() {
    let (dirs, copies) = staging_from_walk("/repo/c1", "/cfg/nvim", walk());
    assert_eq!(dirs, vec!["/repo/c1/".to_string(), "/repo/c1/lua".to_string()]);
    assert_eq!(copies.len(), 2);
    assert_eq!(copies[0].source, "/cfg/nvim/init.lua");
    assert_eq!(copies[0].dest, "/repo/c1/init.lua");
    assert_eq!(copies[1].dest, "/repo/c1/lua/plugins.lua");
}

#[test]
fn later_tree_entries_replace_earlier_ones() {
    let entries = vec![
        FileEntry { path: "a".to_string(), content: b"1".to_vec() },
        FileEntry { path: "b".to_string(), content: b"2".to_vec() },
        FileEntry { path: "a".to_string(), content: b"3".to_vec() },
    ];
    let m = file_map_of(&entries);
    assert_eq!(m.len(), 2);
    assert_eq!(m.entry(0).path, "a");
    assert_eq!(m.entry(0).content, b"3".to_vec());
    assert_eq!(m.entry(1).content, b"2".to_vec());
}

#[test]
fn restore_writes_every_snapshot_file() {
    let mut files = FileMap::new();
    files.insert("init.lua".to_string(), b"-- init\n".to_vec());
    files.insert("lua/plugins.lua".to_string(), b"-- plugins\n".to_vec());
    let mut dir = configuration("c1", "nvim", None);
    dir.kind = ConfigKind::Directory;
    dir.path = "/cfg/nvim".to_string();
    let plan = restore_plan_from(&dir, &files);
    assert_eq!(plan.root_dir, Some("/cfg/nvim".to_string()));
    assert_eq!(plan.writes.len(), 2);
    assert_eq!(plan.writes[0].dest, "/cfg/nvim/init.lua");
    assert_eq!(plan.writes[1].dest, "/cfg/nvim/lua/plugins.lua");
    assert_eq!(plan.writes[1].content, b"-- plugins\n".to_vec());

    let mut single = FileMap::new();
    single.insert(".zshrc".to_string(), b"export A=1\n".to_vec());
    let file = configuration("c2", "zshrc", None);
    let plan = restore_plan_from(&file, &single);
    assert_eq!(plan.root_dir, None);
    assert_eq!(plan.writes.len(), 1);
    assert_eq!(plan.writes[0].dest, "/home/u/zshrc");
    assert_eq!(plan.writes[0].content, b"export A=1\n".to_vec());
    assert!(restore_plan_from(&file, &FileMap::new()).writes.is_empty());
}

#[test]
fn a_commit_is_needed_for_a_first_snapshot_or_a_change() {
    assert!(commit_needed(false, 0, true));
    assert!(!commit_needed(false, 0, false));
    assert!(commit_needed(true, 3, false));
    assert!(!commit_needed(true, 0, true));
}

#[test]
fn pathspecs_with_a_nul_are_told_apart() {
    assert!(is_nul_free("abc-123"));
    assert!(!is_nul_free("ab\0c"));
}

#[test]
fn snapshot_all_counts_snapshotted_and_unchanged() {
    let configs = vec![configuration("a", "A", None), configuration("b", "B", None), configuration("c", "C", None)];
    let res = tally_snapshots(&configs, vec![Some(snapshot("a", "1111111")), None, Some(snapshot("c", "2222222"))]);
    assert_eq!(res.unchanged_count, 1);
    assert_eq!(res.snapshotted.len(), 2);
    assert_eq!(res.snapshotted[0].configuration_id, "a");
    assert_eq!(res.snapshotted[0].name, "A");
    assert_eq!(res.snapshotted[1].name, "C");
    assert_eq!(res.snapshotted.len() + res.unchanged_count, configs.len());
}

#[test]
fn configuration_rows_keep_column_order() {
    let c = configuration("id-1", "Zsh", Some("zsh"));
    let params = configuration_params(&c);
    assert_eq!(params.len(), 9);
    assert!(matches!(&params[0], SqlValue::Text(t) if t == "id-1"));
    assert!(matches!(&params[1], SqlValue::Text(t) if t == "zsh"));
    assert!(matches!(&params[2], SqlValue::Text(t) if t == "Zsh"));
    assert!(matches!(&params[3], SqlValue::Text(t) if t == "/home/u/Zsh"));
    assert!(matches!(&params[8], SqlValue::Null));
    let flags = flag_and_id_params(true, "id-1");
    assert!(matches!(&flags[0], SqlValue::Integer(1)));
    assert!(matches!(&flags[1], SqlValue::Text(t) if t == "id-1"));
}

#[test]
fn staged_copies_are_the_files_read() {
    let files = files_below("/cfg/nvim", walk());
    let (_, copies) = staging_from_walk("/repo/c1", "/cfg/nvim", walk());
    assert_eq!(copies.len(), files.len());
    for (c, f) in copies.iter().zip(files.iter()) {
        assert_eq!(c.source, f.source);
        assert_eq!(c.dest, format!("/repo/c1/{}", f.key));
    }
}
