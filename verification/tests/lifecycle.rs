//! End-to-end use of the core against real files. The library computes what
//! to copy, read and write; these helpers carry that out the way a front end
//! does, keeping the contents they wrote so that working copies can be built.

use std::collections::BTreeMap;
use std::io::Write;
use std::path::{Path, PathBuf};

use dotfiledesk_core::discovery::{scan_with_home, Registry};
use dotfiledesk_core::filemap::FileMap;
use dotfiledesk_core::history::{disk_files_to_read, WorkingCopy};
use dotfiledesk_core::models::{Category, ConfigDefinition, ConfigKind, Configuration, Platform, Sensitivity, Status};
use dotfiledesk_core::snippets::{CatalogEntry, SnippetCatalog, SnippetFormat, SnippetSuggestion};
use dotfiledesk_core::{file_content_from, Core, CoreError};

struct Disk {
    files: BTreeMap<PathBuf, Vec<u8>>,
    dirs: Vec<(PathBuf, tempfile::TempDir)>,
}

impl Disk {
    fn new() -> Disk {
        Disk { files: BTreeMap::new(), dirs: Vec::new() }
    }

    fn mkdir_all(&mut self, path: &Path) {
        if path.exists() {
            return;
        }
        let parent = path.parent().unwrap();
        self.mkdir_all(parent);
        let name = path.file_name().unwrap().to_str().unwrap().to_string();
        let dir = tempfile::Builder::new().prefix(&name).rand_bytes(0).tempdir_in(parent).unwrap();
        self.dirs.push((path.to_path_buf(), dir));
    }

    fn write(&mut self, path: &Path, content: &[u8]) {
        let parent = path.parent().unwrap();
        self.mkdir_all(parent);
        let mut file = tempfile::NamedTempFile::new_in(parent).unwrap();
        file.write_all(content).unwrap();
        file.persist(path).unwrap();
        self.files.insert(path.to_path_buf(), content.to_vec());
    }

    fn remove_file(&mut self, path: &Path) {
        drop(tempfile::TempPath::try_from_path(path).unwrap());
        self.files.remove(path);
    }

    fn remove_dir_all(&mut self, path: &Path) {
        let mut i = self.dirs.len();
        while i > 0 {
            i -= 1;
            if self.dirs[i].0.starts_with(path) {
                let (_, dir) = self.dirs.remove(i);
                drop(dir);
            }
        }
        self.files.retain(|p, _| !p.starts_with(path));
    }

    fn read(&self, path: &Path) -> Vec<u8> {
        self.files.get(path).cloned().unwrap_or_default()
    }
}

struct Env {
    core: Core,
    disk: Disk,
    home: tempfile::TempDir,
    _data: tempfile::TempDir,
}

fn def(id: &str, application: &str, category: Category, paths: &[&str], sensitivity: Sensitivity) -> ConfigDefinition {
    ConfigDefinition {
        id: id.to_string(),
        application: application.to_string(),
        category,
        kind: ConfigKind::File,
        paths: paths.iter().map(|p| p.to_string()).collect(),
        platforms: vec![Platform::Linux],
        sensitivity,
    }
}

fn registry() -> Registry {
    Registry::new(vec![
        def("zsh", "Zsh", Category::Shell, &["~/.zshrc"], Sensitivity::Normal),
        def("gitconfig", "Git", Category::Git, &["~/.gitconfig"], Sensitivity::Normal),
        def("ripgrep", "ripgrep", Category::DeveloperTools, &["~/.config/ripgrep/config"], Sensitivity::Normal),
        def("ssh_key_rsa", "SSH Key", Category::Ssh, &["~/.ssh/id_rsa"], Sensitivity::HighlySensitive),
        def(
            "vscode_settings",
            "VS Code",
            Category::Editor,
            &["~/Library/Application Support/Code/User/settings.json"],
            Sensitivity::Normal,
        ),
    ])
}

fn snippets() -> SnippetCatalog {
    SnippetCatalog::new(vec![
        CatalogEntry {
            definition_id: "zsh".to_string(),
            suggestions: vec![SnippetSuggestion {
                label: "Larger history".to_string(),
                description: String::new(),
                snippet: "HISTSIZE=10000\n".to_string(),
                format: SnippetFormat::Text,
            }],
        },
        CatalogEntry {
            definition_id: "vscode_settings".to_string(),
            suggestions: vec![SnippetSuggestion {
                label: "Format on save".to_string(),
                description: String::new(),
                snippet: "{\"editor.formatOnSave\": true}".to_string(),
                format: SnippetFormat::JsonObject,
            }],
        },
    ])
}

fn text(p: &Path) -> String {
    p.to_str().unwrap().to_string()
}

/// The app-data directory doubles as the home directory `~` expands to.
fn make_env() -> Env {
    let data = tempfile::tempdir().unwrap();
    let home = tempfile::tempdir().unwrap();
    let core = Core::init_with_home(&text(data.path()), &text(data.path()), Platform::Linux, registry(), snippets()).unwrap();
    Env { core, disk: Disk::new(), home, _data: data }
}

impl Env {
    fn data_dir(&self) -> PathBuf {
        self._data.path().to_path_buf()
    }

    fn configuration(&self, id: &str) -> Configuration {
        self.core.get_configuration(id).unwrap().unwrap()
    }

    fn working(&self, config: &Configuration) -> WorkingCopy {
        let mut files = FileMap::new();
        let mut size: u64 = 0;
        for f in disk_files_to_read(config).unwrap() {
            let content = self.disk.read(Path::new(&f.source));
            size += content.len() as u64;
            files.insert(f.key, content);
        }
        let size_bytes = if Path::new(&config.path).exists() { Some(size) } else { None };
        WorkingCopy { path: config.path.clone(), files, size_bytes }
    }

    fn working_of(&self, id: &str) -> WorkingCopy {
        let c = self.configuration(id);
        self.working(&c)
    }

    fn all_working(&self, configs: &[Configuration]) -> Vec<WorkingCopy> {
        configs.iter().map(|c| self.working(c)).collect()
    }

    fn stage(&mut self, id: &str) {
        let plan = self.core.staging_plan(id).unwrap();
        self.disk.remove_dir_all(Path::new(&plan.subtree));
        for d in &plan.dirs {
            self.disk.mkdir_all(Path::new(d.trim_end_matches('/')));
        }
        for c in &plan.copies {
            let content = self.disk.read(Path::new(&c.source));
            self.disk.write(Path::new(&c.dest), &content);
        }
    }

    fn snapshot(&mut self, id: &str, reason: &str) -> Option<dotfiledesk_core::models::Snapshot> {
        self.stage(id);
        self.core.snapshot(id, reason).unwrap()
    }

    fn snapshot_all(&mut self) -> dotfiledesk_core::SnapshotAllResult {
        for c in self.core.configurations(false).unwrap() {
            self.stage(&c.id);
        }
        self.core.snapshot_all().unwrap()
    }

    fn restore(&mut self, id: &str, commit: &str) -> dotfiledesk_core::backup::RestoreResult {
        self.stage(id);
        let start = self.core.prepare_restore(id, commit).unwrap();
        assert_eq!(start.backup.is_some(), start.backup_commit.is_some());
        if let Some(b) = &start.backup {
            assert_eq!(b.reason, "Pre-restore backup");
            assert_eq!(b.configuration_id, id);
        }
        if let Some(root) = &start.plan.root_dir {
            self.disk.mkdir_all(Path::new(root));
        }
        for w in &start.plan.writes {
            self.disk.write(Path::new(&w.dest), &w.content);
        }
        self.stage(id);
        self.core.restore(id, commit, start.backup_commit).unwrap()
    }

    fn status(&self, id: &str) -> Status {
        let w = self.working_of(id);
        self.core.get_configuration_detail(id, &w).unwrap().unwrap().status
    }
}

#[test]
fn full_lifecycle_add_snapshot_modify_diff_restore() {
    let mut env = make_env();
    let file = env.home.path().join("myrc");
    env.disk.write(&file, b"line one\n");

    let config = env.core.add_custom("My Tool", &text(&file), Category::Other, false).unwrap();
    assert_eq!(config.sensitivity, Sensitivity::Normal);

    let snap = env.snapshot(&config.id, "Initial snapshot");
    assert!(snap.is_some());
    assert_eq!(env.status(&config.id), Status::Synced);

    env.disk.write(&file, b"line one\nline two\n");
    assert_eq!(env.status(&config.id), Status::Modified);

    let working_diff = env.core.diff_working(&config.id, &env.working_of(&config.id)).unwrap();
    assert_eq!(working_diff.files.len(), 1);

    let second = env.snapshot(&config.id, "Added line two").unwrap();
    let snap_diff = env.core.diff_snapshot(&config.id, &second.git_commit).unwrap();
    assert_eq!(snap_diff.files.len(), 1);

    let history = env.core.list_history(&config.id).unwrap();
    assert_eq!(history.len(), 2);
    let first_commit = history.last().unwrap().git_commit.clone();

    let restore_result = env.restore(&config.id, &first_commit);
    assert!(restore_result.verified);
    assert_eq!(env.disk.read(&file), b"line one\n".to_vec());
    assert_eq!(env.status(&config.id), Status::Synced);

    let history_after = env.core.list_history(&config.id).unwrap();
    assert!(history_after.len() >= 3);
    assert!(history_after.iter().any(|s| s.reason == format!("Restored to {}", &first_commit[..7])));
}

#[test]
fn private_keys_are_never_tracked() {
    let mut env = make_env();
    let key = env.home.path().join(".ssh/id_rsa");
    env.disk.write(&key, b"-----BEGIN KEY-----");
    let result = env.core.add_custom("SSH Key", &text(&key), Category::Ssh, true);
    assert!(matches!(result, Err(CoreError::PrivateKeyBlocked)));
}

#[test]
fn sensitive_paths_require_confirmation() {
    let mut env = make_env();
    let npmrc = env.home.path().join(".npmrc");
    env.disk.write(&npmrc, b"//registry.npmjs.org/:_authToken=abc123\n");

    let unconfirmed = env.core.add_custom("npm", &text(&npmrc), Category::PackageManagers, false);
    assert!(matches!(unconfirmed, Err(CoreError::ConfirmationRequired)));

    let confirmed = env.core.add_custom("npm", &text(&npmrc), Category::PackageManagers, true).unwrap();
    assert_eq!(confirmed.sensitivity, Sensitivity::PotentialSecret);
}

#[test]
fn custom_paths_must_exist() {
    let mut env = make_env();
    let missing = env.home.path().join("nothing-here");
    let result = env.core.add_custom("Nothing", &text(&missing), Category::Other, false);
    match result {
        Err(CoreError::PathNotFound(p)) => assert_eq!(p, text(&missing)),
        _ => panic!("a missing path is refused"),
    }
}

#[test]
fn snapshot_all_only_records_changed_configs() {
    let mut env = make_env();
    let a = env.home.path().join("a.conf");
    let b = env.home.path().join("b.conf");
    env.disk.write(&a, b"a\n");
    env.disk.write(&b, b"b\n");
    let ca = env.core.add_custom("A", &text(&a), Category::Other, false).unwrap();
    let _cb = env.core.add_custom("B", &text(&b), Category::Other, false).unwrap();

    let first = env.snapshot_all();
    assert_eq!(first.snapshotted.len(), 2);
    assert_eq!(first.unchanged_count, 0);

    env.disk.write(&a, b"a changed\n");
    let second = env.snapshot_all();
    assert_eq!(second.snapshotted.len(), 1);
    assert_eq!(second.snapshotted[0].configuration_id, ca.id);
    assert_eq!(second.unchanged_count, 1);
    assert_eq!(second.snapshotted[0].snapshot.as_ref().unwrap().reason, "Manual snapshot");
}

#[test]
fn dashboard_summary_aggregates_across_configurations() {
    let mut env = make_env();
    let file = env.home.path().join("solo.conf");
    env.disk.write(&file, b"hello\n");
    let file_config = env.core.add_custom("Solo", &text(&file), Category::Other, false).unwrap();

    let dir = env.home.path().join("nvim");
    env.disk.write(&dir.join("init.lua"), b"-- init\n");
    env.disk.write(&dir.join("lua/plugins.lua"), b"-- plugins\n");
    let dir_config = env.core.add_custom("Neovim", &text(&dir), Category::Editor, false).unwrap();
    assert_eq!(dir_config.kind, ConfigKind::Directory);

    let configs = env.core.configurations(false).unwrap();
    let empty = env.core.dashboard_summary(&env.all_working(&configs)).unwrap();
    assert_eq!(empty.configuration_count, 2);
    assert_eq!(empty.file_count, 3);
    assert_eq!(empty.snapshot_count, 0);
    assert_eq!(empty.modified_count, 0);
    assert_eq!(empty.missing_count, 0);
    assert!(empty.total_size_bytes > 0);

    env.snapshot(&file_config.id, "Initial snapshot");
    env.snapshot(&dir_config.id, "Initial snapshot");
    env.disk.write(&file, b"hello again\n");
    env.disk.remove_dir_all(&dir);

    let configs = env.core.configurations(false).unwrap();
    let after = env.core.dashboard_summary(&env.all_working(&configs)).unwrap();
    assert_eq!(after.file_count, 1);
    assert_eq!(after.snapshot_count, 2);
    assert_eq!(after.modified_count, 1);
    assert_eq!(after.missing_count, 1);
}

#[test]
fn edits_file_configuration_in_place() {
    let mut env = make_env();
    let file = env.home.path().join("editable.conf");
    env.disk.write(&file, b"original\n");
    let config = env.core.add_custom("Editable", &text(&file), Category::Other, false).unwrap();

    let target = env.core.read_target(&config.id, None).unwrap();
    assert_eq!(target, text(&file));
    let content = file_content_from(None, &env.disk.read(Path::new(&target)));
    assert!(!content.is_binary);
    assert_eq!(content.content, "original\n");

    let target = env.core.write_target(&config.id, None).unwrap();
    env.disk.write(Path::new(&target), b"edited\n");
    assert_eq!(env.disk.read(&file), b"edited\n".to_vec());

    assert_eq!(env.status(&config.id), Status::NotTracked);
}

#[test]
fn edits_file_within_directory_configuration() {
    let mut env = make_env();
    let dir = env.home.path().join("nvim");
    env.disk.write(&dir.join("init.lua"), b"-- init\n");
    env.disk.write(&dir.join("lua/plugins.lua"), b"-- plugins\n");
    env.disk.write(&dir.join(".git/HEAD"), b"ref: x\n");

    let config = env.core.add_custom("Neovim", &text(&dir), Category::Editor, false).unwrap();

    let files = env.core.list_configuration_files(&config.id).unwrap();
    assert_eq!(files, vec!["init.lua".to_string(), "lua/plugins.lua".to_string()]);

    let target = env.core.read_target(&config.id, Some("lua/plugins.lua")).unwrap();
    assert_eq!(env.disk.read(Path::new(&target)), b"-- plugins\n".to_vec());

    let target = env.core.write_target(&config.id, Some("lua/plugins.lua")).unwrap();
    env.disk.write(Path::new(&target), b"-- plugins updated\n");
    assert_eq!(env.disk.read(&dir.join("lua/plugins.lua")), b"-- plugins updated\n".to_vec());

    let missing = env.core.read_target(&config.id, None);
    assert!(matches!(missing, Err(CoreError::InvalidPath(_))));
    let absent = env.core.read_target(&config.id, Some("nope.lua"));
    assert!(matches!(absent, Err(CoreError::PathNotFound(_))));
}

#[test]
fn archiving_configuration_hides_it_from_dashboard_but_keeps_history() {
    let mut env = make_env();
    let file = env.home.path().join("archived.conf");
    env.disk.write(&file, b"content\n");
    let config = env.core.add_custom("Archived", &text(&file), Category::Other, false).unwrap();
    env.snapshot(&config.id, "Initial snapshot");

    env.core.archive_configuration(&config.id).unwrap();
    let active = env.core.configurations(false).unwrap();
    assert!(env.core.list_configurations(&env.all_working(&active)).unwrap().is_empty());
    let archived = env.core.archived_configurations().unwrap();
    assert_eq!(env.core.list_archived_configurations(&env.all_working(&archived)).unwrap().len(), 1);
    assert_eq!(env.core.list_history(&config.id).unwrap().len(), 1);
    assert!(env.core.get_configuration_detail(&config.id, &env.working_of(&config.id)).unwrap().is_some());

    env.core.unarchive_configuration(&config.id).unwrap();
    let active = env.core.configurations(false).unwrap();
    let views = env.core.list_configurations(&env.all_working(&active)).unwrap();
    assert_eq!(views.len(), 1);
    assert_eq!(views[0].status, Status::Synced);
}

#[test]
fn snapshot_favorite_archive_and_delete_via_core() {
    let mut env = make_env();
    let file = env.home.path().join("starred.conf");
    env.disk.write(&file, b"content\n");
    let config = env.core.add_custom("Starred", &text(&file), Category::Other, false).unwrap();
    let snap = env.snapshot(&config.id, "Initial snapshot").unwrap();
    assert_eq!(snap.git_commit.len(), 40);

    env.core.favorite_snapshot(&snap.id, true).unwrap();
    assert!(env.core.list_history(&config.id).unwrap()[0].favorite);

    env.core.archive_snapshot(&snap.id, true).unwrap();
    assert!(env.core.list_history(&config.id).unwrap()[0].archived);

    env.core.delete_snapshot(&snap.id).unwrap();
    assert!(env.core.list_history(&config.id).unwrap().is_empty());
}

#[test]
fn suggestions_exclude_tracked_and_private_keys_and_can_create_missing_files() {
    let mut env = make_env();

    let suggestions = env.core.list_catalog_suggestions().unwrap();
    assert!(!suggestions.is_empty());
    assert!(
        suggestions.iter().all(|s| !s.definition_id.starts_with("ssh_key_")),
        "private key definitions must never be suggested"
    );

    let gitconfig_suggestion = suggestions.iter().find(|s| s.definition_id == "gitconfig").unwrap();
    assert_eq!(gitconfig_suggestion.category, Category::Git);

    assert!(suggestions.iter().any(|s| s.definition_id == "ripgrep"));
    let target = env.core.suggestion_target("ripgrep", false).unwrap();
    if !Path::new(&target.path).exists() {
        env.disk.write(Path::new(&target.path), b"");
    }
    let added = env.core.add_suggestion("ripgrep", false).unwrap();
    assert!(Path::new(&added.path).exists());
    assert_eq!(added.path, target.path);

    let still_suggested = env.core.list_catalog_suggestions().unwrap().iter().any(|s| s.definition_id == "ripgrep");
    assert!(!still_suggested, "tracked suggestions must disappear from the list");
}

#[test]
fn suggestions_never_include_paths_that_already_exist() {
    let mut env = make_env();
    let gitconfig = env.data_dir().join(".gitconfig");
    env.disk.write(&gitconfig, b"[user]\n");

    let suggestions = env.core.list_catalog_suggestions().unwrap();
    assert!(
        !suggestions.iter().any(|s| s.definition_id == "gitconfig"),
        "an existing file should surface via discovery, not suggestions"
    );

    let discovered = env.core.scan();
    assert!(discovered.iter().any(|d| d.definition_id == "gitconfig"));
}

#[test]
fn unknown_suggestions_are_not_found() {
    let mut env = make_env();
    assert!(matches!(env.core.add_suggestion("nope", true), Err(CoreError::NotFound(_))));
    assert!(matches!(env.core.add_suggestion("ssh_key_rsa", true), Err(CoreError::PrivateKeyBlocked)));
}

#[test]
fn snippet_suggestions_are_scoped_to_catalog_files_and_disappear_once_inserted() {
    let mut env = make_env();

    let custom_file = env.data_dir().join("custom.conf");
    env.disk.write(&custom_file, b"content\n");
    let custom = env.core.add_custom("Custom", &text(&custom_file), Category::Other, false).unwrap();
    assert!(env.core.list_snippet_suggestions(&custom.id, "content\n").unwrap().is_empty());

    let zshrc = env.data_dir().join(".zshrc");
    env.disk.write(&zshrc, b"export FOO=bar\n");
    let zsh = env.core.add_discovered("zsh", false).unwrap();
    assert_eq!(zsh.definition_id.as_deref(), Some("zsh"));

    let suggestions = env.core.list_snippet_suggestions(&zsh.id, "export FOO=bar\n").unwrap();
    assert!(!suggestions.is_empty());

    let first = suggestions[0].clone();
    let appended = format!("export FOO=bar\n{}", first.snippet);
    env.disk.write(&zshrc, appended.as_bytes());
    let after = env.core.list_snippet_suggestions(&zsh.id, &appended).unwrap();
    assert!(after.iter().all(|s| s.label != first.label));
}

#[test]
fn previews_a_json_snippet_insertion_without_writing_to_disk() {
    let mut env = make_env();
    let settings = env.data_dir().join("Library/Application Support/Code/User/settings.json");
    let original = "{\n  \"editor.tabSize\": 4\n}\n";
    env.disk.write(&settings, original.as_bytes());

    let config = env.core.add_discovered("vscode_settings", false).unwrap();

    let preview = env.core.preview_snippet_insertion(&config.id, "Format on save", original).unwrap();
    let parsed: serde_json::Value = serde_json::from_str(&preview).unwrap();
    assert_eq!(parsed["editor.tabSize"], 4);
    assert_eq!(parsed["editor.formatOnSave"], true);
    assert_eq!(env.working_of(&config.id).files.entry(0).content, original.as_bytes().to_vec());

    let unsaved = "{\n  \"editor.tabSize\": 4,\n  \"editor.wordWrap\": \"on\"\n}";
    let preview_over_unsaved = env.core.preview_snippet_insertion(&config.id, "Format on save", unsaved).unwrap();
    let parsed_unsaved: serde_json::Value = serde_json::from_str(&preview_over_unsaved).unwrap();
    assert_eq!(parsed_unsaved["editor.wordWrap"], "on");
    assert_eq!(parsed_unsaved["editor.formatOnSave"], true);

    let custom_file = env.data_dir().join("custom.conf");
    env.disk.write(&custom_file, b"content\n");
    let custom = env.core.add_custom("Custom", &text(&custom_file), Category::Other, false).unwrap();
    assert!(env.core.preview_snippet_insertion(&custom.id, "Format on save", "").is_err());
}

#[test]
fn missing_file_is_reported_and_restorable() {
    let mut env = make_env();
    let file = env.home.path().join("gone.conf");
    env.disk.write(&file, b"content\n");
    let config = env.core.add_custom("Gone", &text(&file), Category::Other, false).unwrap();
    env.snapshot(&config.id, "Initial snapshot");

    env.disk.remove_file(&file);
    assert_eq!(env.status(&config.id), Status::Missing);

    let history = env.core.list_history(&config.id).unwrap();
    let latest = history.first().unwrap().git_commit.clone();
    let result = env.restore(&config.id, &latest);
    assert!(result.verified);
    assert!(file.exists());
    assert_eq!(env.disk.read(&file), b"content\n".to_vec());
}

#[test]
fn restoring_an_unknown_commit_is_refused() {
    let mut env = make_env();
    let file = env.home.path().join("x.conf");
    env.disk.write(&file, b"x\n");
    let config = env.core.add_custom("X", &text(&file), Category::Other, false).unwrap();
    env.snapshot(&config.id, "Initial snapshot");
    env.stage(&config.id);
    assert!(matches!(env.core.prepare_restore(&config.id, "not-a-commit"), Err(CoreError::InvalidCommit(_))));
    assert!(matches!(env.core.diff_snapshot(&config.id, "0123456"), Err(CoreError::InvalidCommit(_))));
}

#[test]
fn diff_working_needs_a_snapshot() {
    let mut env = make_env();
    let file = env.home.path().join("y.conf");
    env.disk.write(&file, b"y\n");
    let config = env.core.add_custom("Y", &text(&file), Category::Other, false).unwrap();
    match env.core.diff_working(&config.id, &env.working_of(&config.id)) {
        Err(CoreError::NotFound(m)) => assert_eq!(m, format!("no snapshot for {}", config.id)),
        _ => panic!("no snapshot yet"),
    }
}

#[test]
fn directory_snapshots_record_every_file_and_restore_them() {
    let mut env = make_env();
    let dir = env.home.path().join("fish");
    env.disk.write(&dir.join("config.fish"), b"set -x A 1\n");
    env.disk.write(&dir.join("functions/hi.fish"), b"function hi\nend\n");
    let config = env.core.add_custom("Fish", &text(&dir), Category::Shell, false).unwrap();
    let first = env.snapshot(&config.id, "Initial snapshot").unwrap();
    let d = env.core.diff_snapshot(&config.id, &first.git_commit).unwrap();
    assert_eq!(d.files.len(), 2);
    assert_eq!(d.files[0].path, "config.fish");
    assert_eq!(d.files[1].path, "functions/hi.fish");

    env.disk.write(&dir.join("functions/hi.fish"), b"function hi\n  echo hi\nend\n");
    assert_eq!(env.status(&config.id), Status::Modified);
    let restored = env.restore(&config.id, &first.git_commit);
    assert!(restored.backup_commit.is_some());
    assert_eq!(env.disk.read(&dir.join("functions/hi.fish")), b"function hi\nend\n".to_vec());
    assert_eq!(env.status(&config.id), Status::Synced);
}

#[test]
fn scan_only_returns_files_that_exist() {
    let registry = Registry::new(vec![def("test_zshrc", "Zsh", Category::Shell, &["~/.zshrc"], Sensitivity::Normal)]);
    let home = tempfile::tempdir().unwrap();
    assert!(scan_with_home(&registry, &text(home.path()), Platform::Linux).is_empty());

    let mut disk = Disk::new();
    disk.write(&home.path().join(".zshrc"), b"export FOO=bar\n");
    let found = scan_with_home(&registry, &text(home.path()), Platform::Linux);
    assert_eq!(found.len(), 1);
    assert_eq!(found[0].definition_id, "test_zshrc");
    assert!(scan_with_home(&registry, &text(home.path()), Platform::Windows).is_empty());
}

#[test]
fn flags_private_keys() {
    let registry = Registry::new(vec![def("test_key", "SSH Key", Category::Ssh, &["~/.ssh/id_rsa"], Sensitivity::HighlySensitive)]);
    let home = tempfile::tempdir().unwrap();
    let mut disk = Disk::new();
    disk.write(&home.path().join(".ssh/id_rsa"), b"-----BEGIN KEY-----");
    let found = scan_with_home(&registry, &text(home.path()), Platform::Linux);
    assert_eq!(found.len(), 1);
    assert!(found[0].is_private_key);
}

#[test]
fn configuration_files_are_listed_in_text_order() {
    let mut env = make_env();
    let dir = env.home.path().join("conf.d");
    for name in ["b/x", "b.conf", "a.conf", "A.conf", "node_modules/skip.js", "debug.log"] {
        env.disk.write(&dir.join(name), b"x\n");
    }
    let config = env.core.add_custom("Conf", &text(&dir), Category::Other, false).unwrap();
    let files = env.core.list_configuration_files(&config.id).unwrap();
    assert_eq!(files, vec!["A.conf".to_string(), "a.conf".to_string(), "b.conf".to_string(), "b/x".to_string()]);
    let summary_files = env.core.configurations(false).unwrap();
    let summary = env.core.dashboard_summary(&env.all_working(&summary_files)).unwrap();
    assert_eq!(summary.file_count, 4);
}

#[test]
fn file_configurations_list_no_files() {
    let mut env = make_env();
    let file = env.home.path().join("single.conf");
    env.disk.write(&file, b"x\n");
    let config = env.core.add_custom("Single", &text(&file), Category::Other, false).unwrap();
    assert!(env.core.list_configuration_files(&config.id).unwrap().is_empty());
    assert!(matches!(env.core.list_configuration_files("nope"), Err(CoreError::NotFound(_))));
}

#[test]
fn a_first_snapshot_of_nothing_records_nothing() {
    let mut env = make_env();
    let file = env.home.path().join("fleeting.conf");
    env.disk.write(&file, b"x\n");
    let config = env.core.add_custom("Fleeting", &text(&file), Category::Other, false).unwrap();
    env.disk.remove_file(&file);
    assert!(env.snapshot(&config.id, "Initial snapshot").is_none());
    assert!(env.core.list_history(&config.id).unwrap().is_empty());
}
