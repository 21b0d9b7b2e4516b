//! GUI-independent core of DotfileDesk: discovers dotfiles, keeps their
//! metadata in SQLite, snapshots them into an internal git repository, diffs
//! and restores them, and guards against taking in private keys or
//! unconfirmed secrets.

use vstd::prelude::*;

pub mod backup;
pub mod diff;
pub mod discovery;
pub mod disk;
pub mod filemap;
pub mod git;
pub mod history;
pub mod json;
pub mod models;
pub mod order;
pub mod paths;
pub mod security;
pub mod snippets;
pub mod summary;
pub mod text;
pub mod tracking;

pub use summary::DashboardSummary;

verus! {

#[verifier::external_type_specification]
#[verifier::external_body]
pub struct ExIoError(std::io::Error);

#[verifier::external_type_specification]
#[verifier::external_body]
pub struct ExDbError(rusqlite::Error);

#[verifier::external_type_specification]
#[verifier::external_body]
pub struct ExGitError(git2::Error);

/// Everything that can go wrong in a core operation.
#[derive(Debug)]
pub enum CoreError {
    Io(std::io::Error),
    Db(rusqlite::Error),
    Git(git2::Error),
    InvalidPath(String),
    InvalidCommit(String),
    NotFound(String),
    PrivateKeyBlocked,
    ConfirmationRequired,
    PathNotFound(String),
    SnippetApplyFailed(String),
}

} // verus!

verus! {

/// A configuration together with its live status, as the dashboard shows it.
#[derive(Debug)]
pub struct ConfigurationView {
    pub configuration: models::Configuration,
    pub status: models::Status,
}

/// Everything the configuration detail page needs.
#[derive(Debug)]
pub struct ConfigurationDetail {
    pub configuration: models::Configuration,
    pub status: models::Status,
    pub size_bytes: Option<u64>,
}

/// The content of one file of a configuration, as the integrated editor
/// shows it. `relative_path` is `None` for a file configuration and the
/// path below the root for a directory configuration.
#[derive(Debug)]
pub struct FileContent {
    pub relative_path: Option<String>,
    pub content: String,
    pub is_binary: bool,
}

/// A catalog entry that is neither taken in nor present on disk, offered as
/// something worth creating.
#[derive(Debug)]
pub struct CatalogSuggestion {
    pub definition_id: String,
    pub application: String,
    pub category: models::Category,
    pub kind: models::ConfigKind,
    pub path: String,
    pub sensitivity: models::Sensitivity,
}

/// The snapshot taken of one configuration by "snapshot all".
#[derive(Debug)]
pub struct SnapshotOutcome {
    pub configuration_id: String,
    pub name: String,
    pub snapshot: Option<models::Snapshot>,
}

/// What "snapshot all" did.
#[derive(Debug)]
pub struct SnapshotAllResult {
    pub snapshotted: Vec<SnapshotOutcome>,
    pub unchanged_count: usize,
}

/// Where a catalog suggestion will be created and taken in.
#[derive(Debug)]
pub struct SuggestionTarget {
    pub definition_id: String,
    pub path: String,
    pub kind: models::ConfigKind,
}

/// Decides whether a path may be taken in: a private key never, anything
/// not `Normal` only when confirmed.
pub fn admission(private_key: bool, sensitivity: models::Sensitivity, confirmed: bool) -> (r: Result<(), CoreError>)
    ensures
        r is Ok <==> !private_key && (sensitivity == models::Sensitivity::Normal || confirmed),
        r matches Err(e) ==> (private_key && e is PrivateKeyBlocked) || (!private_key && e is ConfirmationRequired),
{
    if private_key {
        return Err(CoreError::PrivateKeyBlocked);
    }
    if sensitivity != models::Sensitivity::Normal && !confirmed {
        return Err(CoreError::ConfirmationRequired);
    }
    Ok(())
}

/// The file content the editor shows for some bytes: the text when they are
/// valid UTF-8, otherwise nothing, marked binary.
pub fn file_content_from(relative_path: Option<&str>, bytes: &Vec<u8>) -> (r: FileContent)
    ensures
        r.is_binary == !vstd::utf8::valid_utf8(bytes@),
        !r.is_binary ==> r.content@ == vstd::utf8::decode_utf8(bytes@),
        r.is_binary ==> r.content@.len() == 0,
        models::opt_text(r.relative_path) == (match relative_path {
            Some(p) => Some(p@),
            None => None::<Seq<char>>,
        }),
{
    let rel: Option<String> = match relative_path {
        Some(p) => Some(p.to_owned()),
        None => None,
    };
    match diff::utf8_text(bytes) {
        Some(content) => FileContent { relative_path: rel, content, is_binary: false },
        None => FileContent { relative_path: rel, content: String::new(), is_binary: true },
    }
}

/// Whether `list` holds the text `x`.
fn holds_text(list: &Vec<String>, x: &str) -> (r: bool)
    ensures
        r == exists|i: int| 0 <= i < list.len() && (#[trigger] list@[i])@ == x@,
{
    let mut i: usize = 0;
    while i < list.len()
        invariant
            i <= list.len(),
            forall|k: int| 0 <= k < i ==> (#[trigger] list@[k])@ != x@,
        decreases list.len() - i,
    {
        if text::text_eq(list[i].as_str(), x) {
            return true;
        }
        i = i + 1;
    }
    false
}

/// The position of the first `snapshot` of `history` whose commit is
/// `commit`, and the commit of the snapshot after it (the one taken just
/// before, as history is newest first), if any.
pub open spec fn previous_in_history(history: Seq<models::Snapshot>, commit: Seq<char>, pos: int) -> bool {
    &&& 0 <= pos < history.len()
    &&& history[pos].git_commit@ == commit
    &&& forall|k: int| 0 <= k < pos ==> (#[trigger] history[k]).git_commit@ != commit
}

/// Finds `commit` in `history` (newest first) and returns the commit taken
/// just before it: `None` when `commit` is not there, `Some(None)` when it is
/// the oldest.
pub fn previous_commit(history: &Vec<models::Snapshot>, commit: &str) -> (r: Option<Option<String>>)
    ensures
        r is None <==> forall|k: int| 0 <= k < history.len() ==> (#[trigger] history@[k]).git_commit@ != commit@,
        r matches Some(prev) ==> exists|pos: int| #[trigger] previous_in_history(history@, commit@, pos) && models::opt_text(prev) == (
            if pos + 1 < history.len() {
                Some(history@[pos + 1].git_commit@)
            } else {
                None::<Seq<char>>
            }),
{
    let mut i: usize = 0;
    while i < history.len()
        invariant
            i <= history.len(),
            forall|k: int| 0 <= k < i ==> (#[trigger] history@[k]).git_commit@ != commit@,
        decreases history.len() - i,
    {
        if text::text_eq(history[i].git_commit.as_str(), commit) {
            assert(previous_in_history(history@, commit@, i as int));
            if i + 1 < history.len() {
                return Some(Some(history[i + 1].git_commit.clone()));
            } else {
                return Some(None);
            }
        }
        i = i + 1;
    }
    None
}

/// The message for a configuration without any snapshot.
pub open spec fn no_snapshot_message(id: Seq<char>) -> Seq<char> {
    "no snapshot for "@ + id
}

/// The single entry point of the core.
pub struct Core {
    store: tracking::Store,
    repo: history::HistoryRepo,
    registry: discovery::Registry,
    snippets: snippets::SnippetCatalog,
    home: String,
    platform: models::Platform,
    tree_reads: Ghost<Seq<history::TreeRead>>,
    dir_probes: Ghost<Seq<(Seq<char>, bool)>>,
}

impl Core {
    /// The home directory `~` expands to.
    pub closed spec fn home_view(&self) -> Seq<char> {
        self.home@
    }

    /// The platform catalog entries are matched against.
    pub closed spec fn platform_view(&self) -> models::Platform {
        self.platform
    }

    /// The catalog's definitions.
    pub closed spec fn definitions_view(&self) -> Seq<models::ConfigDefinition> {
        self.registry.definitions_view()
    }

    /// The statements the core has handed to its database that change it or
    /// list configurations (see [`tracking::Store::sent`]).
    pub closed spec fn sent(&self) -> Seq<(Seq<char>, Seq<tracking::SqlValue>)> {
        self.store.sent()
    }

    /// The snapshot lists the core has asked its database for where it
    /// records them (see [`tracking::Store::heard`]).
    pub closed spec fn heard(&self) -> Seq<(Seq<char>, Seq<models::Snapshot>)> {
        self.store.heard()
    }

    /// The snapshot files the core has read from its history repository
    /// where it records them, in order (see
    /// [`history::HistoryRepo::read_tree_subtree`]).
    pub closed spec fn tree_reads(&self) -> Seq<history::TreeRead> {
        self.tree_reads@
    }

    /// The paths the core has asked the disk whether they are directories,
    /// with the answers, in order.
    pub closed spec fn dir_probes(&self) -> Seq<(Seq<char>, bool)> {
        self.dir_probes@
    }

    /// The snippet catalog's entries.
    pub closed spec fn snippet_entries_view(&self) -> Seq<snippets::CatalogEntry> {
        self.snippets.entries_view()
    }

    /// Assembles a core from its parts.
    pub fn new(
        store: tracking::Store,
        repo: history::HistoryRepo,
        registry: discovery::Registry,
        snippets: snippets::SnippetCatalog,
        home: String,
        platform: models::Platform,
    ) -> (r: Core)
        ensures
            r.home_view() == home@,
            r.platform_view() == platform,
            r.definitions_view() == registry.definitions_view(),
            r.snippet_entries_view() == snippets.entries_view(),
            r.sent() == store.sent(),
            r.heard() == store.heard(),
            r.tree_reads().len() == 0,
            r.dir_probes().len() == 0,
    {
        Core { store, repo, registry, snippets, home, platform, tree_reads: Ghost(Seq::empty()), dir_probes: Ghost(Seq::empty()) }
    }

    /// Opens the metadata store (`dotfiledesk.sqlite`) and the history
    /// repository (`repository`) inside `app_data_dir`, both of which must
    /// exist as directories or be creatable by SQLite and git, with `home`
    /// as the directory `~` expands to.
    pub fn init_with_home(
        app_data_dir: &str,
        home: &str,
        platform: models::Platform,
        registry: discovery::Registry,
        snippets: snippets::SnippetCatalog,
    ) -> (r: Result<Core, CoreError>)
        ensures
            r matches Ok(c) ==> c.home_view() == home@ && c.platform_view() == platform
                && c.definitions_view() == registry.definitions_view() && c.snippet_entries_view() == snippets.entries_view(),
            r matches Err(e) ==> e is Db || e is Git,
    {
        let db_path = paths::join_path(app_data_dir, "dotfiledesk.sqlite");
        let store = match tracking::Store::open(db_path.as_str()) {
            Ok(s) => s,
            Err(e) => {
                return Err(e);
            },
        };
        let repo_path = paths::join_path(app_data_dir, "repository");
        let repo = match history::HistoryRepo::open_or_init(repo_path.as_str()) {
            Ok(r) => r,
            Err(e) => {
                return Err(e);
            },
        };
        Ok(Core::new(store, repo, registry, snippets, home.to_owned(), platform))
    }

    /// Opens the core in `app_data_dir` (see [`Core::init_with_home`]) with
    /// the current user's home directory, or `/` when there is none.
    pub fn init(
        app_data_dir: &str,
        platform: models::Platform,
        registry: discovery::Registry,
        snippets: snippets::SnippetCatalog,
    ) -> (r: Result<Core, CoreError>)
        ensures
            r matches Ok(c) ==> c.platform_view() == platform && c.definitions_view() == registry.definitions_view()
                && c.snippet_entries_view() == snippets.entries_view(),
            r matches Err(e) ==> e is Db || e is Git,
    {
        let home = match disk::home_dir() {
            Some(h) => h,
            None => "/".to_owned(),
        };
        Core::init_with_home(app_data_dir, home.as_str(), platform, registry, snippets)
    }

    /// Expands a leading `~` against this core's home directory.
    pub fn expand(&self, raw: &str) -> (r: String)
        ensures
            r@ == paths::expand_spec(raw@, self.home_view()),
    {
        paths::expand_home(raw, self.home.as_str())
    }

    /// Scans the disk for catalog entries, against this core's home
    /// directory and platform.
    pub fn scan(&self) -> (r: Vec<discovery::DiscoveredConfig>)
        ensures
            discovery::scan_of_some_probes(self.definitions_view(), self.home_view(), self.platform_view(), r@),
    {
        discovery::scan_with_home(&self.registry, self.home.as_str(), self.platform)
    }

    /// The configuration with the given id, if there is one.
    pub fn get_configuration(&self, id: &str) -> (r: Result<Option<models::Configuration>, CoreError>)
        ensures
            r matches Ok(Some(c)) ==> c.id@ == id@,
            r matches Err(e) ==> e is Db,
    {
        self.store.get_configuration(id)
    }

    fn require_configuration(&self, id: &str) -> (r: Result<models::Configuration, CoreError>)
        ensures
            r matches Ok(c) ==> c.id@ == id@,
            r matches Err(e) ==> e is Db || (e matches CoreError::NotFound(m) && m@ == id@),
    {
        match self.store.get_configuration(id) {
            Ok(Some(c)) => Ok(c),
            Ok(None) => Err(CoreError::NotFound(id.to_owned())),
            Err(e) => Err(e),
        }
    }

    /// The commit of the newest snapshot of a configuration, if any.
    fn latest_commit(&self, id: &str) -> (r: Result<Option<String>, CoreError>)
        ensures
            r matches Ok(o) ==> latest_of_some_history(id@, models::opt_text(o)),
            r matches Err(e) ==> e is Db,
    {
        match self.store.list_snapshots(id) {
            Ok(list) => {
                let r = if list.len() > 0 {
                    Some(list[0].git_commit.clone())
                } else {
                    None
                };
                assert(latest_in(list@, models::opt_text(r)));
                Ok(r)
            },
            Err(e) => Err(e),
        }
    }

    /// The configurations, ordered by name: the ones not archived, or all of
    /// them when `include_archived` is set.
    pub fn configurations(&mut self, include_archived: bool) -> (r: Result<Vec<models::Configuration>, CoreError>)
        ensures
            r matches Ok(v) ==> tracking::configurations_of_some_rows(v@),
            r matches Err(e) ==> e is Db,
    {
        self.store.list_configurations(include_archived)
    }

    /// The archived configurations, ordered by name.
    pub fn archived_configurations(&mut self) -> (r: Result<Vec<models::Configuration>, CoreError>)
        ensures
            r matches Ok(v) ==> tracking::configurations_of_some_rows(v@),
            r matches Err(e) ==> e is Db,
    {
        self.store.list_archived_configurations()
    }

    /// The live status of `config`, given what is on disk for it.
    fn status_of(&self, config: &models::Configuration, working: &history::WorkingCopy) -> (r: Result<models::Status, CoreError>)
        ensures
            r matches Ok(s) ==> s != models::Status::Warning,
            r matches Ok(s) ==> exists|present: bool, has_snapshot: bool, changed: bool| {
                &&& s == #[trigger] history::status_of(present, has_snapshot, changed)
                &&& (present && has_snapshot ==> exists|old: filemap::FileMap| changed == #[trigger] history::differs(old, working.files))
            },
            r matches Ok(s) ==> exists|latest: Option<Seq<char>>| #[trigger] latest_of_some_history(config.id@, latest)
                && (latest is None ==> s == models::Status::NotTracked),
            r matches Err(CoreError::InvalidPath(m)) ==> m@ == config.id@,
            r matches Err(e) ==> e is Db || e is Git || e is InvalidCommit || e is InvalidPath,
    {
        let latest = match self.latest_commit(config.id.as_str()) {
            Ok(l) => l,
            Err(e) => {
                return Err(e);
            },
        };
        let latest_ref: Option<&str> = match &latest {
            Some(c) => Some(c.as_str()),
            None => None,
        };
        let mut reads: Ghost<Seq<history::TreeRead>> = Ghost(Seq::empty());
        let r = history::compute_status(&self.repo, config, latest_ref, &working.files, &mut reads);
        assert(latest_of_some_history(config.id@, models::opt_text(latest)));
        proof {
            if r is Ok {
                let s = r->Ok_0;
                let (present, changed) = choose|present: bool, changed: bool| {
                    &&& s == #[trigger] history::status_of(present, latest_ref is Some, changed)
                    &&& (present && latest_ref is Some ==> exists|old: filemap::FileMap| changed == #[trigger] history::differs(old, working.files))
                };
                assert(s == history::status_of(present, latest_ref is Some, changed));
            }
        }
        r
    }

    /// Pairs each configuration with its live status; `working` holds what
    /// is on disk for each, in the same order.
    pub fn attach_status(
        &self,
        configs: Vec<models::Configuration>,
        working: &Vec<history::WorkingCopy>,
    ) -> (r: Result<Vec<ConfigurationView>, CoreError>)
        ensures
            r matches Ok(views) ==> views.len() == configs.len() && forall|i: int| 0 <= i < views.len() ==> {
                &&& (#[trigger] views[i]).configuration.same_as(configs@[i])
                &&& views[i].configuration.path@ == working@[i].path@
                &&& views[i].status != models::Status::Warning
            },
            working.len() != configs.len() ==> r is Err,
            working.len() == 0 && configs.len() == 0 ==> (r matches Ok(v) && v.len() == 0),
            r matches Err(e) ==> e is Db || e is Git || e is InvalidCommit || (e is InvalidPath && (working.len() != configs.len()
                || exists|i: int| 0 <= i < configs.len() && (#[trigger] configs@[i]).path@ != working@[i].path@
                || exists|i: int| 0 <= i < configs.len() && #[trigger] invalid_path_of(e, configs@[i].id@))),
            (working.len() == configs.len() && exists|i: int|
                0 <= i < configs.len() && (#[trigger] configs@[i]).path@ != working@[i].path@) ==> r is Err,
    {
        if configs.len() != working.len() {
            return Err(CoreError::InvalidPath(String::new()));
        }
        let mut views: Vec<ConfigurationView> = Vec::new();
        let mut i: usize = 0;
        while i < configs.len()
            invariant
                i <= configs.len(),
                configs.len() == working.len(),
                views.len() == i,
                forall|k: int| 0 <= k < i ==> (#[trigger] configs@[k]).path@ == working@[k].path@,
                forall|k: int| 0 <= k < i ==> {
                    &&& (#[trigger] views@[k]).configuration.same_as(configs@[k])
                    &&& views@[k].status != models::Status::Warning
                },
            decreases configs.len() - i,
        {
            let configuration = configs[i].duplicate();
            if !text::text_eq(configuration.path.as_str(), working[i].path.as_str()) {
                return Err(CoreError::InvalidPath(configuration.path));
            }
            let status = match self.status_of(&configuration, &working[i]) {
                Ok(s) => s,
                Err(e) => {
                    assert(configuration.same_as(configs@[i as int]));
                    assert(e is InvalidPath ==> invalid_path_of(e, configs@[i as int].id@));
                    return Err(e);
                },
            };
            views.push(ConfigurationView { configuration, status });
            i = i + 1;
        }
        Ok(views)
    }

    /// The configurations that are not archived, with their live status;
    /// `working` holds what is on disk for each, in the order of
    /// [`Core::configurations`].
    pub fn list_configurations(&mut self, working: &Vec<history::WorkingCopy>) -> (r: Result<Vec<ConfigurationView>, CoreError>)
        ensures
            r matches Ok(views) ==> views.len() == working.len() && forall|i: int| 0 <= i < views.len() ==> {
                &&& (#[trigger] views[i]).configuration.path@ == working@[i].path@
                &&& views[i].status != models::Status::Warning
            },
    {
        let configs = match self.store.list_configurations(false) {
            Ok(c) => c,
            Err(e) => {
                return Err(e);
            },
        };
        self.attach_status(configs, working)
    }

    /// The archived configurations, with their live status; `working` holds
    /// what is on disk for each, in the order of
    /// [`Core::archived_configurations`]. Archiving hides a configuration
    /// from the dashboard and leaves its history alone.
    pub fn list_archived_configurations(&mut self, working: &Vec<history::WorkingCopy>) -> (r: Result<Vec<ConfigurationView>, CoreError>)
        ensures
            r matches Ok(views) ==> views.len() == working.len() && forall|i: int| 0 <= i < views.len() ==> {
                &&& (#[trigger] views[i]).configuration.path@ == working@[i].path@
                &&& views[i].status != models::Status::Warning
            },
    {
        let configs = match self.store.list_archived_configurations() {
            Ok(c) => c,
            Err(e) => {
                return Err(e);
            },
        };
        self.attach_status(configs, working)
    }

    /// Aggregate numbers for the dashboard over the configurations that are
    /// not archived; `working` holds what is on disk for each, in the order
    /// of [`Core::configurations`], and gives the sizes that are summed.
    pub fn dashboard_summary(&mut self, working: &Vec<history::WorkingCopy>) -> (r: Result<summary::DashboardSummary, CoreError>)
        ensures
            r matches Ok(s) ==> {
                &&& s.configuration_count == working.len()
                &&& s.total_size_bytes == summary::capped(summary::total(summary::sizes_of(working_sizes(working@))), u64::MAX as int)
                &&& s.modified_count + s.missing_count <= s.configuration_count
                &&& exists|statuses: Seq<models::Status>, files: Seq<usize>, snaps: Seq<usize>|
                    statuses.len() == working.len() && files.len() == working.len() && snaps.len() == working.len()
                    && #[trigger] summary::summarized(statuses, files, working_sizes(working@), snaps, s)
            },
            r matches Ok(s) ==> {
                &&& final(self).heard().len() == old(self).heard().len() + working.len()
                &&& final(self).heard().take(old(self).heard().len() as int) == old(self).heard()
                &&& summarized_with_counts(working@, list_lengths(final(self).heard().skip(old(self).heard().len() as int)), s)
            },
            r matches Err(e) ==> e is Db || e is Git || e is InvalidCommit || e is InvalidPath,
    {
        let configs = match self.store.list_configurations(false) {
            Ok(c) => c,
            Err(e) => {
                return Err(e);
            },
        };
        if configs.len() != working.len() {
            return Err(CoreError::InvalidPath(String::new()));
        }
        let ghost heard0 = self.heard();
        let mut statuses: Vec<models::Status> = Vec::new();
        let mut file_counts: Vec<usize> = Vec::new();
        let mut sizes: Vec<Option<u64>> = Vec::new();
        let mut snapshot_counts: Vec<usize> = Vec::new();
        let mut i: usize = 0;
        while i < configs.len()
            invariant
                i <= configs.len(),
                configs.len() == working.len(),
                statuses.len() == i,
                file_counts.len() == i,
                snapshot_counts.len() == i,
                sizes.len() == i,
                forall|k: int| 0 <= k < i ==> sizes@[k] == (#[trigger] working@[k]).size_bytes,
                self.heard().len() == heard0.len() + i,
                self.heard().take(heard0.len() as int) == heard0,
                snapshot_counts@ == list_lengths(self.heard().skip(heard0.len() as int)),
            decreases configs.len() - i,
        {
            let configuration = &configs[i];
            if !text::text_eq(configuration.path.as_str(), working[i].path.as_str()) {
                return Err(CoreError::InvalidPath(configuration.path.clone()));
            }
            let ghost h_before = self.heard();
            let snaps = match self.store.list_snapshots_recorded(configuration.id.as_str()) {
                Ok(list) => list,
                Err(e) => {
                    return Err(e);
                },
            };
            let status = match self.status_of(configuration, &working[i]) {
                Ok(s) => s,
                Err(e) => {
                    return Err(e);
                },
            };
            statuses.push(status);
            file_counts.push(history::path_file_count(configuration.path.as_str(), configuration.kind));
            sizes.push(working[i].size_bytes);
            let ghost counts_before = snapshot_counts@;
            snapshot_counts.push(snaps.len());
            proof {
                assert(self.heard() == h_before.push((configuration.id@, snaps@)));
                assert(self.heard().take(heard0.len() as int) =~= heard0);
                assert(self.heard().skip(heard0.len() as int) =~= h_before.skip(heard0.len() as int).push((configuration.id@, snaps@)));
                assert(snapshot_counts@ =~= list_lengths(self.heard().skip(heard0.len() as int)));
            }
            i = i + 1;
        }
        assert(sizes@ =~= working_sizes(working@));
        let s = summary::summarize(&statuses, &file_counts, &sizes, &snapshot_counts);
        proof {
            summary::lemma_modified_and_missing(statuses@);
        }
        assert(summary::summarized(statuses@, file_counts@, working_sizes(working@), snapshot_counts@, s));
        assert(heard0 == old(self).heard());
        assert(summary::summarized(statuses@, file_counts@, working_sizes(working@),
            list_lengths(self.heard().skip(old(self).heard().len() as int)), s));
        assert(summarized_with_counts(working@, list_lengths(self.heard().skip(old(self).heard().len() as int)), s));
        Ok(s)
    }

    /// Hides a configuration from the dashboard; its history is kept.
    pub fn archive_configuration(&mut self, id: &str) -> (r: Result<(), CoreError>)
        ensures
            tracking::one_more(old(self).sent(), final(self).sent(), tracking::sql_set_configuration_archived()),
            tracking::flag_and_id_args(final(self).sent().last().1, true, id@),
            r matches Err(e) ==> e is Db,
    {
        self.store.set_configuration_archived(id, true)
    }

    /// Shows an archived configuration on the dashboard again.
    pub fn unarchive_configuration(&mut self, id: &str) -> (r: Result<(), CoreError>)
        ensures
            tracking::one_more(old(self).sent(), final(self).sent(), tracking::sql_set_configuration_archived()),
            tracking::flag_and_id_args(final(self).sent().last().1, false, id@),
            r matches Err(e) ==> e is Db,
    {
        self.store.set_configuration_archived(id, false)
    }

    /// The detail page of a configuration, `None` when there is no such
    /// configuration; `working` holds what is on disk for it and gives its
    /// size.
    pub fn get_configuration_detail(&self, id: &str, working: &history::WorkingCopy) -> (r: Result<Option<ConfigurationDetail>, CoreError>)
        ensures
            r matches Ok(Some(d)) ==> {
                &&& d.configuration.id@ == id@
                &&& d.configuration.path@ == working.path@
                &&& d.size_bytes == working.size_bytes
                &&& d.status != models::Status::Warning
                &&& exists|present: bool, has_snapshot: bool, changed: bool| {
                    &&& d.status == #[trigger] history::status_of(present, has_snapshot, changed)
                    &&& (present && has_snapshot ==> exists|old: filemap::FileMap| changed == #[trigger] history::differs(old, working.files))
                }
                &&& exists|latest: Option<Seq<char>>| #[trigger] latest_of_some_history(id@, latest)
                    && (latest is None ==> d.status == models::Status::NotTracked)
            },
            r matches Err(e) ==> e is Db || e is Git || e is InvalidCommit || e is InvalidPath,
    {
        let configuration = match self.store.get_configuration(id) {
            Ok(Some(c)) => c,
            Ok(None) => {
                return Ok(None);
            },
            Err(e) => {
                return Err(e);
            },
        };
        if !text::text_eq(configuration.path.as_str(), working.path.as_str()) {
            return Err(CoreError::InvalidPath(configuration.path));
        }
        let status = match self.status_of(&configuration, working) {
            Ok(s) => s,
            Err(e) => {
                return Err(e);
            },
        };
        Ok(Some(ConfigurationDetail { configuration, status, size_bytes: working.size_bytes }))
    }

    /// Stops tracking a configuration; its snapshots' metadata goes with it.
    pub fn remove_configuration(&mut self, id: &str) -> (r: Result<(), CoreError>)
        ensures
            tracking::one_more(old(self).sent(), final(self).sent(), tracking::sql_remove_configuration()),
            tracking::text_arg(final(self).sent().last().1, id@),
            r matches Err(e) ==> e is Db,
    {
        self.store.remove_configuration(id)
    }

    /// What to copy into the repository's working tree before a snapshot of
    /// the configuration `id` is taken.
    pub fn staging_plan(&self, id: &str) -> (r: Result<history::StagingPlan, CoreError>)
        ensures
            r matches Ok(plan) ==> exists|w: Seq<char>| plan.subtree@ == #[trigger] paths::join_spec(w, id@),
            r matches Err(CoreError::NotFound(m)) ==> m@ == id@,
    {
        let configuration = match self.require_configuration(id) {
            Ok(c) => c,
            Err(e) => {
                return Err(e);
            },
        };
        self.repo.staging_plan(&configuration)
    }

    /// Takes a snapshot of the configuration `id`, whose current state must
    /// already be staged (see [`Core::staging_plan`]), with `reason` as its
    /// message, and records it. `None` when nothing changed since the last
    /// snapshot: then nothing is recorded.
    pub fn snapshot(&mut self, id: &str, reason: &str) -> (r: Result<Option<models::Snapshot>, CoreError>)
        ensures
            r matches Ok(Some(s)) ==> {
                &&& s.configuration_id@ == id@
                &&& s.reason@ == reason@
                &&& git::is_oid_text(s.git_commit@)
                &&& !s.favorite
                &&& !s.archived
            },
            r matches Ok(Some(s)) ==> tracking::recorded(old(self).sent(), final(self).sent(), s),
            r matches Ok(None) ==> final(self).sent() == old(self).sent(),
            r matches Err(e) ==> e is Db || e is Git || e is InvalidPath || (e matches CoreError::NotFound(m) && m@ == id@),
    {
        let configuration = match self.require_configuration(id) {
            Ok(c) => c,
            Err(e) => {
                return Err(e);
            },
        };
        match self.repo.snapshot(&configuration, reason) {
            Ok(Some(commit)) => match self.store.record_snapshot(id, commit.as_str(), reason) {
                Ok(s) => Ok(Some(s)),
                Err(e) => Err(e),
            },
            Ok(None) => Ok(None),
            Err(e) => Err(e),
        }
    }

    /// Snapshots every configuration that is not archived (each staged
    /// beforehand) with the message `Manual snapshot`; those that did not
    /// change are only counted.
    pub fn snapshot_all(&mut self) -> (r: Result<SnapshotAllResult, CoreError>)
        ensures
            r matches Ok(res) ==> forall|k: int| 0 <= k < res.snapshotted.len() ==>
                outcome_recorded(#[trigger] res.snapshotted@[k], "Manual snapshot"@),
            r matches Ok(res) ==> tally_of_some(res.snapshotted@, res.unchanged_count as int),
    {
        let configs = match self.store.list_configurations(false) {
            Ok(c) => c,
            Err(e) => {
                return Err(e);
            },
        };
        let mut outcomes: Vec<Option<models::Snapshot>> = Vec::new();
        let mut i: usize = 0;
        while i < configs.len()
            invariant
                i <= configs.len(),
                outcomes.len() == i,
                forall|k: int| 0 <= k < i ==> outcome_of(#[trigger] outcomes@[k], configs@[k], "Manual snapshot"@),
            decreases configs.len() - i,
        {
            match self.snapshot(configs[i].id.as_str(), "Manual snapshot") {
                Ok(s) => {
                    outcomes.push(s);
                },
                Err(e) => {
                    return Err(e);
                },
            }
            i = i + 1;
        }
        let ghost o = outcomes@;
        let res = tally_snapshots(&configs, outcomes);
        proof {
            lemma_tallied_recorded(configs@, o, res.snapshotted@, res.unchanged_count as int, "Manual snapshot"@);
            assert(tallied(configs@, o, res.snapshotted@, res.unchanged_count as int));
            assert(tally_of_some(res.snapshotted@, res.unchanged_count as int));
        }
        Ok(res)
    }

    /// The snapshots of a configuration, newest first.
    pub fn list_history(&self, id: &str) -> (r: Result<Vec<models::Snapshot>, CoreError>)
        ensures
            r matches Ok(list) ==> forall|i: int| 0 <= i < list.len() ==> (#[trigger] list[i]).configuration_id@ == id@,
            r matches Ok(list) ==> tracking::snapshots_of_some_rows(list@, id@),
            r matches Err(e) ==> e is Db,
    {
        self.store.list_snapshots(id)
    }

    /// Diffs the snapshot `commit` of a configuration against the snapshot
    /// taken just before it (against nothing for the first one). A commit
    /// that is not in the configuration's history is refused.
    pub fn diff_snapshot(&mut self, id: &str, commit: &str) -> (r: Result<diff::DiffResult, CoreError>)
        ensures
            r matches Ok(d) ==> heard_once(old(self).heard(), final(self).heard(), id@)
                && snapshot_diffed(final(self).heard().last().1, commit@, old(self).tree_reads(), final(self).tree_reads(), id@, d),
            r matches Ok(d) ==> git::is_oid_text(commit@) && exists|o: filemap::FileMap, n: filemap::FileMap| diff::diff_between(o, n, d),
            r matches Err(CoreError::InvalidCommit(m)) ==> m@ == commit@ || !git::is_oid_text(m@),
            !git::is_oid_text(commit@) ==> r is Err,
            r matches Err(CoreError::NotFound(m)) ==> m@ == id@,
            r matches Err(CoreError::InvalidPath(m)) ==> m@ == id@,
            r matches Err(e) ==> e is Db || e is Git || e is InvalidCommit || e is InvalidPath || e is NotFound,
    {
        let configuration = match self.require_configuration(id) {
            Ok(c) => c,
            Err(e) => {
                return Err(e);
            },
        };
        let ghost heard0 = self.heard();
        let ghost reads0 = self.tree_reads();
        let history = match self.store.list_snapshots_recorded(id) {
            Ok(h) => h,
            Err(e) => {
                return Err(e);
            },
        };
        assert(heard_once(heard0, self.heard(), id@));
        match previous_commit(&history, commit) {
            None => Err(CoreError::InvalidCommit(commit.to_owned())),
            Some(prev) => {
                let from: Option<&str> = match &prev {
                    Some(p) => Some(p.as_str()),
                    None => None,
                };
                let r = self.repo.diff_commits(&configuration, from, commit, &mut self.tree_reads);
                proof {
                    if r is Ok {
                        assert(git::is_oid_text(commit@));
                        let d = r->Ok_0;
                        let pos = choose|pos: int| #[trigger] previous_in_history(history@, commit@, pos) && models::opt_text(prev) == (
                            if pos + 1 < history.len() {
                                Some(history@[pos + 1].git_commit@)
                            } else {
                                None::<Seq<char>>
                            });
                        assert(history::opt_str_view(from) == models::opt_text(prev));
                        assert(history_diffed_at(history@, commit@, reads0, self.tree_reads(), id@, d, pos));
                    }
                }
                r
            },
        }
    }

    /// Diffs the latest snapshot of a configuration against what is on disk
    /// now (`working`), without recording anything.
    pub fn diff_working(&mut self, id: &str, working: &history::WorkingCopy) -> (r: Result<diff::DiffResult, CoreError>)
        ensures
            r matches Ok(d) ==> heard_once(old(self).heard(), final(self).heard(), id@)
                && final(self).heard().last().1.len() > 0
                && history::read_once(old(self).tree_reads(), final(self).tree_reads(), id@, final(self).heard().last().1[0].git_commit@)
                && diff::diff_between(final(self).tree_reads().last().2, working.files, d),
            r matches Ok(d) ==> diff::diff_onto(working.files, d),
            r matches Err(CoreError::NotFound(m)) ==> m@ == id@ || (m@ == no_snapshot_message(id@) && latest_of_some_history(id@, None)),
            r matches Err(CoreError::InvalidCommit(m)) ==> !git::is_oid_text(m@),
            r matches Err(e) ==> e is Db || e is Git || e is InvalidCommit || e is InvalidPath || e is NotFound,
    {
        let configuration = match self.require_configuration(id) {
            Ok(c) => c,
            Err(e) => {
                return Err(e);
            },
        };
        if !text::text_eq(configuration.path.as_str(), working.path.as_str()) {
            return Err(CoreError::InvalidPath(configuration.path));
        }
        let ghost heard0 = self.heard();
        let history = match self.store.list_snapshots_recorded(id) {
            Ok(h) => h,
            Err(e) => {
                return Err(e);
            },
        };
        assert(heard_once(heard0, self.heard(), id@));
        if history.len() == 0 {
            proof {
                assert(latest_in(history@, None));
            }
            return Err(CoreError::NotFound(concat_no_snapshot(id)));
        }
        let latest = history[0].git_commit.as_str();
        let r = self.repo.diff_against_working(&configuration, latest, &working.files, &mut self.tree_reads);
        proof {
            if r is Ok {
                let d = r->Ok_0;
                assert(diff::diff_between(self.tree_reads().last().2, working.files, d));
            }
        }
        r
    }

    /// First step of restoring the configuration `id` to `commit`, its
    /// current state staged beforehand: backs that state up (see
    /// [`backup::prepare_restore`]) and says what to write back.
    pub fn prepare_restore(&mut self, id: &str, commit: &str) -> (r: Result<backup::RestoreStart, CoreError>)
        ensures
            !git::is_oid_text(commit@) ==> r is Err,
            r matches Ok(s) ==> (s.backup_commit is Some <==> s.backup is Some) && (s.backup matches Some(b)
                ==> b.configuration_id@ == id@ && b.reason@ == backup::backup_reason()),
            r matches Ok(s) ==> (s.backup matches Some(b) ==> tracking::recorded(old(self).sent(), final(self).sent(), b))
                && (s.backup is None ==> final(self).sent() == old(self).sent()),
            r matches Ok(s) ==> history::read_once(old(self).tree_reads(), final(self).tree_reads(), id@, commit@)
                && exists|c: models::Configuration| c.id@ == id@ && #[trigger] history::restore_writes(c, final(self).tree_reads().last().2, s.plan),
    {
        let configuration = match self.require_configuration(id) {
            Ok(c) => c,
            Err(e) => {
                return Err(e);
            },
        };
        let r = backup::prepare_restore(&self.repo, &mut self.store, &configuration, commit, &mut self.tree_reads);
        proof {
            if r is Ok {
                assert(history::restore_writes(configuration, self.tree_reads().last().2, r->Ok_0.plan));
            }
        }
        r
    }

    /// Last step of restoring the configuration `id` to `commit`, once the
    /// files are written back and staged (see [`backup::restore`]).
    pub fn restore(&mut self, id: &str, commit: &str, backup_commit: Option<String>) -> (r: Result<backup::RestoreResult, CoreError>)
        ensures
            r matches Ok(res) ==> models::opt_text(res.backup_commit) == models::opt_text(backup_commit)
                && (res.restore_commit@ == commit@ || git::is_oid_text(res.restore_commit@)),
            r matches Ok(res) ==> exists|entry: models::Snapshot| {
                &&& entry.configuration_id@ == id@
                &&& entry.git_commit@ == res.restore_commit@
                &&& entry.reason@ == backup::restore_reason(commit@)
                &&& #[trigger] tracking::recorded(old(self).sent(), final(self).sent(), entry)
            },
    {
        let configuration = match self.require_configuration(id) {
            Ok(c) => c,
            Err(e) => {
                return Err(e);
            },
        };
        let ghost before = self.sent();
        let r = backup::restore(&self.repo, &mut self.store, &configuration, commit, backup_commit);
        proof {
            if r is Ok {
                let res = r->Ok_0;
                let entry = choose|entry: models::Snapshot| {
                    &&& entry.configuration_id@ == configuration.id@
                    &&& entry.git_commit@ == res.restore_commit@
                    &&& entry.reason@ == backup::restore_reason(commit@)
                    &&& #[trigger] tracking::recorded(before, self.sent(), entry)
                };
                assert(tracking::recorded(before, self.sent(), entry));
            }
        }
        r
    }

    /// Marks a snapshot as a favorite or not.
    pub fn favorite_snapshot(&mut self, snapshot_id: &str, favorite: bool) -> (r: Result<(), CoreError>)
        ensures
            tracking::one_more(old(self).sent(), final(self).sent(), tracking::sql_set_snapshot_favorite()),
            tracking::flag_and_id_args(final(self).sent().last().1, favorite, snapshot_id@),
            r matches Err(e) ==> e is Db,
    {
        self.store.set_snapshot_favorite(snapshot_id, favorite)
    }

    /// Archives a snapshot or brings it back.
    pub fn archive_snapshot(&mut self, snapshot_id: &str, archived: bool) -> (r: Result<(), CoreError>)
        ensures
            tracking::one_more(old(self).sent(), final(self).sent(), tracking::sql_set_snapshot_archived()),
            tracking::flag_and_id_args(final(self).sent().last().1, archived, snapshot_id@),
            r matches Err(e) ==> e is Db,
    {
        self.store.set_snapshot_archived(snapshot_id, archived)
    }

    /// Removes a snapshot's metadata for good; its commit stays in the
    /// repository, unreferenced.
    pub fn delete_snapshot(&mut self, snapshot_id: &str) -> (r: Result<(), CoreError>)
        ensures
            tracking::one_more(old(self).sent(), final(self).sent(), tracking::sql_delete_snapshot()),
            tracking::text_arg(final(self).sent().last().1, snapshot_id@),
            r matches Err(e) ==> e is Db,
    {
        self.store.delete_snapshot(snapshot_id)
    }

    /// Takes in the catalog entry `definition_id` as a scan finds it now. A
    /// private key is always refused; anything not `Normal` needs
    /// `confirmed`.
    pub fn add_discovered(&mut self, definition_id: &str, confirmed: bool) -> (r: Result<models::Configuration, CoreError>)
        ensures
            exists|found: Seq<discovery::DiscoveredConfig>| #[trigger] scanned_then_taken(
                old(self).definitions_view(), old(self).home_view(), old(self).platform_view(), found, definition_id@, confirmed, r),
            r matches Ok(c) ==> {
                &&& !security::is_private_key_spec(c.path@)
                &&& (c.sensitivity != models::Sensitivity::Normal ==> confirmed)
                &&& exists|k: int| 0 <= k < old(self).definitions_view().len()
                    && (#[trigger] old(self).definitions_view()[k]).id@ == definition_id@
                    && discovery::applies_to(old(self).definitions_view()[k], old(self).platform_view())
                    && taken_from(old(self).definitions_view()[k], old(self).home_view(), c)
            },
            r matches Err(e) ==> e is Db || e is PrivateKeyBlocked || e is ConfirmationRequired
                || (e matches CoreError::NotFound(m) && m@ == definition_id@),
            r matches Ok(c) ==> tracking::one_more(old(self).sent(), final(self).sent(), tracking::sql_insert_configuration())
                && tracking::configuration_args(final(self).sent().last().1, c),
            r matches Err(e) ==> (e is Db || final(self).sent() == old(self).sent()),
    {
        let found = self.scan();
        let ghost defs = self.definitions_view();
        let ghost home = self.home_view();
        let ghost platform = self.platform_view();
        let idx = match position_of_definition(&found, definition_id) {
            Some(i) => i,
            None => {
                let r = Err(CoreError::NotFound(definition_id.to_owned()));
                assert(scanned_then_taken(defs, home, platform, found@, definition_id@, confirmed, r));
                return r;
            },
        };
        let d = &found[idx];
        let ghost probes = choose|probes: Seq<Vec<bool>>| {
            &&& probes.len() == defs.len()
            &&& forall|i: int| 0 <= i < defs.len() && discovery::applies_to(defs[i], platform) ==> #[trigger] discovery::probed_in_order(defs[i], probes[i]@)
            &&& #[trigger] discovery::scan_exact(defs, home, platform, probes, found@)
        };
        proof {
            discovery::lemma_scan_member(defs, home, platform, probes, found@, idx as int);
        }
        let ghost (k, j) = choose|k: int, j: int| 0 <= k < defs.len() && discovery::applies_to(defs[k], platform)
            && #[trigger] discovery::found_at(defs[k], home, j, found@[idx as int]);
        assert(defs[k].id@ == definition_id@);
        if let Err(e) = admission(d.is_private_key, d.sensitivity, confirmed) {
            let r = Err(e);
            assert(admitted_entry(found@[idx as int], confirmed, r));
            assert(scanned_then_taken(defs, home, platform, found@, definition_id@, confirmed, r));
            return r;
        }
        let r = self.store.add_configuration(
            Some(d.definition_id.as_str()),
            d.application.as_str(),
            d.path.as_str(),
            d.category,
            d.kind,
            d.sensitivity,
        );
        assert(d.path@ == paths::expand_spec(defs[k].paths@[j]@, home));
        assert(admitted_entry(found@[idx as int], confirmed, r));
        assert(scanned_then_taken(defs, home, platform, found@, definition_id@, confirmed, r));
        r
    }

    /// Takes in a file or directory of the user's choice, outside the
    /// catalog. A leading `~` is expanded; the path must exist; a private key
    /// is always refused; anything the path's name makes look sensitive needs
    /// `confirmed`.
    pub fn add_custom(&mut self, name: &str, path: &str, category: models::Category, confirmed: bool) -> (r: Result<models::Configuration, CoreError>)
        ensures
            r matches Ok(c) ==> final(self).dir_probes() == old(self).dir_probes().push((c.path@, c.kind == models::ConfigKind::Directory)),
            r matches Err(e) ==> (e is Db || final(self).dir_probes() == old(self).dir_probes()),
            r matches Ok(c) ==> {
                &&& c.path@ == paths::expand_spec(path@, old(self).home_view())
                &&& c.name@ == name@
                &&& c.category == category
                &&& c.definition_id is None
                &&& c.sensitivity == security::classify_spec(c.path@)
                &&& !security::is_private_key_spec(c.path@)
                &&& (c.sensitivity != models::Sensitivity::Normal ==> confirmed)
            },
            security::is_private_key_spec(paths::expand_spec(path@, old(self).home_view())) ==> r is Err,
            r matches Err(CoreError::PathNotFound(p)) ==> p@ == path@,
            r matches Err(CoreError::PrivateKeyBlocked) ==> security::is_private_key_spec(paths::expand_spec(path@, old(self).home_view())),
            r matches Err(CoreError::ConfirmationRequired) ==> !confirmed
                && !security::is_private_key_spec(paths::expand_spec(path@, old(self).home_view()))
                && security::classify_spec(paths::expand_spec(path@, old(self).home_view())) != models::Sensitivity::Normal,
            r matches Ok(c) ==> c.last_snapshot_at is None,
            r matches Err(e) ==> e is Db || e is PathNotFound || e is PrivateKeyBlocked || e is ConfirmationRequired,
            r matches Ok(c) ==> tracking::one_more(old(self).sent(), final(self).sent(), tracking::sql_insert_configuration())
                && tracking::configuration_args(final(self).sent().last().1, c),
            r matches Err(e) ==> (e is Db || final(self).sent() == old(self).sent()),
    {
        let expanded = self.expand(path);
        if !disk::path_exists(expanded.as_str()) {
            return Err(CoreError::PathNotFound(path.to_owned()));
        }
        let private_key = security::is_private_key(expanded.as_str());
        let sensitivity = security::classify_path(expanded.as_str());
        if let Err(e) = admission(private_key, sensitivity, confirmed) {
            return Err(e);
        }
        let is_dir = probe_dir(expanded.as_str(), &mut self.dir_probes);
        let kind = if is_dir {
            models::ConfigKind::Directory
        } else {
            models::ConfigKind::File
        };
        self.store.add_configuration(None, name, expanded.as_str(), category, kind, sensitivity)
    }

    /// The position of the first catalog definition with id `id`.
    fn definition_index(&self, id: &str) -> (r: Option<usize>)
        ensures
            match r {
                Some(k) => first_definition(self.definitions_view(), id@, k as int),
                None => forall|m: int| 0 <= m < self.definitions_view().len() ==> (#[trigger] self.definitions_view()[m]).id@ != id@,
            },
    {
        let defs = self.registry.definitions();
        let mut k: usize = 0;
        while k < defs.len()
            invariant
                defs@ == self.definitions_view(),
                k <= defs@.len(),
                forall|m: int| 0 <= m < k ==> (#[trigger] defs@[m]).id@ != id@,
            decreases defs.len() - k,
        {
            if text::text_eq(defs[k].id.as_str(), id) {
                return Some(k);
            }
            k = k + 1;
        }
        None
    }

    /// Whether `def` may be offered for creation against `taken` (definition
    /// ids already tracked), before anything on disk is looked at.
    fn eligible_for_suggestion(&self, def: &models::ConfigDefinition, taken: &Vec<String>) -> (r: bool)
        ensures
            r == eligible(*def, self.home_view(), self.platform_view(), taken@),
    {
        if !discovery::applies(def, self.platform) || holds_text(taken, def.id.as_str()) || def.paths.len() == 0 {
            return false;
        }
        let first = self.expand(def.paths[0].as_str());
        !security::is_private_key(first.as_str())
    }

    /// The catalog suggestions when `probes[k]` tells which candidate paths
    /// of definition `k` exist as its kind says and `present[k]` whether
    /// anything exists at its first candidate path (see [`suggest_exact`]).
    pub fn suggestions_from_probes(&self, taken: &Vec<String>, probes: &Vec<Vec<bool>>, present: &Vec<bool>) -> (r: Vec<CatalogSuggestion>)
        requires
            probes.len() == self.definitions_view().len(),
            present.len() == self.definitions_view().len(),
        ensures
            suggest_exact(self.definitions_view(), self.home_view(), self.platform_view(), taken@, probes@, present@, r@),
    {
        let defs = self.registry.definitions();
        let ghost dv = self.definitions_view();
        let ghost home = self.home_view();
        let ghost platform = self.platform_view();
        let mut out: Vec<CatalogSuggestion> = Vec::new();
        let mut i: usize = 0;
        while i < defs.len()
            invariant
                defs@ == dv,
                dv == self.definitions_view(),
                home == self.home_view(),
                platform == self.platform_view(),
                probes.len() == dv.len(),
                present.len() == dv.len(),
                i <= dv.len(),
                suggest_exact(dv.take(i as int), home, platform, taken@, probes@, present@, out@),
            decreases defs.len() - i,
        {
            let def = &defs[i];
            let ghost t1 = dv.take(i + 1);
            assert(t1.drop_last() =~= dv.take(i as int));
            assert(t1.last() == *def);
            assert(t1.len() - 1 == i);
            let pi = &probes[i];
            if self.eligible_for_suggestion(def, taken) && hit_of_none(def, pi) && !present[i] {
                let first = self.expand(def.paths[0].as_str());
                let item = CatalogSuggestion {
                    definition_id: def.id.clone(),
                    application: def.application.clone(),
                    category: def.category,
                    kind: def.kind,
                    path: first,
                    sensitivity: def.sensitivity,
                };
                let ghost before = out@;
                out.push(item);
                assert(out@.drop_last() =~= before);
                assert(out@.last() == item);
            }
            assert(suggest_exact(t1, home, platform, taken@, probes@, present@, out@));
            i = i + 1;
        }
        assert(dv.take(dv.len() as int) =~= dv);
        out
    }

    /// The catalog definitions for this core's platform that are worth
    /// creating from scratch: not among `taken` (definition ids), not a
    /// private key (judged by the first candidate path), and with nothing on
    /// disk at the place they would be created, which is their first
    /// candidate path as none exists. Existing ones surface through
    /// [`Core::scan`] instead. What is offered is decided by
    /// [`Core::suggestions_from_probes`].
    pub fn catalog_suggestions(&self, taken: &Vec<String>) -> (r: Vec<CatalogSuggestion>)
        ensures
            suggested_from_some_probes(self.definitions_view(), self.home_view(), self.platform_view(), taken@, r@),
            forall|i: int, t: int| 0 <= i < r.len() && 0 <= t < taken.len() ==> (#[trigger] r@[i]).definition_id@ != (#[trigger] taken@[t])@,
    {
        let defs = self.registry.definitions();
        let ghost dv = self.definitions_view();
        let mut probes: Vec<Vec<bool>> = Vec::new();
        let mut present: Vec<bool> = Vec::new();
        let mut k: usize = 0;
        while k < defs.len()
            invariant
                defs@ == dv,
                dv == self.definitions_view(),
                k <= dv.len(),
                probes.len() == k,
                present.len() == k,
                forall|m: int| 0 <= m < k && eligible(dv[m], self.home_view(), self.platform_view(), taken@)
                    ==> #[trigger] discovery::probed_in_order(dv[m], probes@[m]@),
            decreases defs.len() - k,
        {
            let def = &defs[k];
            if self.eligible_for_suggestion(def, taken) {
                let p = discovery::probe_candidates(def, self.home.as_str());
                let there = if hit_of_none(def, &p) {
                    let first = self.expand(def.paths[0].as_str());
                    disk::path_exists(first.as_str())
                } else {
                    false
                };
                probes.push(p);
                present.push(there);
            } else {
                probes.push(Vec::new());
                present.push(false);
            }
            k = k + 1;
        }
        let r = self.suggestions_from_probes(taken, &probes, &present);
        assert(suggest_exact(dv, self.home_view(), self.platform_view(), taken@, probes@, present@, r@));
        proof {
            lemma_suggestions_skip_taken(dv, self.home_view(), self.platform_view(), taken@, probes@, present@, r@);
        }
        r
    }

    /// [`Core::catalog_suggestions`] for the definitions not taken in yet,
    /// archived configurations included.
    pub fn list_catalog_suggestions(&mut self) -> (r: Result<Vec<CatalogSuggestion>, CoreError>)
        ensures
            r matches Ok(v) ==> suggested_against_some_store(old(self).definitions_view(), old(self).home_view(), old(self).platform_view(), v@),
            tracking::one_more(old(self).sent(), final(self).sent(), tracking::sql_list_configurations()),
            tracking::text_arg(final(self).sent().last().1, "1"@),
            r matches Err(e) ==> e is Db,
    {
        let configs = match self.store.list_configurations(true) {
            Ok(c) => c,
            Err(e) => {
                return Err(e);
            },
        };
        let taken = tracked_definitions(&configs);
        let v = self.catalog_suggestions(&taken);
        assert(taken@ == tracked_ids(configs@));
        assert(suggested_from_some_probes(self.definitions_view(), self.home_view(), self.platform_view(), tracked_ids(configs@), v@));
        assert(suggested_against_some_store(self.definitions_view(), self.home_view(), self.platform_view(), v@));
        Ok(v)
    }

    /// Where taking in catalog definition `definition_id` puts its
    /// configuration, after the checks that taking it in makes, when `probes`
    /// tells which candidate paths of that definition exist as its kind says
    /// (see [`suggestion_exact`]).
    pub fn suggestion_from_probes(&self, definition_id: &str, confirmed: bool, probes: &Vec<bool>) -> (r: Result<SuggestionTarget, CoreError>)
        ensures
            suggestion_exact(self.definitions_view(), self.home_view(), definition_id@, confirmed, probes@, r),
    {
        let k = match self.definition_index(definition_id) {
            Some(k) => k,
            None => {
                return Err(CoreError::NotFound(definition_id.to_owned()));
            },
        };
        let defs = self.registry.definitions();
        let def = &defs[k];
        let ghost dv = self.definitions_view();
        proof {
            let c = choose|c: int| #[trigger] first_definition(dv, definition_id@, c);
            assert(c == k as int) by {
                if c < k {
                    assert(dv[c].id@ != definition_id@);
                } else if k < c {
                    assert(dv[k as int].id@ != definition_id@);
                }
            }
        }
        if def.paths.len() == 0 {
            return Err(CoreError::InvalidPath(definition_id.to_owned()));
        }
        let path = match discovery::hit_of(def, probes) {
            Some(j) => self.expand(def.paths[j].as_str()),
            None => self.expand(def.paths[0].as_str()),
        };
        if security::is_private_key(path.as_str()) {
            return Err(CoreError::PrivateKeyBlocked);
        }
        if def.sensitivity != models::Sensitivity::Normal && !confirmed {
            return Err(CoreError::ConfirmationRequired);
        }
        Ok(SuggestionTarget { definition_id: definition_id.to_owned(), path, kind: def.kind })
    }

    /// Where tracking the catalog suggestion `definition_id` puts its
    /// configuration: its first candidate path that exists as the
    /// definition's kind says, otherwise its first candidate path; after the
    /// same checks as [`Core::add_suggestion`], as
    /// [`Core::suggestion_from_probes`] decides. Nothing is created or
    /// recorded. Whoever creates the file or directory there (when nothing
    /// exists yet) calls `add_suggestion` afterwards.
    pub fn suggestion_target(&self, definition_id: &str, confirmed: bool) -> (r: Result<SuggestionTarget, CoreError>)
        ensures
            target_of_some_probe(self.definitions_view(), self.home_view(), definition_id@, confirmed, r),
    {
        let ghost dv = self.definitions_view();
        let probes = match self.definition_index(definition_id) {
            Some(k) => discovery::probe_candidates(&self.registry.definitions()[k], self.home.as_str()),
            None => Vec::new(),
        };
        let r = self.suggestion_from_probes(definition_id, confirmed, &probes);
        proof {
            assert forall|k: int| #[trigger] first_definition(dv, definition_id@, k) implies discovery::probed_in_order(dv[k], probes@) by {
                let k2 = choose|k2: int| #[trigger] first_definition(dv, definition_id@, k2);
                assert(first_definition(dv, definition_id@, k2));
                if k < k2 {
                    assert(dv[k].id@ != definition_id@);
                } else if k2 < k {
                    assert(dv[k2].id@ != definition_id@);
                }
            }
        }
        assert(suggestion_exact(dv, self.home_view(), definition_id@, confirmed, probes@, r));
        r
    }

    /// Tracks the catalog suggestion `definition_id` at the place
    /// [`Core::suggestion_target`] names. A private key is always refused;
    /// anything not `Normal` needs `confirmed`.
    pub fn add_suggestion(&mut self, definition_id: &str, confirmed: bool) -> (r: Result<models::Configuration, CoreError>)
        ensures
            exists|t: Result<SuggestionTarget, CoreError>| #[trigger] target_of_some_probe(old(self).definitions_view(), old(self).home_view(), definition_id@, confirmed, t)
                && target_taken(old(self).definitions_view(), definition_id@, t, r),
            r matches Ok(c) ==> tracking::one_more(old(self).sent(), final(self).sent(), tracking::sql_insert_configuration())
                && tracking::configuration_args(final(self).sent().last().1, c),
            r matches Err(e) ==> (e is Db || final(self).sent() == old(self).sent()),
    {
        let t = self.suggestion_target(definition_id, confirmed);
        let ghost tg = t;
        let ghost dv = self.definitions_view();
        let target = match t {
            Ok(target) => target,
            Err(e) => {
                let r = Err(e);
                assert(target_taken(dv, definition_id@, tg, r));
                return r;
            },
        };
        let k = match self.definition_index(definition_id) {
            Some(k) => k,
            None => {
                proof {
                    let p = choose|p: Seq<bool>| {
                        &&& forall|k: int| #[trigger] first_definition(dv, definition_id@, k) ==> discovery::probed_in_order(dv[k], p)
                        &&& #[trigger] suggestion_exact(dv, self.home_view(), definition_id@, confirmed, p, tg)
                    };
                    assert(suggestion_exact(dv, self.home_view(), definition_id@, confirmed, p, tg));
                }
                return Err(CoreError::NotFound(definition_id.to_owned()));
            },
        };
        let def = &self.registry.definitions()[k];
        let r = self.store.add_configuration(
            Some(def.id.as_str()),
            def.application.as_str(),
            target.path.as_str(),
            def.category,
            def.kind,
            def.sensitivity,
        );
        assert(first_definition(dv, definition_id@, k as int));
        assert(target_taken(dv, definition_id@, tg, r));
        r
    }

    /// The files inside a directory configuration, relative to its root and
    /// sorted, ignored names skipped; empty for a file configuration or a
    /// directory that is not there.
    pub fn list_configuration_files(&self, id: &str) -> (r: Result<Vec<String>, CoreError>)
        ensures
            store_failed(id@, r) || exists|c: models::Configuration| c.id@ == id@ && #[trigger] files_listing(c, r),
            r matches Ok(v) ==> order::ascending(order::text_views(v@)),
            r matches Err(e) ==> e is Db || e is Io || (e matches CoreError::NotFound(m) && m@ == id@),
    {
        let configuration = match self.require_configuration(id) {
            Ok(c) => c,
            Err(e) => {
                return Err(e);
            },
        };
        if configuration.kind != models::ConfigKind::Directory {
            let r = Ok(Vec::new());
            assert(files_listing(configuration, r));
            return r;
        }
        if !disk::path_exists(configuration.path.as_str()) {
            let r = Ok(Vec::new());
            assert(order::text_views(Seq::<String>::empty()) =~= Seq::empty());
            assert(files_listing(configuration, r));
            return r;
        }
        let items = match disk::walk_entries(configuration.path.as_str()) {
            Ok(items) => items,
            Err(e) => {
                let r = Err(CoreError::Io(e));
                assert(files_listing(configuration, r));
                return r;
            },
        };
        let ghost iv = items@;
        let files = history::listed_files(configuration.path.as_str(), items);
        assert(history::listed_from(configuration.path@, iv, files@));
        let r = Ok(files);
        assert(files_listing(configuration, r));
        r
    }

    /// Resolves the file the editor works on for `configuration`;
    /// `relative_path` is needed for a directory and ignored for a file.
    pub fn resolve_editor_path(&self, configuration: &models::Configuration, relative_path: Option<&str>) -> (r: Result<String, CoreError>)
        ensures
            match editor_path(*configuration, opt_str(relative_path)) {
                Some(p) => r matches Ok(t) && t@ == p,
                None => r matches Err(CoreError::InvalidPath(m)) && m@ == select_file_message(),
            },
    {
        match configuration.kind {
            models::ConfigKind::File => Ok(configuration.path.clone()),
            models::ConfigKind::Directory => match relative_path {
                Some(rel) => Ok(paths::join_path(configuration.path.as_str(), rel)),
                None => Err(CoreError::InvalidPath("a file within the directory must be selected".to_owned())),
            },
        }
    }

    /// The file of the configuration `id` that the editor opens, which must
    /// exist (see [`Core::resolve_editor_path`]).
    pub fn read_target(&self, id: &str, relative_path: Option<&str>) -> (r: Result<String, CoreError>)
        ensures
            store_failed(id@, r) || exists|c: models::Configuration| c.id@ == id@ && #[trigger] read_outcome(c, opt_str(relative_path), r),
            r matches Err(e) ==> e is Db || e is InvalidPath || e is PathNotFound || (e matches CoreError::NotFound(m) && m@ == id@),
    {
        let configuration = match self.require_configuration(id) {
            Ok(c) => c,
            Err(e) => {
                return Err(e);
            },
        };
        let target = match self.resolve_editor_path(&configuration, relative_path) {
            Ok(t) => t,
            Err(e) => {
                let r = Err(e);
                assert(read_outcome(configuration, opt_str(relative_path), r));
                return r;
            },
        };
        if !disk::path_exists(target.as_str()) {
            let r = Err(CoreError::PathNotFound(target));
            assert(read_outcome(configuration, opt_str(relative_path), r));
            return r;
        }
        let r = Ok(target);
        assert(read_outcome(configuration, opt_str(relative_path), r));
        r
    }

    /// The file of the configuration `id` that the editor saves to (see
    /// [`Core::resolve_editor_path`]). Saving takes no snapshot: the status just
    /// becomes `Modified` until the user takes one.
    pub fn write_target(&self, id: &str, relative_path: Option<&str>) -> (r: Result<String, CoreError>)
        ensures
            store_failed(id@, r) || exists|c: models::Configuration| c.id@ == id@ && #[trigger] write_outcome(c, opt_str(relative_path), r),
            r matches Err(e) ==> e is Db || e is InvalidPath || (e matches CoreError::NotFound(m) && m@ == id@),
    {
        let configuration = match self.require_configuration(id) {
            Ok(c) => c,
            Err(e) => {
                return Err(e);
            },
        };
        let r = self.resolve_editor_path(&configuration, relative_path);
        assert(write_outcome(configuration, opt_str(relative_path), r));
        r
    }

    /// Suggested content to add to the configuration `id`, whose file holds
    /// `content`: the suggestions of its catalog definition not yet in it.
    /// Empty for a configuration outside the catalog, a directory, or a file
    /// that is not there.
    pub fn list_snippet_suggestions(&self, id: &str, content: &str) -> (r: Result<Vec<snippets::SnippetSuggestion>, CoreError>)
        ensures
            store_failed(id@, r) || exists|c: models::Configuration| c.id@ == id@
                && #[trigger] snippet_list_outcome(c, self.snippet_entries_view(), content@, r),
            r matches Err(e) ==> e is Db || (e matches CoreError::NotFound(m) && m@ == id@),
    {
        let configuration = match self.require_configuration(id) {
            Ok(c) => c,
            Err(e) => {
                return Err(e);
            },
        };
        let definition_id = match &configuration.definition_id {
            Some(d) => d,
            None => {
                let r = Ok(Vec::new());
                assert(snippet_list_outcome(configuration, self.snippet_entries_view(), content@, r));
                return r;
            },
        };
        if configuration.kind != models::ConfigKind::File {
            let r = Ok(Vec::new());
            assert(snippet_list_outcome(configuration, self.snippet_entries_view(), content@, r));
            return r;
        }
        if !disk::path_is_file(configuration.path.as_str()) {
            let r = Ok(Vec::new());
            assert(snippet_list_outcome(configuration, self.snippet_entries_view(), content@, r));
            return r;
        }
        let v = self.snippets.suggestions_for(definition_id.as_str(), content);
        let r = Ok(v);
        assert(snippet_list_outcome(configuration, self.snippet_entries_view(), content@, r));
        r
    }

    /// The new content after applying the suggestion labelled `label` of the
    /// configuration's catalog definition to `current_content` (the editor's
    /// buffer, saved or not). Nothing is written.
    pub fn preview_snippet_insertion(&self, id: &str, label: &str, current_content: &str) -> (r: Result<String, CoreError>)
        ensures
            store_failed(id@, r) || exists|c: models::Configuration| c.id@ == id@
                && #[trigger] preview_outcome(c, self.snippet_entries_view(), label@, current_content@, r),
            r matches Err(e) ==> e is Db || e is InvalidPath || e is NotFound || e is SnippetApplyFailed,
    {
        let configuration = match self.require_configuration(id) {
            Ok(c) => c,
            Err(e) => {
                return Err(e);
            },
        };
        let ghost entries = self.snippet_entries_view();
        if configuration.kind != models::ConfigKind::File {
            let r = Err(CoreError::InvalidPath("suggestions only apply to single files".to_owned()));
            assert(preview_outcome(configuration, entries, label@, current_content@, r));
            return r;
        }
        let definition_id = match &configuration.definition_id {
            Some(d) => d,
            None => {
                let r = Err(CoreError::NotFound("this configuration has no known suggestions".to_owned()));
                assert(preview_outcome(configuration, entries, label@, current_content@, r));
                return r;
            },
        };
        let suggestion = match self.snippets.find(definition_id.as_str(), label) {
            Some(s) => s,
            None => {
                let r = Err(CoreError::NotFound(label.to_owned()));
                proof {
                    assert forall|i: int, j: int| !#[trigger] labelled_in(entries, definition_id@, label@, i, j) by {
                        if labelled_in(entries, definition_id@, label@, i, j) {
                            assert(snippets::first_entry_for(entries, definition_id@, i));
                            assert(entries[i].suggestions@[j].label@ != label@);
                        }
                    }
                }
                assert(preview_outcome(configuration, entries, label@, current_content@, r));
                return r;
            },
        };
        let ghost (i, j) = choose|i: int, j: int| #[trigger] labelled_in(entries, definition_id@, label@, i, j)
            && *suggestion == entries[i].suggestions@[j];
        proof {
            let i0 = choose|i: int| #[trigger] snippets::first_entry_for(entries, definition_id@, i);
            assert(snippets::first_entry_for(entries, definition_id@, i0));
            let j0 = choose|j: int| #[trigger] snippets::first_labelled(entries[i0].suggestions@, label@, j)
                && *suggestion == entries[i0].suggestions@[j];
            assert(labelled_in(entries, definition_id@, label@, i0, j0));
        }
        let r = match snippets::apply(suggestion, current_content) {
            Ok(t) => Ok(t),
            Err(m) => Err(CoreError::SnippetApplyFailed(m)),
        };
        assert(preview_outcome(configuration, entries, label@, current_content@, r));
        r
    }
}

/// What listing the files of configuration `c` gives: nothing for a file
/// configuration; for a directory, nothing when it is not there, otherwise
/// the sorted names of what a walk below it finds (or the walk's error).
pub open spec fn files_listing(c: models::Configuration, r: Result<Vec<String>, CoreError>) -> bool {
    if c.kind != models::ConfigKind::Directory {
        r matches Ok(v) && v.len() == 0
    } else {
        match r {
            Ok(v) => v.len() == 0 || history::listed_from_some_walk(c.path@, v@),
            Err(e) => e is Io,
        }
    }
}

/// `latest` is the commit of the first (newest) snapshot of `list`, if any.
pub open spec fn latest_in(list: Seq<models::Snapshot>, latest: Option<Seq<char>>) -> bool {
    if list.len() > 0 {
        latest == Some(list[0].git_commit@)
    } else {
        latest is None
    }
}

/// `latest` is the newest commit of some history of configuration `id` as
/// the store lists it (see [`tracking::snapshots_of_some_rows`]).
pub open spec fn latest_of_some_history(id: Seq<char>, latest: Option<Seq<char>>) -> bool {
    exists|list: Seq<models::Snapshot>| tracking::snapshots_of_some_rows(list, id) && #[trigger] latest_in(list, latest)
}

/// `s` summarizes configurations whose working copies are `working` and
/// whose snapshot counts are `snaps`, for some statuses and file counts.
pub open spec fn summarized_with_counts(working: Seq<history::WorkingCopy>, snaps: Seq<usize>, s: summary::DashboardSummary) -> bool {
    exists|statuses: Seq<models::Status>, files: Seq<usize>|
        statuses.len() == working.len() && files.len() == working.len()
        && #[trigger] summary::summarized(statuses, files, working_sizes(working), snaps, s)
}

/// Asks the disk whether `path` is a directory, and records the question
/// and its answer in `probes`.
fn probe_dir(path: &str, probes: &mut Ghost<Seq<(Seq<char>, bool)>>) -> (r: bool)
    ensures
        final(probes)@ == old(probes)@.push((path@, r)),
{
    let r = disk::path_is_dir(path);
    *probes = Ghost(probes@.push((path@, r)));
    r
}

/// The lengths of the snapshot lists in `h`, in order.
pub open spec fn list_lengths(h: Seq<(Seq<char>, Seq<models::Snapshot>)>) -> Seq<usize> {
    h.map_values(|e: (Seq<char>, Seq<models::Snapshot>)| e.1.len() as usize)
}

/// `after` is `before` with one more snapshot list, of configuration `id`.
pub open spec fn heard_once(
    before: Seq<(Seq<char>, Seq<models::Snapshot>)>,
    after: Seq<(Seq<char>, Seq<models::Snapshot>)>,
    id: Seq<char>,
) -> bool {
    &&& after.len() == before.len() + 1
    &&& after == before.push((id, after.last().1))
}

/// `d` diffs snapshot `commit`, found at position `pos` of `history` (newest
/// first), against the snapshot taken just before it, the next one in
/// `history`, or against nothing when it is the oldest; the snapshots' files
/// are those read from the repository, in that order.
pub open spec fn history_diffed_at(
    history: Seq<models::Snapshot>,
    commit: Seq<char>,
    before: Seq<history::TreeRead>,
    after: Seq<history::TreeRead>,
    id: Seq<char>,
    d: diff::DiffResult,
    pos: int,
) -> bool {
    &&& previous_in_history(history, commit, pos)
    &&& history::commits_diffed(before, after, id, if pos + 1 < history.len() {
        Some(history[pos + 1].git_commit@)
    } else {
        None::<Seq<char>>
    }, commit, d)
}

/// `d` diffs snapshot `commit` of `history` against the one taken just
/// before it (see [`history_diffed_at`]).
pub open spec fn snapshot_diffed(
    history: Seq<models::Snapshot>,
    commit: Seq<char>,
    before: Seq<history::TreeRead>,
    after: Seq<history::TreeRead>,
    id: Seq<char>,
    d: diff::DiffResult,
) -> bool {
    exists|pos: int| #[trigger] history_diffed_at(history, commit, before, after, id, d, pos)
}

/// A snapshot that has an older one is diffed against that older one, the
/// next in the newest-first history: both are read from the repository, the
/// older first, and the diff lists exactly the paths whose content differs
/// between the two.
pub proof fn lemma_snapshot_diff_against_previous(
    history: Seq<models::Snapshot>,
    commit: Seq<char>,
    before: Seq<history::TreeRead>,
    after: Seq<history::TreeRead>,
    id: Seq<char>,
    d: diff::DiffResult,
    pos: int,
)
    requires
        history_diffed_at(history, commit, before, after, id, d, pos),
        pos + 1 < history.len(),
    ensures
        after.len() == before.len() + 2,
        after[before.len() as int].0 == id && after[before.len() as int].1 == history[pos + 1].git_commit@,
        after.last().0 == id && after.last().1 == commit,
        forall|p: Seq<char>| #[trigger] after[before.len() as int].2.lookup(p) != after.last().2.lookup(p)
            ==> exists|k: int| 0 <= k < d.files@.len() && (#[trigger] d.files@[k]).path@ == p,
        forall|k: int| 0 <= k < d.files@.len() ==> after[before.len() as int].2.lookup((#[trigger] d.files@[k]).path@)
            != after.last().2.lookup(d.files@[k].path@),
{
    let f = history[pos + 1].git_commit@;
    let o = after[before.len() as int].2;
    let n = after.last().2;
    assert(after == before.push((id, f, o)).push((id, commit, n)));
    assert(after[before.len() as int] == (id, f, o));
    assert(diff::diff_between(o, n, d));
}

/// Only the oldest snapshot is diffed against nothing: then one snapshot is
/// read and every file it holds shows as added.
pub proof fn lemma_oldest_snapshot_diff_is_all_added(
    history: Seq<models::Snapshot>,
    commit: Seq<char>,
    before: Seq<history::TreeRead>,
    after: Seq<history::TreeRead>,
    id: Seq<char>,
    d: diff::DiffResult,
    pos: int,
)
    requires
        history_diffed_at(history, commit, before, after, id, d, pos),
    ensures
        (after.len() == before.len() + 1) <==> pos + 1 == history.len(),
        pos + 1 == history.len() ==> forall|k: int| 0 <= k < d.files@.len() ==> (#[trigger] d.files@[k]).change == diff::FileChangeKind::Added,
{
    if pos + 1 == history.len() {
        let n = after.last().2;
        let e = choose|e: filemap::FileMap| (forall|p: Seq<char>| #[trigger] e.lookup(p) is None) && #[trigger] diff::diff_between(e, n, d);
        assert forall|k: int| 0 <= k < d.files@.len() implies (#[trigger] d.files@[k]).change == diff::FileChangeKind::Added by {
            diff::lemma_change_kinds(e, n, d, k);
        }
    }
}

/// The number of snapshots in the lists `h`.
pub open spec fn snapshots_in(h: Seq<(Seq<char>, Seq<models::Snapshot>)>) -> int
    decreases h.len(),
{
    if h.len() == 0 {
        0
    } else {
        snapshots_in(h.drop_last()) + h.last().1.len()
    }
}

proof fn lemma_lengths_total(h: Seq<(Seq<char>, Seq<models::Snapshot>)>)
    requires
        forall|i: int| 0 <= i < h.len() ==> (#[trigger] h[i]).1.len() <= usize::MAX,
    ensures
        summary::total(summary::counts_of(list_lengths(h))) == snapshots_in(h),
    decreases h.len(),
{
    if h.len() > 0 {
        let rest = h.drop_last();
        assert forall|i: int| 0 <= i < rest.len() implies (#[trigger] rest[i]).1.len() <= usize::MAX by {
            assert(rest[i] == h[i]);
        }
        lemma_lengths_total(rest);
        assert(summary::counts_of(list_lengths(h)).drop_last() =~= summary::counts_of(list_lengths(rest)));
        assert(h[h.len() - 1].1.len() <= usize::MAX);
    }
}

/// The dashboard counts snapshots, not configurations with snapshots: its
/// snapshot count is the total length of the snapshot lists the store gave
/// back, one per configuration (capped at the largest count).
pub proof fn lemma_dashboard_counts_every_snapshot(
    working: Seq<history::WorkingCopy>,
    h: Seq<(Seq<char>, Seq<models::Snapshot>)>,
    s: summary::DashboardSummary,
)
    requires
        summarized_with_counts(working, list_lengths(h), s),
        forall|i: int| 0 <= i < h.len() ==> (#[trigger] h[i]).1.len() <= usize::MAX,
    ensures
        s.snapshot_count == summary::capped(snapshots_in(h), usize::MAX as int),
{
    lemma_lengths_total(h);
    let (statuses, files) = choose|statuses: Seq<models::Status>, files: Seq<usize>|
        statuses.len() == working.len() && files.len() == working.len()
        && #[trigger] summary::summarized(statuses, files, working_sizes(working), list_lengths(h), s);
    assert(summary::summarized(statuses, files, working_sizes(working), list_lengths(h), s));
}

/// A custom configuration is a directory exactly when the disk said its
/// path is one when asked, and a file otherwise.
pub proof fn lemma_custom_kind_is_what_the_disk_says(
    before: Seq<(Seq<char>, bool)>,
    after: Seq<(Seq<char>, bool)>,
    c: models::Configuration,
)
    requires
        after == before.push((c.path@, c.kind == models::ConfigKind::Directory)),
    ensures
        after.last().0 == c.path@,
        after.last().1 ==> c.kind == models::ConfigKind::Directory,
        !after.last().1 ==> c.kind == models::ConfigKind::File,
{
}

/// The store failed, or has no configuration `id`.
pub open spec fn store_failed<T>(id: Seq<char>, r: Result<T, CoreError>) -> bool {
    r matches Err(e) && (e is Db || (e matches CoreError::NotFound(m) && m@ == id))
}

/// What opening configuration `c`'s file `relative_path` for reading gives:
/// the file [`editor_path`] names, or `PathNotFound` with it when it is not
/// on disk; `InvalidPath` when a directory is given no file.
pub open spec fn read_outcome(c: models::Configuration, relative_path: Option<Seq<char>>, r: Result<String, CoreError>) -> bool {
    match editor_path(c, relative_path) {
        Some(p) => (r matches Ok(t) && t@ == p) || (r matches Err(CoreError::PathNotFound(t)) && t@ == p),
        None => r matches Err(CoreError::InvalidPath(m)) && m@ == select_file_message(),
    }
}

/// What opening configuration `c`'s file `relative_path` for writing gives:
/// the file [`editor_path`] names; `InvalidPath` when a directory is given
/// no file.
pub open spec fn write_outcome(c: models::Configuration, relative_path: Option<Seq<char>>, r: Result<String, CoreError>) -> bool {
    match editor_path(c, relative_path) {
        Some(p) => r matches Ok(t) && t@ == p,
        None => r matches Err(CoreError::InvalidPath(m)) && m@ == select_file_message(),
    }
}

/// What listing the suggestions for configuration `c`, whose file holds
/// `content`, gives: nothing outside the catalog or for a directory;
/// otherwise the suggestions of its own definition still missing from
/// `content` (nothing when the file is not on disk).
pub open spec fn snippet_list_outcome(
    c: models::Configuration,
    entries: Seq<snippets::CatalogEntry>,
    content: Seq<char>,
    r: Result<Vec<snippets::SnippetSuggestion>, CoreError>,
) -> bool {
    match c.definition_id {
        None => r matches Ok(v) && v.len() == 0,
        Some(d) => if c.kind != models::ConfigKind::File {
            r matches Ok(v) && v.len() == 0
        } else {
            r matches Ok(v) && (v.len() == 0 || snippets::suggested_for(entries, d@, content, v@))
        },
    }
}

/// Suggestion `j` of entry `i` is the first labelled `label` in the first
/// entry for definition `d`.
pub open spec fn labelled_in(entries: Seq<snippets::CatalogEntry>, d: Seq<char>, label: Seq<char>, i: int, j: int) -> bool {
    &&& snippets::first_entry_for(entries, d, i)
    &&& snippets::first_labelled(entries[i].suggestions@, label, j)
}

/// The message for a configuration outside the catalog.
pub open spec fn no_suggestions_message() -> Seq<char> {
    "this configuration has no known suggestions"@
}

/// What previewing suggestion `label` on configuration `c`, whose editor
/// buffer holds `content`, gives: `InvalidPath` for a directory, `NotFound`
/// outside the catalog or when its definition has no suggestion so
/// labelled, and otherwise what applying the first such suggestion gives.
pub open spec fn preview_outcome(
    c: models::Configuration,
    entries: Seq<snippets::CatalogEntry>,
    label: Seq<char>,
    content: Seq<char>,
    r: Result<String, CoreError>,
) -> bool {
    if c.kind != models::ConfigKind::File {
        r matches Err(CoreError::InvalidPath(m)) && m@ == single_files_message()
    } else {
        match c.definition_id {
            None => r matches Err(CoreError::NotFound(m)) && m@ == no_suggestions_message(),
            Some(d) => if exists|i: int, j: int| #[trigger] labelled_in(entries, d@, label, i, j) {
                exists|i: int, j: int| #[trigger] labelled_in(entries, d@, label, i, j) && {
                    let s = entries[i].suggestions@[j];
                    ||| (r matches Ok(t) && snippets::apply_outcome(s, content, Ok::<String, String>(t)))
                    ||| (r matches Err(CoreError::SnippetApplyFailed(m)) && snippets::apply_outcome(s, content, Err::<String, String>(m)))
                }
            } else {
                r matches Err(CoreError::NotFound(m)) && m@ == label
            },
        }
    }
}

/// `o` holds a snapshot of its configuration taken with message `reason`.
pub open spec fn outcome_recorded(o: SnapshotOutcome, reason: Seq<char>) -> bool {
    &&& o.snapshot matches Some(s)
    &&& o.snapshot->0.configuration_id@ == o.configuration_id@
    &&& o.snapshot->0.reason@ == reason
}

/// `c` was taken in from catalog definition `def`, at one of its candidate
/// paths expanded against `home`.
pub open spec fn taken_from(def: models::ConfigDefinition, home: Seq<char>, c: models::Configuration) -> bool {
    &&& models::opt_text(c.definition_id) == Some(def.id@)
    &&& c.name@ == def.application@
    &&& c.category == def.category
    &&& c.kind == def.kind
    &&& c.sensitivity == def.sensitivity
    &&& exists|j: int| 0 <= j < def.paths@.len() && c.path@ == paths::expand_spec(#[trigger] def.paths@[j]@, home)
}

/// Whether `def` may be offered for creation against `taken`: it applies to
/// `platform`, is not among `taken`, has a candidate path, and the first one
/// is no private key.
pub open spec fn eligible(def: models::ConfigDefinition, home: Seq<char>, platform: models::Platform, taken: Seq<String>) -> bool {
    &&& discovery::applies_to(def, platform)
    &&& !(exists|t: int| 0 <= t < taken.len() && (#[trigger] taken[t])@ == def.id@)
    &&& def.paths@.len() > 0
    &&& !security::is_private_key_spec(paths::expand_spec(def.paths@[0]@, home))
}

/// `s` offers `def` for creation at its first candidate path.
pub open spec fn suggestion_of(def: models::ConfigDefinition, home: Seq<char>, s: CatalogSuggestion) -> bool {
    &&& s.definition_id@ == def.id@
    &&& s.application@ == def.application@
    &&& s.category == def.category
    &&& s.kind == def.kind
    &&& s.path@ == paths::expand_spec(def.paths@[0]@, home)
    &&& s.sensitivity == def.sensitivity
}

/// `r` is what is offered for creation out of `defs` when `probes[k]` tells
/// which candidate paths of definition `k` exist as its kind says and
/// `present[k]` whether anything exists at its first candidate path: in
/// order, each eligible definition none of whose candidates exists, with
/// nothing at its first.
pub open spec fn suggest_exact(
    defs: Seq<models::ConfigDefinition>,
    home: Seq<char>,
    platform: models::Platform,
    taken: Seq<String>,
    probes: Seq<Vec<bool>>,
    present: Seq<bool>,
    r: Seq<CatalogSuggestion>,
) -> bool
    decreases defs.len(),
{
    if defs.len() == 0 {
        r.len() == 0
    } else {
        let d = defs.last();
        let n = defs.len() - 1;
        let rest = defs.drop_last();
        if eligible(d, home, platform, taken) && discovery::probe_hit(d, probes[n]@) is None && !present[n] {
            &&& r.len() > 0
            &&& suggestion_of(d, home, r.last())
            &&& suggest_exact(rest, home, platform, taken, probes, present, r.drop_last())
        } else {
            suggest_exact(rest, home, platform, taken, probes, present, r)
        }
    }
}

/// `r` is what is offered for creation out of `defs` for some outcome of
/// probing each eligible definition in order (see [`suggest_exact`]).
pub open spec fn suggested_from_some_probes(
    defs: Seq<models::ConfigDefinition>,
    home: Seq<char>,
    platform: models::Platform,
    taken: Seq<String>,
    r: Seq<CatalogSuggestion>,
) -> bool {
    exists|probes: Seq<Vec<bool>>, present: Seq<bool>| {
        &&& probes.len() == defs.len()
        &&& present.len() == defs.len()
        &&& forall|m: int| 0 <= m < defs.len() && eligible(defs[m], home, platform, taken)
            ==> #[trigger] discovery::probed_in_order(defs[m], probes[m]@)
        &&& #[trigger] suggest_exact(defs, home, platform, taken, probes, present, r)
    }
}

/// `r` is what is offered for creation out of `defs` with the definitions
/// of some stored configurations taken (see [`suggested_from_some_probes`]).
pub open spec fn suggested_against_some_store(
    defs: Seq<models::ConfigDefinition>,
    home: Seq<char>,
    platform: models::Platform,
    r: Seq<CatalogSuggestion>,
) -> bool {
    exists|configs: Seq<models::Configuration>| #[trigger] suggested_from_some_probes(defs, home, platform, tracked_ids(configs), r)
}

/// Every suggestion offers an eligible definition none of whose candidate
/// paths was found to exist.
pub proof fn lemma_suggest_member(
    defs: Seq<models::ConfigDefinition>,
    home: Seq<char>,
    platform: models::Platform,
    taken: Seq<String>,
    probes: Seq<Vec<bool>>,
    present: Seq<bool>,
    r: Seq<CatalogSuggestion>,
    i: int,
)
    requires
        suggest_exact(defs, home, platform, taken, probes, present, r),
        0 <= i < r.len(),
    ensures
        exists|k: int| 0 <= k < defs.len() && eligible(defs[k], home, platform, taken)
            && discovery::probe_hit(defs[k], probes[k]@) is None && #[trigger] suggestion_of(defs[k], home, r[i]),
    decreases defs.len(),
{
    let d = defs.last();
    let rest = defs.drop_last();
    let n = defs.len() - 1;
    if eligible(d, home, platform, taken) && discovery::probe_hit(d, probes[n]@) is None && !present[n] {
        if i == r.len() - 1 {
            assert(defs[n] == d);
            assert(suggestion_of(defs[n], home, r[i]));
        } else {
            lemma_suggest_member(rest, home, platform, taken, probes, present, r.drop_last(), i);
            let k = choose|k: int| 0 <= k < rest.len() && eligible(rest[k], home, platform, taken)
                && discovery::probe_hit(rest[k], probes[k]@) is None && #[trigger] suggestion_of(rest[k], home, r.drop_last()[i]);
            assert(defs[k] == rest[k]);
            assert(r.drop_last()[i] == r[i]);
            assert(suggestion_of(defs[k], home, r[i]));
        }
    } else {
        lemma_suggest_member(rest, home, platform, taken, probes, present, r, i);
        let k = choose|k: int| 0 <= k < rest.len() && eligible(rest[k], home, platform, taken)
            && discovery::probe_hit(rest[k], probes[k]@) is None && #[trigger] suggestion_of(rest[k], home, r[i]);
        assert(defs[k] == rest[k]);
        assert(suggestion_of(defs[k], home, r[i]));
    }
}

/// The scan and the catalog suggestions never name the same definition:
/// for the same outcome of probing the disk, what exists surfaces through
/// the scan and what does not through the suggestions. (Definition ids are
/// taken to be unique in the catalog.)
pub proof fn lemma_scan_and_suggestions_disjoint(
    defs: Seq<models::ConfigDefinition>,
    home: Seq<char>,
    platform: models::Platform,
    taken: Seq<String>,
    probes: Seq<Vec<bool>>,
    present: Seq<bool>,
    found: Seq<discovery::DiscoveredConfig>,
    offered: Seq<CatalogSuggestion>,
)
    requires
        forall|a: int, b: int| 0 <= a < defs.len() && 0 <= b < defs.len() && a != b ==> (#[trigger] defs[a]).id@ != (#[trigger] defs[b]).id@,
        discovery::scan_exact(defs, home, platform, probes, found),
        suggest_exact(defs, home, platform, taken, probes, present, offered),
    ensures
        forall|i: int, j: int| 0 <= i < found.len() && 0 <= j < offered.len()
            ==> (#[trigger] found[i]).definition_id@ != (#[trigger] offered[j]).definition_id@,
{
    assert forall|i: int, j: int| 0 <= i < found.len() && 0 <= j < offered.len()
        implies (#[trigger] found[i]).definition_id@ != (#[trigger] offered[j]).definition_id@ by {
        discovery::lemma_scan_hit(defs, home, platform, probes, found, i);
        lemma_suggest_member(defs, home, platform, taken, probes, present, offered, j);
        let a = choose|a: int| 0 <= a < defs.len() && (#[trigger] defs[a]).id@ == found[i].definition_id@
            && discovery::probe_hit(defs[a], probes[a]@) is Some;
        let b = choose|b: int| 0 <= b < defs.len() && eligible(defs[b], home, platform, taken)
            && discovery::probe_hit(defs[b], probes[b]@) is None && #[trigger] suggestion_of(defs[b], home, offered[j]);
        if a != b {
            assert(defs[a].id@ != defs[b].id@);
        }
    }
}

/// A suggestion never offers a definition among those taken.
pub proof fn lemma_suggestions_skip_taken(
    defs: Seq<models::ConfigDefinition>,
    home: Seq<char>,
    platform: models::Platform,
    taken: Seq<String>,
    probes: Seq<Vec<bool>>,
    present: Seq<bool>,
    r: Seq<CatalogSuggestion>,
)
    requires
        suggest_exact(defs, home, platform, taken, probes, present, r),
    ensures
        forall|i: int, t: int| 0 <= i < r.len() && 0 <= t < taken.len() ==> (#[trigger] r[i]).definition_id@ != (#[trigger] taken[t])@,
{
    assert forall|i: int, t: int| 0 <= i < r.len() && 0 <= t < taken.len() implies (#[trigger] r[i]).definition_id@ != (#[trigger] taken[t])@ by {
        lemma_suggest_member(defs, home, platform, taken, probes, present, r, i);
        let k = choose|k: int| 0 <= k < defs.len() && eligible(defs[k], home, platform, taken)
            && discovery::probe_hit(defs[k], probes[k]@) is None && #[trigger] suggestion_of(defs[k], home, r[i]);
        if r[i].definition_id@ == taken[t]@ {
            assert(taken[t]@ == defs[k].id@);
        }
    }
}

/// The definition ids of tracked configurations, in order.
pub open spec fn tracked_ids(configs: Seq<models::Configuration>) -> Seq<String>
    decreases configs.len(),
{
    if configs.len() == 0 {
        Seq::empty()
    } else {
        let rest = tracked_ids(configs.drop_last());
        match configs.last().definition_id {
            Some(d) => rest.push(d),
            None => rest,
        }
    }
}

/// The definition ids of `configs`, in order.
pub fn tracked_definitions(configs: &Vec<models::Configuration>) -> (r: Vec<String>)
    ensures
        r@ == tracked_ids(configs@),
{
    let mut out: Vec<String> = Vec::new();
    let mut i: usize = 0;
    while i < configs.len()
        invariant
            i <= configs.len(),
            out@ == tracked_ids(configs@.take(i as int)),
        decreases configs.len() - i,
    {
        assert(configs@.take(i + 1).drop_last() =~= configs@.take(i as int));
        assert(configs@.take(i + 1).last() == configs@[i as int]);
        match &configs[i].definition_id {
            Some(d) => out.push(d.clone()),
            None => {},
        }
        i = i + 1;
    }
    assert(configs@.take(configs.len() as int) =~= configs@);
    out
}

/// Whether no candidate path of `def` exists according to `p`.
fn hit_of_none(def: &models::ConfigDefinition, p: &Vec<bool>) -> (r: bool)
    ensures
        r == (discovery::probe_hit(*def, p@) is None),
{
    discovery::hit_of(def, p).is_none()
}

/// Where `def`'s configuration is, or would be created, when `p` tells
/// which of its candidate paths exist as its kind says: the first that
/// exists, otherwise the first.
pub open spec fn chosen_candidate(def: models::ConfigDefinition, home: Seq<char>, p: Seq<bool>) -> Seq<char> {
    match discovery::probe_hit(def, p) {
        Some(j) => paths::expand_spec(def.paths@[j]@, home),
        None => paths::expand_spec(def.paths@[0]@, home),
    }
}

/// `r` is what taking in catalog definition `id` comes to when `p` tells
/// which candidate paths of its first definition exist: `NotFound` without
/// such a definition, `InvalidPath` when it has no candidate path,
/// `PrivateKeyBlocked` when the chosen path is a private key,
/// `ConfirmationRequired` when it is not `Normal` and not confirmed, and
/// otherwise the chosen path.
pub open spec fn suggestion_exact(
    defs: Seq<models::ConfigDefinition>,
    home: Seq<char>,
    id: Seq<char>,
    confirmed: bool,
    p: Seq<bool>,
    r: Result<SuggestionTarget, CoreError>,
) -> bool {
    if forall|m: int| 0 <= m < defs.len() ==> (#[trigger] defs[m]).id@ != id {
        r matches Err(CoreError::NotFound(m)) && m@ == id
    } else {
        let k = choose|k: int| #[trigger] first_definition(defs, id, k);
        let d = defs[k];
        if d.paths@.len() == 0 {
            r matches Err(CoreError::InvalidPath(m)) && m@ == id
        } else if security::is_private_key_spec(chosen_candidate(d, home, p)) {
            r matches Err(CoreError::PrivateKeyBlocked)
        } else if d.sensitivity != models::Sensitivity::Normal && !confirmed {
            r matches Err(CoreError::ConfirmationRequired)
        } else {
            r matches Ok(t) && t.definition_id@ == id && t.path@ == chosen_candidate(d, home, p) && t.kind == d.kind
        }
    }
}

/// `r` is what taking in catalog definition `id` comes to for some outcome
/// of probing its candidate paths in order (see [`suggestion_exact`]).
pub open spec fn target_of_some_probe(
    defs: Seq<models::ConfigDefinition>,
    home: Seq<char>,
    id: Seq<char>,
    confirmed: bool,
    r: Result<SuggestionTarget, CoreError>,
) -> bool {
    exists|p: Seq<bool>| {
        &&& forall|k: int| #[trigger] first_definition(defs, id, k) ==> discovery::probed_in_order(defs[k], p)
        &&& #[trigger] suggestion_exact(defs, home, id, confirmed, p, r)
    }
}

/// `r` is what recording the target `t` of catalog definition `id` gives:
/// `t`'s error, or a configuration of the definition at `t`'s path (or a
/// store error).
pub open spec fn target_taken(
    defs: Seq<models::ConfigDefinition>,
    id: Seq<char>,
    t: Result<SuggestionTarget, CoreError>,
    r: Result<models::Configuration, CoreError>,
) -> bool {
    match t {
        Err(e) => r == Err::<models::Configuration, CoreError>(e),
        Ok(target) => exists|k: int| #[trigger] first_definition(defs, id, k) && match r {
            Ok(c) => {
                &&& models::opt_text(c.definition_id) == Some(id)
                &&& c.name@ == defs[k].application@
                &&& c.path@ == target.path@
                &&& c.category == defs[k].category
                &&& c.kind == defs[k].kind
                &&& c.sensitivity == defs[k].sensitivity
                &&& c.last_snapshot_at is None
            },
            Err(e) => e is Db,
        },
    }
}

/// `e` refuses the path named `id`.
pub open spec fn invalid_path_of(e: CoreError, id: Seq<char>) -> bool {
    e matches CoreError::InvalidPath(m) && m@ == id
}

/// Entry `i` is the first of `found` for catalog definition `id`.
pub open spec fn first_found(found: Seq<discovery::DiscoveredConfig>, id: Seq<char>, i: int) -> bool {
    &&& 0 <= i < found.len()
    &&& found[i].definition_id@ == id
    &&& forall|k: int| 0 <= k < i ==> (#[trigger] found[k]).definition_id@ != id
}

/// What taking in the scanned entry `d` gives: a private key is refused,
/// anything not `Normal` needs `confirmed`, and otherwise the store records
/// a configuration of `d` (or fails).
pub open spec fn admitted_entry(d: discovery::DiscoveredConfig, confirmed: bool, r: Result<models::Configuration, CoreError>) -> bool {
    if d.is_private_key {
        r matches Err(CoreError::PrivateKeyBlocked)
    } else if d.sensitivity != models::Sensitivity::Normal && !confirmed {
        r matches Err(CoreError::ConfirmationRequired)
    } else {
        match r {
            Ok(c) => {
                &&& models::opt_text(c.definition_id) == Some(d.definition_id@)
                &&& c.name@ == d.application@
                &&& c.path@ == d.path@
                &&& c.category == d.category
                &&& c.kind == d.kind
                &&& c.sensitivity == d.sensitivity
                &&& c.last_snapshot_at is None
            },
            Err(e) => e is Db,
        }
    }
}

/// `found` is what a scan of `defs` reports (for some outcome of its
/// probes), and `r` what taking in its first entry for `id` gives: `NotFound`
/// when there is none.
pub open spec fn scanned_then_taken(
    defs: Seq<models::ConfigDefinition>,
    home: Seq<char>,
    platform: models::Platform,
    found: Seq<discovery::DiscoveredConfig>,
    id: Seq<char>,
    confirmed: bool,
    r: Result<models::Configuration, CoreError>,
) -> bool {
    &&& discovery::scan_of_some_probes(defs, home, platform, found)
    &&& if forall|k: int| 0 <= k < found.len() ==> (#[trigger] found[k]).definition_id@ != id {
        r matches Err(CoreError::NotFound(m)) && m@ == id
    } else {
        exists|i: int| #[trigger] first_found(found, id, i) && admitted_entry(found[i], confirmed, r)
    }
}

/// Definition `k` is the first of `defs` with id `id`.
pub open spec fn first_definition(defs: Seq<models::ConfigDefinition>, id: Seq<char>, k: int) -> bool {
    &&& 0 <= k < defs.len()
    &&& defs[k].id@ == id
    &&& forall|m: int| 0 <= m < k ==> (#[trigger] defs[m]).id@ != id
}

/// The position of the first scanned entry for catalog definition `id`.
fn position_of_definition(found: &Vec<discovery::DiscoveredConfig>, id: &str) -> (r: Option<usize>)
    ensures
        r matches Some(i) ==> first_found(found@, id@, i as int),
        r is None ==> forall|k: int| 0 <= k < found.len() ==> (#[trigger] found@[k]).definition_id@ != id@,
{
    let mut i: usize = 0;
    while i < found.len()
        invariant
            i <= found.len(),
            forall|k: int| 0 <= k < i ==> (#[trigger] found@[k]).definition_id@ != id@,
        decreases found.len() - i,
    {
        if text::text_eq(found[i].definition_id.as_str(), id) {
            return Some(i);
        }
        i = i + 1;
    }
    None
}

/// The message for a suggestion asked of a directory configuration.
pub open spec fn single_files_message() -> Seq<char> {
    "suggestions only apply to single files"@
}

/// The message for a directory configuration opened without choosing a file.
pub open spec fn select_file_message() -> Seq<char> {
    "a file within the directory must be selected"@
}

/// The view of an optional text.
pub open spec fn opt_str(o: Option<&str>) -> Option<Seq<char>> {
    match o {
        Some(s) => Some(s@),
        None => None,
    }
}

/// The file the editor works on for `c`: the configuration's own path for a
/// file, the chosen file below it for a directory (none without a choice).
pub open spec fn editor_path(c: models::Configuration, relative_path: Option<Seq<char>>) -> Option<Seq<char>> {
    match c.kind {
        models::ConfigKind::File => Some(c.path@),
        models::ConfigKind::Directory => match relative_path {
            Some(r) => Some(paths::join_spec(c.path@, r)),
            None => None,
        },
    }
}

/// Expands a leading `~` in a path the user typed against the current
/// user's home directory, to preview it before it is added; without a home
/// directory the path is kept as it is.
pub fn expand_home_path(raw: &str) -> (r: String)
    ensures
        r@ == raw@ || exists|home: Seq<char>| r@ == #[trigger] paths::expand_spec(raw@, home),
        !paths::starts_with_tilde(raw@) ==> r@ == raw@,
{
    match disk::home_dir() {
        Some(home) => {
            let r = paths::expand_home(raw, home.as_str());
            proof {
                paths::lemma_expand_keeps_plain_paths(raw@, home@);
            }
            r
        },
        None => raw.to_owned(),
    }
}

/// What the interface shows about a path the user is about to add.
#[derive(Debug)]
pub struct PathPreview {
    pub exists: bool,
    pub is_directory: bool,
    pub is_private_key: bool,
    pub sensitivity: models::Sensitivity,
}

/// Previews a custom path before it is added: `~` expanded (see
/// [`expand_home_path`]), whether something is there, and how the path
/// would be judged.
pub fn preview_custom_path(path: &str) -> (r: PathPreview)
    ensures
        exists|p: Seq<char>| {
            &&& (p == path@ || exists|home: Seq<char>| p == #[trigger] paths::expand_spec(path@, home))
            &&& r.is_private_key == security::is_private_key_spec(p)
            &&& r.sensitivity == security::classify_spec(p)
        },
{
    let expanded = expand_home_path(path);
    PathPreview {
        exists: disk::path_exists(expanded.as_str()),
        is_directory: disk::path_is_dir(expanded.as_str()),
        is_private_key: security::is_private_key(expanded.as_str()),
        sensitivity: security::classify_path(expanded.as_str()),
    }
}

/// The message of a snapshot taken without one.
pub fn snapshot_reason(reason: Option<&str>) -> (r: &str)
    ensures
        r@ == match reason {
            Some(t) => t@,
            None => "Manual snapshot"@,
        },
{
    match reason {
        Some(t) => t,
        None => "Manual snapshot",
    }
}

/// `o`, if a snapshot, was taken of `c` with message `reason`.
pub open spec fn outcome_of(o: Option<models::Snapshot>, c: models::Configuration, reason: Seq<char>) -> bool {
    match o {
        Some(s) => s.configuration_id@ == c.id@ && s.reason@ == reason,
        None => true,
    }
}

/// `done` and `unchanged` are what taking snapshots of `configs` gave, one
/// outcome each (`None` when nothing changed): in order, an entry with the
/// configuration's id and name for each snapshot taken, and a count of the
/// others.
pub open spec fn tallied(
    configs: Seq<models::Configuration>,
    outcomes: Seq<Option<models::Snapshot>>,
    done: Seq<SnapshotOutcome>,
    unchanged: int,
) -> bool
    decreases configs.len(),
{
    if configs.len() == 0 {
        outcomes.len() == 0 && done.len() == 0 && unchanged == 0
    } else if outcomes.len() != configs.len() {
        false
    } else {
        match outcomes.last() {
            Some(s) => {
                &&& done.len() > 0
                &&& done.last().configuration_id@ == configs.last().id@
                &&& done.last().name@ == configs.last().name@
                &&& done.last().snapshot == Some(s)
                &&& tallied(configs.drop_last(), outcomes.drop_last(), done.drop_last(), unchanged)
            },
            None => unchanged > 0 && tallied(configs.drop_last(), outcomes.drop_last(), done, unchanged - 1),
        }
    }
}

/// `done` and `unchanged` are the tally of some configurations' outcomes.
pub open spec fn tally_of_some(done: Seq<SnapshotOutcome>, unchanged: int) -> bool {
    exists|cs: Seq<models::Configuration>, os: Seq<Option<models::Snapshot>>| #[trigger] tallied(cs, os, done, unchanged)
}

/// Every configuration is either snapshotted or counted as unchanged.
pub proof fn lemma_tallied_counts(
    configs: Seq<models::Configuration>,
    outcomes: Seq<Option<models::Snapshot>>,
    done: Seq<SnapshotOutcome>,
    unchanged: int,
)
    requires
        tallied(configs, outcomes, done, unchanged),
    ensures
        done.len() + unchanged == configs.len(),
    decreases configs.len(),
{
    if configs.len() > 0 {
        match outcomes.last() {
            Some(s) => lemma_tallied_counts(configs.drop_last(), outcomes.drop_last(), done.drop_last(), unchanged),
            None => lemma_tallied_counts(configs.drop_last(), outcomes.drop_last(), done, unchanged - 1),
        }
    }
}

proof fn lemma_tallied_recorded(
    configs: Seq<models::Configuration>,
    outcomes: Seq<Option<models::Snapshot>>,
    done: Seq<SnapshotOutcome>,
    unchanged: int,
    reason: Seq<char>,
)
    requires
        tallied(configs, outcomes, done, unchanged),
        forall|k: int| 0 <= k < outcomes.len() ==> outcome_of(#[trigger] outcomes[k], configs[k], reason),
    ensures
        forall|k: int| 0 <= k < done.len() ==> outcome_recorded(#[trigger] done[k], reason),
    decreases configs.len(),
{
    if configs.len() > 0 {
        let n = outcomes.len() - 1;
        assert(outcomes.last() == outcomes[n]);
        assert forall|k: int| 0 <= k < outcomes.drop_last().len() implies outcome_of(#[trigger] outcomes.drop_last()[k], configs.drop_last()[k], reason) by {
            assert(outcomes.drop_last()[k] == outcomes[k]);
            assert(configs.drop_last()[k] == configs[k]);
        }
        match outcomes.last() {
            Some(s) => {
                lemma_tallied_recorded(configs.drop_last(), outcomes.drop_last(), done.drop_last(), unchanged, reason);
                assert forall|k: int| 0 <= k < done.len() implies outcome_recorded(#[trigger] done[k], reason) by {
                    if k < done.len() - 1 {
                        assert(done[k] == done.drop_last()[k]);
                    }
                }
            },
            None => lemma_tallied_recorded(configs.drop_last(), outcomes.drop_last(), done, unchanged - 1, reason),
        }
    }
}

/// What "snapshot all" did, from the outcome of each configuration's
/// snapshot (one per configuration, `None` when nothing changed).
pub fn tally_snapshots(configs: &Vec<models::Configuration>, outcomes: Vec<Option<models::Snapshot>>) -> (r: SnapshotAllResult)
    requires
        outcomes.len() == configs.len(),
    ensures
        tallied(configs@, outcomes@, r.snapshotted@, r.unchanged_count as int),
        r.snapshotted.len() + r.unchanged_count == configs.len(),
{
    let ghost all = outcomes@;
    let mut snapshotted: Vec<SnapshotOutcome> = Vec::new();
    let mut unchanged_count: usize = 0;
    let mut i: usize = 0;
    for o in it: outcomes
        invariant
            it.seq() == all,
            all.len() == configs.len(),
            i == it.index(),
            unchanged_count <= i,
            tallied(configs@.take(i as int), all.take(i as int), snapshotted@, unchanged_count as int),
    {
        let ghost before = snapshotted@;
        assert(configs@.take(i + 1).drop_last() =~= configs@.take(i as int));
        assert(all.take(i + 1).drop_last() =~= all.take(i as int));
        assert(all.take(i + 1).last() == o);
        match o {
            Some(s) => {
                snapshotted.push(SnapshotOutcome {
                    configuration_id: configs[i].id.clone(),
                    name: configs[i].name.clone(),
                    snapshot: Some(s),
                });
                assert(snapshotted@.drop_last() =~= before);
            },
            None => {
                unchanged_count = unchanged_count + 1;
            },
        }
        i = i + 1;
    }
    assert(configs@.take(i as int) =~= configs@);
    assert(all.take(i as int) =~= all);
    proof {
        lemma_tallied_counts(configs@, all, snapshotted@, unchanged_count as int);
    }
    SnapshotAllResult { snapshotted, unchanged_count }
}

/// The sizes recorded in some working copies.
pub open spec fn working_sizes(working: Seq<history::WorkingCopy>) -> Seq<Option<u64>> {
    working.map_values(|w: history::WorkingCopy| w.size_bytes)
}

/// The message [`no_snapshot_message`] for `id`.
fn concat_no_snapshot(id: &str) -> (r: String)
    ensures
        r@ == no_snapshot_message(id@),
{
    text::concat("no snapshot for ", id)
}

} // verus!
