//! Shared data types: categories, sensitivity levels, configuration kinds,
//! platforms, live status, the configurations taken in and their snapshots.

use vstd::prelude::*;

verus! {

/// A grouping used to organize configurations in the UI.
#[derive(Debug, Clone, Copy, PartialEq, Eq, Hash, Structural)]
pub enum Category {
    Shell,
    Git,
    Terminal,
    Editor,
    Ssh,
    PackageManagers,
    DeveloperTools,
    Other,
}

/// The human-readable label of each category.
pub open spec fn category_label(c: Category) -> Seq<char> {
    match c {
        Category::Shell => "Shell"@,
        Category::Git => "Git"@,
        Category::Terminal => "Terminal"@,
        Category::Editor => "Editor"@,
        Category::Ssh => "SSH"@,
        Category::PackageManagers => "Package Managers"@,
        Category::DeveloperTools => "Developer Tools"@,
        Category::Other => "Other"@,
    }
}

impl Category {
    pub fn label(&self) -> (r: &'static str)
        ensures
            r@ == category_label(*self),
    {
        match self {
            Category::Shell => "Shell",
            Category::Git => "Git",
            Category::Terminal => "Terminal",
            Category::Editor => "Editor",
            Category::Ssh => "SSH",
            Category::PackageManagers => "Package Managers",
            Category::DeveloperTools => "Developer Tools",
            Category::Other => "Other",
        }
    }
}

/// How sensitive the contents of a configuration are. Drives whether a file
/// is taken in freely, only after confirmation, or refused entirely.
#[derive(Debug, Clone, Copy, PartialEq, Eq, PartialOrd, Ord, Hash, Structural)]
pub enum Sensitivity {
    Normal,
    PotentialSecret,
    HighlySensitive,
}

/// Whether a configuration is a single file or an entire directory tree.
#[derive(Debug, Clone, Copy, PartialEq, Eq, Hash, Structural)]
pub enum ConfigKind {
    File,
    Directory,
}

/// The platform a [`ConfigDefinition`] applies to.
#[derive(Debug, Clone, Copy, PartialEq, Eq, Hash, Structural)]
pub enum Platform {
    Macos,
    Linux,
    Windows,
}

/// A known configuration location from the catalog: read-only, until the
/// user opts it into tracking, which creates a [`Configuration`].
#[derive(Debug)]
pub struct ConfigDefinition {
    pub id: String,
    pub application: String,
    pub category: Category,
    pub kind: ConfigKind,
    /// Candidate paths (may start with `~`); the first one that exists is used.
    pub paths: Vec<String>,
    pub platforms: Vec<Platform>,
    pub sensitivity: Sensitivity,
}

/// Live status of a configuration taken in, computed by comparing what is on
/// disk with the most recent snapshot.
#[derive(Debug, Clone, Copy, PartialEq, Eq, Hash, Structural)]
pub enum Status {
    /// Matches the latest snapshot exactly.
    Synced,
    /// Differs from the latest snapshot.
    Modified,
    /// No snapshot has been taken yet.
    NotTracked,
    /// The file/directory no longer exists on disk.
    Missing,
    /// Tracked but flagged for user attention.
    Warning,
}

/// A configuration that is being managed. Persisted in the metadata store.
#[derive(Debug)]
pub struct Configuration {
    pub id: String,
    /// The catalog entry this came from, if any (`None` for custom entries).
    pub definition_id: Option<String>,
    pub name: String,
    pub path: String,
    pub category: Category,
    pub kind: ConfigKind,
    pub sensitivity: Sensitivity,
    pub added_at: String,
    pub last_snapshot_at: Option<String>,
}

/// One point-in-time snapshot of a [`Configuration`], backed by a commit in
/// the internal history repository.
#[derive(Debug)]
pub struct Snapshot {
    pub id: String,
    pub configuration_id: String,
    pub created_at: String,
    pub git_commit: String,
    pub reason: String,
    pub favorite: bool,
    pub archived: bool,
}

/// The view of an optional string.
pub open spec fn opt_text(o: Option<String>) -> Option<Seq<char>> {
    match o {
        Some(s) => Some(s@),
        None => None,
    }
}

pub fn clone_opt_string(o: &Option<String>) -> (r: Option<String>)
    ensures
        opt_text(r) == opt_text(*o),
{
    match o {
        Some(s) => Some(s.clone()),
        None => None,
    }
}

impl Configuration {
    /// Field-by-field copy.
    pub fn duplicate(&self) -> (r: Configuration)
        ensures
            r.same_as(*self),
    {
        Configuration {
            id: self.id.clone(),
            definition_id: clone_opt_string(&self.definition_id),
            name: self.name.clone(),
            path: self.path.clone(),
            category: self.category,
            kind: self.kind,
            sensitivity: self.sensitivity,
            added_at: self.added_at.clone(),
            last_snapshot_at: clone_opt_string(&self.last_snapshot_at),
        }
    }

    /// Two configurations hold the same values.
    pub open spec fn same_as(self, other: Configuration) -> bool {
        &&& self.id@ == other.id@
        &&& opt_text(self.definition_id) == opt_text(other.definition_id)
        &&& self.name@ == other.name@
        &&& self.path@ == other.path@
        &&& self.category == other.category
        &&& self.kind == other.kind
        &&& self.sensitivity == other.sensitivity
        &&& self.added_at@ == other.added_at@
        &&& opt_text(self.last_snapshot_at) == opt_text(other.last_snapshot_at)
    }
}

impl Clone for Configuration {
    fn clone(&self) -> (r: Configuration)
        ensures
            r.same_as(*self),
    {
        self.duplicate()
    }
}

impl Snapshot {
    /// Field-by-field copy.
    pub fn duplicate(&self) -> (r: Snapshot)
        ensures
            r.same_as(*self),
    {
        Snapshot {
            id: self.id.clone(),
            configuration_id: self.configuration_id.clone(),
            created_at: self.created_at.clone(),
            git_commit: self.git_commit.clone(),
            reason: self.reason.clone(),
            favorite: self.favorite,
            archived: self.archived,
        }
    }

    /// Two snapshots hold the same values.
    pub open spec fn same_as(self, other: Snapshot) -> bool {
        &&& self.id@ == other.id@
        &&& self.configuration_id@ == other.configuration_id@
        &&& self.created_at@ == other.created_at@
        &&& self.git_commit@ == other.git_commit@
        &&& self.reason@ == other.reason@
        &&& self.favorite == other.favorite
        &&& self.archived == other.archived
    }
}

impl Clone for Snapshot {
    fn clone(&self) -> (r: Snapshot)
        ensures
            r.same_as(*self),
    {
        self.duplicate()
    }
}

} // verus!
