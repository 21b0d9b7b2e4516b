//! The internal, user-invisible git repository behind all history. One
//! repository holds every configuration, each under its own
//! `{configuration_id}/` subtree so that paths never collide.

use vstd::prelude::*;
use crate::diff::{diff_between, diff_onto, diff_file_maps, maps_differ};
pub use crate::diff::{DiffLine, DiffResult, FileChangeKind, FileDiff, LineTag};
use crate::disk::{count_files, dir_items, file_items, path_exists, path_is_dir, path_is_file, walk_entries, walk_readable_entries, WalkItem};
use crate::filemap::{file_map_of, from_some_entries, holds_entries, FileEntry, FileMap};
use crate::git::{
    blob_content, commit_tree, diff_delta_count, diff_options_new, diff_options_pathspec, entry_kind, entry_name,
    entry_to_object, index_add_all, index_update_all, index_write, index_write_tree, is_oid_text,
    object_into_blob, object_into_tree, oid_from_str, oid_text, reference_peel_to_commit,
    repo_commit, repo_diff_trees, repo_find_commit, repo_find_tree, repo_head, repo_index,
    repo_init, repo_open, repo_workdir, signature_now, tree_get, tree_get_path, tree_len, is_nul_free, no_nul,
    EntryKind,
};
use crate::models::{ConfigKind, Configuration, Status};
use crate::paths::{file_name, file_name_spec, join_path, join_spec, lemma_relative_of_join, relative_spec, relative_to};
use crate::order::{ascending, sort_texts, text_views};
use crate::text::{chars_of, concat, string_of};
use crate::CoreError;

verus! {

/// A file of a configuration as found on disk: its key in the
/// configuration's file map and where to read it from.
#[derive(Debug)]
pub struct DiskFile {
    pub key: String,
    pub source: String,
}

/// A file to copy from a configuration into the repository's working tree.
#[derive(Debug)]
pub struct FileCopy {
    pub source: String,
    pub dest: String,
}

/// What copying a configuration into its subtree takes: the subtree is
/// cleared, then `dirs` are created and `copies` made.
#[derive(Debug)]
pub struct StagingPlan {
    pub subtree: String,
    pub dirs: Vec<String>,
    pub copies: Vec<FileCopy>,
}

/// A file to write back to disk during a restore.
#[derive(Debug)]
pub struct FileWrite {
    pub dest: String,
    pub content: Vec<u8>,
}

/// What restoring a snapshot writes: the configuration's root directory
/// (for a directory configuration), then every file the snapshot holds.
/// Files on disk that the snapshot lacks are left alone.
#[derive(Debug)]
pub struct RestorePlan {
    pub root_dir: Option<String>,
    pub writes: Vec<FileWrite>,
}

/// The files of a configuration as they are on disk right now, and their
/// total size, read from `path`.
#[derive(Debug)]
pub struct WorkingCopy {
    pub path: String,
    pub files: FileMap,
    pub size_bytes: Option<u64>,
}

/// The files to read to learn what a configuration holds on disk: nothing
/// when its path does not exist; for a file, the file itself under its file
/// name; for a directory, every file below it (ignored names skipped) under
/// its path relative to the directory.
pub fn disk_files_to_read(config: &Configuration) -> (r: Result<Vec<DiskFile>, CoreError>)
    ensures
        r matches Ok(v) ==> (config.kind == ConfigKind::File ==> v.len() <= 1 && (v.len() == 1 ==> {
            &&& file_name_spec(config.path@) == Some(v[0].key@)
            &&& v[0].source@ == config.path@
        })),
        r matches Ok(v) ==> (config.kind == ConfigKind::Directory ==> forall|k: int| 0 <= k < v.len() ==>
            (#[trigger] v[k]).key@ == relative_spec(config.path@, v[k].source@)),
        r matches Ok(v) ==> (config.kind == ConfigKind::Directory ==> v.len() == 0 || files_of_some_walk(config.path@, v@)),
        r matches Err(e) ==> (e is InvalidPath && config.kind == ConfigKind::File
            && file_name_spec(config.path@) is None) || (e is Io && config.kind == ConfigKind::Directory),
{
    let mut out: Vec<DiskFile> = Vec::new();
    if !path_exists(config.path.as_str()) {
        return Ok(out);
    }
    match config.kind {
        ConfigKind::File => {
            let p = chars_of(config.path.as_str());
            match file_name(&p) {
                Some(n) => {
                    out.push(DiskFile { key: string_of(&n), source: config.path.clone() });
                    Ok(out)
                },
                None => Err(CoreError::InvalidPath(config.path.clone())),
            }
        },
        ConfigKind::Directory => {
            let items = match walk_entries(config.path.as_str()) {
                Ok(items) => items,
                Err(e) => {
                    return Err(CoreError::Io(e));
                },
            };
            let files = files_below(config.path.as_str(), items);
            proof {
                assert forall|k: int| 0 <= k < files@.len() implies (#[trigger] files@[k]).key@ == relative_spec(config.path@, files@[k].source@) by {}
            }
            Ok(files)
        },
    }
}

/// `r` lists the files among walked entries below `root`, in walk order,
/// each read from its own path and keyed by its path relative to `root`.
pub open spec fn walked_files(root: Seq<char>, items: Seq<WalkItem>, r: Seq<DiskFile>) -> bool {
    &&& r.len() == file_items(items).len()
    &&& forall|k: int| 0 <= k < r.len() ==> {
        &&& (#[trigger] r[k]).source@ == file_items(items)[k].path@
        &&& r[k].key@ == relative_spec(root, file_items(items)[k].path@)
    }
}

/// `r` is what some walk below `root` gives (see [`walked_files`]).
pub open spec fn files_of_some_walk(root: Seq<char>, r: Seq<DiskFile>) -> bool {
    exists|items: Seq<WalkItem>| #[trigger] walked_files(root, items, r)
}

/// The files among walked entries below `root`, each keyed by its path
/// relative to `root`.
pub fn files_below(root: &str, items: Vec<WalkItem>) -> (r: Vec<DiskFile>)
    ensures
        walked_files(root@, items@, r@),
{
    let mut out: Vec<DiskFile> = Vec::new();
    let mut i: usize = 0;
    while i < items.len()
        invariant
            i <= items.len(),
            walked_files(root@, items@.take(i as int), out@),
        decreases items.len() - i,
    {
        assert(items@.take(i + 1).drop_last() =~= items@.take(i as int));
        assert(items@.take(i + 1).last() == items@[i as int]);
        reveal_with_fuel(Seq::filter, 1);
        if items[i].is_file {
            let key = relative_to(root, items[i].path.as_str());
            let ghost before = out@;
            out.push(DiskFile { key, source: items[i].path.clone() });
            assert(file_items(items@.take(i + 1)) == file_items(items@.take(i as int)).push(items@[i as int]));
            assert forall|k: int| 0 <= k < out@.len() implies {
                &&& (#[trigger] out@[k]).source@ == file_items(items@.take(i + 1))[k].path@
                &&& out@[k].key@ == relative_spec(root@, file_items(items@.take(i + 1))[k].path@)
            } by {
                if k < before.len() {
                    assert(out@[k] == before[k]);
                }
            }
        }
        i = i + 1;
    }
    assert(items@.take(items.len() as int) =~= items@);
    out
}

/// The paths, relative to `root`, of the files among walked entries, in
/// walk order.
pub open spec fn file_names(root: Seq<char>, items: Seq<WalkItem>) -> Seq<Seq<char>> {
    file_items(items).map_values(|i: WalkItem| relative_spec(root, i.path@))
}

/// `r` names, sorted, the files among walked entries below `root`.
pub open spec fn listed_from(root: Seq<char>, items: Seq<WalkItem>, r: Seq<String>) -> bool {
    &&& text_views(r).to_multiset() == file_names(root, items).to_multiset()
    &&& ascending(text_views(r))
}

/// `r` names, sorted, the files of some walk below `root`.
pub open spec fn listed_from_some_walk(root: Seq<char>, r: Seq<String>) -> bool {
    exists|items: Seq<WalkItem>| #[trigger] listed_from(root, items, r)
}

/// The paths, relative to `root` and sorted, of the files among walked
/// entries below `root`.
pub fn listed_files(root: &str, items: Vec<WalkItem>) -> (r: Vec<String>)
    ensures
        listed_from(root@, items@, r@),
{
    let ghost iv = items@;
    let files = files_below(root, items);
    let mut names: Vec<String> = Vec::new();
    let mut i: usize = 0;
    while i < files.len()
        invariant
            i <= files.len(),
            walked_files(root@, iv, files@),
            names.len() == i,
            forall|k: int| 0 <= k < i ==> (#[trigger] names@[k])@ == files@[k].key@,
        decreases files.len() - i,
    {
        names.push(files[i].key.clone());
        i = i + 1;
    }
    assert(text_views(names@) =~= file_names(root@, iv)) by {
        assert forall|k: int| 0 <= k < names@.len() implies #[trigger] text_views(names@)[k] == file_names(root@, iv)[k] by {
            assert(files@[k].key@ == relative_spec(root@, file_items(iv)[k].path@));
        }
    }
    sort_texts(&mut names);
    names
}

/// The walked entries that are copied: files that are not directories.
pub open spec fn copy_items(items: Seq<WalkItem>) -> Seq<WalkItem> {
    items.filter(|i: WalkItem| !i.is_dir && i.is_file)
}

/// `dirs` and `copies` stage the walked entries below `root` into `subtree`:
/// each directory and each file at the same relative place, in walk order.
pub open spec fn staged_from_walk(
    subtree: Seq<char>,
    root: Seq<char>,
    items: Seq<WalkItem>,
    dirs: Seq<String>,
    copies: Seq<FileCopy>,
) -> bool {
    &&& dirs.len() == dir_items(items).len()
    &&& forall|k: int| 0 <= k < dirs.len() ==> (#[trigger] dirs[k])@ == join_spec(subtree, relative_spec(root, dir_items(items)[k].path@))
    &&& copies.len() == copy_items(items).len()
    &&& forall|k: int| 0 <= k < copies.len() ==> {
        &&& (#[trigger] copies[k]).source@ == copy_items(items)[k].path@
        &&& copies[k].dest@ == join_spec(subtree, relative_spec(root, copy_items(items)[k].path@))
    }
}

/// The plan is what some walk below `root` gives (see [`staged_from_walk`]).
pub open spec fn staged_from_some_walk(subtree: Seq<char>, root: Seq<char>, dirs: Seq<String>, copies: Seq<FileCopy>) -> bool {
    exists|items: Seq<WalkItem>| #[trigger] staged_from_walk(subtree, root, items, dirs, copies)
}

/// The directories to create and the files to copy to stage the walked
/// entries below `root` into `subtree`.
pub fn staging_from_walk(subtree: &str, root: &str, items: Vec<WalkItem>) -> (r: (Vec<String>, Vec<FileCopy>))
    ensures
        staged_from_walk(subtree@, root@, items@, r.0@, r.1@),
{
    let mut dirs: Vec<String> = Vec::new();
    let mut copies: Vec<FileCopy> = Vec::new();
    let mut i: usize = 0;
    while i < items.len()
        invariant
            i <= items.len(),
            staged_from_walk(subtree@, root@, items@.take(i as int), dirs@, copies@),
        decreases items.len() - i,
    {
        let ghost t0 = items@.take(i as int);
        let ghost t1 = items@.take(i + 1);
        assert(t1.drop_last() =~= t0);
        assert(t1.last() == items@[i as int]);
        reveal_with_fuel(Seq::filter, 1);
        let relative = relative_to(root, items[i].path.as_str());
        let target = join_path(subtree, relative.as_str());
        let ghost d0 = dirs@;
        let ghost c0 = copies@;
        if items[i].is_dir {
            dirs.push(target);
            assert(dir_items(t1) == dir_items(t0).push(items@[i as int]));
            assert(copy_items(t1) == copy_items(t0));
            assert forall|k: int| 0 <= k < dirs@.len() implies (#[trigger] dirs@[k])@ == join_spec(subtree@, relative_spec(root@, dir_items(t1)[k].path@)) by {
                if k < d0.len() {
                    assert(dirs@[k] == d0[k]);
                }
            }
        } else if items[i].is_file {
            copies.push(FileCopy { source: items[i].path.clone(), dest: target });
            assert(dir_items(t1) == dir_items(t0));
            assert(copy_items(t1) == copy_items(t0).push(items@[i as int]));
            assert forall|k: int| 0 <= k < copies@.len() implies {
                &&& (#[trigger] copies@[k]).source@ == copy_items(t1)[k].path@
                &&& copies@[k].dest@ == join_spec(subtree@, relative_spec(root@, copy_items(t1)[k].path@))
            } by {
                if k < c0.len() {
                    assert(copies@[k] == c0[k]);
                }
            }
        } else {
            assert(dir_items(t1) == dir_items(t0));
            assert(copy_items(t1) == copy_items(t0));
        }
        i = i + 1;
    }
    assert(items@.take(items.len() as int) =~= items@);
    (dirs, copies)
}

proof fn lemma_copies_are_files(items: Seq<WalkItem>)
    requires
        forall|k: int| 0 <= k < items.len() ==> !((#[trigger] items[k]).is_file && items[k].is_dir),
    ensures
        copy_items(items) == file_items(items),
    decreases items.len(),
{
    reveal_with_fuel(Seq::filter, 1);
    if items.len() > 0 {
        let rest = items.drop_last();
        assert forall|k: int| 0 <= k < rest.len() implies !((#[trigger] rest[k]).is_file && rest[k].is_dir) by {
            assert(rest[k] == items[k]);
        }
        lemma_copies_are_files(rest);
        assert(!(items[items.len() - 1].is_file && items[items.len() - 1].is_dir));
    }
}

/// What a snapshot copies from a directory is what is read of it to
/// compare with that snapshot: for the same walk (where no entry is both a
/// file and a directory), the copies are, in order, the files read, each
/// put at its key below the subtree.
pub proof fn lemma_staged_files_are_read(
    subtree: Seq<char>,
    root: Seq<char>,
    items: Seq<WalkItem>,
    dirs: Seq<String>,
    copies: Seq<FileCopy>,
    files: Seq<DiskFile>,
)
    requires
        forall|k: int| 0 <= k < items.len() ==> !((#[trigger] items[k]).is_file && items[k].is_dir),
        staged_from_walk(subtree, root, items, dirs, copies),
        walked_files(root, items, files),
    ensures
        copies.len() == files.len(),
        forall|k: int| 0 <= k < copies.len() ==> (#[trigger] copies[k]).source@ == files[k].source@
            && copies[k].dest@ == join_spec(subtree, files[k].key@),
{
    lemma_copies_are_files(items);
    assert forall|k: int| 0 <= k < copies.len() implies (#[trigger] copies[k]).source@ == files[k].source@
        && copies[k].dest@ == join_spec(subtree, files[k].key@) by {
        assert(copies[k].source@ == copy_items(items)[k].path@);
        assert(files[k].source@ == file_items(items)[k].path@);
    }
}

/// How many files a configuration has on disk right now: 1 for an existing
/// plain file, 0 for a missing one, and for a directory the number of files
/// below it, ignored names and unreadable entries skipped (0 when it is
/// missing).
pub fn path_file_count(path: &str, kind: ConfigKind) -> (r: usize)
    ensures
        kind == ConfigKind::File ==> r <= 1,
{
    match kind {
        ConfigKind::File => {
            if path_is_file(path) {
                1
            } else {
                0
            }
        },
        ConfigKind::Directory => {
            if !path_is_dir(path) {
                return 0;
            }
            let items = walk_readable_entries(path);
            count_files(&items)
        },
    }
}

/// The live status, from whether the configuration's path exists, whether it
/// has a snapshot, and whether what is on disk differs from that snapshot.
pub open spec fn status_of(exists: bool, has_snapshot: bool, differs: bool) -> Status {
    if !exists {
        if has_snapshot {
            Status::Missing
        } else {
            Status::NotTracked
        }
    } else if !has_snapshot {
        Status::NotTracked
    } else if differs {
        Status::Modified
    } else {
        Status::Synced
    }
}

/// The statuses are told apart as the dashboard explains them: `Missing`
/// exactly when the path is gone although a snapshot exists, `NotTracked`
/// exactly when there is no snapshot, and otherwise `Modified` or `Synced`
/// as what is on disk differs from the latest snapshot or not; `Warning`
/// never comes from this comparison.
pub proof fn lemma_status_cases(exists: bool, has_snapshot: bool, differs: bool)
    ensures
        (status_of(exists, has_snapshot, differs) == Status::Missing) <==> (!exists && has_snapshot),
        (status_of(exists, has_snapshot, differs) == Status::NotTracked) <==> !has_snapshot,
        (status_of(exists, has_snapshot, differs) == Status::Modified) <==> (exists && has_snapshot && differs),
        (status_of(exists, has_snapshot, differs) == Status::Synced) <==> (exists && has_snapshot && !differs),
        status_of(exists, has_snapshot, differs) != Status::Warning,
{
}

/// Computes [`status_of`].
pub fn status_from(exists: bool, has_snapshot: bool, differs: bool) -> (r: Status)
    ensures
        r == status_of(exists, has_snapshot, differs),
{
    if !exists {
        if has_snapshot {
            Status::Missing
        } else {
            Status::NotTracked
        }
    } else if !has_snapshot {
        Status::NotTracked
    } else if differs {
        Status::Modified
    } else {
        Status::Synced
    }
}

/// Whether a snapshot makes a commit: when `HEAD` has a commit, exactly
/// when some file of the subtree differs from it; when it has none yet,
/// exactly when the subtree holds any file (nothing to record otherwise).
pub fn commit_needed(has_parent: bool, changed_files: usize, subtree_present: bool) -> (r: bool)
    ensures
        r == (if has_parent { changed_files > 0 } else { subtree_present }),
{
    if has_parent {
        changed_files > 0
    } else {
        subtree_present
    }
}

/// A read of a snapshot: the configuration id, the commit, and the files
/// [`HistoryRepo::read_tree_subtree`] found for them.
pub type TreeRead = (Seq<char>, Seq<char>, FileMap);

/// `after` is `before` with one more read, of the subtree `id` in `commit`.
pub open spec fn read_once(before: Seq<TreeRead>, after: Seq<TreeRead>, id: Seq<char>, commit: Seq<char>) -> bool {
    &&& after.len() == before.len() + 1
    &&& after == before.push((id, commit, after.last().2))
}

/// The text of an optional string.
pub open spec fn opt_str_view(o: Option<&str>) -> Option<Seq<char>> {
    match o {
        Some(s) => Some(s@),
        None => None,
    }
}

/// `d` diffs the files read for `to` against those read for `from` (both of
/// subtree `id`, read in that order), or against nothing when `from` is
/// `None`.
pub open spec fn commits_diffed(
    before: Seq<TreeRead>,
    after: Seq<TreeRead>,
    id: Seq<char>,
    from: Option<Seq<char>>,
    to: Seq<char>,
    d: DiffResult,
) -> bool {
    match from {
        Some(f) => {
            &&& after.len() == before.len() + 2
            &&& after == before.push((id, f, after[before.len() as int].2)).push((id, to, after.last().2))
            &&& diff_between(after[before.len() as int].2, after.last().2, d)
        },
        None => {
            &&& read_once(before, after, id, to)
            &&& diff_from_nothing(after.last().2, d)
        },
    }
}

/// `d` diffs `new` against a state with no file at all.
pub open spec fn diff_from_nothing(new: FileMap, d: DiffResult) -> bool {
    exists|e: FileMap| (forall|p: Seq<char>| #[trigger] e.lookup(p) is None) && #[trigger] diff_between(e, new, d)
}

/// The internal history repository.
pub struct HistoryRepo {
    repo: git2::Repository,
}

impl HistoryRepo {
    /// Opens the repository at `path`, or creates one there.
    pub fn open_or_init(path: &str) -> (r: Result<HistoryRepo, CoreError>)
        ensures
            r matches Err(e) ==> e is Git,
    {
        match repo_open(path) {
            Ok(repo) => Ok(HistoryRepo { repo }),
            Err(_) => match repo_init(path) {
                Ok(repo) => Ok(HistoryRepo { repo }),
                Err(e) => Err(CoreError::Git(e)),
            },
        }
    }

    /// Where a configuration's subtree lives in the working directory: the
    /// working directory joined with the configuration's id.
    pub fn subtree_dir(&self, config: &Configuration) -> (r: Result<String, CoreError>)
        ensures
            r matches Ok(s) ==> exists|w: Seq<char>| s@ == #[trigger] join_spec(w, config.id@),
            r matches Err(e) ==> e matches CoreError::InvalidPath(m) && m@ == config.id@,
    {
        match repo_workdir(&self.repo) {
            Some(w) => {
                let s = join_path(w.as_str(), config.id.as_str());
                assert(s@ == join_spec(w@, config.id@));
                Ok(s)
            },
            None => Err(CoreError::InvalidPath(config.id.clone())),
        }
    }

    /// What copying the configuration's current state into its subtree
    /// takes: for a file, its directory and the file under its own name; for
    /// a directory, every directory and file below it (ignored names
    /// skipped) at the same relative place; nothing when the path is gone, so
    /// that the subtree is left empty and a deletion is recorded.
    pub fn staging_plan(&self, config: &Configuration) -> (r: Result<StagingPlan, CoreError>)
        ensures
            r matches Ok(plan) ==> exists|w: Seq<char>| plan.subtree@ == #[trigger] join_spec(w, config.id@),
            r matches Ok(plan) ==> (config.kind == ConfigKind::File ==> plan.dirs.len() == plan.copies.len()
                && (plan.dirs.len() == 1 ==> plan.dirs[0]@ == plan.subtree@)),
            r matches Ok(plan) ==> (config.kind == ConfigKind::File ==> plan.dirs.len() <= 1 && plan.copies.len() <= 1
                && (plan.copies.len() == 1 ==> {
                    &&& plan.copies[0].source@ == config.path@
                    &&& file_name_spec(config.path@) matches Some(n) && plan.copies[0].dest@ == join_spec(plan.subtree@, n)
                })),
            r matches Ok(plan) ==> (config.kind == ConfigKind::Directory ==> forall|k: int| 0 <= k < plan.copies.len() ==>
                (#[trigger] plan.copies[k]).dest@ == join_spec(plan.subtree@, relative_spec(config.path@, plan.copies[k].source@))),
            r matches Ok(plan) ==> (config.kind == ConfigKind::Directory ==> (plan.dirs.len() == 0 && plan.copies.len() == 0)
                || staged_from_some_walk(plan.subtree@, config.path@, plan.dirs@, plan.copies@)),
            r matches Err(e) ==> e is InvalidPath || e is Io,
    {
        let subtree = match self.subtree_dir(config) {
            Ok(s) => s,
            Err(e) => {
                return Err(e);
            },
        };
        let mut dirs: Vec<String> = Vec::new();
        let mut copies: Vec<FileCopy> = Vec::new();
        if !path_exists(config.path.as_str()) {
            return Ok(StagingPlan { subtree, dirs, copies });
        }
        match config.kind {
            ConfigKind::File => {
                let p = chars_of(config.path.as_str());
                let name = match file_name(&p) {
                    Some(n) => string_of(&n),
                    None => {
                        return Err(CoreError::InvalidPath(config.path.clone()));
                    },
                };
                dirs.push(subtree.clone());
                let dest = join_path(subtree.as_str(), name.as_str());
                copies.push(FileCopy { source: config.path.clone(), dest });
            },
            ConfigKind::Directory => {
                let items = match walk_entries(config.path.as_str()) {
                    Ok(items) => items,
                    Err(e) => {
                        return Err(CoreError::Io(e));
                    },
                };
                let staged = staging_from_walk(subtree.as_str(), config.path.as_str(), items);
                dirs = staged.0;
                copies = staged.1;
                proof {
                    assert(staged_from_walk(subtree@, config.path@, items@, dirs@, copies@));
                    assert forall|k: int| 0 <= k < copies.len() implies (#[trigger] copies[k]).dest@
                        == join_spec(subtree@, relative_spec(config.path@, copies[k].source@)) by {}
                }
            },
        }
        Ok(StagingPlan { subtree, dirs, copies })
    }

    /// Records the configuration's subtree, as staged in the working
    /// directory, as a new commit on `HEAD` with `reason` as its message.
    /// Returns `None` when the subtree is unchanged since the latest commit
    /// (when there is none yet, when the subtree holds no file).
    /// An id holding a NUL character cannot name a subtree and is refused
    /// with `InvalidPath`. Whether a commit is made is decided by
    /// [`commit_needed`] from whether `HEAD` has a commit, how many files of
    /// the subtree differ from it, and whether the staged subtree holds any
    /// file.
    pub fn snapshot(&self, config: &Configuration, reason: &str) -> (r: Result<Option<String>, CoreError>)
        ensures
            r matches Ok(Some(c)) ==> is_oid_text(c@),
            !no_nul(config.id@) <==> (r matches Err(CoreError::InvalidPath(m)) && m@ == config.id@),
            r matches Err(e) ==> e is Git || e is InvalidPath,
    {
        if !is_nul_free(config.id.as_str()) {
            return Err(CoreError::InvalidPath(config.id.clone()));
        }
        let pathspec = concat(config.id.as_str(), "/");
        proof {
            reveal_strlit("/");
            assert(pathspec@ == config.id@ + seq!['/']);
            assert(no_nul(pathspec@)) by {
                assert forall|i: int| 0 <= i < pathspec@.len() implies pathspec@[i] != '\0' by {
                    if i < config.id@.len() {
                        assert(pathspec@[i] == config.id@[i]);
                    }
                }
            }
        }
        let mut index = match repo_index(&self.repo) {
            Ok(i) => i,
            Err(e) => {
                return Err(CoreError::Git(e));
            },
        };
        if let Err(e) = index_add_all(&mut index, pathspec.as_str()) {
            return Err(CoreError::Git(e));
        }
        if let Err(e) = index_update_all(&mut index, pathspec.as_str()) {
            return Err(CoreError::Git(e));
        }
        if let Err(e) = index_write(&mut index) {
            return Err(CoreError::Git(e));
        }
        let tree_oid = match index_write_tree(&mut index) {
            Ok(o) => o,
            Err(e) => {
                return Err(CoreError::Git(e));
            },
        };
        let tree = match repo_find_tree(&self.repo, tree_oid) {
            Ok(t) => t,
            Err(e) => {
                return Err(CoreError::Git(e));
            },
        };
        let parent = match repo_head(&self.repo) {
            Ok(head) => match reference_peel_to_commit(&head) {
                Ok(c) => Some(c),
                Err(_) => None,
            },
            Err(_) => None,
        };
        let mut deltas: usize = 0;
        if let Some(p) = &parent {
            let parent_tree = match commit_tree(p) {
                Ok(t) => t,
                Err(e) => {
                    return Err(CoreError::Git(e));
                },
            };
            let mut opts = diff_options_new();
            diff_options_pathspec(&mut opts, pathspec.as_str());
            let diff = match repo_diff_trees(&self.repo, &parent_tree, &tree, &mut opts) {
                Ok(d) => d,
                Err(e) => {
                    return Err(CoreError::Git(e));
                },
            };
            deltas = diff_delta_count(&diff);
        }
        let subtree_present = match tree_get_path(&tree, config.id.as_str()) {
            Ok(_) => true,
            Err(_) => false,
        };
        self.commit_if_needed(&tree, parent, deltas, subtree_present, reason)
    }

    /// Commits `tree` on `HEAD` with `reason` as its message, on top of
    /// `parent`, when [`commit_needed`] says so for `changed_files` files of
    /// the subtree that differ from `parent` and whether the staged subtree
    /// holds any file (`subtree_present`); `None` otherwise, and then nothing
    /// is written.
    pub fn commit_if_needed<'a>(
        &'a self,
        tree: &git2::Tree<'a>,
        parent: Option<git2::Commit<'a>>,
        changed_files: usize,
        subtree_present: bool,
        reason: &str,
    ) -> (r: Result<Option<String>, CoreError>)
        ensures
            (r matches Ok(None)) <==> (if parent is Some { changed_files == 0 } else { !subtree_present }),
            r matches Ok(Some(c)) ==> is_oid_text(c@),
            r matches Err(e) ==> e is Git,
    {
        if !commit_needed(parent.is_some(), changed_files, subtree_present) {
            return Ok(None);
        }
        let sig = match signature_now("DotfileDesk", "dotfiledesk@localhost") {
            Ok(s) => s,
            Err(e) => {
                return Err(CoreError::Git(e));
            },
        };
        let mut parents: Vec<git2::Commit> = Vec::new();
        if let Some(p) = parent {
            parents.push(p);
        }
        match repo_commit(&self.repo, &sig, reason, tree, &parents) {
            Ok(oid) => Ok(Some(oid_text(&oid))),
            Err(e) => Err(CoreError::Git(e)),
        }
    }

    /// The files of the configuration's subtree in `commit`, keyed by their
    /// path relative to the subtree; empty when the subtree is absent there.
    /// Text that is not an object id is refused with `InvalidCommit`. The
    /// blobs found by walking the subtree are gathered in walk order and
    /// turned into the map by [`file_map_of`]. The walk visits each tree of
    /// the repository at most once per path, which no measure over the
    /// repository's opaque objects bounds; it is cut short, with
    /// `InvalidPath`, after `usize::MAX` trees.
    pub fn read_tree_subtree(&self, config_id: &str, commit: &str, reads: &mut Ghost<Seq<TreeRead>>) -> (r: Result<FileMap, CoreError>)
        ensures
            r matches Ok(m) ==> final(reads)@ == old(reads)@.push((config_id@, commit@, m)),
            r is Err ==> final(reads)@ == old(reads)@,
            r matches Ok(m) ==> from_some_entries(m),
            !is_oid_text(commit@) <==> (r matches Err(CoreError::InvalidCommit(s)) && s@ == commit@),
            r matches Err(CoreError::InvalidCommit(s)) ==> s@ == commit@,
            r matches Err(CoreError::InvalidPath(s)) ==> s@ == config_id@,
            r matches Err(e) ==> e is Git || e is InvalidCommit || e is InvalidPath,
    {
        let oid = match oid_from_str(commit) {
            Some(o) => o,
            None => {
                return Err(CoreError::InvalidCommit(commit.to_owned()));
            },
        };
        let found = match repo_find_commit(&self.repo, oid) {
            Ok(c) => c,
            Err(e) => {
                return Err(CoreError::Git(e));
            },
        };
        let tree = match commit_tree(&found) {
            Ok(t) => t,
            Err(e) => {
                return Err(CoreError::Git(e));
            },
        };
        let mut found: Vec<FileEntry> = Vec::new();
        let entry = match tree_get_path(&tree, config_id) {
            Ok(e) => e,
            Err(_) => {
                let m = file_map_of(&found);
                assert(holds_entries(m, found@));
        assert(from_some_entries(m));
                *reads = Ghost(reads@.push((config_id@, commit@, m)));
                return Ok(m);
            },
        };
        let object = match entry_to_object(&entry, &self.repo) {
            Ok(o) => o,
            Err(e) => {
                return Err(CoreError::Git(e));
            },
        };
        let subtree = match object_into_tree(object) {
            Some(t) => t,
            None => {
                let m = file_map_of(&found);
                assert(holds_entries(m, found@));
        assert(from_some_entries(m));
                *reads = Ghost(reads@.push((config_id@, commit@, m)));
                return Ok(m);
            },
        };
        // Trees still to visit, each with its path relative to the subtree.
        let mut pending: Vec<(String, git2::Tree)> = Vec::new();
        pending.push((String::new(), subtree));
        let mut budget: usize = usize::MAX;
        while pending.len() > 0
            invariant
                is_oid_text(commit@),
                reads@ == old(reads)@,
            decreases budget,
        {
            if budget == 0 {
                return Err(CoreError::InvalidPath(config_id.to_owned()));
            }
            budget = budget - 1;
            let (prefix, current) = match pending.pop() {
                Some(p) => p,
                None => {
                    break;
                },
            };
            let n = tree_len(&current);
            let mut k: usize = 0;
            while k < n
                invariant
                    k <= n,
                    is_oid_text(commit@),
                    reads@ == old(reads)@,
                decreases n - k,
            {
                if let Some(item) = tree_get(&current, k) {
                    // an entry whose name is not UTF-8 is read under an empty name
                    let name = match entry_name(&item) {
                        Some(n) => n,
                        None => String::new(),
                    };
                    let relative = join_path(prefix.as_str(), name.as_str());
                    match entry_kind(&item) {
                        EntryKind::Tree => {
                            let object = match entry_to_object(&item, &self.repo) {
                                Ok(o) => o,
                                Err(e) => {
                                    return Err(CoreError::Git(e));
                                },
                            };
                            if let Some(t) = object_into_tree(object) {
                                pending.push((relative, t));
                            }
                        },
                        EntryKind::Blob => {
                            let object = match entry_to_object(&item, &self.repo) {
                                Ok(o) => o,
                                Err(e) => {
                                    return Err(CoreError::Git(e));
                                },
                            };
                            if let Some(b) = object_into_blob(object) {
                                found.push(FileEntry { path: relative, content: blob_content(&b) });
                            }
                        },
                        _ => {},
                    }
                }
                k = k + 1;
            }
        }
        let m = file_map_of(&found);
        assert(holds_entries(m, found@));
        assert(from_some_entries(m));
        *reads = Ghost(reads@.push((config_id@, commit@, m)));
        Ok(m)
    }

    /// Diffs the configuration's subtree between two commits; `from` is
    /// `None` for the very first snapshot, which is diffed against nothing,
    /// so that every file in it shows as added.
    pub fn diff_commits(&self, config: &Configuration, from: Option<&str>, to: &str, reads: &mut Ghost<Seq<TreeRead>>) -> (r: Result<DiffResult, CoreError>)
        ensures
            r matches Ok(d) ==> commits_diffed(old(reads)@, final(reads)@, config.id@, opt_str_view(from), to@, d),
            r matches Ok(d) ==> exists|o: FileMap, n: FileMap| diff_between(o, n, d),
            r matches Ok(d) ==> from is None ==> forall|k: int| 0 <= k < d.files@.len() ==> (#[trigger] d.files@[k]).change == FileChangeKind::Added,
            (from matches Some(f) && !is_oid_text(f@)) ==> (r matches Err(CoreError::InvalidCommit(m)) && m@ == from->0@),
            (!is_oid_text(to@) && from is None) ==> (r matches Err(CoreError::InvalidCommit(m)) && m@ == to@),
            !is_oid_text(to@) ==> r is Err,
            r matches Err(CoreError::InvalidCommit(m)) ==> (m@ == to@ && !is_oid_text(to@))
                || (from matches Some(f) && m@ == f@ && !is_oid_text(f@)),
            r matches Err(CoreError::InvalidPath(m)) ==> m@ == config.id@,
            r matches Err(e) ==> e is Git || e is InvalidCommit || e is InvalidPath,
    {
        let old_files = match from {
            Some(oid) => match self.read_tree_subtree(config.id.as_str(), oid, reads) {
                Ok(m) => m,
                Err(e) => {
                    return Err(e);
                },
            },
            None => FileMap::new(),
        };
        let new_files = match self.read_tree_subtree(config.id.as_str(), to, reads) {
            Ok(m) => m,
            Err(e) => {
                return Err(e);
            },
        };
        let d = diff_file_maps(&old_files, &new_files);
        assert(diff_between(old_files, new_files, d));
        proof {
            if from is None {
                assert(diff_from_nothing(new_files, d));
            }
        }
        proof {
            if from is None {
                assert forall|k: int| 0 <= k < d.files@.len() implies (#[trigger] d.files@[k]).change == FileChangeKind::Added by {
                    assert(old_files.lookup(d.files@[k].path@) is None);
                    assert(old_files.lookup(d.files@[k].path@) != new_files.lookup(d.files@[k].path@));
                }
            }
        }
        Ok(d)
    }

    /// Diffs the snapshot `latest_commit` against what is on disk right now
    /// (`working`), without recording anything.
    pub fn diff_against_working(&self, config: &Configuration, latest_commit: &str, working: &FileMap, reads: &mut Ghost<Seq<TreeRead>>) -> (r: Result<DiffResult, CoreError>)
        ensures
            r matches Ok(d) ==> read_once(old(reads)@, final(reads)@, config.id@, latest_commit@)
                && diff_between(final(reads)@.last().2, *working, d),
            r matches Ok(d) ==> diff_onto(*working, d),
            !is_oid_text(latest_commit@) <==> (r matches Err(CoreError::InvalidCommit(m)) && m@ == latest_commit@),
            r matches Err(CoreError::InvalidCommit(m)) ==> m@ == latest_commit@,
            r matches Err(CoreError::InvalidPath(m)) ==> m@ == config.id@,
            r matches Err(e) ==> e is Git || e is InvalidCommit || e is InvalidPath,
    {
        let old_files = match self.read_tree_subtree(config.id.as_str(), latest_commit, reads) {
            Ok(m) => m,
            Err(e) => {
                return Err(e);
            },
        };
        let d = diff_file_maps(&old_files, working);
        assert(diff_between(old_files, *working, d));
        assert(diff_onto(*working, d));

        Ok(d)
    }

    /// Whether what is on disk (`working`) differs from the snapshot
    /// `latest_commit`.
    pub fn differs_from_working(&self, config: &Configuration, latest_commit: &str, working: &FileMap, reads: &mut Ghost<Seq<TreeRead>>) -> (r: Result<bool, CoreError>)
        ensures
            r matches Ok(d) ==> read_once(old(reads)@, final(reads)@, config.id@, latest_commit@)
                && d == differs(final(reads)@.last().2, *working),
            r matches Ok(d) ==> exists|old: FileMap| d == #[trigger] differs(old, *working),
            !is_oid_text(latest_commit@) <==> (r matches Err(CoreError::InvalidCommit(m)) && m@ == latest_commit@),
            r matches Err(CoreError::InvalidCommit(m)) ==> m@ == latest_commit@,
            r matches Err(CoreError::InvalidPath(m)) ==> m@ == config.id@,
            r matches Err(e) ==> e is Git || e is InvalidCommit || e is InvalidPath,
    {
        let old_files = match self.read_tree_subtree(config.id.as_str(), latest_commit, reads) {
            Ok(m) => m,
            Err(e) => {
                return Err(e);
            },
        };
        let d = maps_differ(&old_files, working);
        assert(d == differs(old_files, *working));
        Ok(d)
    }

    /// What restoring `commit` writes (see [`restore_writes`]): every file
    /// the snapshot holds for the configuration, as read by
    /// [`HistoryRepo::read_tree_subtree`], and nothing else.
    pub fn restore_plan(&self, config: &Configuration, commit: &str, reads: &mut Ghost<Seq<TreeRead>>) -> (r: Result<RestorePlan, CoreError>)
        ensures
            r matches Ok(plan) ==> read_once(old(reads)@, final(reads)@, config.id@, commit@)
                && restore_writes(*config, final(reads)@.last().2, plan),
            r matches Ok(plan) ==> exists|files: FileMap| files.well_formed() && #[trigger] restore_writes(*config, files, plan)
                && from_some_entries(files),
            !is_oid_text(commit@) <==> (r matches Err(CoreError::InvalidCommit(m)) && m@ == commit@),
            r matches Err(CoreError::InvalidCommit(m)) ==> m@ == commit@,
            r matches Err(CoreError::InvalidPath(m)) ==> m@ == config.id@,
            r matches Err(e) ==> e is Git || e is InvalidCommit || e is InvalidPath,
    {
        let files = match self.read_tree_subtree(config.id.as_str(), commit, reads) {
            Ok(m) => m,
            Err(e) => {
                return Err(e);
            },
        };
        proof {
            use_type_invariant(&files);
        }
        let plan = restore_plan_from(config, &files);
        assert(restore_writes(*config, files, plan));
        Ok(plan)
    }
}

/// What restoring the snapshot files `files` of `config` writes (see
/// [`restore_writes`]).
pub fn restore_plan_from(config: &Configuration, files: &FileMap) -> (r: RestorePlan)
    ensures
        restore_writes(*config, *files, r),
{
    let mut writes: Vec<FileWrite> = Vec::new();
    match config.kind {
        ConfigKind::File => {
            if files.len() > 0 {
                let first = files.entry(0);
                writes.push(FileWrite { dest: config.path.clone(), content: crate::filemap::copy_bytes(&first.content) });
            }
            RestorePlan { root_dir: None, writes }
        },
        ConfigKind::Directory => {
            let mut i: usize = 0;
            while i < files.len()
                invariant
                    i <= files.pairs().len(),
                    writes.len() == i,
                    forall|k: int| 0 <= k < i ==> writes_entry((#[trigger] writes@[k]), config.path@, files.pairs()[k]),
                decreases files.pairs().len() - i,
            {
                let e = files.entry(i);
                let dest = join_path(config.path.as_str(), e.path.as_str());
                writes.push(FileWrite { dest, content: crate::filemap::copy_bytes(&e.content) });
                i = i + 1;
            }
            RestorePlan { root_dir: Some(config.path.clone()), writes }
        },
    }
}

/// `w` writes the file `entry` (a key and content) below `root`.
pub open spec fn writes_entry(w: FileWrite, root: Seq<char>, entry: (Seq<char>, Seq<u8>)) -> bool {
    &&& w.dest@ == join_spec(root, entry.0)
    &&& w.content@ == entry.1
}

/// `plan` restores the snapshot files `files` of `config`: for a file
/// configuration, the first (and only) file to the configuration's own
/// path; for a directory, its root, then every file below it at its key.
/// Nothing else is written or removed.
pub open spec fn restore_writes(config: Configuration, files: FileMap, plan: RestorePlan) -> bool {
    match config.kind {
        ConfigKind::File => {
            &&& plan.root_dir is None
            &&& if files.pairs().len() > 0 {
                &&& plan.writes@.len() == 1
                &&& plan.writes@[0].dest@ == config.path@
                &&& plan.writes@[0].content@ == files.pairs()[0].1
            } else {
                plan.writes@.len() == 0
            }
        },
        ConfigKind::Directory => {
            &&& plan.root_dir matches Some(d) && d@ == config.path@
            &&& plan.writes@.len() == files.pairs().len()
            &&& forall|k: int| 0 <= k < plan.writes@.len() ==> writes_entry(#[trigger] plan.writes@[k], config.path@, files.pairs()[k])
        },
    }
}

/// `working` differs somewhere from the snapshot contents `old`.
pub open spec fn differs(old: FileMap, working: FileMap) -> bool {
    exists|p: Seq<char>| #[trigger] old.lookup(p) != working.lookup(p)
}

/// `s` is the status of subtree `id` whose latest snapshot is `latest`,
/// against the working copy `working`: `NotTracked` without a snapshot,
/// nothing read; `Missing` when the path is gone, nothing read; otherwise
/// the snapshot is read once and the status is `Modified` exactly when
/// what was read differs from `working`, `Synced` when not.
pub open spec fn status_read(
    before: Seq<TreeRead>,
    after: Seq<TreeRead>,
    id: Seq<char>,
    latest: Option<Seq<char>>,
    working: FileMap,
    s: Status,
) -> bool {
    match latest {
        None => after == before && s == Status::NotTracked,
        Some(c) => {
            ||| (after == before && s == Status::Missing)
            ||| (read_once(before, after, id, c) && s == status_of(true, true, differs(after.last().2, working)))
        },
    }
}

/// The status sees every change: once the latest snapshot has been read
/// (the path exists), the status is `Modified` exactly when some path holds
/// other bytes (or exists on one side only) in that snapshot than in the
/// working copy, whatever the lengths, and `Synced` exactly when every path
/// holds the same bytes on both sides.
pub proof fn lemma_status_sees_every_change(
    before: Seq<TreeRead>,
    after: Seq<TreeRead>,
    id: Seq<char>,
    commit: Seq<char>,
    working: FileMap,
    s: Status,
)
    requires
        status_read(before, after, id, Some(commit), working, s),
        s != Status::Missing,
    ensures
        after.len() == before.len() + 1,
        after.last().0 == id && after.last().1 == commit,
        (s == Status::Modified) <==> (exists|p: Seq<char>| #[trigger] after.last().2.lookup(p) != working.lookup(p)),
        (s == Status::Synced) <==> (forall|p: Seq<char>| #[trigger] after.last().2.lookup(p) == working.lookup(p)),
{
    assert(read_once(before, after, id, commit));
    assert(after.last() == (id, commit, after.last().2));
}

/// Diffing the working copy against the latest snapshot shows exactly the
/// paths whose content differs between what was read of that snapshot and
/// the working copy: nothing when they hold the same files, and a file that
/// is on both sides as `Modified`.
pub proof fn lemma_working_diff_is_against_snapshot(
    before: Seq<TreeRead>,
    after: Seq<TreeRead>,
    id: Seq<char>,
    commit: Seq<char>,
    working: FileMap,
    d: DiffResult,
)
    requires
        read_once(before, after, id, commit),
        diff_between(after.last().2, working, d),
    ensures
        after.last().0 == id && after.last().1 == commit,
        d.files@.len() == 0 <==> (forall|p: Seq<char>| #[trigger] after.last().2.lookup(p) == working.lookup(p)),
        forall|p: Seq<char>| #[trigger] after.last().2.lookup(p) != working.lookup(p)
            ==> exists|k: int| 0 <= k < d.files@.len() && (#[trigger] d.files@[k]).path@ == p,
        forall|k: int| 0 <= k < d.files@.len() ==> ((#[trigger] d.files@[k]).change == FileChangeKind::Modified
            <==> (after.last().2.lookup(d.files@[k].path@) is Some && working.lookup(d.files@[k].path@) is Some)),
{
    assert(after.last() == (id, commit, after.last().2));
    crate::diff::lemma_differs_iff_diff_nonempty(after.last().2, working, d);
    assert forall|k: int| 0 <= k < d.files@.len() implies ((#[trigger] d.files@[k]).change == FileChangeKind::Modified
        <==> (after.last().2.lookup(d.files@[k].path@) is Some && working.lookup(d.files@[k].path@) is Some)) by {
        crate::diff::lemma_change_kinds(after.last().2, working, d, k);
    }
}

/// The live status of `config`, given the commit of its latest snapshot (if
/// any) and what is on disk now: [`status_of`] applied to whether the path
/// exists, whether there is a snapshot, and whether `working` differs from
/// that snapshot's contents.
pub fn compute_status(
    repo: &HistoryRepo,
    config: &Configuration,
    latest_commit: Option<&str>,
    working: &FileMap,
    reads: &mut Ghost<Seq<TreeRead>>,
) -> (r: Result<Status, CoreError>)
    ensures
        r matches Ok(s) ==> status_read(old(reads)@, final(reads)@, config.id@, opt_str_view(latest_commit), *working, s),
        r matches Ok(s) ==> exists|present: bool, changed: bool| {
            &&& s == #[trigger] status_of(present, latest_commit is Some, changed)
            &&& (present && latest_commit is Some ==> exists|old: FileMap| changed == #[trigger] differs(old, *working))
        },
        latest_commit is None ==> r matches Ok(Status::NotTracked),
        r matches Err(CoreError::InvalidCommit(m)) ==> (latest_commit matches Some(c) && m@ == c@ && !is_oid_text(c@)),
        r matches Err(CoreError::InvalidPath(m)) ==> m@ == config.id@,
        r matches Err(e) ==> e is Git || e is InvalidCommit || e is InvalidPath,
{
    let exists = path_exists(config.path.as_str());
    match latest_commit {
        None => {
            let s = status_from(exists, false, false);
            assert(s == status_of(exists, latest_commit is Some, false));
            Ok(s)
        },
        Some(commit) => {
            if !exists {
                let s = status_from(false, true, false);
                assert(s == status_of(false, latest_commit is Some, false));
                return Ok(s);
            }
            match repo.differs_from_working(config, commit, working, reads) {
                Ok(d) => {
                    let s = status_from(true, true, d);
                    assert(s == status_of(true, latest_commit is Some, d));
                    Ok(s)
                },
                Err(e) => Err(e),
            }
        },
    }
}

/// What a directory restore writes is found again, by the path relative to
/// the configuration's root, under the key and with the content the
/// snapshot held (keys are relative paths, so none starts with `/`).
pub proof fn lemma_restored_files_read_back(config: Configuration, files: FileMap, plan: RestorePlan, k: int)
    requires
        restore_writes(config, files, plan),
        files.well_formed(),
        config.kind == ConfigKind::Directory,
        0 <= k < plan.writes@.len(),
        files.pairs()[k].0.len() == 0 || files.pairs()[k].0[0] != '/',
    ensures
        relative_spec(config.path@, plan.writes@[k].dest@) == files.pairs()[k].0,
        files.lookup(relative_spec(config.path@, plan.writes@[k].dest@)) == Some(plan.writes@[k].content@),
{
    assert(writes_entry(plan.writes@[k], config.path@, files.pairs()[k]));
    lemma_relative_of_join(config.path@, files.pairs()[k].0);
    crate::filemap::lemma_lookup_at(files.pairs(), k);
}

} // verus!
