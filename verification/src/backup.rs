//! The restore workflow: back up the current state first, write the restored
//! files, check that they landed, then record the restore itself as a new
//! snapshot. Writing files and staging them in the repository's working tree
//! happen between the two steps below, outside the library.

use vstd::prelude::*;
use crate::disk::path_exists;
use crate::git::{is_oid_text, oid_from_str};
use crate::filemap::FileMap;
use crate::history::{read_once, restore_writes, HistoryRepo, RestorePlan, TreeRead};
use crate::models::{opt_text, Configuration, Snapshot};
use crate::text::{chars_of, concat, slice_chars, string_of};
use crate::tracking::{recorded, Store};
use crate::CoreError;

verus! {

/// Result of a restore, as the interface shows it.
#[derive(Debug)]
pub struct RestoreResult {
    /// Commit that preserves the state before the restore, if it differed
    /// from the last snapshot.
    pub backup_commit: Option<String>,
    /// Commit that records the restored state.
    pub restore_commit: String,
    /// Whether the file or directory was present on disk afterwards.
    pub verified: bool,
}

/// What the first step of a restore has done and what is left to write.
#[derive(Debug)]
pub struct RestoreStart {
    pub backup_commit: Option<String>,
    /// The history entry that records the backup, when one was taken.
    pub backup: Option<Snapshot>,
    pub plan: RestorePlan,
}

/// The message of the snapshot that records a restore: `Restored to `
/// followed by the first seven characters of the target commit.
pub open spec fn restore_reason(target: Seq<char>) -> Seq<char> {
    "Restored to "@ + target.take(if target.len() < 7 { target.len() as int } else { 7 })
}

/// The message of the snapshot taken before a restore.
pub open spec fn backup_reason() -> Seq<char> {
    "Pre-restore backup"@
}

/// Builds [`restore_reason`].
pub fn restore_reason_text(target: &str) -> (r: String)
    ensures
        r@ == restore_reason(target@),
{
    let c = chars_of(target);
    let n: usize = if c.len() < 7 {
        c.len()
    } else {
        7
    };
    let short = string_of(&slice_chars(&c, 0, n));
    assert(c@.subrange(0, n as int) == target@.take(n as int));
    concat("Restored to ", short.as_str())
}

/// First step of a restore. The current state of `config` must already be
/// staged in the repository's working tree: it is committed as a backup
/// (and recorded) if it differs from the last snapshot; then the files of
/// `target_commit` to write back are returned.
pub fn prepare_restore(
    repo: &HistoryRepo,
    store: &mut Store,
    config: &Configuration,
    target_commit: &str,
    reads: &mut Ghost<Seq<TreeRead>>,
) -> (r: Result<RestoreStart, CoreError>)
    ensures
        r matches Ok(s) ==> read_once(old(reads)@, final(reads)@, config.id@, target_commit@)
            && restore_writes(*config, final(reads)@.last().2, s.plan),
        r matches Ok(s) ==> {
            &&& (s.backup_commit matches Some(c) ==> is_oid_text(c@))
            &&& (s.backup_commit is Some <==> s.backup is Some)
            &&& (s.backup matches Some(b) ==> {
                &&& b.configuration_id@ == config.id@
                &&& b.reason@ == backup_reason()
                &&& opt_text(s.backup_commit) == Some(b.git_commit@)
                &&& recorded(old(store).sent(), final(store).sent(), b)
            })
            &&& (s.backup is None ==> final(store).sent() == old(store).sent())
            &&& exists|files: FileMap| files.well_formed() && #[trigger] restore_writes(*config, files, s.plan)
        },
        !is_oid_text(target_commit@) ==> r is Err,
        r matches Err(e) ==> e is Git || e is Db || e is InvalidCommit || e is InvalidPath,
{
    let backup_commit = match repo.snapshot(config, "Pre-restore backup") {
        Ok(b) => b,
        Err(e) => {
            return Err(e);
        },
    };
    let backup = match &backup_commit {
        Some(commit) => match store.record_snapshot(config.id.as_str(), commit.as_str(), "Pre-restore backup") {
            Ok(b) => Some(b),
            Err(e) => {
                return Err(e);
            },
        },
        None => None,
    };
    match repo.restore_plan(config, target_commit, reads) {
        Ok(plan) => Ok(RestoreStart { backup_commit, backup, plan }),
        Err(e) => Err(e),
    }
}

/// Last step of a restore, once the files of `target_commit` are written
/// and the restored state is staged in the repository's working tree:
/// checks that the configuration's path exists, commits the restored state
/// with [`restore_reason`] (falling back to `target_commit` itself when
/// nothing changed) and records that commit as a new history entry.
pub fn restore(
    repo: &HistoryRepo,
    store: &mut Store,
    config: &Configuration,
    target_commit: &str,
    backup_commit: Option<String>,
) -> (r: Result<RestoreResult, CoreError>)
    ensures
        r matches Ok(res) ==> {
            &&& opt_text(res.backup_commit) == opt_text(backup_commit)
            &&& (res.restore_commit@ == target_commit@ || is_oid_text(res.restore_commit@))
            &&& is_oid_text(target_commit@)
            &&& exists|entry: Snapshot| {
                &&& entry.configuration_id@ == config.id@
                &&& entry.git_commit@ == res.restore_commit@
                &&& entry.reason@ == restore_reason(target_commit@)
                &&& #[trigger] recorded(old(store).sent(), final(store).sent(), entry)
            }
        },
        !is_oid_text(target_commit@) ==> (r matches Err(CoreError::InvalidCommit(m)) && m@ == target_commit@),
        r matches Err(e) ==> e is Git || e is Db || e is InvalidCommit || e is InvalidPath,
{
    if oid_from_str(target_commit).is_none() {
        return Err(CoreError::InvalidCommit(target_commit.to_owned()));
    }
    let verified = path_exists(config.path.as_str());
    let reason = restore_reason_text(target_commit);
    let restore_commit = match repo.snapshot(config, reason.as_str()) {
        Ok(Some(c)) => c,
        Ok(None) => target_commit.to_owned(),
        Err(e) => {
            return Err(e);
        },
    };
    match store.record_snapshot(config.id.as_str(), restore_commit.as_str(), reason.as_str()) {
        Ok(entry) => Ok(RestoreResult { backup_commit, restore_commit, verified }),
        Err(e) => Err(e),
    }
}

} // verus!
