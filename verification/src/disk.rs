//! What the library asks of the file system directly: whether a path
//! exists and what it is, and which entries lie below a directory. The
//! answers depend on the disk at the time of the call, so nothing is
//! promised of them.

use vstd::prelude::*;
use crate::security::{is_ignored_entry, is_ignored_spec};

verus! {

/// Trusted: `std::path::Path::exists`.
#[verifier::external_body]
pub(crate) fn path_exists(path: &str) -> bool {
    std::path::Path::new(path).exists()
}

/// Trusted: `std::path::Path::is_file`.
#[verifier::external_body]
pub(crate) fn path_is_file(path: &str) -> bool {
    std::path::Path::new(path).is_file()
}

/// Trusted: `std::path::Path::is_dir`.
#[verifier::external_body]
pub(crate) fn path_is_dir(path: &str) -> bool {
    std::path::Path::new(path).is_dir()
}

/// The current user's home directory, as text.
/// Trusted: `dirs::home_dir`; depends on the environment.
#[verifier::external_body]
pub(crate) fn home_dir() -> Option<String> {
    dirs::home_dir().map(|p| p.to_string_lossy().to_string())
}

/// Whether a directory walk descends into (and reports) an entry with this
/// name: names that are not UTF-8 are kept, ignored names are skipped.
pub fn keep_walk_entry(name: Option<&str>) -> (r: bool)
    ensures
        r == match name {
            Some(n) => !is_ignored_spec(n@),
            None => true,
        },
{
    match name {
        Some(n) => !is_ignored_entry(n),
        None => true,
    }
}

/// One entry found by a directory walk.
#[derive(Debug)]
pub struct WalkItem {
    pub path: String,
    pub is_file: bool,
    pub is_dir: bool,
}

/// The files among walked entries, in walk order.
pub open spec fn file_items(items: Seq<WalkItem>) -> Seq<WalkItem> {
    items.filter(|i: WalkItem| i.is_file)
}

/// The directories among walked entries, in walk order.
pub open spec fn dir_items(items: Seq<WalkItem>) -> Seq<WalkItem> {
    items.filter(|i: WalkItem| i.is_dir)
}

/// The number of files among walked entries.
pub fn count_files(items: &Vec<WalkItem>) -> (r: usize)
    ensures
        r == file_items(items@).len(),
{
    broadcast use vstd::seq_lib::group_filter_ensures;
    let mut count: usize = 0;
    let mut i: usize = 0;
    while i < items.len()
        invariant
            i <= items.len(),
            count == file_items(items@.take(i as int)).len(),
        decreases items.len() - i,
    {
        assert(items@.take(i + 1).drop_last() =~= items@.take(i as int));
        assert(items@.take(i + 1).last() == items@[i as int]);
        reveal_with_fuel(Seq::filter, 1);
        assert(file_items(items@.take(i as int)).len() <= items@.take(i as int).len());
        if items[i].is_file {
            count = count + 1;
        }
        i = i + 1;
    }
    assert(items@.take(items.len() as int) =~= items@);
    count
}

/// The entries at and below `root` that can be read, the root first,
/// skipping (with all they hold) entries whose name [`keep_walk_entry`]
/// rejects, and skipping entries the walk could not read.
/// Trusted: `walkdir::WalkDir::new(root)` with `filter_entry` deciding by
/// `keep_walk_entry`, errors dropped (`flatten`); each entry converted to
/// its path and file type.
#[verifier::external_body]
pub(crate) fn walk_readable_entries(root: &str) -> Vec<WalkItem> {
    walkdir::WalkDir::new(root)
        .into_iter()
        .filter_entry(|e| keep_walk_entry(e.file_name().to_str()))
        .flatten()
        .map(|e| WalkItem {
            path: e.path().to_string_lossy().to_string(),
            is_file: e.file_type().is_file(),
            is_dir: e.file_type().is_dir(),
        })
        .collect()
}

/// The entries at and below `root`, the root first, skipping (with all they
/// hold) entries whose name [`keep_walk_entry`] rejects; the first error
/// met ends the walk.
/// Trusted: `walkdir::WalkDir::new(root)` with `filter_entry` deciding by
/// `keep_walk_entry`; each entry converted to its path and file type,
/// each error to `std::io::Error`.
#[verifier::external_body]
pub(crate) fn walk_entries(root: &str) -> Result<Vec<WalkItem>, std::io::Error> {
    walkdir::WalkDir::new(root)
        .into_iter()
        .filter_entry(|e| keep_walk_entry(e.file_name().to_str()))
        .map(|r| {
            r.map(|e| WalkItem {
                path: e.path().to_string_lossy().to_string(),
                is_file: e.file_type().is_file(),
                is_dir: e.file_type().is_dir(),
            }).map_err(|e| e.into())
        })
        .collect()
}

} // verus!
