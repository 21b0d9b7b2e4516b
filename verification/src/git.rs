//! The calls into `git2` that the history repository makes, one trusted
//! item per `git2` function. The outcome of each depends on the repository
//! on disk, so apart from object-id parsing nothing is promised of them.

use vstd::prelude::*;
use crate::text::chars_of;

verus! {

#[verifier::external_type_specification]
#[verifier::external_body]
pub struct ExRepository(git2::Repository);

#[verifier::external_type_specification]
#[verifier::external_body]
pub struct ExIndex(git2::Index);

#[verifier::external_type_specification]
#[verifier::external_body]
pub struct ExOid(git2::Oid);

#[verifier::external_type_specification]
#[verifier::external_body]
pub struct ExCommit<'r>(git2::Commit<'r>);

#[verifier::external_type_specification]
#[verifier::external_body]
pub struct ExTree<'r>(git2::Tree<'r>);

#[verifier::external_type_specification]
#[verifier::external_body]
pub struct ExTreeEntry<'t>(git2::TreeEntry<'t>);

#[verifier::external_type_specification]
#[verifier::external_body]
pub struct ExObject<'r>(git2::Object<'r>);

#[verifier::external_type_specification]
#[verifier::external_body]
pub struct ExBlob<'r>(git2::Blob<'r>);

#[verifier::external_type_specification]
#[verifier::external_body]
pub struct ExReference<'r>(git2::Reference<'r>);

#[verifier::external_type_specification]
#[verifier::external_body]
pub struct ExSignature<'s>(git2::Signature<'s>);

#[verifier::external_type_specification]
#[verifier::external_body]
pub struct ExDiff<'r>(git2::Diff<'r>);

#[verifier::external_type_specification]
#[verifier::external_body]
pub struct ExDiffOptions(git2::DiffOptions);

/// A hexadecimal digit.
pub open spec fn is_hex_digit(c: char) -> bool {
    ('0' <= c && c <= '9') || ('a' <= c && c <= 'f') || ('A' <= c && c <= 'F')
}

/// Text that `git2::Oid::from_str` accepts: one to forty hexadecimal digits.
pub open spec fn is_oid_text(s: Seq<char>) -> bool {
    1 <= s.len() <= 40 && forall|i: int| 0 <= i < s.len() ==> is_hex_digit(#[trigger] s[i])
}

/// The object id spelled by `s`.
/// Trusted: `git2::Oid::from_str`, which fails exactly when `s` is empty,
/// longer than forty characters, or holds a character that is not a
/// hexadecimal digit (`git_oid__fromstrn` in libgit2).
#[verifier::external_body]
pub(crate) fn oid_from_str(s: &str) -> (r: Option<git2::Oid>)
    ensures
        r is Some <==> is_oid_text(s@),
{
    git2::Oid::from_str(s).ok()
}

/// The hexadecimal text of an object id: forty hexadecimal digits.
/// Trusted: `Oid`'s `Display` (through `to_string`), which writes the id
/// with `git_oid_tostr` into a buffer of forty digits and a terminator.
#[verifier::external_body]
pub(crate) fn oid_text(oid: &git2::Oid) -> (r: String)
    ensures
        r@.len() == 40,
        is_oid_text(r@),
{
    oid.to_string()
}

/// Trusted: `git2::Repository::open`.
#[verifier::external_body]
pub(crate) fn repo_open(path: &str) -> Result<git2::Repository, git2::Error> {
    git2::Repository::open(path)
}

/// Trusted: `git2::Repository::init`.
#[verifier::external_body]
pub(crate) fn repo_init(path: &str) -> Result<git2::Repository, git2::Error> {
    git2::Repository::init(path)
}

/// The working directory of the repository, as text; `None` for a bare one.
/// Trusted: `git2::Repository::workdir`.
#[verifier::external_body]
pub(crate) fn repo_workdir(repo: &git2::Repository) -> Option<String> {
    repo.workdir().map(|p| p.to_string_lossy().to_string())
}

/// Trusted: `git2::Repository::index`.
#[verifier::external_body]
pub(crate) fn repo_index(repo: &git2::Repository) -> Result<git2::Index, git2::Error> {
    repo.index()
}

/// Adds what matches `pathspec` in the working directory to the index.
/// Trusted: `git2::Index::add_all` with `IndexAddOption::DEFAULT` and no callback.
#[verifier::external_body]
pub(crate) fn index_add_all(index: &mut git2::Index, pathspec: &str) -> Result<(), git2::Error> {
    index.add_all([pathspec].iter(), git2::IndexAddOption::DEFAULT, None)
}

/// Updates (and drops removed) index entries matching `pathspec`.
/// Trusted: `git2::Index::update_all` with no callback.
#[verifier::external_body]
pub(crate) fn index_update_all(index: &mut git2::Index, pathspec: &str) -> Result<(), git2::Error> {
    index.update_all([pathspec].iter(), None)
}

/// Trusted: `git2::Index::write`.
#[verifier::external_body]
pub(crate) fn index_write(index: &mut git2::Index) -> Result<(), git2::Error> {
    index.write()
}

/// Trusted: `git2::Index::write_tree`.
#[verifier::external_body]
pub(crate) fn index_write_tree(index: &mut git2::Index) -> Result<git2::Oid, git2::Error> {
    index.write_tree()
}

/// Trusted: `git2::Repository::find_tree`.
#[verifier::external_body]
pub(crate) fn repo_find_tree<'r>(repo: &'r git2::Repository, oid: git2::Oid) -> Result<git2::Tree<'r>, git2::Error> {
    repo.find_tree(oid)
}

/// Trusted: `git2::Repository::find_commit`.
#[verifier::external_body]
pub(crate) fn repo_find_commit<'r>(repo: &'r git2::Repository, oid: git2::Oid) -> Result<git2::Commit<'r>, git2::Error> {
    repo.find_commit(oid)
}

/// Trusted: `git2::Repository::head`.
#[verifier::external_body]
pub(crate) fn repo_head<'r>(repo: &'r git2::Repository) -> Result<git2::Reference<'r>, git2::Error> {
    repo.head()
}

/// Trusted: `git2::Reference::peel_to_commit`.
#[verifier::external_body]
pub(crate) fn reference_peel_to_commit<'r>(reference: &git2::Reference<'r>) -> Result<git2::Commit<'r>, git2::Error> {
    reference.peel_to_commit()
}

/// Trusted: `git2::Commit::tree`.
#[verifier::external_body]
pub(crate) fn commit_tree<'r>(commit: &git2::Commit<'r>) -> Result<git2::Tree<'r>, git2::Error> {
    commit.tree()
}

/// Trusted: `git2::DiffOptions::new`.
#[verifier::external_body]
pub(crate) fn diff_options_new() -> git2::DiffOptions {
    git2::DiffOptions::new()
}

/// Text without a NUL character, as a C string needs it.
pub open spec fn no_nul(s: Seq<char>) -> bool {
    forall|i: int| 0 <= i < s.len() ==> s[i] != '\0'
}

/// Whether `s` is free of NUL characters.
pub fn is_nul_free(s: &str) -> (r: bool)
    ensures
        r == no_nul(s@),
{
    let c = chars_of(s);
    let mut i: usize = 0;
    while i < c.len()
        invariant
            c@ == s@,
            i <= c.len(),
            forall|k: int| 0 <= k < i ==> c@[k] != '\0',
        decreases c.len() - i,
    {
        if c[i] == '\0' {
            return false;
        }
        i = i + 1;
    }
    true
}

/// Limits a diff to what matches `pathspec`, which must hold no NUL
/// character (the conversion to a C string is unwrapped).
/// Trusted: `git2::DiffOptions::pathspec`.
#[verifier::external_body]
pub(crate) fn diff_options_pathspec(opts: &mut git2::DiffOptions, pathspec: &str)
    requires
        no_nul(pathspec@),
{
    opts.pathspec(pathspec);
}

/// Trusted: `git2::Repository::diff_tree_to_tree` between two trees.
#[verifier::external_body]
pub(crate) fn repo_diff_trees<'r>(
    repo: &'r git2::Repository,
    old: &git2::Tree<'_>,
    new: &git2::Tree<'_>,
    opts: &mut git2::DiffOptions,
) -> Result<git2::Diff<'r>, git2::Error> {
    repo.diff_tree_to_tree(Some(old), Some(new), Some(opts))
}

/// The number of changed files in a diff.
/// Trusted: `git2::Diff::deltas`, counted.
#[verifier::external_body]
pub(crate) fn diff_delta_count(diff: &git2::Diff<'_>) -> usize {
    diff.deltas().len()
}

/// Trusted: `git2::Signature::now`; the time stamp comes from the clock.
#[verifier::external_body]
pub(crate) fn signature_now(name: &str, email: &str) -> Result<git2::Signature<'static>, git2::Error> {
    git2::Signature::now(name, email)
}

/// Commits `tree` on `HEAD` with the given parents.
/// Trusted: `git2::Repository::commit` with `Some("HEAD")` as the ref to update.
#[verifier::external_body]
pub(crate) fn repo_commit(
    repo: &git2::Repository,
    sig: &git2::Signature<'_>,
    message: &str,
    tree: &git2::Tree<'_>,
    parents: &Vec<git2::Commit<'_>>,
) -> Result<git2::Oid, git2::Error> {
    let refs: Vec<&git2::Commit<'_>> = parents.iter().collect();
    repo.commit(Some("HEAD"), sig, sig, message, tree, &refs)
}

/// The entry at relative path `path` within `tree`.
/// Trusted: `git2::Tree::get_path`.
#[verifier::external_body]
pub(crate) fn tree_get_path(tree: &git2::Tree<'_>, path: &str) -> Result<git2::TreeEntry<'static>, git2::Error> {
    tree.get_path(std::path::Path::new(path))
}

/// Trusted: `git2::Tree::len`.
#[verifier::external_body]
pub(crate) fn tree_len(tree: &git2::Tree<'_>) -> usize {
    tree.len()
}

/// Trusted: `git2::Tree::get`.
#[verifier::external_body]
pub(crate) fn tree_get<'t>(tree: &'t git2::Tree<'_>, i: usize) -> Option<git2::TreeEntry<'t>> {
    tree.get(i)
}

/// The name of a tree entry; `None` when it is not UTF-8.
/// Trusted: `git2::TreeEntry::name`.
#[verifier::external_body]
pub(crate) fn entry_name(entry: &git2::TreeEntry<'_>) -> Option<String> {
    entry.name().map(|n| n.to_string())
}

/// The kind of object a tree entry points to (`git2::ObjectType`), or
/// `Unknown` when git does not say.
#[derive(Debug, Clone, Copy, PartialEq, Eq, Structural)]
pub enum EntryKind {
    Any,
    Commit,
    Tree,
    Blob,
    Tag,
    Unknown,
}

/// Trusted: `git2::TreeEntry::kind`, one variant each.
#[verifier::external_body]
pub(crate) fn entry_kind(entry: &git2::TreeEntry<'_>) -> EntryKind {
    match entry.kind() {
        Some(git2::ObjectType::Any) => EntryKind::Any,
        Some(git2::ObjectType::Commit) => EntryKind::Commit,
        Some(git2::ObjectType::Tree) => EntryKind::Tree,
        Some(git2::ObjectType::Blob) => EntryKind::Blob,
        Some(git2::ObjectType::Tag) => EntryKind::Tag,
        None => EntryKind::Unknown,
    }
}

/// Trusted: `git2::TreeEntry::to_object`.
#[verifier::external_body]
pub(crate) fn entry_to_object<'r>(entry: &git2::TreeEntry<'_>, repo: &'r git2::Repository) -> Result<git2::Object<'r>, git2::Error> {
    entry.to_object(repo)
}

/// Trusted: `git2::Object::into_tree`.
#[verifier::external_body]
pub(crate) fn object_into_tree<'r>(object: git2::Object<'r>) -> Option<git2::Tree<'r>> {
    object.into_tree().ok()
}

/// Trusted: `git2::Object::into_blob`.
#[verifier::external_body]
pub(crate) fn object_into_blob<'r>(object: git2::Object<'r>) -> Option<git2::Blob<'r>> {
    object.into_blob().ok()
}

/// Trusted: `git2::Blob::content`, copied.
#[verifier::external_body]
pub(crate) fn blob_content(blob: &git2::Blob<'_>) -> Vec<u8> {
    blob.content().to_vec()
}

} // verus!
