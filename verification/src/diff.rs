//! Structured diffs between two file maps: which files were added, deleted
//! or modified, whether either side is binary, and the line-level changes
//! of text files.

use vstd::prelude::*;
use vstd::utf8::{decode_utf8, valid_utf8};
use crate::filemap::{changed_files, opt_bytes, ChangedFile, FileMap};
use crate::order::text_lt;
use crate::text::string_of;

verus! {

#[derive(Debug, Clone, Copy, PartialEq, Eq, Structural)]
pub enum FileChangeKind {
    Added,
    Modified,
    Deleted,
}

#[derive(Debug, Clone, Copy, PartialEq, Eq, Structural)]
pub enum LineTag {
    Context,
    Added,
    Removed,
}

/// One line of a text diff, without its line ending.
#[derive(Debug)]
pub struct DiffLine {
    pub tag: LineTag,
    pub content: String,
}

/// The changes to one file.
#[derive(Debug)]
pub struct FileDiff {
    pub path: String,
    pub change: FileChangeKind,
    pub binary: bool,
    pub lines: Vec<DiffLine>,
}

/// The changed files of a diff, in path order.
#[derive(Debug)]
pub struct DiffResult {
    pub files: Vec<FileDiff>,
}

impl Default for DiffResult {
    fn default() -> (r: DiffResult)
        ensures
            r.files@.len() == 0,
    {
        DiffResult { files: Vec::new() }
    }
}

/// The line changes that `similar`'s line diff (`TextDiff::from_lines`)
/// reports between two texts: each change's tag and its text as its
/// `Display` shows it, with a line break added where the line had none.
pub uninterp spec fn similar_line_changes(old: Seq<char>, new: Seq<char>) -> Seq<(LineTag, Seq<char>)>;

/// The changes between two texts, line by line.
/// Trusted: `similar::TextDiff::from_lines` followed by `iter_all_changes`;
/// each change is turned into its tag and its `to_string()` text.
#[verifier::external_body]
fn line_changes(old: &str, new: &str) -> (r: Vec<(LineTag, String)>)
    ensures
        r@.map_values(|c: (LineTag, String)| (c.0, c.1@)) == similar_line_changes(old@, new@),
{
    similar::TextDiff::from_lines(old, new)
        .iter_all_changes()
        .map(|change| {
            let tag = match change.tag() {
                similar::ChangeTag::Delete => LineTag::Removed,
                similar::ChangeTag::Insert => LineTag::Added,
                similar::ChangeTag::Equal => LineTag::Context,
            };
            (tag, change.to_string())
        })
        .collect()
}

/// The text of some bytes, when they are valid UTF-8.
/// Trusted: `std::str::from_utf8` accepts exactly the valid UTF-8 byte
/// sequences and decodes them.
#[verifier::external_body]
pub(crate) fn utf8_text(bytes: &Vec<u8>) -> (r: Option<String>)
    ensures
        r is Some <==> valid_utf8(bytes@),
        r matches Some(s) ==> s@ == decode_utf8(bytes@),
{
    std::str::from_utf8(bytes.as_slice()).ok().map(|s| s.to_string())
}

/// `s` without any line breaks at its end (`trim_end_matches('\n')`).
pub open spec fn trim_newlines(s: Seq<char>) -> Seq<char>
    decreases s.len(),
{
    if s.len() > 0 && s.last() == '\n' {
        trim_newlines(s.drop_last())
    } else {
        s
    }
}

pub fn trim_newlines_exec(s: &String) -> (r: String)
    ensures
        r@ == trim_newlines(s@),
{
    let v = crate::text::chars_of(s.as_str());
    let mut end: usize = v.len();
    assert(v@.take(end as int) =~= v@);
    while end > 0 && v[end - 1] == '\n'
        invariant
            end <= v.len(),
            trim_newlines(v@.take(end as int)) == trim_newlines(v@),
        decreases end,
    {
        assert(v@.take(end as int).drop_last() =~= v@.take(end - 1));
        end = end - 1;
    }
    let t = crate::text::slice_chars(&v, 0, end);
    assert(v@.take(end as int) =~= t@);
    string_of(&t)
}

/// What kind of change a file saw, from its content on each side.
pub open spec fn change_kind(o: Option<Seq<u8>>, n: Option<Seq<u8>>) -> FileChangeKind {
    match (o, n) {
        (None, Some(_)) => FileChangeKind::Added,
        (Some(_), None) => FileChangeKind::Deleted,
        _ => FileChangeKind::Modified,
    }
}

/// A side is binary when it exists and is not valid UTF-8.
pub open spec fn is_binary(o: Option<Seq<u8>>, n: Option<Seq<u8>>) -> bool {
    (o matches Some(b) && !valid_utf8(b)) || (n matches Some(b) && !valid_utf8(b))
}

/// The text of one side; empty when the file is absent on that side.
pub open spec fn side_text(o: Option<Seq<u8>>) -> Seq<char> {
    match o {
        Some(b) => decode_utf8(b),
        None => Seq::empty(),
    }
}

/// The lines a file's diff shows: none for binary files, otherwise the line
/// changes between the two texts with their line breaks trimmed.
pub open spec fn expected_lines(o: Option<Seq<u8>>, n: Option<Seq<u8>>) -> Seq<(LineTag, Seq<char>)> {
    if is_binary(o, n) {
        Seq::empty()
    } else {
        similar_line_changes(side_text(o), side_text(n)).map_values(
            |c: (LineTag, Seq<char>)| (c.0, trim_newlines(c.1)),
        )
    }
}

/// The view of a list of diff lines.
pub open spec fn lines_view(lines: Seq<DiffLine>) -> Seq<(LineTag, Seq<char>)> {
    lines.map_values(|l: DiffLine| (l.tag, l.content@))
}

/// `d` is the diff of the file at `p` whose content was `o` and became `n`.
pub open spec fn file_diff_is(d: FileDiff, p: Seq<char>, o: Option<Seq<u8>>, n: Option<Seq<u8>>) -> bool {
    &&& d.path@ == p
    &&& d.change == change_kind(o, n)
    &&& d.binary == is_binary(o, n)
    &&& lines_view(d.lines@) == expected_lines(o, n)
}

/// `r` is the diff from `old` to `new`: one entry per path whose content
/// differs, in path order.
pub open spec fn diff_between(old: FileMap, new: FileMap, r: DiffResult) -> bool {
    let f = r.files@;
    &&& forall|i: int, j: int| 0 <= i < j < f.len() ==> text_lt(#[trigger] f[i].path@, #[trigger] f[j].path@)
    &&& forall|k: int| 0 <= k < f.len() ==> {
        &&& old.lookup((#[trigger] f[k]).path@) != new.lookup(f[k].path@)
        &&& file_diff_is(f[k], f[k].path@, old.lookup(f[k].path@), new.lookup(f[k].path@))
    }
    &&& forall|p: Seq<char>| #[trigger] old.lookup(p) != new.lookup(p) ==> exists|k: int|
        0 <= k < f.len() && (#[trigger] f[k].path@) == p
}

/// `r` is the diff from some earlier state to `new`.
pub open spec fn diff_onto(new: FileMap, r: DiffResult) -> bool {
    exists|o: FileMap| #[trigger] diff_between(o, new, r)
}

/// The text diff between two texts, line by line.
fn build_diff_lines(old_text: &str, new_text: &str) -> (r: Vec<DiffLine>)
    ensures
        lines_view(r@) == similar_line_changes(old_text@, new_text@).map_values(
            |c: (LineTag, Seq<char>)| (c.0, trim_newlines(c.1)),
        ),
{
    let changes = line_changes(old_text, new_text);
    let ghost raw = similar_line_changes(old_text@, new_text@);
    let ghost want = raw.map_values(|c: (LineTag, Seq<char>)| (c.0, trim_newlines(c.1)));
    let mut r: Vec<DiffLine> = Vec::new();
    let mut i: usize = 0;
    while i < changes.len()
        invariant
            i <= changes.len(),
            changes@.map_values(|c: (LineTag, String)| (c.0, c.1@)) == raw,
            want == raw.map_values(|c: (LineTag, Seq<char>)| (c.0, trim_newlines(c.1))),
            lines_view(r@) == want.take(i as int),
        decreases changes.len() - i,
    {
        let (tag, text) = &changes[i];
        assert(raw[i as int] == (*tag, text@));
        let content = trim_newlines_exec(text);
        let ghost r_before = r@;
        r.push(DiffLine { tag: *tag, content });
        assert(want[i as int] == (*tag, trim_newlines(text@)));
        assert(lines_view(r@) =~= lines_view(r_before).push((*tag, trim_newlines(text@))));
        assert(lines_view(r@) =~= want.take(i + 1));
        i = i + 1;
    }
    assert(want.take(changes.len() as int) =~= want);
    r
}

/// The diff of one changed file.
fn file_diff_of(c: &ChangedFile) -> (r: FileDiff)
    ensures
        file_diff_is(r, c.path@, opt_bytes(c.old), opt_bytes(c.new)),
{
    let ghost o = opt_bytes(c.old);
    let ghost n = opt_bytes(c.new);
    let change = match (&c.old, &c.new) {
        (None, Some(_)) => FileChangeKind::Added,
        (Some(_), None) => FileChangeKind::Deleted,
        _ => FileChangeKind::Modified,
    };
    let old_text = match &c.old {
        Some(b) => utf8_text(b),
        None => None,
    };
    let new_text = match &c.new {
        Some(b) => utf8_text(b),
        None => None,
    };
    let binary = (c.old.is_some() && old_text.is_none()) || (c.new.is_some() && new_text.is_none());
    let lines = if binary {
        Vec::new()
    } else {
        let empty = String::new();
        let ot: &String = match &old_text {
            Some(t) => t,
            None => &empty,
        };
        let nt: &String = match &new_text {
            Some(t) => t,
            None => &empty,
        };
        assert(ot@ == side_text(o));
        assert(nt@ == side_text(n));
        build_diff_lines(ot.as_str(), nt.as_str())
    };
    assert(lines_view(lines@) == expected_lines(o, n));
    FileDiff { path: c.path.clone(), change, binary, lines }
}

/// Diffs two file maps: one entry for every path whose content differs, in
/// path order, with its kind of change, its binary flag and its line diff.
pub fn diff_file_maps(old: &FileMap, new: &FileMap) -> (r: DiffResult)
    ensures
        diff_between(*old, *new, r),
{
    let changes = changed_files(old, new);
    let mut files: Vec<FileDiff> = Vec::new();
    let mut i: usize = 0;
    while i < changes.len()
        invariant
            i <= changes.len(),
            crate::filemap::changes_between(*old, *new, changes@),
            files@.len() == i,
            forall|k: int| 0 <= k < i ==> file_diff_is(
                #[trigger] files@[k],
                changes@[k].path@,
                opt_bytes(changes@[k].old),
                opt_bytes(changes@[k].new),
            ),
        decreases changes.len() - i,
    {
        let d = file_diff_of(&changes[i]);
        files.push(d);
        i = i + 1;
    }
    let r = DiffResult { files };
    proof {
        let f = r.files@;
        assert forall|k: int| 0 <= k < f.len() implies {
            &&& old.lookup((#[trigger] f[k]).path@) != new.lookup(f[k].path@)
            &&& file_diff_is(f[k], f[k].path@, old.lookup(f[k].path@), new.lookup(f[k].path@))
        } by {
            assert(file_diff_is(f[k], changes@[k].path@, opt_bytes(changes@[k].old), opt_bytes(changes@[k].new)));
        }
        assert forall|i: int, j: int| 0 <= i < j < f.len() implies text_lt(#[trigger] f[i].path@, #[trigger] f[j].path@) by {
            assert(f[i].path@ == changes@[i].path@);
            assert(f[j].path@ == changes@[j].path@);
        }
        assert forall|p: Seq<char>| #[trigger] old.lookup(p) != new.lookup(p) implies exists|k: int|
            0 <= k < f.len() && (#[trigger] f[k].path@) == p by {
            let k = choose|k: int| 0 <= k < changes@.len() && (#[trigger] changes@[k].path@) == p;
            assert(f[k].path@ == changes@[k].path@);
        }
    }
    r
}

/// Whether two file maps differ anywhere.
pub fn maps_differ(old: &FileMap, new: &FileMap) -> (r: bool)
    ensures
        r == exists|p: Seq<char>| #[trigger] old.lookup(p) != new.lookup(p),
{
    let changes = changed_files(old, new);
    if changes.len() > 0 {
        assert(opt_bytes(changes@[0].old) == old.lookup(changes@[0].path@));
        true
    } else {
        false
    }
}

/// A diff lists nothing exactly when both sides hold the same files with
/// the same contents.
pub proof fn lemma_diff_empty_iff_same(old: FileMap, new: FileMap, d: DiffResult)
    requires
        diff_between(old, new, d),
    ensures
        d.files@.len() == 0 <==> forall|p: Seq<char>| #[trigger] old.lookup(p) == new.lookup(p),
{
    if d.files@.len() > 0 {
        let f = d.files@;
        assert(old.lookup(f[0].path@) != new.lookup(f[0].path@));
    }
    if d.files@.len() == 0 {
        assert forall|p: Seq<char>| #[trigger] old.lookup(p) == new.lookup(p) by {
            if old.lookup(p) != new.lookup(p) {
                let k = choose|k: int| 0 <= k < d.files@.len() && (#[trigger] d.files@[k].path@) == p;
            }
        }
    }
}

/// Diffing a state against itself shows no change.
pub proof fn lemma_diff_of_same_is_empty(m: FileMap, d: DiffResult)
    requires
        diff_between(m, m, d),
    ensures
        d.files@.len() == 0,
{
    lemma_diff_empty_iff_same(m, m, d);
}

/// What the working copy looks like against a snapshot decides both the
/// status and the diff shown for it: the two maps differ exactly when the
/// diff between them lists a file.
pub proof fn lemma_differs_iff_diff_nonempty(old: FileMap, new: FileMap, d: DiffResult)
    requires
        diff_between(old, new, d),
    ensures
        (exists|p: Seq<char>| #[trigger] old.lookup(p) != new.lookup(p)) <==> d.files@.len() > 0,
{
    lemma_diff_empty_iff_same(old, new, d);
}

/// Every file a diff lists changed as its kind says: added files exist only
/// on the new side, deleted ones only on the old side, modified ones on
/// both.
pub proof fn lemma_change_kinds(old: FileMap, new: FileMap, d: DiffResult, k: int)
    requires
        diff_between(old, new, d),
        0 <= k < d.files@.len(),
    ensures
        d.files@[k].change == FileChangeKind::Added <==> (old.lookup(d.files@[k].path@) is None),
        d.files@[k].change == FileChangeKind::Deleted <==> (new.lookup(d.files@[k].path@) is None),
        d.files@[k].change == FileChangeKind::Modified <==> (old.lookup(d.files@[k].path@) is Some
            && new.lookup(d.files@[k].path@) is Some),
{
    let f = d.files@;
    assert(old.lookup(f[k].path@) != new.lookup(f[k].path@));
    assert(file_diff_is(f[k], f[k].path@, old.lookup(f[k].path@), new.lookup(f[k].path@)));
}

} // verus!
