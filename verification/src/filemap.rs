//! Sorted maps from relative file paths to file contents : what a snapshot
//! subtree or a configuration on disk holds. The entries are kept in strictly
//! increasing path order, as a `BTreeMap<String, Vec<u8>>` keeps them.

use vstd::prelude::*;
use crate::order::{
    compare_chars, lemma_text_lt_asymmetric, lemma_text_lt_irreflexive, lemma_text_lt_total,
    lemma_text_lt_transitive, text_lt, TextOrder,
};
use crate::text::chars_of;

verus! {

/// One file: its path relative to the configuration's root, and its bytes.
#[derive(Debug)]
pub struct FileEntry {
    pub path: String,
    pub content: Vec<u8>,
}

/// The value found for key `p` among `(key, value)` pairs, if any.
pub open spec fn pair_lookup(s: Seq<(Seq<char>, Seq<u8>)>, p: Seq<char>) -> Option<Seq<u8>> {
    if exists|i: int| 0 <= i < s.len() && #[trigger] s[i].0 == p {
        Some(s[choose|i: int| 0 <= i < s.len() && #[trigger] s[i].0 == p].1)
    } else {
        None
    }
}

/// Keys in strictly increasing order.
pub open spec fn sorted_keys(s: Seq<(Seq<char>, Seq<u8>)>) -> bool {
    forall|i: int, j: int| 0 <= i < j < s.len() ==> text_lt(#[trigger] s[i].0, #[trigger] s[j].0)
}

pub proof fn lemma_lookup_at(s: Seq<(Seq<char>, Seq<u8>)>, i: int)
    requires
        sorted_keys(s),
        0 <= i < s.len(),
    ensures
        pair_lookup(s, s[i].0) == Some(s[i].1),
{
    assert(s[i].0 == s[i].0);
    let j = choose|j: int| 0 <= j < s.len() && #[trigger] s[j].0 == s[i].0;
    if j != i {
        lemma_text_lt_irreflexive(s[i].0);
        if j < i {
            assert(text_lt(s[j].0, s[i].0));
        } else {
            assert(text_lt(s[i].0, s[j].0));
        }
    }
}

pub proof fn lemma_lookup_absent(s: Seq<(Seq<char>, Seq<u8>)>, p: Seq<char>)
    requires
        forall|i: int| 0 <= i < s.len() ==> #[trigger] s[i].0 != p,
    ensures
        pair_lookup(s, p) is None,
{
}

/// The view of a file entry.
pub open spec fn entry_view(e: FileEntry) -> (Seq<char>, Seq<u8>) {
    (e.path@, e.content@)
}

/// A sorted map from relative paths to contents.
#[derive(Debug)]
pub struct FileMap {
    entries: Vec<FileEntry>,
}

impl FileMap {
    /// The `(path, content)` pairs in path order.
    pub closed spec fn pairs(self) -> Seq<(Seq<char>, Seq<u8>)> {
        self.entries@.map_values(|e: FileEntry| entry_view(e))
    }

    /// The keys are kept in increasing order.
    #[verifier::type_invariant]
    pub open spec fn well_formed(self) -> bool {
        sorted_keys(self.pairs())
    }

    /// The content stored under `p`, if any.
    pub open spec fn lookup(self, p: Seq<char>) -> Option<Seq<u8>> {
        pair_lookup(self.pairs(), p)
    }

    /// An empty map.
    pub fn new() -> (r: FileMap)
        ensures
            r.pairs().len() == 0,
            forall|p: Seq<char>| #[trigger] r.lookup(p) is None,
    {
        let r = FileMap { entries: Vec::new() };
        assert(r.pairs().len() == 0);
        r
    }

    /// Number of files.
    pub fn len(&self) -> (r: usize)
        ensures
            r == self.pairs().len(),
    {
        self.entries.len()
    }

    /// The path and content of the `i`-th file in path order.
    pub fn entry(&self, i: usize) -> (r: &FileEntry)
        requires
            i < self.pairs().len(),
        ensures
            entry_view(*r) == self.pairs()[i as int],
    {
        &self.entries[i]
    }

    fn key_before(&self, pos: usize, key: &Vec<char>) -> (r: bool)
        requires
            pos < self.pairs().len(),
        ensures
            r == text_lt(self.pairs()[pos as int].0, key@),
    {
        let here = chars_of(self.entries[pos].path.as_str());
        assert(self.pairs()[pos as int].0 == here@);
        match compare_chars(&here, key) {
            TextOrder::Less => true,
            _ => false,
        }
    }

    fn key_equals(&self, pos: usize, key: &Vec<char>) -> (r: bool)
        requires
            pos < self.pairs().len(),
        ensures
            r == (self.pairs()[pos as int].0 == key@),
    {
        let here = chars_of(self.entries[pos].path.as_str());
        assert(self.pairs()[pos as int].0 == here@);
        match compare_chars(&here, key) {
            TextOrder::Equal => true,
            _ => false,
        }
    }

    /// Stores `content` under `path`, replacing what was there.
    pub fn insert(&mut self, path: String, content: Vec<u8>)
        ensures
            final(self).lookup(path@) == Some(content@),
            forall|q: Seq<char>| q != path@ ==> #[trigger] final(self).lookup(q) == old(self).lookup(q),
    {
        proof {
            use_type_invariant(&*self);
        }
        let ghost old_pairs = self.pairs();
        let key = chars_of(path.as_str());
        let mut pos: usize = 0;
        while pos < self.entries.len() && self.key_before(pos, &key)
            invariant
                old_pairs == self.pairs(),
                sorted_keys(old_pairs),
                key@ == path@,
                pos <= old_pairs.len(),
                forall|k: int| 0 <= k < pos ==> text_lt(#[trigger] old_pairs[k].0, path@),
            decreases self.entries.len() - pos,
        {
            pos = pos + 1;
        }
        let ghost e_new = (path@, content@);
        let found = pos < self.entries.len() && self.key_equals(pos, &key);
        proof {
            if pos < old_pairs.len() && !found {
                // the entry at `pos` is not below `path` and not equal to it
                lemma_text_lt_total(old_pairs[pos as int].0, path@);
            }
        }
        let entry = FileEntry { path, content };
        let mut entries: Vec<FileEntry> = Vec::new();
        std::mem::swap(&mut entries, &mut self.entries);
        assert(entries@.map_values(|e: FileEntry| entry_view(e)) == old_pairs);
        if found {
            entries.set(pos, entry);
            let ghost np = entries@.map_values(|e: FileEntry| entry_view(e));
            assert(np =~= old_pairs.update(pos as int, e_new));
            assert(sorted_keys(np)) by {
                assert forall|i: int, j: int| 0 <= i < j < np.len() implies text_lt(
                    #[trigger] np[i].0,
                    #[trigger] np[j].0,
                ) by {
                    assert(old_pairs[i].0 == np[i].0);
                    assert(old_pairs[j].0 == np[j].0);
                }
            }
            self.entries = entries;
            assert(self.pairs() == np);
            proof {
                lemma_lookup_at(np, pos as int);
                assert forall|q: Seq<char>| q != path@ implies #[trigger] pair_lookup(np, q)
                    == pair_lookup(old_pairs, q) by {
                    if exists|i: int| 0 <= i < old_pairs.len() && #[trigger] old_pairs[i].0 == q {
                        let i = choose|i: int| 0 <= i < old_pairs.len() && #[trigger] old_pairs[i].0 == q;
                        lemma_lookup_at(old_pairs, i);
                        lemma_lookup_at(np, i);
                    } else {
                        assert forall|i: int| 0 <= i < np.len() implies #[trigger] np[i].0 != q by {
                            if i != pos {
                                assert(np[i].0 == old_pairs[i].0);
                            }
                        }
                    }
                }
            }
        } else {
            proof {
                // everything from `pos` on sorts after `path`
                assert forall|k: int| pos <= k < old_pairs.len() implies text_lt(
                    path@,
                    #[trigger] old_pairs[k].0,
                ) by {
                    if k > pos {
                        lemma_text_lt_transitive(path@, old_pairs[pos as int].0, old_pairs[k].0);
                    }
                }
            }
            entries.insert(pos, entry);
            let ghost np = entries@.map_values(|e: FileEntry| entry_view(e));
            assert(np =~= old_pairs.insert(pos as int, e_new));
            assert(sorted_keys(np)) by {
                assert forall|i: int, j: int| 0 <= i < j < np.len() implies text_lt(
                    #[trigger] np[i].0,
                    #[trigger] np[j].0,
                ) by {
                    if i < pos && j == pos {
                    } else if i < pos && j > pos {
                        assert(np[j].0 == old_pairs[j - 1].0);
                        lemma_text_lt_transitive(np[i].0, path@, np[j].0);
                    } else if i == pos {
                        assert(np[j].0 == old_pairs[j - 1].0);
                    } else if j < pos {
                    } else {
                        assert(np[j].0 == old_pairs[j - 1].0);
                        assert(np[i].0 == old_pairs[i - 1].0);
                    }
                }
            }
            self.entries = entries;
            assert(self.pairs() == np);
            proof {
                lemma_lookup_at(np, pos as int);
                assert forall|q: Seq<char>| q != path@ implies #[trigger] pair_lookup(np, q)
                    == pair_lookup(old_pairs, q) by {
                    if exists|i: int| 0 <= i < old_pairs.len() && #[trigger] old_pairs[i].0 == q {
                        let i = choose|i: int| 0 <= i < old_pairs.len() && #[trigger] old_pairs[i].0 == q;
                        lemma_lookup_at(old_pairs, i);
                        if i < pos {
                            lemma_lookup_at(np, i);
                        } else {
                            assert(np[i + 1] == old_pairs[i]);
                            lemma_lookup_at(np, i + 1);
                        }
                    } else {
                        assert forall|i: int| 0 <= i < np.len() implies #[trigger] np[i].0 != q by {
                            if i < pos {
                                assert(np[i].0 == old_pairs[i].0);
                            } else if i > pos {
                                assert(np[i].0 == old_pairs[i - 1].0);
                            }
                        }
                    }
                }
            }
        }
    }
}


/// The content of the last of `entries` stored under `p`, if any: what a
/// map holds after storing each of them in order.
pub open spec fn entries_lookup(entries: Seq<FileEntry>, p: Seq<char>) -> Option<Seq<u8>>
    decreases entries.len(),
{
    if entries.len() == 0 {
        None
    } else if entries.last().path@ == p {
        Some(entries.last().content@)
    } else {
        entries_lookup(entries.drop_last(), p)
    }
}

/// `m` holds what storing `entries` in order gives (see [`entries_lookup`]).
pub open spec fn holds_entries(m: FileMap, entries: Seq<FileEntry>) -> bool {
    forall|p: Seq<char>| #[trigger] m.lookup(p) == entries_lookup(entries, p)
}

/// `m` holds what storing some entries in order gives.
pub open spec fn from_some_entries(m: FileMap) -> bool {
    exists|entries: Seq<FileEntry>| #[trigger] holds_entries(m, entries)
}

/// The map holding `entries`, stored in order, so that a later entry with
/// the same path replaces an earlier one.
pub fn file_map_of(entries: &Vec<FileEntry>) -> (r: FileMap)
    ensures
        holds_entries(r, entries@),
{
    let mut files = FileMap::new();
    let mut i: usize = 0;
    while i < entries.len()
        invariant
            i <= entries.len(),
            forall|p: Seq<char>| #[trigger] files.lookup(p) == entries_lookup(entries@.take(i as int), p),
        decreases entries.len() - i,
    {
        let ghost t1 = entries@.take(i + 1);
        assert(t1.drop_last() =~= entries@.take(i as int));
        assert(t1.last() == entries@[i as int]);
        files.insert(entries[i].path.clone(), copy_bytes(&entries[i].content));
        i = i + 1;
    }
    assert(entries@.take(entries.len() as int) =~= entries@);
    files
}

/// The view of an optional byte vector.
pub open spec fn opt_bytes(o: Option<Vec<u8>>) -> Option<Seq<u8>> {
    match o {
        Some(b) => Some(b@),
        None => None,
    }
}

/// A path whose content differs between two maps, with both sides.
#[derive(Debug)]
pub struct ChangedFile {
    pub path: String,
    pub old: Option<Vec<u8>>,
    pub new: Option<Vec<u8>>,
}

/// `r` lists, in strictly increasing path order, exactly the paths whose
/// content differs between `old` and `new`, each with both sides.
pub open spec fn changes_between(old: FileMap, new: FileMap, r: Seq<ChangedFile>) -> bool {
    &&& forall|i: int, j: int| 0 <= i < j < r.len() ==> text_lt(#[trigger] r[i].path@, #[trigger] r[j].path@)
    &&& forall|k: int| 0 <= k < r.len() ==> {
        &&& opt_bytes(#[trigger] r[k].old) == old.lookup(r[k].path@)
        &&& opt_bytes(r[k].new) == new.lookup(r[k].path@)
        &&& old.lookup(r[k].path@) != new.lookup(r[k].path@)
    }
    &&& forall|p: Seq<char>| #[trigger] old.lookup(p) != new.lookup(p) ==> exists|k: int|
        0 <= k < r.len() && (#[trigger] r[k].path@) == p
}

/// Whether two byte vectors are equal.
pub fn bytes_eq(a: &Vec<u8>, b: &Vec<u8>) -> (r: bool)
    ensures
        r == (a@ == b@),
{
    if a.len() != b.len() {
        return false;
    }
    let mut i: usize = 0;
    while i < a.len()
        invariant
            a.len() == b.len(),
            i <= a.len(),
            forall|k: int| 0 <= k < i ==> a@[k] == b@[k],
        decreases a.len() - i,
    {
        if a[i] != b[i] {
            return false;
        }
        i = i + 1;
    }
    assert(a@ =~= b@);
    true
}

/// Clones a byte vector.
pub fn copy_bytes(a: &Vec<u8>) -> (r: Vec<u8>)
    ensures
        r@ == a@,
{
    let mut r: Vec<u8> = Vec::new();
    let mut i: usize = 0;
    while i < a.len()
        invariant
            i <= a.len(),
            r@ == a@.take(i as int),
        decreases a.len() - i,
    {
        r.push(a[i]);
        assert(a@.take(i + 1) == a@.take(i as int).push(a@[i as int]));
        i = i + 1;
    }
    assert(a@.take(a.len() as int) == a@);
    r
}

/// The paths whose content differs between `old` and `new`, in path order,
/// with the content on each side. Walks both maps in step, as a merge.
pub fn changed_files(old: &FileMap, new: &FileMap) -> (r: Vec<ChangedFile>)
    ensures
        changes_between(*old, *new, r@),
{
    proof {
        use_type_invariant(old);
        use_type_invariant(new);
    }
    let ghost a = old.pairs();
    let ghost b = new.pairs();
    let mut r: Vec<ChangedFile> = Vec::new();
    let mut i: usize = 0;
    let mut j: usize = 0;
    while i < old.len() || j < new.len()
        invariant
            a == old.pairs(),
            b == new.pairs(),
            sorted_keys(a),
            sorted_keys(b),
            i <= a.len(),
            j <= b.len(),
            forall|x: int, y: int| 0 <= x < y < r@.len() ==> text_lt(#[trigger] r@[x].path@, #[trigger] r@[y].path@),
            forall|k: int| 0 <= k < r@.len() ==> {
                &&& opt_bytes(#[trigger] r@[k].old) == pair_lookup(a, r@[k].path@)
                &&& opt_bytes(r@[k].new) == pair_lookup(b, r@[k].path@)
                &&& pair_lookup(a, r@[k].path@) != pair_lookup(b, r@[k].path@)
            },
            forall|k: int, x: int| 0 <= k < r@.len() && i <= x < a.len() ==> text_lt(#[trigger] r@[k].path@, #[trigger] a[x].0),
            forall|k: int, y: int| 0 <= k < r@.len() && j <= y < b.len() ==> text_lt(#[trigger] r@[k].path@, #[trigger] b[y].0),
            forall|x: int, y: int| 0 <= x < i && j <= y < b.len() ==> text_lt(#[trigger] a[x].0, #[trigger] b[y].0),
            forall|y: int, x: int| 0 <= y < j && i <= x < a.len() ==> text_lt(#[trigger] b[y].0, #[trigger] a[x].0),
            forall|x: int| 0 <= x < i && #[trigger] pair_lookup(a, a[x].0) != pair_lookup(b, a[x].0) ==> exists|k: int|
                0 <= k < r@.len() && (#[trigger] r@[k].path@) == a[x].0,
            forall|y: int| 0 <= y < j && #[trigger] pair_lookup(a, b[y].0) != pair_lookup(b, b[y].0) ==> exists|k: int|
                0 <= k < r@.len() && (#[trigger] r@[k].path@) == b[y].0,
        decreases a.len() + b.len() - i - j,
    {
        // 0: take from old only, 1: take from new only, 2: same path on both sides
        let step: u8 = if i >= old.len() {
            1
        } else if j >= new.len() {
            0
        } else {
            let ka = chars_of(old.entry(i).path.as_str());
            let kb = chars_of(new.entry(j).path.as_str());
            match compare_chars(&ka, &kb) {
                TextOrder::Less => 0,
                TextOrder::Greater => 1,
                TextOrder::Equal => 2,
            }
        };
        let ghost r_before = r@;
        if step == 0 {
            let e = old.entry(i);
            let ghost p = a[i as int].0;
            proof {
                lemma_lookup_at(a, i as int);
                assert forall|y: int| 0 <= y < b.len() implies #[trigger] b[y].0 != p by {
                    if y < j {
                        assert(text_lt(b[y].0, a[i as int].0));
                        lemma_text_lt_irreflexive(p);
                    } else {
                        assert(text_lt(a[i as int].0, b[j as int].0));
                        if y > j {
                            lemma_text_lt_transitive(a[i as int].0, b[j as int].0, b[y].0);
                        }
                        lemma_text_lt_irreflexive(p);
                    }
                }
                lemma_lookup_absent(b, p);
            }
            r.push(ChangedFile { path: e.path.clone(), old: Some(copy_bytes(&e.content)), new: None });
            proof {
                assert forall|k: int, x: int| 0 <= k < r@.len() && i + 1 <= x < a.len() implies text_lt(#[trigger] r@[k].path@, #[trigger] a[x].0) by {
                    if k == r_before.len() {
                    } else {
                        assert(r@[k] == r_before[k]);
                    }
                }
                assert forall|k: int, y: int| 0 <= k < r@.len() && j <= y < b.len() implies text_lt(#[trigger] r@[k].path@, #[trigger] b[y].0) by {
                    if k == r_before.len() {
                        assert(text_lt(a[i as int].0, b[j as int].0));
                        if y > j {
                            lemma_text_lt_transitive(a[i as int].0, b[j as int].0, b[y].0);
                        }
                    } else {
                        assert(r@[k] == r_before[k]);
                    }
                }
                assert forall|x: int, y: int| 0 <= x < r@.len() && 0 <= y < r@.len() && x < y implies text_lt(#[trigger] r@[x].path@, #[trigger] r@[y].path@) by {
                    if y == r_before.len() {
                        assert(r@[x] == r_before[x]);
                    } else {
                        assert(r@[x] == r_before[x]);
                        assert(r@[y] == r_before[y]);
                    }
                }
                assert forall|x: int| 0 <= x < i + 1 && #[trigger] pair_lookup(a, a[x].0) != pair_lookup(b, a[x].0) implies exists|k: int|
                    0 <= k < r@.len() && (#[trigger] r@[k].path@) == a[x].0 by {
                    if x == i {
                        assert(r@[r_before.len() as int].path@ == a[x].0);
                    } else {
                        let k = choose|k: int| 0 <= k < r_before.len() && (#[trigger] r_before[k].path@) == a[x].0;
                        assert(r@[k] == r_before[k]);
                    }
                }
                assert forall|y: int| 0 <= y < j && #[trigger] pair_lookup(a, b[y].0) != pair_lookup(b, b[y].0) implies exists|k: int|
                    0 <= k < r@.len() && (#[trigger] r@[k].path@) == b[y].0 by {
                    let k = choose|k: int| 0 <= k < r_before.len() && (#[trigger] r_before[k].path@) == b[y].0;
                    assert(r@[k] == r_before[k]);
                }
                assert forall|k: int| 0 <= k < r@.len() implies {
                    &&& opt_bytes(#[trigger] r@[k].old) == pair_lookup(a, r@[k].path@)
                    &&& opt_bytes(r@[k].new) == pair_lookup(b, r@[k].path@)
                    &&& pair_lookup(a, r@[k].path@) != pair_lookup(b, r@[k].path@)
                } by {
                    if k < r_before.len() {
                        assert(r@[k] == r_before[k]);
                    }
                }
            }
            i = i + 1;
        } else if step == 1 {
            let e = new.entry(j);
            let ghost p = b[j as int].0;
            proof {
                lemma_lookup_at(b, j as int);
                assert forall|x: int| 0 <= x < a.len() implies #[trigger] a[x].0 != p by {
                    if x < i {
                        assert(text_lt(a[x].0, b[j as int].0));
                        lemma_text_lt_irreflexive(p);
                    } else {
                        assert(text_lt(b[j as int].0, a[i as int].0));
                        if x > i {
                            lemma_text_lt_transitive(b[j as int].0, a[i as int].0, a[x].0);
                        }
                        lemma_text_lt_irreflexive(p);
                    }
                }
                lemma_lookup_absent(a, p);
            }
            r.push(ChangedFile { path: e.path.clone(), old: None, new: Some(copy_bytes(&e.content)) });
            proof {
                assert forall|k: int, x: int| 0 <= k < r@.len() && i <= x < a.len() implies text_lt(#[trigger] r@[k].path@, #[trigger] a[x].0) by {
                    if k == r_before.len() {
                        assert(text_lt(b[j as int].0, a[i as int].0));
                        if x > i {
                            lemma_text_lt_transitive(b[j as int].0, a[i as int].0, a[x].0);
                        }
                    } else {
                        assert(r@[k] == r_before[k]);
                    }
                }
                assert forall|k: int, y: int| 0 <= k < r@.len() && j + 1 <= y < b.len() implies text_lt(#[trigger] r@[k].path@, #[trigger] b[y].0) by {
                    if k == r_before.len() {
                    } else {
                        assert(r@[k] == r_before[k]);
                    }
                }
                assert forall|x: int, y: int| 0 <= x < r@.len() && 0 <= y < r@.len() && x < y implies text_lt(#[trigger] r@[x].path@, #[trigger] r@[y].path@) by {
                    if y == r_before.len() {
                        assert(r@[x] == r_before[x]);
                    } else {
                        assert(r@[x] == r_before[x]);
                        assert(r@[y] == r_before[y]);
                    }
                }
                assert forall|y: int| 0 <= y < j + 1 && #[trigger] pair_lookup(a, b[y].0) != pair_lookup(b, b[y].0) implies exists|k: int|
                    0 <= k < r@.len() && (#[trigger] r@[k].path@) == b[y].0 by {
                    if y == j {
                        assert(r@[r_before.len() as int].path@ == b[y].0);
                    } else {
                        let k = choose|k: int| 0 <= k < r_before.len() && (#[trigger] r_before[k].path@) == b[y].0;
                        assert(r@[k] == r_before[k]);
                    }
                }
                assert forall|x: int| 0 <= x < i && #[trigger] pair_lookup(a, a[x].0) != pair_lookup(b, a[x].0) implies exists|k: int|
                    0 <= k < r@.len() && (#[trigger] r@[k].path@) == a[x].0 by {
                    let k = choose|k: int| 0 <= k < r_before.len() && (#[trigger] r_before[k].path@) == a[x].0;
                    assert(r@[k] == r_before[k]);
                }
                assert forall|k: int| 0 <= k < r@.len() implies {
                    &&& opt_bytes(#[trigger] r@[k].old) == pair_lookup(a, r@[k].path@)
                    &&& opt_bytes(r@[k].new) == pair_lookup(b, r@[k].path@)
                    &&& pair_lookup(a, r@[k].path@) != pair_lookup(b, r@[k].path@)
                } by {
                    if k < r_before.len() {
                        assert(r@[k] == r_before[k]);
                    }
                }
            }
            j = j + 1;
        } else {
            let ea = old.entry(i);
            let eb = new.entry(j);
            let ghost p = a[i as int].0;
            proof {
                lemma_lookup_at(a, i as int);
                lemma_lookup_at(b, j as int);
            }
            if !bytes_eq(&ea.content, &eb.content) {
                r.push(ChangedFile {
                    path: ea.path.clone(),
                    old: Some(copy_bytes(&ea.content)),
                    new: Some(copy_bytes(&eb.content)),
                });
            }
            proof {
                assert forall|k: int, x: int| 0 <= k < r@.len() && i + 1 <= x < a.len() implies text_lt(#[trigger] r@[k].path@, #[trigger] a[x].0) by {
                    if k == r_before.len() {
                    } else {
                        assert(r@[k] == r_before[k]);
                    }
                }
                assert forall|k: int, y: int| 0 <= k < r@.len() && j + 1 <= y < b.len() implies text_lt(#[trigger] r@[k].path@, #[trigger] b[y].0) by {
                    if k == r_before.len() {
                    } else {
                        assert(r@[k] == r_before[k]);
                    }
                }
                assert forall|x: int, y: int| 0 <= x < i + 1 && j + 1 <= y < b.len() implies text_lt(#[trigger] a[x].0, #[trigger] b[y].0) by {
                    if x == i {
                    }
                }
                assert forall|y: int, x: int| 0 <= y < j + 1 && i + 1 <= x < a.len() implies text_lt(#[trigger] b[y].0, #[trigger] a[x].0) by {
                    if y == j {
                    }
                }
                assert forall|x: int, y: int| 0 <= x < r@.len() && 0 <= y < r@.len() && x < y implies text_lt(#[trigger] r@[x].path@, #[trigger] r@[y].path@) by {
                    if y == r_before.len() {
                        assert(r@[x] == r_before[x]);
                    } else {
                        assert(r@[x] == r_before[x]);
                        assert(r@[y] == r_before[y]);
                    }
                }
                assert forall|x: int| 0 <= x < i + 1 && #[trigger] pair_lookup(a, a[x].0) != pair_lookup(b, a[x].0) implies exists|k: int|
                    0 <= k < r@.len() && (#[trigger] r@[k].path@) == a[x].0 by {
                    if x == i {
                        assert(r@[r_before.len() as int].path@ == a[x].0);
                    } else {
                        let k = choose|k: int| 0 <= k < r_before.len() && (#[trigger] r_before[k].path@) == a[x].0;
                        assert(r@[k] == r_before[k]);
                    }
                }
                assert forall|y: int| 0 <= y < j + 1 && #[trigger] pair_lookup(a, b[y].0) != pair_lookup(b, b[y].0) implies exists|k: int|
                    0 <= k < r@.len() && (#[trigger] r@[k].path@) == b[y].0 by {
                    if y == j {
                        assert(r@[r_before.len() as int].path@ == b[y].0);
                    } else {
                        let k = choose|k: int| 0 <= k < r_before.len() && (#[trigger] r_before[k].path@) == b[y].0;
                        assert(r@[k] == r_before[k]);
                    }
                }
                assert forall|k: int| 0 <= k < r@.len() implies {
                    &&& opt_bytes(#[trigger] r@[k].old) == pair_lookup(a, r@[k].path@)
                    &&& opt_bytes(r@[k].new) == pair_lookup(b, r@[k].path@)
                    &&& pair_lookup(a, r@[k].path@) != pair_lookup(b, r@[k].path@)
                } by {
                    if k < r_before.len() {
                        assert(r@[k] == r_before[k]);
                    }
                }
            }
            i = i + 1;
            j = j + 1;
        }
    }
    proof {
        assert forall|p: Seq<char>| #[trigger] pair_lookup(a, p) != pair_lookup(b, p) implies exists|k: int|
            0 <= k < r@.len() && (#[trigger] r@[k].path@) == p by {
            if pair_lookup(a, p) is Some {
                let x = choose|x: int| 0 <= x < a.len() && #[trigger] a[x].0 == p;
                assert(pair_lookup(a, a[x].0) != pair_lookup(b, a[x].0));
            } else {
                let y = choose|y: int| 0 <= y < b.len() && #[trigger] b[y].0 == p;
                assert(pair_lookup(a, b[y].0) != pair_lookup(b, b[y].0));
            }
        }
    }
    r
}

} // verus!
