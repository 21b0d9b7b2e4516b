//! Paths as text. Paths are handled as the characters of their (Unix)
//! spelling, with `/` as the separator; these are the rules of
//! `std::path::Path::file_name`, `Path::extension` and `PathBuf::push`
//! on such paths.

use vstd::prelude::*;
use crate::text::{chars_of, push_all, slice_chars, starts_with_exec, starts_with_text, string_of, chars_eq};

verus! {

/// Index of the last occurrence of `c` strictly before position `end`, or -1.
pub open spec fn last_index_before(p: Seq<char>, c: char, end: int) -> int
    decreases end,
{
    if end <= 0 {
        -1
    } else if p[end - 1] == c {
        end - 1
    } else {
        last_index_before(p, c, end - 1)
    }
}

pub proof fn lemma_last_index_before_bounds(p: Seq<char>, c: char, end: int)
    ensures
        -1 <= last_index_before(p, c, end),
        end > 0 ==> last_index_before(p, c, end) < end,
        end <= 0 ==> last_index_before(p, c, end) == -1,
        last_index_before(p, c, end) >= 0 ==> p[last_index_before(p, c, end)] == c,
        forall|k: int| last_index_before(p, c, end) < k < end ==> p[k] != c,
    decreases end,
{
    if end > 0 && p[end - 1] != c {
        lemma_last_index_before_bounds(p, c, end - 1);
    }
}

/// The last path component among the first `end` characters, skipping empty
/// and `.` components; `None` when there is none or it is `..`.
pub open spec fn file_name_within(p: Seq<char>, end: int) -> Option<Seq<char>>
    decreases end,
{
    if end <= 0 {
        None
    } else {
        let s = last_index_before(p, '/', end);
        let seg = p.subrange(s + 1, end);
        if seg.len() == 0 || seg == seq!['.'] {
            if s < 0 {
                None
            } else {
                proof {
                    lemma_last_index_before_bounds(p, '/', end);
                }
                file_name_within(p, s)
            }
        } else if seg == seq!['.', '.'] {
            None
        } else {
            Some(seg)
        }
    }
}

/// The final component of a path (`Path::file_name`).
pub open spec fn file_name_spec(p: Seq<char>) -> Option<Seq<char>> {
    file_name_within(p, p.len() as int)
}

/// The extension of a file name: the text after its last `.`, unless there
/// is no `.` or the only `.` that counts is the first character.
pub open spec fn name_extension(n: Seq<char>) -> Option<Seq<char>> {
    let d = last_index_before(n, '.', n.len() as int);
    if d <= 0 {
        None
    } else {
        Some(n.subrange(d + 1, n.len() as int))
    }
}

/// The extension of a path (`Path::extension`).
pub open spec fn extension_spec(p: Seq<char>) -> Option<Seq<char>> {
    match file_name_spec(p) {
        Some(n) => name_extension(n),
        None => None,
    }
}

/// `base` joined with `p` (`PathBuf::push`): an absolute `p` replaces `base`,
/// otherwise a separator is put between them unless `base` is empty or
/// already ends with one.
pub open spec fn join_spec(base: Seq<char>, p: Seq<char>) -> Seq<char> {
    if p.len() > 0 && p[0] == '/' {
        p
    } else if base.len() > 0 && base.last() != '/' {
        base + seq!['/'] + p
    } else {
        base + p
    }
}

/// Expansion of a leading `~` against `home`: `~/rest` becomes `home` joined
/// with `rest`, a lone `~` becomes `home`, anything else is left as it is.
pub open spec fn expand_spec(raw: Seq<char>, home: Seq<char>) -> Seq<char> {
    if starts_with_text(raw, seq!['~', '/']) {
        join_spec(home, raw.subrange(2, raw.len() as int))
    } else if raw == seq!['~'] {
        home
    } else {
        raw
    }
}

/// Whether `raw` starts with `~`.
pub open spec fn starts_with_tilde(raw: Seq<char>) -> bool {
    raw.len() > 0 && raw[0] == '~'
}

/// Expansion leaves a path that does not start with `~` as it is.
pub proof fn lemma_expand_keeps_plain_paths(raw: Seq<char>, home: Seq<char>)
    ensures
        !starts_with_tilde(raw) ==> expand_spec(raw, home) == raw,
{
    if !starts_with_tilde(raw) {
        if starts_with_text(raw, seq!['~', '/']) {
            assert(raw[0] == seq!['~', '/'][0]);
        }
        if raw == seq!['~'] {
            assert(raw[0] == '~');
        }
    }
}

/// Position of the last `c` before `end`, if any.
pub fn last_index_before_exec(p: &Vec<char>, c: char, end: usize) -> (r: Option<usize>)
    requires
        end <= p.len(),
    ensures
        match r {
            Some(i) => i as int == last_index_before(p@, c, end as int),
            None => last_index_before(p@, c, end as int) == -1,
        },
{
    let mut k: usize = end;
    while k > 0
        invariant
            k <= end <= p.len(),
            last_index_before(p@, c, end as int) == last_index_before(p@, c, k as int),
        decreases k,
    {
        if p[k - 1] == c {
            return Some(k - 1);
        }
        k = k - 1;
    }
    None
}

/// The final component of a path, as `Path::file_name` gives it.
pub fn file_name(p: &Vec<char>) -> (r: Option<Vec<char>>)
    ensures
        match r {
            Some(v) => file_name_spec(p@) == Some(v@),
            None => file_name_spec(p@) is None,
        },
{
    let dot = seq_of_dot();
    let dotdot = seq_of_dotdot();
    let mut end: usize = p.len();
    loop
        invariant
            end <= p.len(),
            dot@ == seq!['.'],
            dotdot@ == seq!['.', '.'],
            file_name_within(p@, end as int) == file_name_spec(p@),
        decreases end,
    {
        if end == 0 {
            return None;
        }
        let s = last_index_before_exec(p, '/', end);
        proof {
            lemma_last_index_before_bounds(p@, '/', end as int);
        }
        let start: usize = match s {
            Some(i) => i + 1,
            None => 0,
        };
        let seg = slice_chars(p, start, end);
        if seg.len() == 0 || chars_eq(&seg, &dot) {
            match s {
                None => {
                    return None;
                },
                Some(i) => {
                    end = i;
                },
            }
        } else if chars_eq(&seg, &dotdot) {
            return None;
        } else {
            return Some(seg);
        }
    }
}

fn seq_of_dot() -> (r: Vec<char>)
    ensures
        r@ == seq!['.'],
{
    let mut r: Vec<char> = Vec::new();
    r.push('.');
    r
}

fn seq_of_dotdot() -> (r: Vec<char>)
    ensures
        r@ == seq!['.', '.'],
{
    let mut r: Vec<char> = Vec::new();
    r.push('.');
    r.push('.');
    r
}

/// The extension of a path, as `Path::extension` gives it.
pub fn extension(p: &Vec<char>) -> (r: Option<Vec<char>>)
    ensures
        match r {
            Some(v) => extension_spec(p@) == Some(v@),
            None => extension_spec(p@) is None,
        },
{
    match file_name(p) {
        None => None,
        Some(n) => {
            proof {
                lemma_last_index_before_bounds(n@, '.', n@.len() as int);
            }
            match last_index_before_exec(&n, '.', n.len()) {
                None => None,
                Some(d) => {
                    if d == 0 {
                        None
                    } else {
                        Some(slice_chars(&n, d + 1, n.len()))
                    }
                },
            }
        },
    }
}

/// `base` joined with `p`, as `PathBuf::push` does it.
pub fn join_chars(base: &Vec<char>, p: &Vec<char>) -> (r: Vec<char>)
    ensures
        r@ == join_spec(base@, p@),
{
    if p.len() > 0 && p[0] == '/' {
        let mut r: Vec<char> = Vec::new();
        push_all(&mut r, p);
        assert(r@ =~= p@);
        r
    } else {
        let mut r: Vec<char> = Vec::new();
        push_all(&mut r, base);
        if base.len() > 0 && base[base.len() - 1] != '/' {
            r.push('/');
        }
        push_all(&mut r, p);
        assert(r@ =~= join_spec(base@, p@));
        r
    }
}

/// Expands a leading `~` in `raw` against `home`.
pub fn expand_chars(raw: &Vec<char>, home: &Vec<char>) -> (r: Vec<char>)
    ensures
        r@ == expand_spec(raw@, home@),
{
    let mut tilde_slash: Vec<char> = Vec::new();
    tilde_slash.push('~');
    tilde_slash.push('/');
    assert(tilde_slash@ =~= seq!['~', '/']);
    if starts_with_exec(raw, &tilde_slash) {
        let rest = slice_chars(raw, 2, raw.len());
        join_chars(home, &rest)
    } else if raw.len() == 1 && raw[0] == '~' {
        assert(raw@ =~= seq!['~']);
        let mut r: Vec<char> = Vec::new();
        push_all(&mut r, home);
        assert(r@ =~= home@);
        r
    } else {
        proof {
            if raw@ == seq!['~'] {
                assert(raw.len() == 1 && raw@[0] == '~');
            }
        }
        let mut r: Vec<char> = Vec::new();
        push_all(&mut r, raw);
        assert(r@ =~= raw@);
        r
    }
}

/// Expands a leading `~` in `raw` against `home`.
pub fn expand_home(raw: &str, home: &str) -> (r: String)
    ensures
        r@ == expand_spec(raw@, home@),
{
    let rv = chars_of(raw);
    let hv = chars_of(home);
    let e = expand_chars(&rv, &hv);
    string_of(&e)
}

/// `base` joined with `p`, as `Path::join` does it.
pub fn join_path(base: &str, p: &str) -> (r: String)
    ensures
        r@ == join_spec(base@, p@),
{
    let b = chars_of(base);
    let q = chars_of(p);
    let j = join_chars(&b, &q);
    string_of(&j)
}

/// `path` relative to `root`, for a path found by walking `root`: the text
/// after `root` and the separator that follows it (the path itself when it
/// does not lie under `root`).
pub open spec fn relative_spec(root: Seq<char>, path: Seq<char>) -> Seq<char> {
    if starts_with_text(path, root) {
        let rest = path.subrange(root.len() as int, path.len() as int);
        if rest.len() > 0 && rest[0] == '/' {
            rest.subrange(1, rest.len() as int)
        } else {
            rest
        }
    } else {
        path
    }
}

pub fn relative_to(root: &str, path: &str) -> (r: String)
    ensures
        r@ == relative_spec(root@, path@),
{
    let rv = chars_of(root);
    let pv = chars_of(path);
    if starts_with_exec(&pv, &rv) {
        let rest = slice_chars(&pv, rv.len(), pv.len());
        if rest.len() > 0 && rest[0] == '/' {
            let r = slice_chars(&rest, 1, rest.len());
            string_of(&r)
        } else {
            string_of(&rest)
        }
    } else {
        string_of(&pv)
    }
}

/// A file placed at a relative path below a root is found again there by
/// [`relative_spec`]: what a snapshot holds under a key is restored to the
/// root joined with that key, and reading that file back gives the same key.
pub proof fn lemma_relative_of_join(root: Seq<char>, key: Seq<char>)
    requires
        key.len() == 0 || key[0] != '/',
    ensures
        relative_spec(root, join_spec(root, key)) == key,
{
    let joined = join_spec(root, key);
    assert(joined.subrange(0, root.len() as int) =~= root);
    let rest = joined.subrange(root.len() as int, joined.len() as int);
    if root.len() > 0 && root.last() != '/' {
        assert(rest =~= seq!['/'] + key);
        assert(rest.subrange(1, rest.len() as int) =~= key);
    } else {
        assert(rest =~= key);
    }
}

} // verus!
