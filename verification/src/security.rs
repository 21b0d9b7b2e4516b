//! Sensitivity classification, the private-key block list, and the names
//! skipped when a directory configuration is copied or compared.

use vstd::prelude::*;
use crate::models::Sensitivity;
use crate::paths::{extension, extension_spec, file_name, file_name_spec};
use crate::text::{
    chars_eq, chars_of, contains_exec, contains_text, ends_with_exec, ends_with_text, lower_chars,
    lower_text, slice_chars,
};

verus! {

/// File names that are always private keys (`id_rsa.pub` and the like are
/// public keys and do not match).
pub open spec fn private_key_stems() -> Seq<Seq<char>> {
    seq!["id_rsa"@, "id_ed25519"@, "id_ecdsa"@, "id_dsa"@]
}

/// Extensions (compared in ASCII lower case) that mark a private key.
pub open spec fn private_key_extensions() -> Seq<Seq<char>> {
    seq!["pem"@, "key"@, "ppk"@]
}

/// Fragments of a lower-cased path that hint at credentials.
pub open spec fn secret_hints() -> Seq<Seq<char>> {
    seq!["credentials"@, "credential"@, ".env"@, "token"@, "secret"@, ".npmrc"@, ".netrc"@]
}

/// Names skipped when a directory configuration is copied or compared. A
/// leading `*` matches any name that ends with the rest of the pattern.
pub open spec fn directory_ignore_patterns() -> Seq<Seq<char>> {
    seq![
        ".git"@,
        ".DS_Store"@,
        "node_modules"@,
        "__pycache__"@,
        ".cache"@,
        "*.log"@,
        "*.swp"@,
        "*.tmp"@,
    ]
}

/// A path names a private key: its file name is one of the key stems, or its
/// extension, lower-cased, is one of the key extensions.
pub open spec fn is_private_key_spec(p: Seq<char>) -> bool {
    ||| (file_name_spec(p) matches Some(n) && private_key_stems().contains(n))
    ||| (extension_spec(p) matches Some(e) && private_key_extensions().contains(lower_text(e)))
}

/// The lower-cased path holds `/.ssh/` or one of the secret hints.
pub open spec fn has_secret_hint(p: Seq<char>) -> bool {
    let lower = lower_text(p);
    ||| contains_text(lower, "/.ssh/"@)
    ||| exists|i: int| 0 <= i < secret_hints().len() && contains_text(lower, #[trigger] secret_hints()[i])
}

/// Sensitivity of a path that has no catalog entry.
pub open spec fn classify_spec(p: Seq<char>) -> Sensitivity {
    if is_private_key_spec(p) {
        Sensitivity::HighlySensitive
    } else if has_secret_hint(p) {
        Sensitivity::PotentialSecret
    } else {
        Sensitivity::Normal
    }
}

/// A name matches one ignore pattern.
pub open spec fn pattern_matches(pattern: Seq<char>, name: Seq<char>) -> bool {
    if pattern.len() > 0 && pattern[0] == '*' {
        ends_with_text(name, pattern.subrange(1, pattern.len() as int))
    } else {
        name == pattern
    }
}

/// A directory entry name is skipped.
pub open spec fn is_ignored_spec(name: Seq<char>) -> bool {
    exists|i: int|
        0 <= i < directory_ignore_patterns().len() && pattern_matches(
            #[trigger] directory_ignore_patterns()[i],
            name,
        )
}

/// The views of a list of character vectors.
pub open spec fn views_of(list: Seq<Vec<char>>) -> Seq<Seq<char>> {
    list.map_values(|v: Vec<char>| v@)
}

fn stem_list() -> (r: Vec<Vec<char>>)
    ensures
        views_of(r@) == private_key_stems(),
{
    let r = vec![chars_of("id_rsa"), chars_of("id_ed25519"), chars_of("id_ecdsa"), chars_of("id_dsa")];
    assert(views_of(r@) =~= private_key_stems());
    r
}

fn extension_list() -> (r: Vec<Vec<char>>)
    ensures
        views_of(r@) == private_key_extensions(),
{
    let r = vec![chars_of("pem"), chars_of("key"), chars_of("ppk")];
    assert(views_of(r@) =~= private_key_extensions());
    r
}

fn hint_list() -> (r: Vec<Vec<char>>)
    ensures
        views_of(r@) == secret_hints(),
{
    let r = vec![
        chars_of("credentials"),
        chars_of("credential"),
        chars_of(".env"),
        chars_of("token"),
        chars_of("secret"),
        chars_of(".npmrc"),
        chars_of(".netrc"),
    ];
    assert(views_of(r@) =~= secret_hints());
    r
}

fn ignore_pattern_list() -> (r: Vec<Vec<char>>)
    ensures
        views_of(r@) == directory_ignore_patterns(),
{
    let r = vec![
        chars_of(".git"),
        chars_of(".DS_Store"),
        chars_of("node_modules"),
        chars_of("__pycache__"),
        chars_of(".cache"),
        chars_of("*.log"),
        chars_of("*.swp"),
        chars_of("*.tmp"),
    ];
    assert(views_of(r@) =~= directory_ignore_patterns());
    r
}

/// Whether `x` is one of the entries of `list`.
fn member(list: &Vec<Vec<char>>, x: &Vec<char>) -> (r: bool)
    ensures
        r == views_of(list@).contains(x@),
{
    let mut i: usize = 0;
    while i < list.len()
        invariant
            i <= list.len(),
            forall|k: int| 0 <= k < i ==> list@[k]@ != x@,
        decreases list.len() - i,
    {
        if chars_eq(&list[i], x) {
            assert(views_of(list@)[i as int] == x@);
            return true;
        }
        i = i + 1;
    }
    assert forall|k: int| 0 <= k < views_of(list@).len() implies views_of(list@)[k] != x@ by {
        assert(views_of(list@)[k] == list@[k]@);
    }
    false
}

/// True if `path` looks like a private key file. Such files are refused for
/// tracking even when a user adds them as a custom configuration.
pub fn is_private_key(path: &str) -> (r: bool)
    ensures
        r == is_private_key_spec(path@),
{
    let p = chars_of(path);
    if let Some(name) = file_name(&p) {
        let stems = stem_list();
        if member(&stems, &name) {
            return true;
        }
    }
    if let Some(ext) = extension(&p) {
        let lower = lower_chars(&ext);
        let exts = extension_list();
        if member(&exts, &lower) {
            return true;
        }
    }
    false
}

/// Best-effort sensitivity classification for a path that has no catalog
/// entry (a user-added custom configuration).
pub fn classify_path(path: &str) -> (r: Sensitivity)
    ensures
        r == classify_spec(path@),
        is_private_key_spec(path@) ==> r == Sensitivity::HighlySensitive,
{
    if is_private_key(path) {
        return Sensitivity::HighlySensitive;
    }
    let p = chars_of(path);
    let lower = lower_chars(&p);
    let ssh = chars_of("/.ssh/");
    if contains_exec(&lower, &ssh) {
        return Sensitivity::PotentialSecret;
    }
    let hints = hint_list();
    let mut i: usize = 0;
    while i < hints.len()
        invariant
            i <= hints.len(),
            views_of(hints@) == secret_hints(),
            lower@ == lower_text(path@),
            p@ == path@,
            !is_private_key_spec(path@),
            !contains_text(lower_text(path@), "/.ssh/"@),
            forall|k: int| 0 <= k < i ==> !contains_text(lower@, #[trigger] secret_hints()[k]),
        decreases hints.len() - i,
    {
        assert(hints@[i as int]@ == secret_hints()[i as int]);
        if contains_exec(&lower, &hints[i]) {
            return Sensitivity::PotentialSecret;
        }
        i = i + 1;
    }
    Sensitivity::Normal
}

/// Whether a directory entry name is skipped when a directory configuration
/// is copied or compared.
pub fn is_ignored_entry(name: &str) -> (r: bool)
    ensures
        r == is_ignored_spec(name@),
{
    let n = chars_of(name);
    let patterns = ignore_pattern_list();
    let mut i: usize = 0;
    while i < patterns.len()
        invariant
            i <= patterns.len(),
            views_of(patterns@) == directory_ignore_patterns(),
            n@ == name@,
            forall|k: int| 0 <= k < i ==> !pattern_matches(#[trigger] directory_ignore_patterns()[k], name@),
        decreases patterns.len() - i,
    {
        let pat = &patterns[i];
        assert(pat@ == directory_ignore_patterns()[i as int]);
        let matched = if pat.len() > 0 && pat[0] == '*' {
            let suffix = slice_chars(pat, 1, pat.len());
            ends_with_exec(&n, &suffix)
        } else {
            chars_eq(&n, pat)
        };
        if matched {
            return true;
        }
        i = i + 1;
    }
    false
}

} // verus!
