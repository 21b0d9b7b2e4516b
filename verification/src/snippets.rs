//! Suggested content for a file that is already managed: each catalog
//! entry lists blocks to add. A `Text` suggestion is appended at the end of
//! the file; a `JsonObject` suggestion is a JSON object whose members are
//! merged into the file's own JSON object without overwriting any key the
//! file already has.

use vstd::prelude::*;
use crate::json::{
    json_empty_object, json_error_text, json_insert, json_member, json_members, json_object_keys,
    json_parse, json_parse_view, json_pretty_object, json_text, json_to_pretty,
};
use crate::text::{
    chars_eq, chars_of, concat, contains_exec, contains_text, lemma_trim_is_piece, occurs_at,
    starts_with_text, text_eq, trim_chars, trim_text,
};

verus! {

/// How a suggestion's `snippet` is inserted.
#[derive(Debug, Clone, Copy, PartialEq, Eq, Structural)]
pub enum SnippetFormat {
    /// Appended verbatim at the end of the file (after a line break if the
    /// file does not already end with one).
    Text,
    /// A JSON object whose members are added to the file's JSON object,
    /// keys the file already has left as they are.
    JsonObject,
}

impl Default for SnippetFormat {
    fn default() -> (r: SnippetFormat)
        ensures
            r == SnippetFormat::Text,
    {
        SnippetFormat::Text
    }
}

/// One suggested block of content for a kind of file.
#[derive(Debug)]
pub struct SnippetSuggestion {
    pub label: String,
    /// What the snippet does and why one would want it.
    pub description: String,
    pub snippet: String,
    pub format: SnippetFormat,
}

/// The view of a suggestion.
pub open spec fn suggestion_view(s: SnippetSuggestion) -> (Seq<char>, Seq<char>, Seq<char>, SnippetFormat) {
    (s.label@, s.description@, s.snippet@, s.format)
}

/// The views of a list of suggestions.
pub open spec fn suggestion_views(list: Seq<SnippetSuggestion>) -> Seq<(Seq<char>, Seq<char>, Seq<char>, SnippetFormat)> {
    list.map_values(|s: SnippetSuggestion| suggestion_view(s))
}

/// The suggestions of `list`, in order, that are not already in `content`.
pub open spec fn still_missing(list: Seq<SnippetSuggestion>, content: Seq<char>) -> Seq<SnippetSuggestion> {
    list.filter(|s: SnippetSuggestion| !already_present_spec(s, content))
}

impl Clone for SnippetSuggestion {
    fn clone(&self) -> (r: SnippetSuggestion)
        ensures
            suggestion_view(r) == suggestion_view(*self),
    {
        SnippetSuggestion {
            label: self.label.clone(),
            description: self.description.clone(),
            snippet: self.snippet.clone(),
            format: self.format,
        }
    }
}

/// The suggestions for one catalog definition.
#[derive(Debug)]
pub struct CatalogEntry {
    pub definition_id: String,
    pub suggestions: Vec<SnippetSuggestion>,
}

/// A suggestion can be applied: a `JsonObject` snippet is valid JSON.
pub open spec fn applicable(s: SnippetSuggestion) -> bool {
    s.format == SnippetFormat::JsonObject ==> json_parse_view(s.snippet@) is Some
}

/// Whether `s` can be applied: a JSON suggestion must be valid JSON.
pub fn is_applicable(s: &SnippetSuggestion) -> (r: bool)
    ensures
        r == applicable(*s),
{
    match s.format {
        SnippetFormat::JsonObject => match json_parse(s.snippet.as_str()) {
            Ok(_) => true,
            Err(_) => false,
        },
        SnippetFormat::Text => true,
    }
}

/// Every suggestion of every entry can be applied.
pub open spec fn entries_applicable(entries: Seq<CatalogEntry>) -> bool {
    forall|e: int, j: int|
        0 <= e < entries.len() && 0 <= j < entries[e].suggestions@.len() ==> applicable(
            #[trigger] entries[e].suggestions@[j],
        )
}

/// Entry `i` is the first one for `id`.
pub open spec fn first_entry_for(entries: Seq<CatalogEntry>, id: Seq<char>, i: int) -> bool {
    &&& 0 <= i < entries.len()
    &&& entries[i].definition_id@ == id
    &&& forall|k: int| 0 <= k < i ==> (#[trigger] entries[k]).definition_id@ != id
}

/// Suggestion `j` is the first of `list` labelled `label`.
pub open spec fn first_labelled(list: Seq<SnippetSuggestion>, label: Seq<char>, j: int) -> bool {
    &&& 0 <= j < list.len()
    &&& list[j].label@ == label
    &&& forall|k: int| 0 <= k < j ==> (#[trigger] list[k]).label@ != label
}

/// `r` lists the suggestions of the first entry for `id` that are not
/// already in `content`; nothing when no entry is for `id`.
pub open spec fn suggested_for(entries: Seq<CatalogEntry>, id: Seq<char>, content: Seq<char>, r: Seq<SnippetSuggestion>) -> bool {
    if no_entry_for(entries, id) {
        r.len() == 0
    } else {
        forall|i: int| #[trigger] first_entry_for(entries, id, i) ==> suggestion_views(r)
            == suggestion_views(still_missing(entries[i].suggestions@, content))
    }
}

/// No entry is for `id`.
pub open spec fn no_entry_for(entries: Seq<CatalogEntry>, id: Seq<char>) -> bool {
    forall|k: int| 0 <= k < entries.len() ==> (#[trigger] entries[k]).definition_id@ != id
}

/// The members `content` starts from when a JSON suggestion is merged in:
/// none for a blank file, otherwise what parsing it gives.
pub open spec fn json_base(content: Seq<char>) -> Option<Option<Map<Seq<char>, Seq<char>>>> {
    if trim_text(content).len() == 0 {
        Some(Some(Map::empty()))
    } else {
        json_parse_view(content)
    }
}

/// A suggestion is already effectively in `content`: a `Text` snippet's
/// trimmed text occurs in it, or every key of a `JsonObject` snippet is a
/// key of the object `content` holds.
pub open spec fn already_present_spec(s: SnippetSuggestion, content: Seq<char>) -> bool {
    match s.format {
        SnippetFormat::Text => contains_text(content, trim_text(s.snippet@)),
        SnippetFormat::JsonObject => match (json_parse_view(s.snippet@), json_parse_view(content)) {
            (Some(Some(a)), Some(Some(c))) => a.dom().subset_of(c.dom()),
            _ => false,
        },
    }
}

/// The text a `Text` suggestion gives: the file, a line break if the file
/// is not empty and does not end with one, then the snippet.
pub open spec fn appended(content: Seq<char>, snippet: Seq<char>) -> Seq<char> {
    if content.len() > 0 && content.last() != '\n' {
        content + seq!['\n'] + snippet
    } else {
        content + snippet
    }
}

/// The members after merging `addition` into `base`: all of both, with
/// `base`'s value wherever both have a key.
pub open spec fn merged_members(base: Map<Seq<char>, Seq<char>>, addition: Map<Seq<char>, Seq<char>>) -> Map<Seq<char>, Seq<char>> {
    addition.union_prefer_right(base)
}

/// Message for content that is not valid JSON (followed by the parser's own words).
pub open spec fn invalid_json_message() -> Seq<char> {
    "this file isn't valid JSON, so a suggestion can't be merged in: "@
}

/// Message for a file or suggestion that is not a JSON object.
pub open spec fn not_object_message() -> Seq<char> {
    "this suggestion or file isn't a JSON object"@
}

/// What applying `s` to `content` gives.
pub open spec fn apply_outcome(s: SnippetSuggestion, content: Seq<char>, r: Result<String, String>) -> bool {
    match s.format {
        SnippetFormat::Text => r matches Ok(t) && t@ == appended(content, s.snippet@),
        SnippetFormat::JsonObject => match json_base(content) {
            None => r matches Err(m) && starts_with_text(m@, invalid_json_message()),
            Some(None) => r matches Err(m) && m@ == not_object_message(),
            Some(Some(b)) => match json_parse_view(s.snippet@) {
                Some(Some(a)) => r matches Ok(t) && t@ == json_pretty_object(merged_members(b, a)) + seq!['\n'],
                _ => r matches Err(m) && m@ == not_object_message(),
            },
        },
    }
}

/// Whether `s` is already effectively in `current_content`.
pub fn already_present(s: &SnippetSuggestion, current_content: &str) -> (r: bool)
    ensures
        r == already_present_spec(*s, current_content@),
{
    match s.format {
        SnippetFormat::Text => {
            let snip = chars_of(s.snippet.as_str());
            let trimmed = trim_chars(&snip);
            let content = chars_of(current_content);
            contains_exec(&content, &trimmed)
        },
        SnippetFormat::JsonObject => {
            let addition = match json_parse(s.snippet.as_str()) {
                Ok(v) => v,
                Err(_) => {
                    return false;
                },
            };
            let current = match json_parse(current_content) {
                Ok(v) => v,
                Err(_) => {
                    return false;
                },
            };
            let keys = match json_object_keys(&addition) {
                Some(k) => k,
                None => {
                    return false;
                },
            };
            if json_object_keys(&current).is_none() {
                return false;
            }
            let ghost a = json_members(addition)->0;
            let ghost c = json_members(current)->0;
            assert(json_parse_view(s.snippet@) == Some(Some(a)));
            assert(json_parse_view(current_content@) == Some(Some(c)));
            let mut i: usize = 0;
            while i < keys.len()
                invariant
                    i <= keys.len(),
                    s.format == SnippetFormat::JsonObject,
                    json_parse_view(s.snippet@) == Some(Some(a)),
                    json_parse_view(current_content@) == Some(Some(c)),
                    json_members(addition) == Some(a),
                    json_members(current) == Some(c),
                    forall|k: Seq<char>| #[trigger] a.dom().contains(k) <==> exists|j: int|
                        0 <= j < keys.len() && (#[trigger] keys@[j])@ == k,
                    forall|j: int| 0 <= j < i ==> c.dom().contains((#[trigger] keys@[j])@),
                decreases keys.len() - i,
            {
                if json_member(&current, keys[i].as_str()).is_none() {
                    assert(a.dom().contains(keys@[i as int]@));
                    return false;
                }
                i = i + 1;
            }
            assert(a.dom().subset_of(c.dom())) by {
                assert forall|k: Seq<char>| a.dom().contains(k) implies c.dom().contains(k) by {
                    let j = choose|j: int| 0 <= j < keys.len() && (#[trigger] keys@[j])@ == k;
                }
            }
            true
        },
    }
}

/// Applies `suggestion` to `current_content` and returns the new content of
/// the whole file. Nothing is written anywhere.
pub fn apply(suggestion: &SnippetSuggestion, current_content: &str) -> (r: Result<String, String>)
    requires
        applicable(*suggestion),
    ensures
        apply_outcome(*suggestion, current_content@, r),
{
    match suggestion.format {
        SnippetFormat::Text => {
            let content = chars_of(current_content);
            let needs_newline = content.len() > 0 && content[content.len() - 1] != '\n';
            let start = if needs_newline {
                concat(current_content, "\n")
            } else {
                concat(current_content, "")
            };
            proof {
                reveal_strlit("\n");
                reveal_strlit("");
                assert(content@.len() > 0 ==> content@.last() == content@[content@.len() - 1]);
            }
            let r = concat(start.as_str(), suggestion.snippet.as_str());
            proof {
                if needs_newline {
                    assert("\n"@ =~= seq!['\n']);
                } else {
                    assert(""@ =~= Seq::<char>::empty());
                    assert(start@ =~= current_content@);
                }
            }
            Ok(r)
        },
        SnippetFormat::JsonObject => {
            let text = chars_of(current_content);
            let trimmed = trim_chars(&text);
            assert(trimmed@ == trim_text(current_content@));
            let mut base = if trimmed.len() == 0 {
                json_empty_object()
            } else {
                match json_parse(current_content) {
                    Ok(v) => v,
                    Err(e) => {
                        let detail = json_error_text(&e);
                        let msg = concat(
                            "this file isn't valid JSON, so a suggestion can't be merged in: ",
                            detail.as_str(),
                        );
                        assert(msg@.subrange(0, invalid_json_message().len() as int) =~= invalid_json_message());
                        assert(json_base(current_content@) is None);
                        return Err(msg);
                    },
                }
            };
            let addition = match json_parse(suggestion.snippet.as_str()) {
                Ok(v) => v,
                Err(_) => {
                    // `applicable` rules this out.
                    return Err("this suggestion or file isn't a JSON object".to_owned());
                },
            };
            assert(json_base(current_content@) == Some(json_members(base)));
            assert(json_parse_view(suggestion.snippet@) == Some(json_members(addition)));
            let keys = match (json_object_keys(&base), json_object_keys(&addition)) {
                (Some(_), Some(keys)) => keys,
                _ => {
                    return Err("this suggestion or file isn't a JSON object".to_owned());
                },
            };
            let ghost b0 = json_members(base)->0;
            let ghost a = json_members(addition)->0;
            assert(json_base(current_content@) == Some(Some(b0)));
            assert(json_parse_view(suggestion.snippet@) == Some(Some(a)));
            let mut i: usize = 0;
            while i < keys.len()
                invariant
                    i <= keys.len(),
                    json_members(addition) == Some(a),
                    json_members(base) is Some,
                    forall|x: int, y: int| 0 <= x < y < keys.len() ==> keys@[x]@ != keys@[y]@,
                    forall|k: Seq<char>| #[trigger] a.dom().contains(k) <==> exists|j: int|
                        0 <= j < keys.len() && (#[trigger] keys@[j])@ == k,
                    json_members(base)->0 == a.restrict(Set::new(|k: Seq<char>| exists|j: int|
                        0 <= j < i && (#[trigger] keys@[j])@ == k)).union_prefer_right(b0),
                decreases keys.len() - i,
            {
                let key = &keys[i];
                let ghost before = json_members(base)->0;
                let ghost done = Set::new(|k: Seq<char>| exists|j: int| 0 <= j < i && (#[trigger] keys@[j])@ == k);
                let ghost done2 = Set::new(|k: Seq<char>| exists|j: int| 0 <= j < i + 1 && (#[trigger] keys@[j])@ == k);
                assert(a.dom().contains(key@));
                assert(!done.contains(key@)) by {
                    if done.contains(key@) {
                        let j = choose|j: int| 0 <= j < i && (#[trigger] keys@[j])@ == key@;
                    }
                }
                assert(done2 =~= done.insert(key@)) by {
                    assert forall|k: Seq<char>| done2.contains(k) implies done.insert(key@).contains(k) by {
                        let j = choose|j: int| 0 <= j < i + 1 && (#[trigger] keys@[j])@ == k;
                        if j < i {
                            assert(done.contains(k));
                        }
                    }
                    assert forall|k: Seq<char>| done.insert(key@).contains(k) implies done2.contains(k) by {
                        if k != key@ {
                            let j = choose|j: int| 0 <= j < i && (#[trigger] keys@[j])@ == k;
                            assert(0 <= j < i + 1 && keys@[j]@ == k);
                        } else {
                            assert(keys@[i as int]@ == k);
                        }
                    }
                }
                match json_member(&base, key.as_str()) {
                    Some(_) => {
                        assert(b0.dom().contains(key@));
                        assert(json_members(base)->0 =~= a.restrict(done2).union_prefer_right(b0));
                    },
                    None => {
                        assert(!b0.dom().contains(key@));
                        let found = json_member(&addition, key.as_str());
                        assert(found is Some);
                        let value = match found {
                            Some(v) => v,
                            None => json_empty_object(),
                        };
                        json_insert(&mut base, key.clone(), value);
                        assert(json_members(base)->0 =~= a.restrict(done2).union_prefer_right(b0));
                    },
                }
                i = i + 1;
            }
            assert(i == keys.len());
            let ghost all = Set::new(|k: Seq<char>| exists|j: int| 0 <= j < i && (#[trigger] keys@[j])@ == k);
            assert(a.restrict(all) =~= a);
            assert(json_members(base)->0 == a.restrict(all).union_prefer_right(b0));
            assert(json_members(base)->0 =~= merged_members(b0, a));
            match json_to_pretty(&base) {
                Ok(text) => {
                    let r = concat(text.as_str(), "\n");
                    proof {
                        reveal_strlit("\n");
                        assert("\n"@ =~= seq!['\n']);
                    }
                    Ok(r)
                },
                Err(e) => {
                    // writing a JSON object does not fail
                    Err(json_error_text(&e))
                },
            }
        },
    }
}

/// The catalog of snippet suggestions.
pub struct SnippetCatalog {
    entries: Vec<CatalogEntry>,
}

impl SnippetCatalog {
    #[verifier::type_invariant]
    closed spec fn inv(self) -> bool {
        entries_applicable(self.entries@)
    }

    pub closed spec fn entries_view(self) -> Seq<CatalogEntry> {
        self.entries@
    }

    /// A catalog of the given entries, each of whose JSON suggestions must
    /// be valid JSON.
    /// A catalog holding `entries`, when every JSON suggestion among them is
    /// valid JSON (see [`applicable`]); `None` otherwise.
    pub fn checked(entries: Vec<CatalogEntry>) -> (r: Option<SnippetCatalog>)
        ensures
            entries_applicable(entries@) <==> r is Some,
            r matches Some(c) ==> c.entries_view() == entries@,
    {
        let mut e: usize = 0;
        while e < entries.len()
            invariant
                e <= entries.len(),
                forall|a: int, j: int| 0 <= a < e && 0 <= j < entries@[a].suggestions@.len() ==> applicable(
                    #[trigger] entries@[a].suggestions@[j],
                ),
            decreases entries.len() - e,
        {
            let list = &entries[e].suggestions;
            let mut j: usize = 0;
            while j < list.len()
                invariant
                    e < entries.len(),
                    list@ == entries@[e as int].suggestions@,
                    j <= list.len(),
                    forall|a: int, k: int| 0 <= a < e && 0 <= k < entries@[a].suggestions@.len() ==> applicable(
                        #[trigger] entries@[a].suggestions@[k],
                    ),
                    forall|k: int| 0 <= k < j ==> applicable(#[trigger] list@[k]),
                decreases list.len() - j,
            {
                if !is_applicable(&list[j]) {
                    assert(!applicable(entries@[e as int].suggestions@[j as int]));
                    return None;
                }
                j = j + 1;
            }
            e = e + 1;
        }
        Some(SnippetCatalog::new(entries))
    }

    pub fn new(entries: Vec<CatalogEntry>) -> (r: SnippetCatalog)
        requires
            entries_applicable(entries@),
        ensures
            r.entries_view() == entries@,
    {
        SnippetCatalog { entries }
    }

    /// The position of the first entry for `definition_id`.
    fn entry_index(&self, definition_id: &str) -> (r: Option<usize>)
        ensures
            match r {
                Some(i) => first_entry_for(self.entries_view(), definition_id@, i as int),
                None => no_entry_for(self.entries_view(), definition_id@),
            },
    {
        let key = chars_of(definition_id);
        let mut i: usize = 0;
        while i < self.entries.len()
            invariant
                i <= self.entries@.len(),
                key@ == definition_id@,
                forall|k: int| 0 <= k < i ==> (#[trigger] self.entries@[k]).definition_id@ != definition_id@,
            decreases self.entries.len() - i,
        {
            let here = chars_of(self.entries[i].definition_id.as_str());
            if chars_eq(&here, &key) {
                return Some(i);
            }
            i = i + 1;
        }
        None
    }

    /// The suggestions for `definition_id` (from its first entry) that are
    /// not already effectively in `current_content`, in catalog order.
    pub fn suggestions_for(&self, definition_id: &str, current_content: &str) -> (r: Vec<SnippetSuggestion>)
        ensures
            no_entry_for(self.entries_view(), definition_id@) ==> r@.len() == 0,
            no_entry_for(self.entries_view(), definition_id@) || exists|i: int| #[trigger] first_entry_for(self.entries_view(), definition_id@, i),
            forall|i: int| #[trigger] first_entry_for(self.entries_view(), definition_id@, i) ==> suggestion_views(r@)
                == suggestion_views(still_missing(self.entries_view()[i].suggestions@, current_content@)),
    {
        let mut out: Vec<SnippetSuggestion> = Vec::new();
        let idx = match self.entry_index(definition_id) {
            Some(i) => i,
            None => {
                return out;
            },
        };
        let list = &self.entries[idx].suggestions;
        let mut j: usize = 0;
        while j < list.len()
            invariant
                j <= list@.len(),
                suggestion_views(out@) == suggestion_views(still_missing(list@.take(j as int), current_content@)),
            decreases list.len() - j,
        {
            let s = &list[j];
            let present = already_present(s, current_content);
            let ghost out_before = out@;
            assert(list@.take(j + 1).drop_last() =~= list@.take(j as int));
            assert(list@.take(j + 1).last() == *s);
            reveal_with_fuel(Seq::filter, 1);
            if !present {
                let c = SnippetSuggestion {
                    label: s.label.clone(),
                    description: s.description.clone(),
                    snippet: s.snippet.clone(),
                    format: s.format,
                };
                out.push(c);
                assert(still_missing(list@.take(j + 1), current_content@) == still_missing(list@.take(j as int), current_content@).push(*s));
                assert(suggestion_views(out@) =~= suggestion_views(out_before).push(suggestion_view(*s)));
                assert(suggestion_views(still_missing(list@.take(j as int), current_content@).push(*s)) =~= suggestion_views(still_missing(list@.take(j as int), current_content@)).push(suggestion_view(*s)));
            } else {
                assert(still_missing(list@.take(j + 1), current_content@) == still_missing(list@.take(j as int), current_content@));
            }
            j = j + 1;
        }
        assert(list@.take(list@.len() as int) =~= list@);
        proof {
            assert forall|i: int| #[trigger] first_entry_for(self.entries_view(), definition_id@, i) implies i == idx by {
                if i < idx {
                } else if i > idx {
                    assert(self.entries_view()[idx as int].definition_id@ == definition_id@);
                }
            }
        }
        out
    }

    /// The suggestion labelled `label` in the first entry for
    /// `definition_id` (labels are unique within an entry).
    pub fn find(&self, definition_id: &str, label: &str) -> (r: Option<&SnippetSuggestion>)
        ensures
            no_entry_for(self.entries_view(), definition_id@) ==> r is None,
            no_entry_for(self.entries_view(), definition_id@) || exists|i: int| #[trigger] first_entry_for(self.entries_view(), definition_id@, i),
            forall|i: int| #[trigger] first_entry_for(self.entries_view(), definition_id@, i) ==> match r {
                Some(s) => exists|j: int| #[trigger] first_labelled(self.entries_view()[i].suggestions@, label@, j)
                    && *s == self.entries_view()[i].suggestions@[j],
                None => forall|j: int|
                    0 <= j < self.entries_view()[i].suggestions@.len() ==> (
                    #[trigger] self.entries_view()[i].suggestions@[j]).label@ != label@,
            },
            r matches Some(s) ==> applicable(*s),
    {
        proof {
            use_type_invariant(self);
        }
        let idx = match self.entry_index(definition_id) {
            Some(i) => i,
            None => {
                return None;
            },
        };
        proof {
            assert forall|i: int| #[trigger] first_entry_for(self.entries_view(), definition_id@, i) implies i == idx by {
                if i > idx {
                    assert(self.entries_view()[idx as int].definition_id@ == definition_id@);
                }
            }
        }
        assert(self.entries_view()[idx as int].definition_id@ == definition_id@);
        let list = &self.entries[idx].suggestions;
        assert(list@ == self.entries_view()[idx as int].suggestions@);
        let mut j: usize = 0;
        while j < list.len()
            invariant
                j <= list@.len(),
                idx < self.entries_view().len(),
                list@ == self.entries_view()[idx as int].suggestions@,
                first_entry_for(self.entries_view(), definition_id@, idx as int),
                forall|i: int| #[trigger] first_entry_for(self.entries_view(), definition_id@, i) ==> i == idx,
                entries_applicable(self.entries_view()),
                forall|k: int| 0 <= k < j ==> (#[trigger] list@[k]).label@ != label@,
            decreases list.len() - j,
        {
            if text_eq(list[j].label.as_str(), label) {
                assert(first_labelled(list@, label@, j as int));
                assert(applicable(self.entries_view()[idx as int].suggestions@[j as int]));
                assert(list@[j as int] == self.entries_view()[idx as int].suggestions@[j as int]);
                assert(self.entries_view()[idx as int].definition_id@ == definition_id@);
                return Some(&list[j]);
            }
            j = j + 1;
        }
        None
    }
}

/// Applying a `Text` suggestion puts it in the file: right afterwards it is
/// no longer suggested.
pub proof fn lemma_text_applied_is_present(s: SnippetSuggestion, content: Seq<char>)
    requires
        s.format == SnippetFormat::Text,
    ensures
        already_present_spec(s, appended(content, s.snippet@)),
{
    lemma_trim_is_piece(s.snippet@);
    let (a, b) = choose|a: int, b: int| 0 <= a <= b <= s.snippet@.len() && trim_text(s.snippet@) == s.snippet@.subrange(a, b);
    let full = appended(content, s.snippet@);
    let offset = full.len() - s.snippet@.len();
    assert(full.subrange(offset, full.len() as int) =~= s.snippet@);
    assert(full.subrange(offset + a, offset + b) =~= s.snippet@.subrange(a, b));
    assert(occurs_at(full, trim_text(s.snippet@), offset + a));
}

/// Merging a JSON suggestion never changes a key the file already has, and
/// every key of the suggestion ends up in the result.
pub proof fn lemma_merge_keeps_existing_keys(base: Map<Seq<char>, Seq<char>>, addition: Map<Seq<char>, Seq<char>>)
    ensures
        forall|k: Seq<char>| #[trigger] base.dom().contains(k) ==> merged_members(base, addition).dom().contains(k)
            && merged_members(base, addition)[k] == base[k],
        addition.dom().subset_of(merged_members(base, addition).dom()),
{
}

} // verus!
