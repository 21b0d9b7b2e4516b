use dotfiledesk_core::snippets::{apply, CatalogEntry, SnippetCatalog, SnippetFormat, SnippetSuggestion};

fn text(label: &str, snippet: &str) -> SnippetSuggestion {
    SnippetSuggestion {
        label: label.to_string(),
        description: String::new(),
        snippet: snippet.to_string(),
        format: SnippetFormat::Text,
    }
}

fn format_on_save() -> SnippetSuggestion {
    SnippetSuggestion {
        label: "Format on save".to_string(),
        description: "Formats the file every time it is saved.".to_string(),
        snippet: "{\"editor.formatOnSave\": true}".to_string(),
        format: SnippetFormat::JsonObject,
    }
}

/// A small catalog standing in for the built-in one.
fn catalog() -> SnippetCatalog {
    SnippetCatalog::new(vec![
        CatalogEntry {
            definition_id: "zsh".to_string(),
            suggestions: vec![
                text("Larger history", "HISTSIZE=10000\nSAVEHIST=10000\n"),
                text("Share history", "setopt SHARE_HISTORY\n"),
            ],
        },
        CatalogEntry {
            definition_id: "vscode_settings".to_string(),
            suggestions: vec![format_on_save()],
        },
    ])
}

#[test]
fn suggests_and_then_filters_out_once_present() {
    let catalog = catalog();
    let before = catalog.suggestions_for("zsh", "export FOO=bar\n");
    assert!(!before.is_empty());

    let first = &before[0];
    let after_content = format!("export FOO=bar\n{}", first.snippet);
    let after = catalog.suggestions_for("zsh", &after_content);
    assert!(after.iter().all(|s| s.label != first.label));
}

#[test]
fn unknown_definition_has_no_suggestions() {
    let catalog = catalog();
    assert!(catalog.suggestions_for("not_a_real_definition", "").is_empty());
}

#[test]
fn text_snippets_are_appended_with_a_leading_newline_if_needed() {
    let suggestion = SnippetSuggestion {
        label: "Test".into(),
        description: "".into(),
        snippet: "export FOO=bar\n".into(),
        format: SnippetFormat::Text,
    };
    assert_eq!(apply(&suggestion, "").unwrap(), "export FOO=bar\n");
    assert_eq!(apply(&suggestion, "export BAZ=qux\n").unwrap(), "export BAZ=qux\nexport FOO=bar\n");
    assert_eq!(apply(&suggestion, "export BAZ=qux").unwrap(), "export BAZ=qux\nexport FOO=bar\n");
}

#[test]
fn json_object_snippets_merge_without_overwriting_existing_keys() {
    let catalog = catalog();
    let suggestion = catalog.find("vscode_settings", "Format on save").unwrap();

    let merged = apply(suggestion, "{\n  \"editor.tabSize\": 4\n}").unwrap();
    let parsed: serde_json::Value = serde_json::from_str(&merged).unwrap();
    assert_eq!(parsed["editor.tabSize"], 4);
    assert_eq!(parsed["editor.formatOnSave"], true);

    // Applying to an empty file starts from `{}` instead of failing.
    let from_empty = apply(suggestion, "").unwrap();
    let parsed_empty: serde_json::Value = serde_json::from_str(&from_empty).unwrap();
    assert_eq!(parsed_empty["editor.formatOnSave"], true);

    // An existing, different value for the same key is preserved.
    let existing = "{\"editor.formatOnSave\": false}";
    let merged_existing = apply(suggestion, existing).unwrap();
    let parsed_existing: serde_json::Value = serde_json::from_str(&merged_existing).unwrap();
    assert_eq!(parsed_existing["editor.formatOnSave"], false);
}

#[test]
fn json_object_suggestion_disappears_once_its_keys_exist() {
    let catalog = catalog();
    let before = catalog.suggestions_for("vscode_settings", "{}");
    assert!(before.iter().any(|s| s.label == "Format on save"));

    let after = catalog.suggestions_for("vscode_settings", "{\"editor.formatOnSave\": false}");
    assert!(after.iter().all(|s| s.label != "Format on save"));
}

#[test]
fn invalid_existing_json_produces_a_clear_error_instead_of_corrupting_the_file() {
    let catalog = catalog();
    let suggestion = catalog.find("vscode_settings", "Format on save").unwrap();
    let result = apply(suggestion, "{ not valid json");
    assert!(result.is_err());
}

#[test]
fn json_merge_gives_pretty_printed_object_with_trailing_newline() {
    let merged = apply(&format_on_save(), "{\"a\": 1}").unwrap();
    assert_eq!(merged, "{\n  \"a\": 1,\n  \"editor.formatOnSave\": true\n}\n");
}

#[test]
fn json_snippet_on_a_non_object_file_is_refused_with_its_message() {
    let result = apply(&format_on_save(), "[1, 2]");
    assert_eq!(result.unwrap_err(), "this suggestion or file isn't a JSON object");
}

#[test]
fn invalid_json_error_names_the_problem() {
    let message = apply(&format_on_save(), "{ not valid json").unwrap_err();
    assert!(message.starts_with("this file isn't valid JSON, so a suggestion can't be merged in: "));
    assert!(message.len() > "this file isn't valid JSON, so a suggestion can't be merged in: ".len());
}

#[test]
fn blank_file_counts_as_an_empty_object() {
    let merged = apply(&format_on_save(), "  \n").unwrap();
    assert_eq!(merged, "{\n  \"editor.formatOnSave\": true\n}\n");
}

#[test]
fn text_already_present_is_filtered_even_with_surrounding_space() {
    let catalog = catalog();
    let content = "# mine\nsetopt SHARE_HISTORY\n# more\n";
    let left = catalog.suggestions_for("zsh", content);
    assert_eq!(left.len(), 1);
    assert_eq!(left[0].label, "Larger history");
}

#[test]
fn find_looks_up_by_label_within_the_definition() {
    let catalog = catalog();
    assert!(catalog.find("zsh", "Share history").is_some());
    assert!(catalog.find("zsh", "Format on save").is_none());
    assert!(catalog.find("unknown", "Share history").is_none());
}

#[test]
fn find_returns_the_first_suggestion_with_the_label() {
    let catalog = SnippetCatalog::new(vec![
        CatalogEntry { definition_id: "zsh".to_string(), suggestions: vec![text("Other", "a\n"), text("Twice", "first\n"), text("Twice", "second\n")] },
        CatalogEntry { definition_id: "zsh".to_string(), suggestions: vec![text("Later", "later\n")] },
    ]);
    assert_eq!(catalog.find("zsh", "Twice").unwrap().snippet, "first\n");
    assert!(catalog.find("zsh", "Later").is_none());
    assert!(catalog.find("bash", "Twice").is_none());
}

#[test]
fn checked_catalogs_refuse_invalid_json_suggestions() {
    let good = SnippetSuggestion {
        label: "Format on save".to_string(),
        description: String::new(),
        snippet: "{\"editor.formatOnSave\": true}".to_string(),
        format: SnippetFormat::JsonObject,
    };
    let bad = SnippetSuggestion { label: "Broken".to_string(), description: String::new(), snippet: "{oops".to_string(), format: SnippetFormat::JsonObject };
    let plain = SnippetSuggestion { label: "Text".to_string(), description: String::new(), snippet: "{oops".to_string(), format: SnippetFormat::Text };
    assert!(SnippetCatalog::checked(vec![CatalogEntry { definition_id: "a".to_string(), suggestions: vec![good, plain] }]).is_some());
    assert!(SnippetCatalog::checked(vec![CatalogEntry { definition_id: "a".to_string(), suggestions: vec![bad] }]).is_none());
}
