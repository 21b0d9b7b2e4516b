use dotfiledesk_core::models::Category;
use dotfiledesk_core::order::{compare_chars, sort_texts, TextOrder};
use dotfiledesk_core::paths::{expand_home, extension, file_name, join_path, relative_to};
use dotfiledesk_core::text::{contains_exec, lower_chars, text_eq, trim_chars};

fn chars(s: &str) -> Vec<char> {
    s.chars().collect()
}

fn text(v: &[char]) -> String {
    v.iter().collect()
}

#[test]
fn expansion_of_tilde_paths() {
    assert_eq!(expand_home("~/.zshrc", "/home/u"), "/home/u/.zshrc");
    assert_eq!(expand_home("~", "/home/u"), "/home/u");
    assert_eq!(expand_home("~/.config/nvim", "/home/u/"), "/home/u/.config/nvim");
    assert_eq!(expand_home("/etc/hosts", "/home/u"), "/etc/hosts");
    assert_eq!(expand_home("~user/x", "/home/u"), "~user/x");
    assert_eq!(expand_home("~//abs", "/home/u"), "/abs");
}

#[test]
fn joining_paths_as_path_join_does() {
    assert_eq!(join_path("/a", "b"), "/a/b");
    assert_eq!(join_path("/a/", "b"), "/a/b");
    assert_eq!(join_path("/a", "/b"), "/b");
    assert_eq!(join_path("", "b"), "b");
    assert_eq!(join_path("/a", ""), "/a/");
}

#[test]
fn relative_paths_below_a_root() {
    assert_eq!(relative_to("/h/nvim", "/h/nvim/lua/plugins.lua"), "lua/plugins.lua");
    assert_eq!(relative_to("/h/nvim", "/h/nvim"), "");
    assert_eq!(relative_to("/h/nvim", "/elsewhere/x"), "/elsewhere/x");
    let key = "lua/init.lua";
    assert_eq!(relative_to("/h/nvim", &join_path("/h/nvim", key)), key);
}

#[test]
fn file_names_and_extensions() {
    assert_eq!(file_name(&chars("/home/u/.zshrc")).map(|v| text(&v)), Some(".zshrc".to_string()));
    assert_eq!(file_name(&chars("/home/u/dir/")).map(|v| text(&v)), Some("dir".to_string()));
    assert_eq!(file_name(&chars("/")), None);
    assert_eq!(file_name(&chars("/home/..")), None);
    assert_eq!(extension(&chars("/c/server.pem")).map(|v| text(&v)), Some("pem".to_string()));
    assert_eq!(extension(&chars("/home/u/.zshrc")), None);
    assert_eq!(extension(&chars("/a/archive.tar.gz")).map(|v| text(&v)), Some("gz".to_string()));
}

#[test]
fn text_helpers() {
    assert!(text_eq("abc", "abc"));
    assert!(!text_eq("abc", "abd"));
    assert_eq!(text(&lower_chars(&chars("AbC.PEM"))), "abc.pem");
    assert!(contains_exec(&chars("/home/u/.ssh/config"), &chars("/.ssh/")));
    assert!(!contains_exec(&chars("/home/u/ssh"), &chars("/.ssh/")));
    assert_eq!(text(&trim_chars(&chars("  \texport A=1 \n"))), "export A=1");
    assert_eq!(text(&trim_chars(&chars(" \n "))), "");
}

#[test]
fn text_order_is_by_characters() {
    assert!(compare_chars(&chars("a"), &chars("b")) == TextOrder::Less);
    assert!(compare_chars(&chars("ab"), &chars("a")) == TextOrder::Greater);
    assert!(compare_chars(&chars("lua"), &chars("lua")) == TextOrder::Equal);
    assert!(compare_chars(&chars(""), &chars("a")) == TextOrder::Less);
    assert!(compare_chars(&chars("Z"), &chars("a")) == TextOrder::Less);
}

#[test]
fn category_labels() {
    assert_eq!(Category::PackageManagers.label(), "Package Managers");
    assert_eq!(Category::Ssh.label(), "SSH");
    assert_eq!(Category::DeveloperTools.label(), "Developer Tools");
}

#[test]
fn sorting_texts_by_character_order() {
    let mut v: Vec<String> = ["b/x", "b.conf", "a", "A", "a", ""].iter().map(|s| s.to_string()).collect();
    sort_texts(&mut v);
    assert_eq!(v, vec!["", "A", "a", "a", "b.conf", "b/x"]);
    let mut empty: Vec<String> = Vec::new();
    sort_texts(&mut empty);
    assert!(empty.is_empty());
}
