use dotfiledesk_core::disk::keep_walk_entry;
use dotfiledesk_core::models::Sensitivity;
use dotfiledesk_core::security::{classify_path, is_ignored_entry, is_private_key};

#[test]
fn detects_private_keys() {
    assert!(is_private_key("/home/u/.ssh/id_rsa"));
    assert!(is_private_key("/home/u/.ssh/id_ed25519"));
    assert!(is_private_key("/home/u/certs/server.pem"));
    assert!(!is_private_key("/home/u/.ssh/id_rsa.pub"));
    assert!(!is_private_key("/home/u/.zshrc"));
}

#[test]
fn classifies_secret_hints() {
    assert_eq!(classify_path("/home/u/.npmrc"), Sensitivity::PotentialSecret);
    assert_eq!(classify_path("/home/u/.ssh/config"), Sensitivity::PotentialSecret);
    assert_eq!(classify_path("/home/u/.zshrc"), Sensitivity::Normal);
}

#[test]
fn ignores_common_noise() {
    assert!(is_ignored_entry(".git"));
    assert!(is_ignored_entry("debug.log"));
    assert!(!is_ignored_entry("config"));
}

#[test]
fn walks_skip_ignored_names_and_keep_unreadable_ones() {
    assert!(!keep_walk_entry(Some("node_modules")));
    assert!(!keep_walk_entry(Some("vim.swp")));
    assert!(keep_walk_entry(Some("init.lua")));
    assert!(keep_walk_entry(None));
}

#[test]
fn private_keys_are_judged_by_name_and_extension() {
    assert!(is_private_key("/home/u/keys/SERVER.PEM"));
    assert!(is_private_key("/home/u/putty.ppk"));
    assert!(is_private_key("id_dsa"));
    assert!(!is_private_key("/home/u/.ssh/known_hosts"));
    assert!(!is_private_key("/home/u/key"));
    assert_eq!(classify_path("/home/u/.ssh/id_ecdsa"), Sensitivity::HighlySensitive);
    assert_eq!(classify_path("/home/u/.aws/Credentials"), Sensitivity::PotentialSecret);
    assert_eq!(classify_path("/home/u/project/.env.local"), Sensitivity::PotentialSecret);
}
