use backup_client::browse::{list_directory, sort_by_name, DirEntry, EntryKind};
use backup_client::config::{
    check_connection_name, generate_random_password, password_from_indices, DecryptConfig, NameError, RenameError,
    PASSWORD_CHARS, PASSWORD_CHARS_LEN,
};
use backup_client::decrypt_flow::{password_for_cli, CliPasswordError};
use backup_client::i18n::startup_language;

fn entry(name: &str, is_dir: bool) -> DirEntry {
    DirEntry { name: name.to_string(), path: format!("/r/{name}"), is_dir }
}

fn labels_of(entries: &[DirEntry], at_root: bool) -> Vec<String> {
    list_directory(&entries.to_vec(), at_root).labels
}

#[test]
fn listing_orders_folders_then_files_ignoring_case() {
    let entries = vec![
        entry("b", true),
        entry(".git", true),
        entry("Z.aes", false),
        entry("notes.txt", false),
        entry("A", true),
        entry("m.aes", false),
        entry(".hidden.aes", false),
        entry("C.AES", false),
    ];
    assert_eq!(
        labels_of(&entries, false),
        vec![
            "..  (back)",
            "[DIR]  A/",
            "[DIR]  b/",
            "[AES]  m.aes",
            "[AES]  Z.aes",
            "← Back to main menu",
        ]
    );
}

#[test]
fn listing_at_root_has_no_parent_line() {
    let listing = list_directory(&vec![entry("a.aes", false)], true);
    assert_eq!(listing.labels, vec!["[AES]  a.aes", "← Back to main menu"]);
    assert!(matches!(&listing.kinds[0], EntryKind::AesFile { path, .. } if path == "/r/a.aes"));
    assert!(matches!(listing.kinds[1], EntryKind::BackToMenu));
}

#[test]
fn empty_folder_lists_only_the_way_back() {
    let listing = list_directory(&Vec::new(), false);
    assert_eq!(listing.labels, vec!["..  (back)", "← Back to main menu"]);
    assert!(matches!(listing.kinds[0], EntryKind::Parent));
}

#[test]
fn sort_by_name_lowercases_before_comparing() {
    let items = vec![
        ("B".to_string(), "1".to_string()),
        ("a".to_string(), "2".to_string()),
        ("Ä".to_string(), "3".to_string()),
        ("c".to_string(), "4".to_string()),
    ];
    let names: Vec<String> = sort_by_name(items).into_iter().map(|p| p.0).collect();
    assert_eq!(names, vec!["a", "B", "c", "Ä"]);
}

#[test]
fn connection_name_is_trimmed_and_checked() {
    assert_eq!(check_connection_name("  production ").unwrap(), "production");
    assert_eq!(check_connection_name("   "), Err(NameError::Empty));
    assert_eq!(check_connection_name("a/b"), Err(NameError::Separator));
    assert_eq!(check_connection_name("a\\b"), Err(NameError::Separator));
    assert_eq!(NameError::Empty.message(), "Connection name cannot be empty");
    assert_eq!(NameError::Separator.message(), "Connection name must not contain path separators");
}

#[test]
fn generated_password_uses_the_alphabet() {
    let p = generate_random_password(28);
    assert_eq!(p.chars().count(), 28);
    assert!(p.chars().all(|c| PASSWORD_CHARS.contains(c)));
    assert!(!p.contains('0') && !p.contains('O') && !p.contains('l') && !p.contains('1'));
    assert_eq!(generate_random_password(0), "");
}

#[test]
fn rename_keeps_the_password() {
    let mut cfg = DecryptConfig::empty();
    cfg.set_profile_password("prod", "p1".to_string());
    cfg.set_profile_password("stage", "p2".to_string());
    assert_eq!(cfg.rename_profile("prod", "prod"), Ok(false));
    assert_eq!(cfg.rename_profile("prod", "stage"), Err(RenameError::Exists));
    assert_eq!(cfg.rename_profile("nope", "other"), Err(RenameError::NotFound));
    assert_eq!(cfg.rename_profile("prod", "live"), Ok(true));
    assert_eq!(cfg.profile_password("live"), Some("p1"));
    assert_eq!(cfg.profile_password("prod"), None);
    assert_eq!(cfg.profile_slugs(), vec!["live", "stage"]);
}

#[test]
fn rename_onto_a_connection_without_password_replaces_it() {
    let mut cfg = DecryptConfig::empty();
    cfg.set_profile_password("prod", "p1".to_string());
    cfg.set_profile_password("empty", String::new());
    assert_eq!(cfg.rename_profile("prod", "empty"), Ok(true));
    assert_eq!(cfg.profile_slugs(), vec!["empty"]);
    assert_eq!(cfg.profile_password("empty"), Some("p1"));
}

#[test]
fn cli_password_choice() {
    let mut cfg = DecryptConfig::empty();
    assert_eq!(password_for_cli(&cfg, None, true, None), Err(CliPasswordError::NoConnections));
    cfg.set_profile_password("prod", "p1".to_string());
    assert_eq!(password_for_cli(&cfg, Some("prod"), false, None).unwrap(), "p1");
    assert_eq!(
        password_for_cli(&cfg, Some("x"), false, None),
        Err(CliPasswordError::NoProfilePassword("x".to_string()))
    );
    assert_eq!(password_for_cli(&cfg, None, false, None).unwrap(), "p1");
    assert_eq!(password_for_cli(&cfg, None, true, Some("other")).unwrap(), "p1");
    cfg.set_profile_password("stage", "p2".to_string());
    assert_eq!(password_for_cli(&cfg, None, true, Some("stage")).unwrap(), "p2");
    assert_eq!(password_for_cli(&cfg, None, true, Some("other")), Err(CliPasswordError::NoAutoPassword));
    assert_eq!(password_for_cli(&cfg, None, false, None), Err(CliPasswordError::NoRoot));
    assert_eq!(
        CliPasswordError::NoProfilePassword("x".to_string()).message(),
        "No password for profile 'x' in decrypt.toml"
    );
}

#[test]
fn startup_language_falls_back_to_english() {
    assert_eq!(startup_language(None), "en");
    assert_eq!(startup_language(Some("  ")), "en");
    assert_eq!(startup_language(Some("ru")), "ru");
}

#[test]
fn password_from_positions() {
    assert_eq!(password_from_indices(&vec![0, 56, 24, 23]), "A9aZ");
    assert_eq!(password_from_indices(&Vec::new()), "");
    assert_eq!(PASSWORD_CHARS.chars().count(), PASSWORD_CHARS_LEN);
}
