use diff_libraries::utils::{
    has_composer_changes, has_npm_changes, is_valid_gerrit_change, parse_changed_files,
};
use vstd::hash_set::StringHashSet;

#[test]
fn test_is_valid_gerrit_change() {
    assert!(is_valid_gerrit_change("12345"));
    assert!(is_valid_gerrit_change("1"));
    assert!(!is_valid_gerrit_change("abcde"));
    assert!(!is_valid_gerrit_change("12345:1"));
}

#[test]
fn test_parse_changed_files() {
    let actual = parse_changed_files(
        "3f5ea40 (HEAD) build: Updating composer dependencies
 COPYING => LICENSE | 0
 composer.json      | 6 +++---
 2 files changed, 3 insertions(+), 3 deletions(-)
",
    );
    assert!(actual.contains("COPYING => LICENSE"));
    assert!(actual.contains("composer.json"));
    assert_eq!(actual.len(), 2);
}

#[test]
fn test_parse_changed_files_no_stat_lines() {
    let actual = parse_changed_files("abc1234 (HEAD) docs: fix a typo\n");
    assert_eq!(actual.len(), 0);
}

#[test]
fn test_manifest_markers() {
    let mut changes = StringHashSet::new();
    changes.insert("package.json".to_owned());
    assert!(has_npm_changes(&changes));
    assert!(!has_composer_changes(&changes));

    let mut lock_only = StringHashSet::new();
    lock_only.insert("package-lock.json".to_owned());
    assert!(has_npm_changes(&lock_only));

    let mut composer = StringHashSet::new();
    composer.insert("composer.json".to_owned());
    assert!(has_composer_changes(&composer));
    assert!(!has_npm_changes(&composer));

    let mut neither = StringHashSet::new();
    neither.insert("README.md".to_owned());
    assert!(!has_npm_changes(&neither));
    assert!(!has_composer_changes(&neither));
}

#[test]
fn test_empty_change_id_is_valid_syntax() {
    assert!(is_valid_gerrit_change(""));
}
