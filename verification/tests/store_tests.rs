use diff_libraries::models::{ErrorKind, FailureReason, JobStatus, NewDiff};
use diff_libraries::store::JobStore;

fn pending(change: &str) -> NewDiff {
    NewDiff {
        change: change.to_owned(),
        git_ref: "refs/changes/01/1/1".to_owned(),
        status: JobStatus::Pending,
        project: "mediawiki/core".to_owned(),
        txtdiff: None,
    }
}

#[test]
fn test_insert_is_idempotent_per_change() {
    let mut store = JobStore::new();
    let first = store.insert_pending_if_absent(pending("7"));
    let second = store.insert_pending_if_absent(pending("7"));
    assert_eq!(first.id, second.id);
    assert_eq!(store.len(), 1);
    let third = store.insert_pending_if_absent(pending("8"));
    assert_ne!(first.id, third.id);
    assert_eq!(store.len(), 2);
}

#[test]
fn test_mark_done_round_trip() {
    let mut store = JobStore::new();
    store.insert_pending_if_absent(pending("7"));
    let text = "--- a/package-lock.json\n+++ b/package-lock.json\n";
    assert!(store.mark_done("7", text.to_owned()));
    let row = store.get_diff("7").unwrap();
    assert!(matches!(row.status, JobStatus::Done));
    assert_eq!(row.txtdiff.as_deref(), Some(text));
    assert!(row.reason.is_none());
}

#[test]
fn test_mark_done_requires_a_pending_row() {
    let mut store = JobStore::new();
    assert!(!store.mark_done("7", String::new()));
    assert!(!store.has_pending_row("7"));
    store.insert_pending_if_absent(pending("7"));
    assert!(store.has_pending_row("7"));
    assert!(store.mark_done("7", String::new()));
    assert!(!store.has_pending_row("7"));
    // Already terminal: the second transition is refused and changes nothing.
    assert!(!store.mark_done("7", "other".to_owned()));
    let row = store.get_diff("7").unwrap();
    assert_eq!(row.txtdiff.as_deref(), Some(""));
}

#[test]
fn test_mark_failed_records_reason() {
    let mut store = JobStore::new();
    store.insert_pending_if_absent(pending("9"));
    let reason = FailureReason {
        kind: ErrorKind::Repo,
        detail: "clone exited non-zero".to_owned(),
    };
    assert!(store.mark_failed("9", reason));
    let row = store.get_diff("9").unwrap();
    assert!(matches!(row.status, JobStatus::Failed));
    let recorded = row.reason.unwrap();
    assert!(matches!(recorded.kind, ErrorKind::Repo));
    assert_eq!(recorded.detail, "clone exited non-zero");
    assert!(row.txtdiff.is_none());
}

#[test]
fn test_unknown_change_is_not_found() {
    let store = JobStore::new();
    assert!(store.get_diff("12345").is_none());
}

#[test]
fn test_recent_diffs_order_and_limit() {
    let mut store = JobStore::new();
    for change in ["1", "2", "3", "4"] {
        store.insert_pending_if_absent(pending(change));
    }
    assert!(store.mark_done("1", "d1".to_owned()));
    assert!(store.mark_done("3", "d3".to_owned()));
    assert!(store.mark_done("4", "d4".to_owned()));
    // "2" stays pending and must not appear.
    let all = store.recent_diffs(5);
    assert_eq!(all.len(), 3);
    assert_eq!(all[0].change, "4");
    assert_eq!(all[1].change, "3");
    assert_eq!(all[2].change, "1");
    assert!(all[0].id > all[1].id && all[1].id > all[2].id);
    for row in &all {
        assert!(matches!(row.status, JobStatus::Done));
    }
    let limited = store.recent_diffs(2);
    assert_eq!(limited.len(), 2);
    assert_eq!(limited[0].change, "4");
    assert_eq!(limited[1].change, "3");
    let none = store.recent_diffs(0);
    assert_eq!(none.len(), 0);
}
