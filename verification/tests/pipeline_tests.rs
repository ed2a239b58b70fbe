use diff_libraries::models::{ErrorKind, JobStatus};
use diff_libraries::pipeline::{submit, BuildPipeline, ChangeRef, Outcome, Step};
use diff_libraries::store::JobStore;
use vstd::hash_set::StringHashSet;

fn change_ref(change: &str) -> ChangeRef {
    ChangeRef::new(
        change.to_owned(),
        "https://gerrit.wikimedia.org/r/mediawiki/core".to_owned(),
        "refs/changes/42/42/1".to_owned(),
    )
}

fn files(names: &[&str]) -> StringHashSet {
    let mut set = StringHashSet::new();
    for name in names {
        set.insert((*name).to_owned());
    }
    set
}

#[test]
fn test_project_name_derivation() {
    let cr = change_ref("42");
    assert_eq!(cr.project, "mediawiki/core");
    let other = ChangeRef::new(
        "42".to_owned(),
        "https://example.org/r/thing".to_owned(),
        "refs/changes/42/42/1".to_owned(),
    );
    assert_eq!(other.project, "https://example.org/r/thing");
}

#[test]
fn test_submit_deduplicates() {
    let mut store = JobStore::new();
    let cr = change_ref("42");
    let first = submit(&mut store, &cr);
    let second = submit(&mut store, &cr);
    assert_eq!(first.id, second.id);
    assert_eq!(store.len(), 1);
    assert!(matches!(second.status, JobStatus::Pending));
}

#[test]
fn test_workspace_roots_are_per_job() {
    let (a1, b1) = diff_libraries::pipeline::workspace_names(1);
    let (a2, b2) = diff_libraries::pipeline::workspace_names(12);
    assert_eq!(a1, "ws-1-a");
    assert_eq!(b1, "ws-1-b");
    assert_eq!(a2, "ws-12-a");
    assert_eq!(b2, "ws-12-b");
    assert_ne!(a1, b1);
    assert_ne!(a1, a2);
}

#[test]
fn test_no_relevant_changes_short_circuits() {
    let mut store = JobStore::new();
    let cr = change_ref("42");
    let job = submit(&mut store, &cr);
    let (mut pipeline, first) = BuildPipeline::start(&cr, job.id as u32);
    assert!(matches!(first, Step::CloneRepo { .. }));
    let step = pipeline.advance(&mut store, Outcome::Success);
    assert!(matches!(step, Step::FetchCheckout { .. }));
    let step = pipeline.advance(&mut store, Outcome::Success);
    assert!(matches!(step, Step::ListChanged { .. }));
    // Neither manifest marker: no installer may ever run.
    let step = pipeline.advance(
        &mut store,
        Outcome::ChangedFiles(files(&["README.md", "src/main.php"])),
    );
    assert!(matches!(step, Step::ReleaseWorkspaces { .. }));
    let row = store.get_diff("42").unwrap();
    assert!(matches!(row.status, JobStatus::NoRelevantChanges));
    assert!(row.txtdiff.is_none());
    let step = pipeline.advance(&mut store, Outcome::Success);
    assert!(matches!(step, Step::Finished));
}

#[test]
fn test_identical_trees_give_empty_done_diff() {
    let mut store = JobStore::new();
    let cr = change_ref("42");
    let job = submit(&mut store, &cr);
    let (mut pipeline, _) = BuildPipeline::start(&cr, job.id as u32);
    pipeline.advance(&mut store, Outcome::Success); // cloned
    pipeline.advance(&mut store, Outcome::Success); // checked out
    let step = pipeline.advance(
        &mut store,
        Outcome::ChangedFiles(files(&["composer.json"])),
    );
    assert!(matches!(
        step,
        Step::RunInstallers { composer: true, npm: false, .. }
    ));
    let step = pipeline.advance(&mut store, Outcome::Success); // installed "after"
    assert!(matches!(step, Step::CopyTree { .. }));
    let step = pipeline.advance(&mut store, Outcome::Success); // copied to B
    assert!(matches!(step, Step::ResetToParent { .. }));
    let step = pipeline.advance(&mut store, Outcome::Success); // reset to parent
    assert!(matches!(
        step,
        Step::RunInstallers { composer: true, npm: false, .. }
    ));
    let step = pipeline.advance(&mut store, Outcome::Success); // installed "before"
    assert!(matches!(step, Step::ComputeDiff { .. }));
    // Byte-identical trees: the diff utility reports empty text.
    let step = pipeline.advance(&mut store, Outcome::DiffText(String::new()));
    assert!(matches!(step, Step::ReleaseWorkspaces { .. }));
    let row = store.get_diff("42").unwrap();
    assert!(matches!(row.status, JobStatus::Done));
    assert_eq!(row.txtdiff.as_deref(), Some(""));
}

#[test]
fn test_end_to_end_version_bump() {
    let mut store = JobStore::new();
    let cr = change_ref("42");
    let job = submit(&mut store, &cr);
    let (mut pipeline, _) = BuildPipeline::start(&cr, job.id as u32);
    pipeline.advance(&mut store, Outcome::Success);
    pipeline.advance(&mut store, Outcome::Success);
    pipeline.advance(
        &mut store,
        Outcome::ChangedFiles(files(&["package.json", "package-lock.json"])),
    );
    pipeline.advance(&mut store, Outcome::Success);
    pipeline.advance(&mut store, Outcome::Success);
    pipeline.advance(&mut store, Outcome::Success);
    pipeline.advance(&mut store, Outcome::Success);
    let diff_text = "diff -ru ws-1-a/node_modules/left-pad/package.json ws-1-b/node_modules/left-pad/package.json\n-  \"version\": \"1.0\",\n+  \"version\": \"2.0\",\n";
    let step = pipeline.advance(&mut store, Outcome::DiffText(diff_text.to_owned()));
    assert!(matches!(step, Step::ReleaseWorkspaces { .. }));
    let row = store.get_diff("42").unwrap();
    assert!(matches!(row.status, JobStatus::Done));
    let text = row.txtdiff.unwrap();
    assert!(text
        .lines()
        .any(|line| line.starts_with('-') && line.contains("1.0")));
    assert!(text
        .lines()
        .any(|line| line.starts_with('+') && line.contains("2.0")));
}

#[test]
fn test_installer_failure_marks_failed_and_releases() {
    let mut store = JobStore::new();
    let cr = change_ref("42");
    let job = submit(&mut store, &cr);
    let (mut pipeline, _) = BuildPipeline::start(&cr, job.id as u32);
    pipeline.advance(&mut store, Outcome::Success);
    pipeline.advance(&mut store, Outcome::Success);
    let step = pipeline.advance(
        &mut store,
        Outcome::ChangedFiles(files(&["package-lock.json"])),
    );
    assert!(matches!(
        step,
        Step::RunInstallers { composer: false, npm: true, .. }
    ));
    // The "after" install exits non-zero.
    let step = pipeline.advance(
        &mut store,
        Outcome::Failure("npm ci exited with status 2".to_owned()),
    );
    match step {
        Step::ReleaseWorkspaces { before, after } => {
            assert_eq!(before, "ws-1-a");
            assert_eq!(after, "ws-1-b");
        }
        _ => panic!("expected the workspaces to be released"),
    }
    let row = store.get_diff("42").unwrap();
    assert!(matches!(row.status, JobStatus::Failed));
    let reason = row.reason.unwrap();
    assert!(matches!(reason.kind, ErrorKind::Installer));
    assert_eq!(reason.detail, "npm ci exited with status 2");
    let step = pipeline.advance(&mut store, Outcome::Success);
    assert!(matches!(step, Step::Finished));
}

#[test]
fn test_clone_failure_is_repo_classed() {
    let mut store = JobStore::new();
    let cr = change_ref("42");
    let job = submit(&mut store, &cr);
    let (mut pipeline, _) = BuildPipeline::start(&cr, job.id as u32);
    let step = pipeline.advance(&mut store, Outcome::Failure("could not resolve host".to_owned()));
    assert!(matches!(step, Step::ReleaseWorkspaces { .. }));
    let row = store.get_diff("42").unwrap();
    assert!(matches!(row.status, JobStatus::Failed));
    assert!(matches!(row.reason.unwrap().kind, ErrorKind::Repo));
}

#[test]
fn test_diff_failure_is_diff_classed() {
    let mut store = JobStore::new();
    let cr = change_ref("42");
    let job = submit(&mut store, &cr);
    let (mut pipeline, _) = BuildPipeline::start(&cr, job.id as u32);
    pipeline.advance(&mut store, Outcome::Success);
    pipeline.advance(&mut store, Outcome::Success);
    pipeline.advance(
        &mut store,
        Outcome::ChangedFiles(files(&["composer.json"])),
    );
    pipeline.advance(&mut store, Outcome::Success);
    pipeline.advance(&mut store, Outcome::Success);
    pipeline.advance(&mut store, Outcome::Success);
    pipeline.advance(&mut store, Outcome::Success);
    let step = pipeline.advance(&mut store, Outcome::Failure("diff invocation failed".to_owned()));
    assert!(matches!(step, Step::ReleaseWorkspaces { .. }));
    let row = store.get_diff("42").unwrap();
    assert!(matches!(row.status, JobStatus::Failed));
    assert!(matches!(row.reason.unwrap().kind, ErrorKind::DiffTool));
}
