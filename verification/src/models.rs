//! Value types of the job table: a persisted job row (`Diff`), the insert
//! payload (`NewDiff`), the closed status enumeration, and failure reasons.

use vstd::prelude::*;

verus! {

/// Lifecycle status of a job. A job is created `Pending` and is mutated
/// exactly once to one of the three terminal statuses.
#[derive(Clone, Copy, PartialEq, Eq, Structural, Debug)]
pub enum JobStatus {
    Pending,
    Done,
    Failed,
    NoRelevantChanges,
}

impl JobStatus {
    /// True for the statuses a job can never leave.
    pub open spec fn is_terminal(self) -> bool {
        self matches JobStatus::Done || self matches JobStatus::Failed
            || self matches JobStatus::NoRelevantChanges
    }
}

/// Classification of a failure recorded on a job.
#[derive(Clone, Copy, PartialEq, Eq, Structural, Debug)]
pub enum ErrorKind {
    /// The code-review metadata service was unreachable or its answer unusable.
    Fetch,
    /// A clone, fetch, checkout, reset or workspace copy exited non-zero.
    Repo,
    /// A dependency-manager installer invocation exited non-zero.
    Installer,
    /// The diff utility invocation failed.
    DiffTool,
    /// The persistent store was unavailable.
    Store,
}

/// A human-readable failure reason together with its classification.
pub struct FailureReason {
    pub kind: ErrorKind,
    pub detail: String,
}

/// Mathematical image of a `FailureReason`.
pub struct FailureReasonView {
    pub kind: ErrorKind,
    pub detail: Seq<char>,
}

impl View for FailureReason {
    type V = FailureReasonView;

    open spec fn view(&self) -> FailureReasonView {
        FailureReasonView { kind: self.kind, detail: self.detail@ }
    }
}

/// The mathematical image of an optional string column.
pub open spec fn opt_text_view(o: Option<String>) -> Option<Seq<char>> {
    match o {
        Some(t) => Some(t@),
        None => None,
    }
}

/// The mathematical image of an optional failure-reason column.
pub open spec fn opt_reason_view(o: Option<FailureReason>) -> Option<FailureReasonView> {
    match o {
        Some(r) => Some(r@),
        None => None,
    }
}

/// One persisted job row: the record tracking one change's diff-computation
/// lifecycle from `Pending` to a terminal status.
pub struct Diff {
    /// Surrogate primary key, assigned by the store.
    pub id: i32,
    /// The change identifier; unique across the table.
    pub change: String,
    /// The ref to fetch for the proposed commit.
    pub git_ref: String,
    /// Lifecycle status.
    pub status: JobStatus,
    /// Project name derived from the clone URL.
    pub project: String,
    /// The diff text; present exactly when the status is `Done`.
    pub txtdiff: Option<String>,
    /// The failure reason; present exactly when the status is `Failed`.
    pub reason: Option<FailureReason>,
}

/// Mathematical image of a job row.
pub struct DiffView {
    pub id: int,
    pub change: Seq<char>,
    pub git_ref: Seq<char>,
    pub status: JobStatus,
    pub project: Seq<char>,
    pub txtdiff: Option<Seq<char>>,
    pub reason: Option<FailureReasonView>,
}

impl View for Diff {
    type V = DiffView;

    open spec fn view(&self) -> DiffView {
        DiffView {
            id: self.id as int,
            change: self.change@,
            git_ref: self.git_ref@,
            status: self.status,
            project: self.project@,
            txtdiff: opt_text_view(self.txtdiff),
            reason: opt_reason_view(self.reason),
        }
    }
}

impl Diff {
    /// Field-by-field copy; the result has the same mathematical image.
    pub fn duplicate(&self) -> (r: Diff)
        ensures
            r@ == self@,
    {
        let r = Diff {
            id: self.id,
            change: self.change.clone(),
            git_ref: self.git_ref.clone(),
            status: self.status,
            project: self.project.clone(),
            txtdiff: match &self.txtdiff {
                Some(t) => Some(t.clone()),
                None => None,
            },
            reason: match &self.reason {
                Some(r) => Some(FailureReason { kind: r.kind, detail: r.detail.clone() }),
                None => None,
            },
        };
        assert(r@ == self@);
        r
    }
}

/// Payload for inserting a new job row; the store assigns the surrogate id.
pub struct NewDiff {
    pub change: String,
    pub git_ref: String,
    pub status: JobStatus,
    pub project: String,
    pub txtdiff: Option<String>,
}

} // verus!
