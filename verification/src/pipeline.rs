//! The build pipeline: the decision core that drives one job from submission
//! to a terminal status. Every external effect — cloning, checking out,
//! listing changed paths, running installers, copying trees, diffing,
//! releasing workspaces — is handed to the caller as a [`Step`]; the caller
//! performs it and reports an [`Outcome`]. The pipeline decides the next step
//! and persists terminal statuses in the [`JobStore`], so that every run ends
//! terminal and both workspaces are released on every path.

use vstd::prelude::*;
use vstd::hash_set::StringHashSet;

use crate::models::{Diff, ErrorKind, FailureReason, FailureReasonView, JobStatus, NewDiff};
use crate::store::{has_change, has_pending, terminal_row, JobStore};
use crate::text::{strip_prefix_all, strip_prefix_repeated};

verus! {

/// A change under review, resolved: identifier, clone URL, fetch ref, and the
/// project name derived from the URL.
pub struct ChangeRef {
    pub change: String,
    pub url: String,
    pub git_ref: String,
    pub project: String,
}

/// The host prefix stripped from a clone URL to derive the project name.
pub open spec fn gerrit_url_prefix() -> Seq<char> {
    "https://gerrit.wikimedia.org/r/"@
}

impl ChangeRef {
    /// Builds a `ChangeRef`, deriving the project name by stripping the
    /// well-known host prefix from the clone URL. The derivation is a
    /// best-effort heuristic: a URL from another host is kept whole.
    pub fn new(change: String, url: String, git_ref: String) -> (r: ChangeRef)
        ensures
            r.change@ == change@,
            r.url@ == url@,
            r.git_ref@ == git_ref@,
            r.project@ == strip_prefix_all(url@, gerrit_url_prefix()),
    {
        let project = strip_prefix_repeated(url.as_str(), "https://gerrit.wikimedia.org/r/").to_owned();
        ChangeRef { change, url, git_ref, project }
    }
}

/// Decimal digits of `n`, most significant first.
pub open spec fn dec_spec(n: nat) -> Seq<char>
    decreases n,
{
    if n < 10 {
        seq![digit_char(n)]
    } else {
        dec_spec(n / 10).push(digit_char(n % 10))
    }
}

/// The character for one decimal digit.
pub open spec fn digit_char(d: nat) -> char {
    if d == 0 {
        '0'
    } else if d == 1 {
        '1'
    } else if d == 2 {
        '2'
    } else if d == 3 {
        '3'
    } else if d == 4 {
        '4'
    } else if d == 5 {
        '5'
    } else if d == 6 {
        '6'
    } else if d == 7 {
        '7'
    } else if d == 8 {
        '8'
    } else {
        '9'
    }
}

/// Renders `n` in decimal.
pub fn decimal_string(n: u32) -> (r: String)
    ensures
        r@ =~= dec_spec(n as nat),
    decreases n,
{
    let ds = "0123456789";
    proof {
        reveal_strlit("0123456789");
    }
    if n < 10 {
        let c = ds.substring_char(n as usize, n as usize + 1);
        proof {
            assert(c@ =~= seq![digit_char(n as nat)]);
        }
        c.to_owned()
    } else {
        let mut s = decimal_string(n / 10);
        let d = (n % 10) as usize;
        let c = ds.substring_char(d, d + 1);
        proof {
            assert(c@ =~= seq![digit_char((n % 10) as nat)]);
        }
        s.append(c);
        proof {
            assert(s@ =~= dec_spec(n as nat));
        }
        s
    }
}

/// The workspace root for the checkout being rebuilt ("before" after the
/// reset, "after" before it), unique to the job with id `id`.
pub open spec fn workspace_a_spec(id: nat) -> Seq<char> {
    "ws-"@ + dec_spec(id) + "-a"@
}

/// The workspace root the installed "after" tree is frozen into, unique to
/// the job with id `id`.
pub open spec fn workspace_b_spec(id: nat) -> Seq<char> {
    "ws-"@ + dec_spec(id) + "-b"@
}

/// Renders the two per-job workspace roots.
pub fn workspace_names(id: u32) -> (r: (String, String))
    ensures
        r.0@ =~= workspace_a_spec(id as nat),
        r.1@ =~= workspace_b_spec(id as nat),
{
    let d = decimal_string(id);
    let mut a = String::new();
    a.append("ws-");
    a.append(d.as_str());
    a.append("-a");
    let mut b = String::new();
    b.append("ws-");
    b.append(d.as_str());
    b.append("-b");
    (a, b)
}

/// One external effect the caller must perform next.
pub enum Step {
    /// Clone the source repository into the first workspace.
    CloneRepo { url: String, dest: String },
    /// Fetch the proposed ref in `workdir` and check out what was fetched.
    FetchCheckout { git_ref: String, workdir: String },
    /// List the paths changed by the checked-out commit in `workdir`.
    ListChanged { workdir: String },
    /// Run the applicable dependency installers in `workdir`; when both
    /// apply they may run concurrently, joined before reporting back.
    RunInstallers { workdir: String, composer: bool, npm: bool },
    /// Copy the tree at `from` in its entirety to `to`.
    CopyTree { from: String, to: String },
    /// Discard untracked files, hard-reset, and check out the parent of the
    /// proposed commit in `workdir`.
    ResetToParent { workdir: String },
    /// Compute a recursive unified diff of `before` against `after`,
    /// excluding source-control metadata directories.
    ComputeDiff { before: String, after: String },
    /// Remove both workspace directories.
    ReleaseWorkspaces { before: String, after: String },
    /// Nothing remains to be done.
    Finished,
}

/// Mathematical image of a [`Step`].
pub enum StepView {
    CloneRepo { url: Seq<char>, dest: Seq<char> },
    FetchCheckout { git_ref: Seq<char>, workdir: Seq<char> },
    ListChanged { workdir: Seq<char> },
    RunInstallers { workdir: Seq<char>, composer: bool, npm: bool },
    CopyTree { from: Seq<char>, to: Seq<char> },
    ResetToParent { workdir: Seq<char> },
    ComputeDiff { before: Seq<char>, after: Seq<char> },
    ReleaseWorkspaces { before: Seq<char>, after: Seq<char> },
    Finished,
}

impl View for Step {
    type V = StepView;

    open spec fn view(&self) -> StepView {
        match self {
            Step::CloneRepo { url, dest } => StepView::CloneRepo { url: url@, dest: dest@ },
            Step::FetchCheckout { git_ref, workdir } => StepView::FetchCheckout {
                git_ref: git_ref@,
                workdir: workdir@,
            },
            Step::ListChanged { workdir } => StepView::ListChanged { workdir: workdir@ },
            Step::RunInstallers { workdir, composer, npm } => StepView::RunInstallers {
                workdir: workdir@,
                composer: *composer,
                npm: *npm,
            },
            Step::CopyTree { from, to } => StepView::CopyTree { from: from@, to: to@ },
            Step::ResetToParent { workdir } => StepView::ResetToParent { workdir: workdir@ },
            Step::ComputeDiff { before, after } => StepView::ComputeDiff {
                before: before@,
                after: after@,
            },
            Step::ReleaseWorkspaces { before, after } => StepView::ReleaseWorkspaces {
                before: before@,
                after: after@,
            },
            Step::Finished => StepView::Finished,
        }
    }
}

/// What the caller reports after performing a step.
pub enum Outcome {
    /// The step completed normally.
    Success,
    /// The changed-path listing, for `ListChanged`.
    ChangedFiles(StringHashSet),
    /// The diff text, for `ComputeDiff`.
    DiffText(String),
    /// The step failed; the detail is a human-readable reason.
    Failure(String),
}

/// Mathematical image of an [`Outcome`].
pub enum OutcomeView {
    Success,
    ChangedFiles(Set<Seq<char>>),
    DiffText(Seq<char>),
    Failure(Seq<char>),
}

impl View for Outcome {
    type V = OutcomeView;

    open spec fn view(&self) -> OutcomeView {
        match self {
            Outcome::Success => OutcomeView::Success,
            Outcome::ChangedFiles(s) => OutcomeView::ChangedFiles(s@),
            Outcome::DiffText(t) => OutcomeView::DiffText(t@),
            Outcome::Failure(m) => OutcomeView::Failure(m@),
        }
    }
}

/// Where one job stands in the fixed step order.
#[derive(Clone, Copy, PartialEq, Eq, Structural, Debug)]
pub enum Phase {
    Cloning,
    CheckingOut,
    Listing,
    InstallingAfter,
    Copying,
    Resetting,
    InstallingBefore,
    Diffing,
    Releasing,
    Terminal,
}

/// What the transition persisted in the job table.
pub enum StoreOp {
    NoOp,
    MarkDone(Seq<char>),
    MarkFailed(ErrorKind, Seq<char>),
    MarkNoChanges,
}

/// Mathematical image of a [`BuildPipeline`].
pub struct PipelineView {
    pub change: Seq<char>,
    pub git_ref: Seq<char>,
    pub ws_a: Seq<char>,
    pub ws_b: Seq<char>,
    pub phase: Phase,
    pub composer: bool,
    pub npm: bool,
}

/// Whether the changed-path set names the first ecosystem's manifest or lock
/// file.
pub open spec fn npm_marker(files: Set<Seq<char>>) -> bool {
    files.contains("package.json"@) || files.contains("package-lock.json"@)
}

/// Whether the changed-path set names the second ecosystem's manifest.
pub open spec fn composer_marker(files: Set<Seq<char>>) -> bool {
    files.contains("composer.json"@)
}

/// Which outcomes the caller may report in each phase: the listing answers
/// the listing step, the diff text answers the diff step, and every step may
/// fail; a terminal pipeline takes no outcome at all.
pub open spec fn outcome_fits(ph: Phase, o: OutcomeView) -> bool {
    match ph {
        Phase::Listing => o is ChangedFiles || o is Failure,
        Phase::Diffing => o is DiffText || o is Failure,
        Phase::Terminal => false,
        _ => o is Success || o is Failure,
    }
}

/// The transition into the releasing phase after a failure: the failure is
/// persisted first, the workspaces are released afterwards.
pub open spec fn spec_fail(p: PipelineView, kind: ErrorKind, detail: Seq<char>) -> (
    PipelineView,
    StepView,
    StoreOp,
) {
    (
        PipelineView { phase: Phase::Releasing, ..p },
        StepView::ReleaseWorkspaces { before: p.ws_a, after: p.ws_b },
        StoreOp::MarkFailed(kind, detail),
    )
}

/// The complete transition relation of one job: from the current pipeline
/// state and the outcome of the step just performed, the next state, the next
/// step, and what is persisted. Steps follow the fixed order clone, checkout,
/// list, install "after", copy, reset, install "before", diff; any failure
/// persists `Failed` and releases; a listing without manifest markers
/// persists `NoRelevantChanges` and releases without ever installing; a diff
/// text persists `Done` and releases.
pub open spec fn spec_advance(p: PipelineView, o: OutcomeView) -> (PipelineView, StepView, StoreOp) {
    match o {
        OutcomeView::Failure(m) => {
            if p.phase == Phase::Releasing {
                // A failed cleanup changes no status: the job is already terminal.
                (PipelineView { phase: Phase::Terminal, ..p }, StepView::Finished, StoreOp::NoOp)
            } else {
                spec_fail(p, spec_fail_kind(p.phase), m)
            }
        },
        OutcomeView::ChangedFiles(files) => {
            if composer_marker(files) || npm_marker(files) {
                (
                    PipelineView {
                        phase: Phase::InstallingAfter,
                        composer: composer_marker(files),
                        npm: npm_marker(files),
                        ..p
                    },
                    StepView::RunInstallers {
                        workdir: p.ws_a,
                        composer: composer_marker(files),
                        npm: npm_marker(files),
                    },
                    StoreOp::NoOp,
                )
            } else {
                (
                    PipelineView { phase: Phase::Releasing, ..p },
                    StepView::ReleaseWorkspaces { before: p.ws_a, after: p.ws_b },
                    StoreOp::MarkNoChanges,
                )
            }
        },
        OutcomeView::DiffText(t) => (
            PipelineView { phase: Phase::Releasing, ..p },
            StepView::ReleaseWorkspaces { before: p.ws_a, after: p.ws_b },
            StoreOp::MarkDone(t),
        ),
        OutcomeView::Success => match p.phase {
            Phase::Cloning => (
                PipelineView { phase: Phase::CheckingOut, ..p },
                StepView::FetchCheckout { git_ref: p.git_ref, workdir: p.ws_a },
                StoreOp::NoOp,
            ),
            Phase::CheckingOut => (
                PipelineView { phase: Phase::Listing, ..p },
                StepView::ListChanged { workdir: p.ws_a },
                StoreOp::NoOp,
            ),
            Phase::InstallingAfter => (
                PipelineView { phase: Phase::Copying, ..p },
                StepView::CopyTree { from: p.ws_a, to: p.ws_b },
                StoreOp::NoOp,
            ),
            Phase::Copying => (
                PipelineView { phase: Phase::Resetting, ..p },
                StepView::ResetToParent { workdir: p.ws_a },
                StoreOp::NoOp,
            ),
            Phase::Resetting => (
                PipelineView { phase: Phase::InstallingBefore, ..p },
                StepView::RunInstallers { workdir: p.ws_a, composer: p.composer, npm: p.npm },
                StoreOp::NoOp,
            ),
            Phase::InstallingBefore => (
                PipelineView { phase: Phase::Diffing, ..p },
                StepView::ComputeDiff { before: p.ws_a, after: p.ws_b },
                StoreOp::NoOp,
            ),
            Phase::Releasing => (
                PipelineView { phase: Phase::Terminal, ..p },
                StepView::Finished,
                StoreOp::NoOp,
            ),
            _ => (p, StepView::Finished, StoreOp::NoOp),
        },
    }
}

/// How a failure in each phase is classified: installer invocations give
/// `Installer`, the diff utility gives `DiffTool`, everything else touches
/// the repository or the workspaces and gives `Repo`.
pub open spec fn spec_fail_kind(ph: Phase) -> ErrorKind {
    match ph {
        Phase::InstallingAfter | Phase::InstallingBefore => ErrorKind::Installer,
        Phase::Diffing => ErrorKind::DiffTool,
        _ => ErrorKind::Repo,
    }
}

/// What a store operation did to the job table: nothing, or the unique
/// pending row for `change` turned terminal with the operation's payload.
pub open spec fn store_effect(
    pre: Seq<crate::models::DiffView>,
    post: Seq<crate::models::DiffView>,
    change: Seq<char>,
    op: StoreOp,
) -> bool {
    match op {
        StoreOp::NoOp => post == pre,
        StoreOp::MarkDone(t) => exists|i: int|
            {
                &&& 0 <= i < pre.len()
                &&& pre[i].change == change
                &&& pre[i].status == JobStatus::Pending
                &&& post =~= pre.update(i, terminal_row(pre[i], JobStatus::Done, Some(t), None))
            },
        StoreOp::MarkFailed(kind, detail) => exists|i: int|
            {
                &&& 0 <= i < pre.len()
                &&& pre[i].change == change
                &&& pre[i].status == JobStatus::Pending
                &&& post =~= pre.update(
                    i,
                    terminal_row(
                        pre[i],
                        JobStatus::Failed,
                        None,
                        Some(FailureReasonView { kind, detail }),
                    ),
                )
            },
        StoreOp::MarkNoChanges => exists|i: int|
            {
                &&& 0 <= i < pre.len()
                &&& pre[i].change == change
                &&& pre[i].status == JobStatus::Pending
                &&& post =~= pre.update(
                    i,
                    terminal_row(pre[i], JobStatus::NoRelevantChanges, None, None),
                )
            },
    }
}

/// The decision core for one job. It owns the job's pending row: it is the
/// sole writer until the row turns terminal.
pub struct BuildPipeline {
    change: String,
    git_ref: String,
    ws_a: String,
    ws_b: String,
    phase: Phase,
    composer: bool,
    npm: bool,
}

impl View for BuildPipeline {
    type V = PipelineView;

    closed spec fn view(&self) -> PipelineView {
        PipelineView {
            change: self.change@,
            git_ref: self.git_ref@,
            ws_a: self.ws_a@,
            ws_b: self.ws_b@,
            phase: self.phase,
            composer: self.composer,
            npm: self.npm,
        }
    }
}

impl BuildPipeline {
    /// Starts the pipeline for the job with id `job_id`: allocates workspace
    /// roots unique to that job — concurrent jobs never share a path — and
    /// asks for the clone as the first step.
    pub fn start(cr: &ChangeRef, job_id: u32) -> (r: (BuildPipeline, Step))
        ensures
            r.0@ == (PipelineView {
                change: cr.change@,
                git_ref: cr.git_ref@,
                ws_a: workspace_a_spec(job_id as nat),
                ws_b: workspace_b_spec(job_id as nat),
                phase: Phase::Cloning,
                composer: false,
                npm: false,
            }),
            r.1@ == (StepView::CloneRepo {
                url: cr.url@,
                dest: workspace_a_spec(job_id as nat),
            }),
    {
        let (ws_a, ws_b) = workspace_names(job_id);
        let step = Step::CloneRepo { url: cr.url.clone(), dest: ws_a.clone() };
        let p = BuildPipeline {
            change: cr.change.clone(),
            git_ref: cr.git_ref.clone(),
            ws_a,
            ws_b,
            phase: Phase::Cloning,
            composer: false,
            npm: false,
        };
        (p, step)
    }

    /// The job's change identifier.
    pub open spec fn change_id(self) -> Seq<char> {
        self@.change
    }

    /// Consumes the outcome of the step last handed out and returns the next
    /// step, persisting a terminal status the moment one is decided: `Done`
    /// with the diff text, `Failed` with a classified reason, or
    /// `NoRelevantChanges` — always before the workspaces are released.
    pub fn advance(&mut self, store: &mut JobStore, outcome: Outcome) -> (step: Step)
        requires
            old(store).wf(),
            outcome_fits(old(self)@.phase, outcome@),
            old(self)@.phase != Phase::Releasing ==> has_pending(old(store)@, old(self)@.change),
        ensures
            final(self)@ == spec_advance(old(self)@, outcome@).0,
            step@ == spec_advance(old(self)@, outcome@).1,
            final(store).wf(),
            store_effect(old(store)@, final(store)@, old(self)@.change, spec_advance(old(self)@, outcome@).2),
    {
        match outcome {
            Outcome::Failure(m) => {
                if matches!(self.phase, Phase::Releasing) {
                    self.phase = Phase::Terminal;
                    Step::Finished
                } else {
                    let kind = match self.phase {
                        Phase::InstallingAfter | Phase::InstallingBefore => ErrorKind::Installer,
                        Phase::Diffing => ErrorKind::DiffTool,
                        _ => ErrorKind::Repo,
                    };
                    self.phase = Phase::Releasing;
                    let marked = store.mark_failed(
                        self.change.as_str(),
                        FailureReason { kind, detail: m },
                    );
                    proof {
                        assert(marked);
                    }
                    Step::ReleaseWorkspaces { before: self.ws_a.clone(), after: self.ws_b.clone() }
                }
            },
            Outcome::ChangedFiles(files) => {
                let composer = crate::utils::has_composer_changes(&files);
                let npm = crate::utils::has_npm_changes(&files);
                if composer || npm {
                    self.phase = Phase::InstallingAfter;
                    self.composer = composer;
                    self.npm = npm;
                    Step::RunInstallers { workdir: self.ws_a.clone(), composer, npm }
                } else {
                    self.phase = Phase::Releasing;
                    let marked = store.mark_no_relevant_changes(self.change.as_str());
                    proof {
                        assert(marked);
                    }
                    Step::ReleaseWorkspaces { before: self.ws_a.clone(), after: self.ws_b.clone() }
                }
            },
            Outcome::DiffText(t) => {
                self.phase = Phase::Releasing;
                let marked = store.mark_done(self.change.as_str(), t);
                proof {
                    assert(marked);
                }
                Step::ReleaseWorkspaces { before: self.ws_a.clone(), after: self.ws_b.clone() }
            },
            Outcome::Success => match self.phase {
                Phase::Cloning => {
                    self.phase = Phase::CheckingOut;
                    Step::FetchCheckout {
                        git_ref: self.git_ref.clone(),
                        workdir: self.ws_a.clone(),
                    }
                },
                Phase::CheckingOut => {
                    self.phase = Phase::Listing;
                    Step::ListChanged { workdir: self.ws_a.clone() }
                },
                Phase::InstallingAfter => {
                    self.phase = Phase::Copying;
                    Step::CopyTree { from: self.ws_a.clone(), to: self.ws_b.clone() }
                },
                Phase::Copying => {
                    self.phase = Phase::Resetting;
                    Step::ResetToParent { workdir: self.ws_a.clone() }
                },
                Phase::Resetting => {
                    self.phase = Phase::InstallingBefore;
                    Step::RunInstallers {
                        workdir: self.ws_a.clone(),
                        composer: self.composer,
                        npm: self.npm,
                    }
                },
                Phase::InstallingBefore => {
                    self.phase = Phase::Diffing;
                    Step::ComputeDiff { before: self.ws_a.clone(), after: self.ws_b.clone() }
                },
                Phase::Releasing => {
                    self.phase = Phase::Terminal;
                    Step::Finished
                },
                _ => Step::Finished,
            },
        }
    }
}

/// Short-circuit law: when the changed-path listing names neither dependency
/// manifest, the job is persisted as `NoRelevantChanges` and goes straight to
/// releasing its workspaces — and from the releasing phase the only step the
/// pipeline can ever hand out again is `Finished`, so no installer run, tree
/// copy or diff is ever asked for.
pub proof fn lemma_no_relevant_changes_short_circuits(p: PipelineView, files: Set<Seq<char>>)
    requires
        !composer_marker(files),
        !npm_marker(files),
    ensures
        spec_advance(p, OutcomeView::ChangedFiles(files)).0.phase == Phase::Releasing,
        spec_advance(p, OutcomeView::ChangedFiles(files)).1 == (StepView::ReleaseWorkspaces {
            before: p.ws_a,
            after: p.ws_b,
        }),
        spec_advance(p, OutcomeView::ChangedFiles(files)).2 == StoreOp::MarkNoChanges,
        forall|o: OutcomeView|
            outcome_fits(Phase::Releasing, o) ==> #[trigger] spec_advance(
                spec_advance(p, OutcomeView::ChangedFiles(files)).0,
                o,
            ).1 == StepView::Finished,
{
}

/// Installer-failure law: a failed installer invocation, on either the
/// "after" or the "before" build, persists `Failed` with an installer-classed
/// reason carrying the reported detail, and the very next step releases both
/// workspace directories.
pub proof fn lemma_installer_failure(p: PipelineView, m: Seq<char>)
    requires
        p.phase == Phase::InstallingAfter || p.phase == Phase::InstallingBefore,
    ensures
        spec_advance(p, OutcomeView::Failure(m)).0.phase == Phase::Releasing,
        spec_advance(p, OutcomeView::Failure(m)).1 == (StepView::ReleaseWorkspaces {
            before: p.ws_a,
            after: p.ws_b,
        }),
        spec_advance(p, OutcomeView::Failure(m)).2 == StoreOp::MarkFailed(ErrorKind::Installer, m),
{
}

/// Diff-persistence law: the diff text reported for the diff step is
/// persisted as the job's artifact unchanged, character for character, with
/// status `Done` — in particular, an empty diff text (byte-identical trees)
/// makes the job `Done` with an empty artifact.
pub proof fn lemma_diff_text_persisted(p: PipelineView, t: Seq<char>)
    requires
        p.phase == Phase::Diffing,
    ensures
        spec_advance(p, OutcomeView::DiffText(t)).0.phase == Phase::Releasing,
        spec_advance(p, OutcomeView::DiffText(t)).1 == (StepView::ReleaseWorkspaces {
            before: p.ws_a,
            after: p.ws_b,
        }),
        spec_advance(p, OutcomeView::DiffText(t)).2 == StoreOp::MarkDone(t),
{
}

/// Cleanup law: whenever a transition persists anything — success, failure,
/// or the no-relevant-changes outcome — the step it hands out releases both
/// workspace directories; and the pipeline only finishes out of the releasing
/// phase, so every run that ends released its workspaces on the way.
pub proof fn lemma_release_on_every_terminal_path(p: PipelineView, o: OutcomeView)
    requires
        outcome_fits(p.phase, o),
    ensures
        !(spec_advance(p, o).2 is NoOp) ==> spec_advance(p, o).1 == (StepView::ReleaseWorkspaces {
            before: p.ws_a,
            after: p.ws_b,
        }),
        spec_advance(p, o).0.phase == Phase::Terminal ==> p.phase == Phase::Releasing,
{
}

/// In every phase between the listing and the diff, at least one manifest
/// marker was found: installers only ever run for a cause. Holds of the
/// starting state and is preserved by every transition.
pub open spec fn markers_known(p: PipelineView) -> bool {
    (p.phase == Phase::InstallingAfter || p.phase == Phase::Copying || p.phase == Phase::Resetting
        || p.phase == Phase::InstallingBefore || p.phase == Phase::Diffing) ==> (p.composer
        || p.npm)
}

/// `markers_known` is an invariant of the transition relation.
pub proof fn lemma_markers_known_preserved(p: PipelineView, o: OutcomeView)
    requires
        markers_known(p),
        outcome_fits(p.phase, o),
    ensures
        markers_known(spec_advance(p, o).0),
{
}

/// Ordering law: an installer run is only ever asked for right after the
/// changed-path listing named a dependency manifest, or right after the reset
/// to the parent commit — never before its checkout, and never when the
/// listing named no manifest. Likewise the diff is only asked for once the
/// "before" install finished, so both trees are populated first.
pub proof fn lemma_steps_follow_the_build_order(p: PipelineView, o: OutcomeView)
    requires
        markers_known(p),
        outcome_fits(p.phase, o),
    ensures
        (spec_advance(p, o).1 matches StepView::RunInstallers { workdir, composer, npm } ==> {
            &&& workdir == p.ws_a
            &&& (composer || npm)
            &&& (o matches OutcomeView::ChangedFiles(files) && (composer_marker(files)
                || npm_marker(files))) || (p.phase == Phase::Resetting && o is Success)
        }),
        (spec_advance(p, o).1 is ComputeDiff ==> p.phase == Phase::InstallingBefore && o
            is Success),
{
    if p.phase == Phase::Resetting && o is Success {
        assert(spec_advance(p, o).1 matches StepView::RunInstallers { composer, npm, .. } ==> composer == p.composer && npm == p.npm);
    }
}

/// Every decimal rendering is at least one digit long.
pub proof fn lemma_dec_spec_len(n: nat)
    ensures
        dec_spec(n).len() >= 1,
    decreases n,
{
    if n >= 10 {
        lemma_dec_spec_len(n / 10);
    }
}

/// The digit characters are pairwise distinct.
proof fn lemma_digit_char_injective(x: nat, y: nat)
    requires
        x < 10,
        y < 10,
        digit_char(x) == digit_char(y),
    ensures
        x == y,
{
}

/// Decimal renderings are unambiguous: equal digit strings mean equal
/// numbers.
pub proof fn lemma_dec_spec_injective(a: nat, b: nat)
    requires
        dec_spec(a) == dec_spec(b),
    ensures
        a == b,
    decreases a,
{
    lemma_dec_spec_len(a / 10);
    lemma_dec_spec_len(b / 10);
    if a < 10 && b < 10 {
        assert(dec_spec(a) == seq![digit_char(a)]);
        assert(dec_spec(b) == seq![digit_char(b)]);
        assert(seq![digit_char(a)][0] == digit_char(a));
        assert(seq![digit_char(b)][0] == digit_char(b));
        lemma_digit_char_injective(a, b);
    } else if a < 10 {
        assert(dec_spec(a).len() == 1);
        assert(dec_spec(b).len() == dec_spec(b / 10).len() + 1);
    } else if b < 10 {
        assert(dec_spec(b).len() == 1);
        assert(dec_spec(a).len() == dec_spec(a / 10).len() + 1);
    } else {
        assert(dec_spec(a).last() == digit_char(a % 10));
        assert(dec_spec(b).last() == digit_char(b % 10));
        lemma_digit_char_injective(a % 10, b % 10);
        assert(dec_spec(a).drop_last() =~= dec_spec(a / 10));
        assert(dec_spec(b).drop_last() =~= dec_spec(b / 10));
        lemma_dec_spec_injective(a / 10, b / 10);
        vstd::arithmetic::div_mod::lemma_fundamental_div_mod(a as int, 10int);
        vstd::arithmetic::div_mod::lemma_fundamental_div_mod(b as int, 10int);
    }
}

/// Workspace-collision law: the two workspace roots of one job differ, and no
/// workspace root of one job is a workspace root of another — concurrent jobs
/// never share a directory.
pub proof fn lemma_workspace_names_unique(i: nat, j: nat)
    ensures
        workspace_a_spec(i) != workspace_b_spec(j),
        i != j ==> workspace_a_spec(i) != workspace_a_spec(j),
        i != j ==> workspace_b_spec(i) != workspace_b_spec(j),
{
    reveal_strlit("ws-");
    reveal_strlit("-a");
    reveal_strlit("-b");
    lemma_dec_spec_len(i);
    lemma_dec_spec_len(j);
    let pa = workspace_a_spec(i);
    let pb = workspace_b_spec(j);
    assert(pa.last() == 'a');
    assert(pb.last() == 'b');
    if i != j {
        if workspace_a_spec(i) == workspace_a_spec(j) {
            assert(dec_spec(i).len() == dec_spec(j).len());
            assert forall|k: int| 0 <= k < dec_spec(i).len() implies dec_spec(i)[k] == dec_spec(
                j,
            )[k] by {
                assert(workspace_a_spec(i)[3 + k] == dec_spec(i)[k]);
                assert(workspace_a_spec(j)[3 + k] == dec_spec(j)[k]);
            }
            assert(dec_spec(i) =~= dec_spec(j));
            lemma_dec_spec_injective(i, j);
        }
        if workspace_b_spec(i) == workspace_b_spec(j) {
            assert(dec_spec(i).len() == dec_spec(j).len());
            assert forall|k: int| 0 <= k < dec_spec(i).len() implies dec_spec(i)[k] == dec_spec(
                j,
            )[k] by {
                assert(workspace_b_spec(i)[3 + k] == dec_spec(i)[k]);
                assert(workspace_b_spec(j)[3 + k] == dec_spec(j)[k]);
            }
            assert(dec_spec(i) =~= dec_spec(j));
            lemma_dec_spec_injective(i, j);
        }
    }
}

/// Submits a change: the inline, synchronous part of accepting a request.
/// Returns the job row for the change — the existing one when the change was
/// already submitted (in any status), a fresh `Pending` row otherwise. The
/// caller then runs the pipeline for a fresh row; an existing row means some
/// other submission already owns the work.
pub fn submit(store: &mut JobStore, cr: &ChangeRef) -> (r: Diff)
    requires
        old(store).wf(),
        crate::store::next_id(old(store)@) <= i32::MAX,
    ensures
        final(store).wf(),
        r@.change == cr.change@,
        exists|i: int| 0 <= i < final(store)@.len() && final(store)@[i] == r@,
        has_change(old(store)@, cr.change@) ==> {
            &&& final(store)@ == old(store)@
            &&& exists|i: int| 0 <= i < old(store)@.len() && old(store)@[i] == r@
        },
        !has_change(old(store)@, cr.change@) ==> {
            &&& r@.status == JobStatus::Pending
            &&& r@.id == crate::store::next_id(old(store)@)
            &&& r@.git_ref == cr.git_ref@
            &&& r@.project == cr.project@
            &&& final(store)@ =~= old(store)@.push(r@)
        },
{
    let new = NewDiff {
        change: cr.change.clone(),
        git_ref: cr.git_ref.clone(),
        status: JobStatus::Pending,
        project: cr.project.clone(),
        txtdiff: None,
    };
    store.insert_pending_if_absent(new)
}

} // verus!
