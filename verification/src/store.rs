//! The job table: a durable map from change identifier to job row, with the
//! atomic "insert if absent" primitive that deduplicates concurrent
//! submissions, the terminal-status transitions, and the recent-jobs query.

use vstd::prelude::*;

use crate::models::{Diff, DiffView, FailureReason, FailureReasonView, JobStatus, NewDiff};
use crate::text::str_eq;

verus! {

/// True when some row of `rows` carries the change identifier `change`.
pub open spec fn has_change(rows: Seq<DiffView>, change: Seq<char>) -> bool {
    exists|i: int| 0 <= i < rows.len() && rows[i].change == change
}

/// True when some row of `rows` carries `change` and is still `Pending`.
pub open spec fn has_pending(rows: Seq<DiffView>, change: Seq<char>) -> bool {
    exists|i: int|
        0 <= i < rows.len() && rows[i].change == change && rows[i].status == JobStatus::Pending
}

/// Internal consistency of one row: the diff text is present exactly on
/// success, the failure reason exactly on failure.
pub open spec fn row_wf(r: DiffView) -> bool {
    &&& r.txtdiff is Some <==> r.status == JobStatus::Done
    &&& r.reason is Some <==> r.status == JobStatus::Failed
}

/// The row `r` turned terminal: status `status`, with the diff text or the
/// failure reason attached, every other column unchanged.
pub open spec fn terminal_row(
    r: DiffView,
    status: JobStatus,
    txtdiff: Option<Seq<char>>,
    reason: Option<FailureReasonView>,
) -> DiffView {
    DiffView { id: r.id, change: r.change, git_ref: r.git_ref, status, project: r.project, txtdiff, reason }
}

/// The most recent rows of `rows` with status `Done`, newest (last inserted)
/// first, at most `limit` of them. `rows` is ordered oldest first.
pub open spec fn recent_done(rows: Seq<DiffView>, limit: nat) -> Seq<DiffView>
    decreases rows.len(),
{
    if rows.len() == 0 || limit == 0 {
        Seq::empty()
    } else if rows.last().status == JobStatus::Done {
        seq![rows.last()] + recent_done(rows.drop_last(), (limit - 1) as nat)
    } else {
        recent_done(rows.drop_last(), limit)
    }
}

/// The surrogate id the next inserted row will get: one past the newest row's
/// id, starting from 1 on an empty table.
pub open spec fn next_id(rows: Seq<DiffView>) -> int {
    if rows.len() == 0 {
        1
    } else {
        rows.last().id + 1
    }
}

/// The job table. Rows are kept in insertion order; surrogate ids ascend with
/// insertion order, so "most recent" and "largest id" coincide.
pub struct JobStore {
    rows: Vec<Diff>,
}

impl View for JobStore {
    type V = Seq<DiffView>;

    closed spec fn view(&self) -> Seq<DiffView> {
        self.rows@.map_values(|d: Diff| d@)
    }
}

impl JobStore {
    /// Well-formedness: ids are strictly ascending and start at 1 or above,
    /// change identifiers are unique, and every row is internally consistent.
    pub open spec fn wf(self) -> bool {
        &&& forall|i: int, j: int| 0 <= i < j < self@.len() ==> self@[i].id < self@[j].id
        &&& forall|i: int| 0 <= i < self@.len() ==> 1 <= #[trigger] self@[i].id
        &&& forall|i: int, j: int|
            0 <= i < self@.len() && 0 <= j < self@.len() && i != j ==> self@[i].change
                != self@[j].change
        &&& forall|i: int| 0 <= i < self@.len() ==> row_wf(#[trigger] self@[i])
    }

    /// An empty table; the first row inserted will get id 1.
    pub fn new() -> (r: JobStore)
        ensures
            r.wf(),
            r@ =~= Seq::<DiffView>::empty(),
    {
        JobStore { rows: Vec::new() }
    }

    /// How many rows the table holds.
    pub fn len(&self) -> (r: usize)
        ensures
            r == self@.len(),
    {
        self.rows.len()
    }

    /// Looks a job up by its change identifier: `Some` with a copy of the
    /// unique row carrying `change` when one exists, `None` otherwise.
    pub fn get_diff(&self, change: &str) -> (r: Option<Diff>)
        requires
            self.wf(),
        ensures
            match r {
                Some(d) => {
                    &&& exists|i: int| 0 <= i < self@.len() && self@[i] == d@
                    &&& d@.change == change@
                },
                None => !has_change(self@, change@),
            },
    {
        let n = self.rows.len();
        let mut i: usize = 0;
        while i < n
            invariant
                n == self@.len(),
                i <= n,
                self.wf(),
                forall|j: int| 0 <= j < i ==> self@[j].change != change@,
            decreases n - i,
        {
            if str_eq(self.rows[i].change.as_str(), change) {
                let d = self.rows[i].duplicate();
                proof {
                    assert(self@[i as int] == d@);
                }
                return Some(d);
            }
            i += 1;
        }
        None
    }

    /// Whether the table holds a still-`Pending` row for `change`: exactly
    /// the state in which a terminal transition for `change` will happen.
    pub fn has_pending_row(&self, change: &str) -> (r: bool)
        requires
            self.wf(),
        ensures
            r == has_pending(self@, change@),
    {
        let n = self.rows.len();
        let mut i: usize = 0;
        while i < n
            invariant
                n == self@.len(),
                i <= n,
                self.wf(),
                forall|j: int|
                    0 <= j < i ==> !(self@[j].change == change@ && self@[j].status
                        == JobStatus::Pending),
            decreases n - i,
        {
            if str_eq(self.rows[i].change.as_str(), change) && matches!(
                self.rows[i].status,
                JobStatus::Pending,
            ) {
                proof {
                    assert(self@[i as int] == self.rows@[i as int]@);
                    assert(self@[i as int].change == change@);
                    assert(has_pending(self@, change@));
                }
                return true;
            }
            i += 1;
        }
        false
    }

    /// The atomic get-or-create primitive. If a row for `new.change` already
    /// exists (in any status) the table is unchanged and a copy of that row is
    /// returned; otherwise a `Pending` row with the next surrogate id is
    /// appended and returned. This is the system's sole deduplication point.
    pub fn insert_pending_if_absent(&mut self, new: NewDiff) -> (r: Diff)
        requires
            old(self).wf(),
            new.status == JobStatus::Pending,
            new.txtdiff is None,
            next_id(old(self)@) <= i32::MAX,
        ensures
            final(self).wf(),
            r@.change == new.change@,
            exists|i: int| 0 <= i < final(self)@.len() && final(self)@[i] == r@,
            has_change(old(self)@, new.change@) ==> {
                &&& final(self)@ == old(self)@
                &&& exists|i: int| 0 <= i < old(self)@.len() && old(self)@[i] == r@
            },
            !has_change(old(self)@, new.change@) ==> {
                &&& r@ == (DiffView {
                    id: next_id(old(self)@),
                    change: new.change@,
                    git_ref: new.git_ref@,
                    status: JobStatus::Pending,
                    project: new.project@,
                    txtdiff: None,
                    reason: None,
                })
                &&& final(self)@ =~= old(self)@.push(r@)
            },
    {
        let n = self.rows.len();
        let mut i: usize = 0;
        while i < n
            invariant
                n == self@.len(),
                i <= n,
                self == old(self),
                old(self).wf(),
                forall|j: int| 0 <= j < i ==> self@[j].change != new.change@,
            decreases n - i,
        {
            if str_eq(self.rows[i].change.as_str(), new.change.as_str()) {
                let d = self.rows[i].duplicate();
                proof {
                    assert(self@[i as int] == d@);
                    assert(has_change(self@, new.change@));
                }
                return d;
            }
            i += 1;
        }
        let id: i32 = if self.rows.len() == 0 {
            1
        } else {
            self.rows[self.rows.len() - 1].id + 1
        };
        let row = Diff {
            id,
            change: new.change,
            git_ref: new.git_ref,
            status: JobStatus::Pending,
            project: new.project,
            txtdiff: None,
            reason: None,
        };
        let copy = row.duplicate();
        self.rows.push(row);
        proof {
            assert(self@ =~= old(self)@.push(copy@));
            assert(self@[old(self)@.len() as int] == copy@);
            assert(!has_change(old(self)@, new.change@));
        }
        copy
    }

    /// Shared transition to a terminal status: finds the unique `Pending` row
    /// for `change`, replaces its status and payload columns, and reports
    /// whether a transition happened. A row that is absent or already terminal
    /// is left untouched.
    #[verifier::loop_isolation(false)]
    fn set_terminal(
        &mut self,
        change: &str,
        status: JobStatus,
        txtdiff: Option<String>,
        reason: Option<FailureReason>,
    ) -> (r: bool)
        requires
            old(self).wf(),
            status.is_terminal(),
            txtdiff is Some <==> status == JobStatus::Done,
            reason is Some <==> status == JobStatus::Failed,
        ensures
            final(self).wf(),
            r == has_pending(old(self)@, change@),
            !r ==> final(self)@ == old(self)@,
            r ==> exists|i: int|
                {
                    &&& 0 <= i < old(self)@.len()
                    &&& old(self)@[i].change == change@
                    &&& old(self)@[i].status == JobStatus::Pending
                    &&& final(self)@ =~= old(self)@.update(
                        i,
                        terminal_row(
                            old(self)@[i],
                            status,
                            crate::models::opt_text_view(txtdiff),
                            crate::models::opt_reason_view(reason),
                        ),
                    )
                },
    {
        let ghost tview: Option<Seq<char>> = crate::models::opt_text_view(txtdiff);
        let ghost rview: Option<FailureReasonView> = crate::models::opt_reason_view(reason);
        let n = self.rows.len();
        let mut i: usize = 0;
        while i < n
            invariant
                n == self@.len(),
                i <= n,
                self == old(self),
                old(self).wf(),
                forall|j: int|
                    0 <= j < i ==> !(self@[j].change == change@ && self@[j].status
                        == JobStatus::Pending),
            decreases n - i,
        {
            let row_change_matches = str_eq(self.rows[i].change.as_str(), change);
            let row_pending = matches!(self.rows[i].status, JobStatus::Pending);
            if row_change_matches && row_pending {
                let updated = Diff {
                    id: self.rows[i].id,
                    change: self.rows[i].change.clone(),
                    git_ref: self.rows[i].git_ref.clone(),
                    status,
                    project: self.rows[i].project.clone(),
                    txtdiff,
                    reason,
                };
                let ghost uview = updated@;
                self.rows[i] = updated;
                proof {
                    assert(self.rows@ =~= old(self).rows@.update(i as int, self.rows@[i as int]));
                    assert(old(self)@[i as int] == old(self).rows@[i as int]@);
                    assert(uview == terminal_row(old(self)@[i as int], status, tview, rview));
                    assert forall|j: int| 0 <= j < self@.len() implies self@[j] == old(
                        self,
                    )@.update(i as int, terminal_row(old(self)@[i as int], status, tview, rview))[j] by {
                        if j == i as int {
                            assert(self@[j] == uview);
                        } else {
                            assert(self.rows@[j] == old(self).rows@[j]);
                        }
                    }
                    assert(self@ =~= old(self)@.update(
                        i as int,
                        terminal_row(old(self)@[i as int], status, tview, rview),
                    ));
                }
                return true;
            }
            i += 1;
        }
        false
    }

    /// Transitions the `Pending` job for `change` to `Done`, attaching the
    /// diff text character for character. Returns whether a transition
    /// happened.
    pub fn mark_done(&mut self, change: &str, txtdiff: String) -> (r: bool)
        requires
            old(self).wf(),
        ensures
            final(self).wf(),
            r == has_pending(old(self)@, change@),
            !r ==> final(self)@ == old(self)@,
            r ==> exists|i: int|
                {
                    &&& 0 <= i < old(self)@.len()
                    &&& old(self)@[i].change == change@
                    &&& old(self)@[i].status == JobStatus::Pending
                    &&& final(self)@ =~= old(self)@.update(
                        i,
                        terminal_row(old(self)@[i], JobStatus::Done, Some(txtdiff@), None),
                    )
                },
    {
        self.set_terminal(change, JobStatus::Done, Some(txtdiff), None)
    }

    /// Transitions the `Pending` job for `change` to `Failed`, attaching the
    /// classified failure reason. Returns whether a transition happened.
    pub fn mark_failed(&mut self, change: &str, reason: FailureReason) -> (r: bool)
        requires
            old(self).wf(),
        ensures
            final(self).wf(),
            r == has_pending(old(self)@, change@),
            !r ==> final(self)@ == old(self)@,
            r ==> exists|i: int|
                {
                    &&& 0 <= i < old(self)@.len()
                    &&& old(self)@[i].change == change@
                    &&& old(self)@[i].status == JobStatus::Pending
                    &&& final(self)@ =~= old(self)@.update(
                        i,
                        terminal_row(old(self)@[i], JobStatus::Failed, None, Some(reason@)),
                    )
                },
    {
        self.set_terminal(change, JobStatus::Failed, None, Some(reason))
    }

    /// Transitions the `Pending` job for `change` to `NoRelevantChanges`: the
    /// proposed commit touched no dependency manifest, so no diff exists and
    /// none ever will. Returns whether a transition happened.
    pub fn mark_no_relevant_changes(&mut self, change: &str) -> (r: bool)
        requires
            old(self).wf(),
        ensures
            final(self).wf(),
            r == has_pending(old(self)@, change@),
            !r ==> final(self)@ == old(self)@,
            r ==> exists|i: int|
                {
                    &&& 0 <= i < old(self)@.len()
                    &&& old(self)@[i].change == change@
                    &&& old(self)@[i].status == JobStatus::Pending
                    &&& final(self)@ =~= old(self)@.update(
                        i,
                        terminal_row(old(self)@[i], JobStatus::NoRelevantChanges, None, None),
                    )
                },
    {
        self.set_terminal(change, JobStatus::NoRelevantChanges, None, None)
    }

    /// The most recently inserted jobs with status `Done`, newest first, at
    /// most `limit` of them.
    pub fn recent_diffs(&self, limit: usize) -> (r: Vec<Diff>)
        requires
            self.wf(),
        ensures
            r@.map_values(|d: Diff| d@) =~= recent_done(self@, limit as nat),
    {
        let mut out: Vec<Diff> = Vec::new();
        let mut i: usize = self.rows.len();
        proof {
            assert(self@.take(i as int) =~= self@);
        }
        while i > 0 && out.len() < limit
            invariant
                self.wf(),
                i <= self@.len(),
                out@.len() <= limit,
                recent_done(self@, limit as nat) =~= out@.map_values(|d: Diff| d@) + recent_done(
                    self@.take(i as int),
                    (limit - out@.len()) as nat,
                ),
            decreases i,
        {
            i -= 1;
            proof {
                assert(self@.take(i + 1).drop_last() =~= self@.take(i as int));
                assert(self@.take(i + 1).last() == self@[i as int]);
            }
            if matches!(self.rows[i].status, JobStatus::Done) {
                let d = self.rows[i].duplicate();
                out.push(d);
                proof {
                    let prev = out@.drop_last();
                    assert(prev =~= out@.subrange(0, out@.len() - 1));
                    assert(out@.map_values(|x: Diff| x@) =~= prev.map_values(|x: Diff| x@) + seq![
                        d@,
                    ]);
                    assert(out@.map_values(|x: Diff| x@) + recent_done(
                        self@.take(i as int),
                        (limit - out@.len()) as nat,
                    ) =~= prev.map_values(|x: Diff| x@) + (seq![d@] + recent_done(
                        self@.take(i as int),
                        (limit - out@.len()) as nat,
                    )));
                }
            }
        }
        proof {
            if out@.len() == limit {
                lemma_recent_done_zero(self@.take(i as int));
            } else {
                assert(self@.take(0int) =~= Seq::<DiffView>::empty());
            }
            assert(out@.map_values(|d: Diff| d@) + Seq::<DiffView>::empty() =~= out@.map_values(
                |d: Diff| d@,
            ));
        }
        out
    }
}

/// `recent_done` of anything with limit 0 is empty.
proof fn lemma_recent_done_zero(rows: Seq<DiffView>)
    ensures
        recent_done(rows, 0) =~= Seq::<DiffView>::empty(),
{
}

/// Deduplication law: when a first submission for a change finds no row and
/// appends one, any later submission for the same change leaves the table as
/// it is and hands back that very row — the same surrogate id — and the table
/// holds exactly one row for the change.
pub proof fn lemma_submit_deduplicates(
    pre: Seq<DiffView>,
    mid: Seq<DiffView>,
    r1: DiffView,
    r2: DiffView,
    change: Seq<char>,
)
    requires
        !has_change(pre, change),
        r1.change == change,
        mid == pre.push(r1),
        exists|i: int| 0 <= i < mid.len() && mid[i] == r2,
        r2.change == change,
    ensures
        r2 == r1,
        forall|i: int, j: int|
            0 <= i < mid.len() && 0 <= j < mid.len() && mid[i].change == change && mid[j].change
                == change ==> i == j,
{
    assert forall|i: int| 0 <= i < mid.len() && mid[i].change == change implies i == mid.len()
        - 1 by {
        if i < mid.len() - 1 {
            assert(pre[i] == mid[i]);
            assert(has_change(pre, change));
        }
    }
    let i = choose|i: int| 0 <= i < mid.len() && mid[i] == r2;
    assert(i == mid.len() - 1);
}

/// Round-trip law: after the pending job for a change is marked `Done` with a
/// given text, any row looked up for that change is that job, now `Done`, and
/// carries the text unchanged, character for character.
pub proof fn lemma_mark_done_round_trip(
    pre: Seq<DiffView>,
    fin: Seq<DiffView>,
    change: Seq<char>,
    text: Seq<char>,
    i: int,
    d: DiffView,
)
    requires
        forall|k: int, l: int|
            0 <= k < pre.len() && 0 <= l < pre.len() && k != l ==> pre[k].change != pre[l].change,
        0 <= i < pre.len(),
        pre[i].change == change,
        pre[i].status == JobStatus::Pending,
        fin == pre.update(i, terminal_row(pre[i], JobStatus::Done, Some(text), None)),
        exists|j: int| 0 <= j < fin.len() && fin[j] == d,
        d.change == change,
    ensures
        d.status == JobStatus::Done,
        d.txtdiff == Some(text),
        d.id == pre[i].id,
{
    let j = choose|j: int| 0 <= j < fin.len() && fin[j] == d;
    if j != i {
        assert(fin[j] == pre[j]);
        assert(pre[j].change != pre[i].change);
    }
}

/// Recency law: the recent-done listing never exceeds its limit, holds only
/// rows with status `Done`, and — when the table's ids ascend with position —
/// comes out in strictly descending surrogate-id order, each id drawn from
/// the table.
pub proof fn lemma_recent_done_properties(rows: Seq<DiffView>, limit: nat)
    requires
        forall|i: int, j: int| 0 <= i < j < rows.len() ==> rows[i].id < rows[j].id,
    ensures
        recent_done(rows, limit).len() <= limit,
        forall|k: int|
            0 <= k < recent_done(rows, limit).len() ==> #[trigger] recent_done(rows, limit)[k].status
                == JobStatus::Done,
        forall|k: int, l: int|
            0 <= k < l < recent_done(rows, limit).len() ==> recent_done(rows, limit)[k].id
                > recent_done(rows, limit)[l].id,
        rows.len() > 0 ==> forall|k: int|
            0 <= k < recent_done(rows, limit).len() ==> #[trigger] recent_done(rows, limit)[k].id
                <= rows.last().id,
    decreases rows.len(),
{
    if rows.len() == 0 || limit == 0 {
    } else {
        let rest = rows.drop_last();
        lemma_recent_done_properties(rest, (limit - 1) as nat);
        lemma_recent_done_properties(rest, limit);
        assert(forall|i: int| 0 <= i < rest.len() ==> rest[i] == rows[i]);
        if rows.last().status == JobStatus::Done {
            let out = recent_done(rows, limit);
            let tail = recent_done(rest, (limit - 1) as nat);
            assert(out == seq![rows.last()] + tail);
            assert(out[0] == rows.last());
            assert(forall|k: int| 1 <= k < out.len() ==> out[k] == tail[k - 1]);
            if rest.len() > 0 {
                assert(rest.last() == rows[rows.len() - 2]);
                assert(rest.last().id < rows.last().id);
            }
        }
    }
}

} // verus!
