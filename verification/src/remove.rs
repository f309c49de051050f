//! The remover: what to do with the build directories that a scan found.
//!
//! The directories are taken in the order given. In a dry run each one is
//! shown, and nothing is ever deleted. Otherwise each one is deleted, and the
//! first deletion that fails ends the run: nothing more is deleted and no
//! total is reported. This holds for a build directory inside another one as
//! well: once the outer one is gone, deleting the inner one fails, and the run
//! ends there.
//!
//! The library plans and the caller acts: [`Removal::step`] says what is due,
//! the caller does it and tells [`Removal::advance`] how it went.

use crate::scan::{MatchedDirectory, MatchedDirectoryView};
use crate::size::clamp;
use vstd::prelude::*;

verus! {

/// The bytes of all of `dirs` together.
pub open spec fn sum_sizes(dirs: Seq<MatchedDirectoryView>) -> nat
    decreases dirs.len(),
{
    if dirs.len() == 0 {
        0
    } else {
        sum_sizes(dirs.drop_last()) + dirs.last().size_bytes as nat
    }
}

/// The total reported for `dirs`: their bytes, or `u64::MAX` where those do
/// not fit in 64 bits.
pub open spec fn reclaimed(dirs: Seq<MatchedDirectoryView>) -> u64 {
    clamp(sum_sizes(dirs))
}

/// What the caller is to do next.
#[derive(Debug, PartialEq, Eq)]
pub enum Step {
    /// Print one line for a directory that a real run would delete.
    Show { size: u64, path: String },
    /// Delete the directory at `path` with all that it holds.
    Delete { path: String },
    /// All went well: report `total` bytes.
    Finish { total: u64 },
    /// A deletion failed: stop with the error, and report no total.
    Abort,
}

/// The mathematical value of a [`Step`].
pub enum StepView {
    Show { size: u64, path: Seq<char> },
    Delete { path: Seq<char> },
    Finish { total: u64 },
    Abort,
}

impl View for Step {
    type V = StepView;

    open spec fn view(&self) -> StepView {
        match self {
            Step::Show { size, path } => StepView::Show { size: *size, path: path@ },
            Step::Delete { path } => StepView::Delete { path: path@ },
            Step::Finish { total } => StepView::Finish { total: *total },
            Step::Abort => StepView::Abort,
        }
    }
}

/// Where a removal stands.
pub struct RemovalView {
    /// The directories to go through, in order.
    pub dirs: Seq<MatchedDirectoryView>,
    /// Whether this is a dry run.
    pub dry_run: bool,
    /// How many directories have been dealt with.
    pub done: nat,
    /// The bytes of the directories taken up so far.
    pub total: u64,
    /// Whether a deletion has failed.
    pub failed: bool,
}

impl RemovalView {
    /// The removal that has `dirs` before it.
    pub open spec fn start(dirs: Seq<MatchedDirectoryView>, dry_run: bool) -> RemovalView {
        RemovalView { dirs, dry_run, done: 0, total: 0, failed: false }
    }

    /// Whether a directory is still to be dealt with.
    pub open spec fn busy(self) -> bool {
        !self.failed && self.done < self.dirs.len()
    }

    /// What is due.
    pub open spec fn step(self) -> StepView {
        if self.failed {
            StepView::Abort
        } else if self.done < self.dirs.len() {
            let dir = self.dirs[self.done as int];
            if self.dry_run {
                StepView::Show { size: dir.size_bytes, path: dir.path }
            } else {
                StepView::Delete { path: dir.path }
            }
        } else {
            StepView::Finish { total: self.total }
        }
    }

    /// The removal after the step that was due has been tried, with `ok`
    /// telling whether it went well. The directory's bytes go into the total
    /// either way. A dry run cannot fail, so there `ok` is not looked at.
    /// With nothing due the removal stays as it is.
    pub open spec fn advance(self, ok: bool) -> RemovalView {
        if !self.busy() {
            self
        } else {
            let total = clamp((self.total + self.dirs[self.done as int].size_bytes) as nat);
            if self.dry_run || ok {
                RemovalView { done: self.done + 1, total, ..self }
            } else {
                RemovalView { failed: true, total, ..self }
            }
        }
    }

    /// The removal after one step was tried for each of `outcomes` in turn.
    pub open spec fn advance_all(self, outcomes: Seq<bool>) -> RemovalView
        decreases outcomes.len(),
    {
        if outcomes.len() == 0 {
            self
        } else {
            self.advance_all(outcomes.drop_last()).advance(outcomes.last())
        }
    }
}

/// A removal in progress.
pub struct Removal {
    dirs: Vec<MatchedDirectory>,
    dry_run: bool,
    done: usize,
    total: u64,
    failed: bool,
}

impl View for Removal {
    type V = RemovalView;

    closed spec fn view(&self) -> RemovalView {
        RemovalView {
            dirs: self.dirs.deep_view(),
            dry_run: self.dry_run,
            done: self.done as nat,
            total: self.total,
            failed: self.failed,
        }
    }
}

/// Begins the removal of `dirs`, as a dry run or for real.
pub fn delete_dirs(dirs: Vec<MatchedDirectory>, dry_run: bool) -> (removal: Removal)
    ensures
        removal@ == RemovalView::start(dirs.deep_view(), dry_run),
{
    Removal { dirs, dry_run, done: 0, total: 0, failed: false }
}

impl Removal {
    /// What the caller is to do next.
    pub fn step(&self) -> (step: Step)
        ensures
            step@ == self@.step(),
    {
        if self.failed {
            Step::Abort
        } else if self.done < self.dirs.len() {
            let dir = &self.dirs[self.done];
            if self.dry_run {
                Step::Show { size: dir.size_bytes, path: dir.path.clone() }
            } else {
                Step::Delete { path: dir.path.clone() }
            }
        } else {
            Step::Finish { total: self.total }
        }
    }

    /// Records how the step that was due went.
    pub fn advance(&mut self, ok: bool)
        ensures
            final(self)@ == old(self)@.advance(ok),
    {
        if !self.failed && self.done < self.dirs.len() {
            self.total = self.total.saturating_add(self.dirs[self.done].size_bytes);
            if self.dry_run || ok {
                self.done = self.done + 1;
            } else {
                self.failed = true;
            }
        }
    }
}

/// Outcomes that are all successes.
pub open spec fn all_ok(outcomes: Seq<bool>) -> bool {
    forall|i: int| 0 <= i < outcomes.len() ==> outcomes[i]
}

/// `count` successes in a row.
pub open spec fn successes(count: nat) -> Seq<bool> {
    Seq::new(count, |i: int| true)
}

/// Trying steps for `first` and then for `then` is trying them for both laid
/// end to end.
pub proof fn lemma_advance_all_add(removal: RemovalView, first: Seq<bool>, then: Seq<bool>)
    ensures
        removal.advance_all(first + then) == removal.advance_all(first).advance_all(then),
    decreases then.len(),
{
    if then.len() > 0 {
        lemma_advance_all_add(removal, first, then.drop_last());
        assert((first + then).drop_last() == first + then.drop_last());
    }
}

/// While nothing fails, each outcome moves the removal on by one directory,
/// and the running total is what the directories dealt with add up to.
pub proof fn lemma_progress(dirs: Seq<MatchedDirectoryView>, dry_run: bool, outcomes: Seq<bool>)
    requires
        outcomes.len() <= dirs.len(),
        dry_run || all_ok(outcomes),
    ensures
        RemovalView::start(dirs, dry_run).advance_all(outcomes) == (RemovalView {
            dirs,
            dry_run,
            done: outcomes.len(),
            total: reclaimed(dirs.take(outcomes.len() as int)),
            failed: false,
        }),
    decreases outcomes.len(),
{
    if outcomes.len() > 0 {
        let done = outcomes.len() - 1;
        lemma_progress(dirs, dry_run, outcomes.drop_last());
        assert(dirs.take(done + 1).drop_last() == dirs.take(done));
    }
}

/// A removal with nothing due stays as it is, whatever it is told.
pub proof fn lemma_idle_stays(removal: RemovalView, outcomes: Seq<bool>)
    requires
        !removal.busy(),
    ensures
        removal.advance_all(outcomes) == removal,
    decreases outcomes.len(),
{
    if outcomes.len() > 0 {
        lemma_idle_stays(removal, outcomes.drop_last());
    }
}

/// When every step goes well, the removal ends by reporting the bytes of all
/// the directories together, in a dry run as in a real one. Where they fit in
/// 64 bits the total is their exact sum.
pub proof fn lemma_total_is_sum(dirs: Seq<MatchedDirectoryView>, dry_run: bool, outcomes: Seq<bool>)
    requires
        outcomes.len() == dirs.len(),
        dry_run || all_ok(outcomes),
    ensures
        RemovalView::start(dirs, dry_run).advance_all(outcomes).step() == (StepView::Finish {
            total: reclaimed(dirs),
        }),
        sum_sizes(dirs) <= u64::MAX ==> reclaimed(dirs) == sum_sizes(dirs),
{
    lemma_progress(dirs, dry_run, outcomes);
    assert(dirs.take(dirs.len() as int) == dirs);
}

/// A dry run never asks for a deletion and never fails, whatever it is told:
/// it shows the directories one by one and then reports the total.
pub proof fn lemma_dry_run_deletes_nothing(dirs: Seq<MatchedDirectoryView>, outcomes: Seq<bool>)
    ensures
        ({
            let step = RemovalView::start(dirs, true).advance_all(outcomes).step();
            if outcomes.len() < dirs.len() {
                step == (StepView::Show {
                    size: dirs[outcomes.len() as int].size_bytes,
                    path: dirs[outcomes.len() as int].path,
                })
            } else {
                step == (StepView::Finish { total: reclaimed(dirs) })
            }
        }),
{
    let start = RemovalView::start(dirs, true);
    if outcomes.len() < dirs.len() {
        lemma_progress(dirs, true, outcomes);
    } else {
        let len = dirs.len() as int;
        lemma_progress(dirs, true, outcomes.take(len));
        assert(dirs.take(len) == dirs);
        lemma_idle_stays(start.advance_all(outcomes.take(len)), outcomes.skip(len));
        lemma_advance_all_add(start, outcomes.take(len), outcomes.skip(len));
        assert(outcomes.take(len) + outcomes.skip(len) == outcomes);
    }
}

/// A dry run reports the total that a real run of the same directories
/// reports when all its deletions go well.
pub proof fn lemma_dry_run_total_is_real_total(
    dirs: Seq<MatchedDirectoryView>,
    shown: Seq<bool>,
    deleted: Seq<bool>,
)
    requires
        shown.len() == dirs.len(),
        deleted.len() == dirs.len(),
        all_ok(deleted),
    ensures
        RemovalView::start(dirs, true).advance_all(shown).step() == RemovalView::start(
            dirs,
            false,
        ).advance_all(deleted).step(),
{
    lemma_total_is_sum(dirs, true, shown);
    lemma_total_is_sum(dirs, false, deleted);
}

/// In a real run whose first `before` deletions go well and whose next one
/// fails, each directory up to the failing one was asked to be deleted in
/// turn, and from the failure on the removal says `Abort`, whatever follows:
/// no further deletion and no total.
pub proof fn lemma_failure_aborts(dirs: Seq<MatchedDirectoryView>, before: nat, after: Seq<bool>)
    requires
        before < dirs.len(),
    ensures
        forall|done: nat|
            done <= before ==> RemovalView::start(dirs, false).advance_all(
                #[trigger] successes(done),
            ).step() == (StepView::Delete { path: dirs[done as int].path }),
        RemovalView::start(dirs, false).advance_all(
            successes(before).push(false) + after,
        ).step() == StepView::Abort,
{
    let start = RemovalView::start(dirs, false);
    assert forall|done: nat| done <= before implies start.advance_all(
        #[trigger] successes(done),
    ).step() == (StepView::Delete { path: dirs[done as int].path }) by {
        lemma_progress(dirs, false, successes(done));
    }
    let good = successes(before);
    lemma_progress(dirs, false, good);
    assert(good.push(false).drop_last() == good);
    let failed = start.advance_all(good.push(false));
    lemma_idle_stays(failed, after);
    lemma_advance_all_add(start, good.push(false), after);
}

} // verus!
