//! A whole run: scan the root, measure what was found, remove it, report.
//!
//! No stage is tried twice. The library says what is to be done next with
//! [`Run::action`]; the caller does it and answers with [`Run::walked`] or
//! [`Run::acted`]. An answer that nothing asked for changes nothing.

use crate::config::{Config, ConfigView};
use crate::entry::{Visit, VisitView};
use crate::remove::{delete_dirs, reclaimed, Removal, RemovalView, Step, StepView};
use crate::scan::{find_dirs, scan_result, target_paths, Scan, ScanView};
use vstd::prelude::*;

verus! {

/// What the caller is to do next.
#[derive(Debug, PartialEq, Eq)]
pub enum Action {
    /// Walk `dir` and all below it, and answer with [`Run::walked`].
    Walk { dir: String },
    /// Print one line for a directory that a real run would delete, and
    /// answer with [`Run::acted`].
    Show { size: u64, path: String },
    /// Delete the directory at `path` with all that it holds, and answer
    /// with [`Run::acted`].
    Delete { path: String },
    /// All went well: print the closing line with `total`, and end.
    Finish { total: u64 },
    /// A deletion failed: end with its error, and print no closing line.
    Abort,
}

/// The mathematical value of an [`Action`].
pub enum ActionView {
    Walk { dir: Seq<char> },
    Show { size: u64, path: Seq<char> },
    Delete { path: Seq<char> },
    Finish { total: u64 },
    Abort,
}

impl View for Action {
    type V = ActionView;

    open spec fn view(&self) -> ActionView {
        match self {
            Action::Walk { dir } => ActionView::Walk { dir: dir@ },
            Action::Show { size, path } => ActionView::Show { size: *size, path: path@ },
            Action::Delete { path } => ActionView::Delete { path: path@ },
            Action::Finish { total } => ActionView::Finish { total: *total },
            Action::Abort => ActionView::Abort,
        }
    }
}

/// The action that carries out a step of the remover.
pub open spec fn action_of(step: StepView) -> ActionView {
    match step {
        StepView::Show { size, path } => ActionView::Show { size, path },
        StepView::Delete { path } => ActionView::Delete { path },
        StepView::Finish { total } => ActionView::Finish { total },
        StepView::Abort => ActionView::Abort,
    }
}

/// Where a run stands.
pub enum RunView {
    /// The root has not been walked yet.
    Start { root: Seq<char>, dry_run: bool },
    /// The root has been walked, and `dir` is being measured.
    Measuring { scan: ScanView, dir: Seq<char>, dry_run: bool },
    /// All build directories have been measured and are being removed.
    Removing { removal: RemovalView },
}

/// One answer of the caller.
pub enum Answer {
    /// The walk that was asked for.
    Walked(Seq<VisitView>),
    /// How showing or deleting went.
    Acted(bool),
}

impl RunView {
    /// The run that `config` asks for.
    pub open spec fn start(config: ConfigView) -> RunView {
        RunView::Start { root: config.dir, dry_run: config.dry_run }
    }

    /// The run that goes on with `scan`: it measures the next build directory,
    /// or begins to remove once none is left.
    pub open spec fn scanning(scan: ScanView, dry_run: bool) -> RunView {
        match scan.pending() {
            Some(dir) => RunView::Measuring { scan, dir, dry_run },
            None => RunView::Removing { removal: RemovalView::start(scan.found, dry_run) },
        }
    }

    /// What is due.
    pub open spec fn action(self) -> ActionView {
        match self {
            RunView::Start { root, .. } => ActionView::Walk { dir: root },
            RunView::Measuring { dir, .. } => ActionView::Walk { dir },
            RunView::Removing { removal } => action_of(removal.step()),
        }
    }

    /// The run after the walk that was asked for came back.
    pub open spec fn walked(self, walk: Seq<VisitView>) -> RunView {
        match self {
            RunView::Start { dry_run, .. } => RunView::scanning(ScanView::start(walk), dry_run),
            RunView::Measuring { scan, dry_run, .. } => RunView::scanning(
                scan.measured(walk),
                dry_run,
            ),
            RunView::Removing { .. } => self,
        }
    }

    /// The run after the directory that was due has been shown or its
    /// deletion tried.
    pub open spec fn acted(self, ok: bool) -> RunView {
        match self {
            RunView::Removing { removal } => RunView::Removing { removal: removal.advance(ok) },
            _ => self,
        }
    }

    /// The run after one answer.
    pub open spec fn answered(self, answer: Answer) -> RunView {
        match answer {
            Answer::Walked(walk) => self.walked(walk),
            Answer::Acted(ok) => self.acted(ok),
        }
    }

    /// The run after each of `answers` in turn.
    pub open spec fn answered_all(self, answers: Seq<Answer>) -> RunView
        decreases answers.len(),
    {
        if answers.len() == 0 {
            self
        } else {
            self.answered_all(answers.drop_last()).answered(answers.last())
        }
    }
}

enum Stage {
    Start { root: String },
    Measuring { scan: Scan, dir: String },
    Removing { removal: Removal },
}

/// A run in progress.
pub struct Run {
    dry_run: bool,
    stage: Stage,
}

impl View for Run {
    type V = RunView;

    closed spec fn view(&self) -> RunView {
        match self.stage {
            Stage::Start { root } => RunView::Start { root: root@, dry_run: self.dry_run },
            Stage::Measuring { scan, dir } => RunView::Measuring {
                scan: scan@,
                dir: dir@,
                dry_run: self.dry_run,
            },
            Stage::Removing { removal } => RunView::Removing { removal: removal@ },
        }
    }
}

impl Config {
    /// Begins the run that these settings ask for.
    pub fn run(&self) -> (run: Run)
        ensures
            run@ == RunView::start(self@),
    {
        Run { dry_run: self.dry_run(), stage: Stage::Start { root: self.dir().clone() } }
    }
}

impl Run {
    fn scanning(scan: Scan, dry_run: bool) -> (run: Run)
        ensures
            run@ == RunView::scanning(scan@, dry_run),
    {
        let pending = match scan.pending() {
            Some(dir) => Some(dir.clone()),
            None => None,
        };
        match pending {
            Some(dir) => Run { dry_run, stage: Stage::Measuring { scan, dir } },
            None => Run {
                dry_run,
                stage: Stage::Removing { removal: delete_dirs(scan.finish(), dry_run) },
            },
        }
    }

    /// What the caller is to do next.
    pub fn action(&self) -> (action: Action)
        ensures
            action@ == self@.action(),
    {
        match &self.stage {
            Stage::Start { root } => Action::Walk { dir: root.clone() },
            Stage::Measuring { dir, .. } => Action::Walk { dir: dir.clone() },
            Stage::Removing { removal } => match removal.step() {
                Step::Show { size, path } => Action::Show { size, path },
                Step::Delete { path } => Action::Delete { path },
                Step::Finish { total } => Action::Finish { total },
                Step::Abort => Action::Abort,
            },
        }
    }

    /// Takes the walk that was asked for.
    pub fn walked(self, walk: &Vec<Visit>) -> (next: Run)
        ensures
            next@ == self@.walked(walk.deep_view()),
    {
        let dry_run = self.dry_run;
        match self.stage {
            Stage::Start { .. } => Run::scanning(find_dirs(walk), dry_run),
            Stage::Measuring { scan, .. } => {
                let mut scan = scan;
                scan.measured(walk);
                Run::scanning(scan, dry_run)
            },
            Stage::Removing { removal } => Run { dry_run, stage: Stage::Removing { removal } },
        }
    }

    /// Takes the outcome of showing or deleting the directory that was due.
    pub fn acted(self, ok: bool) -> (next: Run)
        ensures
            next@ == self@.acted(ok),
    {
        let dry_run = self.dry_run;
        match self.stage {
            Stage::Removing { removal } => {
                let mut removal = removal;
                removal.advance(ok);
                Run { dry_run, stage: Stage::Removing { removal } }
            },
            stage => Run { dry_run, stage },
        }
    }
}

/// The answers of a caller that hands back each walk of `walks` in turn.
pub open spec fn walks_answered(walks: Seq<Seq<VisitView>>) -> Seq<Answer> {
    walks.map_values(|walk: Seq<VisitView>| Answer::Walked(walk))
}

/// The answers of a caller that reports each outcome of `outcomes` in turn.
pub open spec fn outcomes_answered(outcomes: Seq<bool>) -> Seq<Answer> {
    outcomes.map_values(|ok: bool| Answer::Acted(ok))
}

/// Whether a run is a dry run in which nothing has failed.
pub open spec fn harmless(run: RunView) -> bool {
    match run {
        RunView::Start { dry_run, .. } => dry_run,
        RunView::Measuring { dry_run, .. } => dry_run,
        RunView::Removing { removal } => removal.dry_run && !removal.failed,
    }
}

/// Taking `first` and then `then` is taking both laid end to end.
pub proof fn lemma_answered_all_add(run: RunView, first: Seq<Answer>, then: Seq<Answer>)
    ensures
        run.answered_all(first + then) == run.answered_all(first).answered_all(then),
    decreases then.len(),
{
    if then.len() > 0 {
        lemma_answered_all_add(run, first, then.drop_last());
        assert((first + then).drop_last() == first + then.drop_last());
    }
}

/// While build directories are pending, each walk that comes back is taken
/// as the walk of the pending one.
pub proof fn lemma_measuring(scan: ScanView, dry_run: bool, walks: Seq<Seq<VisitView>>)
    requires
        scan.found.len() + walks.len() <= scan.targets.len(),
    ensures
        RunView::scanning(scan, dry_run).answered_all(walks_answered(walks)) == RunView::scanning(
            scan.measured_all(walks),
            dry_run,
        ),
    decreases walks.len(),
{
    if walks.len() > 0 {
        lemma_measuring(scan, dry_run, walks.drop_last());
        crate::scan::lemma_measured_all(scan, walks.drop_last());
        assert(walks_answered(walks).drop_last() == walks_answered(walks.drop_last()));
    }
}

/// While directories are being removed, each outcome goes to the remover.
pub proof fn lemma_removing(removal: RemovalView, outcomes: Seq<bool>)
    ensures
        (RunView::Removing { removal }).answered_all(outcomes_answered(outcomes)) == (
        RunView::Removing { removal: removal.advance_all(outcomes) }),
    decreases outcomes.len(),
{
    if outcomes.len() > 0 {
        lemma_removing(removal, outcomes.drop_last());
        assert(outcomes_answered(outcomes).drop_last() == outcomes_answered(
            outcomes.drop_last(),
        ));
    }
}

/// A run that goes well from end to end closes with the bytes of all the
/// build directories together. Here `walk` is the walk of the root,
/// `below[i]` the walk of the build directory met as number `i`, and
/// `outcomes[i]` tells how showing or deleting it went. What is reported is
/// the total of exactly the directories that the scan found, and where their
/// sizes fit in 64 bits, their exact sum.
pub proof fn lemma_run_reports_sum(
    config: ConfigView,
    walk: Seq<VisitView>,
    below: Seq<Seq<VisitView>>,
    outcomes: Seq<bool>,
)
    requires
        below.len() == target_paths(walk).len(),
        outcomes.len() == below.len(),
        config.dry_run || crate::remove::all_ok(outcomes),
    ensures
        RunView::start(config).walked(walk).answered_all(
            walks_answered(below) + outcomes_answered(outcomes),
        ).action() == (ActionView::Finish { total: reclaimed(scan_result(walk, below)) }),
        crate::remove::sum_sizes(scan_result(walk, below)) <= u64::MAX ==> reclaimed(
            scan_result(walk, below),
        ) == crate::remove::sum_sizes(scan_result(walk, below)),
{
    let scan = ScanView::start(walk);
    let first = RunView::start(config).walked(walk);
    lemma_measuring(scan, config.dry_run, below);
    crate::scan::lemma_scan_finishes(walk, below);
    lemma_removing(RemovalView::start(scan_result(walk, below), config.dry_run), outcomes);
    crate::remove::lemma_total_is_sum(scan_result(walk, below), config.dry_run, outcomes);
    lemma_answered_all_add(first, walks_answered(below), outcomes_answered(outcomes));
}

/// A dry run and a real run over the same walks close with the same total,
/// if the deletions of the real run all go well.
pub proof fn lemma_dry_run_total_is_real_total(
    root: Seq<char>,
    walk: Seq<VisitView>,
    below: Seq<Seq<VisitView>>,
    shown: Seq<bool>,
    deleted: Seq<bool>,
)
    requires
        below.len() == target_paths(walk).len(),
        shown.len() == below.len(),
        deleted.len() == below.len(),
        crate::remove::all_ok(deleted),
    ensures
        RunView::start(ConfigView { dir: root, dry_run: true }).walked(walk).answered_all(
            walks_answered(below) + outcomes_answered(shown),
        ).action() == RunView::start(ConfigView { dir: root, dry_run: false }).walked(
            walk,
        ).answered_all(walks_answered(below) + outcomes_answered(deleted)).action(),
{
    lemma_run_reports_sum(ConfigView { dir: root, dry_run: true }, walk, below, shown);
    lemma_run_reports_sum(ConfigView { dir: root, dry_run: false }, walk, below, deleted);
}

/// A dry run never asks for a deletion and never fails, whatever the caller
/// answers: it changes nothing on disk.
pub proof fn lemma_dry_run_changes_nothing(config: ConfigView, answers: Seq<Answer>)
    requires
        config.dry_run,
    ensures
        !(RunView::start(config).answered_all(answers).action() is Delete),
        !(RunView::start(config).answered_all(answers).action() is Abort),
        harmless(RunView::start(config).answered_all(answers)),
    decreases answers.len(),
{
    if answers.len() > 0 {
        lemma_dry_run_changes_nothing(config, answers.drop_last());
    }
}

/// Once a deletion has failed the run says `Abort` for good: nothing more is
/// deleted and no total is ever reported.
pub proof fn lemma_failed_deletion_aborts(run: RunView, answers: Seq<Answer>)
    requires
        run.action() is Delete,
    ensures
        run.acted(false).answered_all(answers).action() == ActionView::Abort,
        run.acted(false).answered_all(answers) == run.acted(false),
    decreases answers.len(),
{
    if answers.len() > 0 {
        lemma_failed_deletion_aborts(run, answers.drop_last());
    }
}

} // verus!
