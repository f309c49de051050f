//! The scanner: which entries of a walk are build directories, and how large
//! each one is.
//!
//! An entry is a build directory if and only if it is a directory whose name
//! is exactly `target`. Nothing else is looked at. The walk goes on below a
//! build directory as below any other, so one that lies inside another is
//! found as well, as a match of its own.
//!
//! Finding and measuring are two passes. [`find_dirs`] takes the walk of the
//! root and picks the build directories. The caller then walks each of them,
//! in the order given by [`Scan::pending`], and hands the walk to
//! [`Scan::measured`], which adds it up.

use crate::entry::{Entry, Visit, VisitView};
use crate::size::{dir_size, size_of_dir};
use vstd::prelude::*;

verus! {

/// The name that makes a directory a build directory.
pub open spec fn target_name() -> Seq<char> {
    "target"@
}

/// Whether a step of a walk is a build directory.
pub open spec fn is_target(visit: VisitView) -> bool {
    visit matches VisitView::Entry(entry) && entry.is_dir && entry.file_name == target_name()
}

/// The path of a build directory, and `None` for any other step of a walk.
pub open spec fn target_path(visit: VisitView) -> Option<Seq<char>> {
    match visit {
        VisitView::Entry(entry) if is_target(visit) => Some(entry.path),
        _ => None,
    }
}

/// The paths of the build directories of a walk, in the order of the walk.
pub open spec fn target_paths(walk: Seq<VisitView>) -> Seq<Seq<char>> {
    walk.filter_map(|visit: VisitView| target_path(visit))
}

/// How many build directories a walk has met before its step `at`.
pub open spec fn targets_before(walk: Seq<VisitView>, at: int) -> nat {
    target_paths(walk.take(at)).len()
}

/// A build directory that was found, with its size.
#[derive(Debug, PartialEq, Eq)]
pub struct MatchedDirectory {
    /// The path under which the walk reached the directory.
    pub path: String,
    /// The bytes found below it when it was measured.
    pub size_bytes: u64,
}

/// The mathematical value of a [`MatchedDirectory`].
pub struct MatchedDirectoryView {
    pub path: Seq<char>,
    pub size_bytes: u64,
}

impl View for MatchedDirectory {
    type V = MatchedDirectoryView;

    open spec fn view(&self) -> MatchedDirectoryView {
        MatchedDirectoryView { path: self.path@, size_bytes: self.size_bytes }
    }
}

impl DeepView for MatchedDirectory {
    type V = MatchedDirectoryView;

    open spec fn deep_view(&self) -> MatchedDirectoryView {
        self@
    }
}

/// Whether `entry` is a build directory.
pub fn is_target_entry(entry: &Entry) -> (found: bool)
    ensures
        found == is_target(VisitView::Entry(entry@)),
{
    let name = "target".to_owned();
    entry.is_dir && entry.file_name == name
}

/// Picks the build directories out of a walk. Places that could not be read
/// are passed over in silence.
pub fn find_targets(walk: &Vec<Visit>) -> (paths: Vec<String>)
    ensures
        paths.deep_view() == target_paths(walk.deep_view()),
{
    let ghost whole = walk.deep_view();
    let mut paths: Vec<String> = Vec::new();
    let mut i: usize = 0;
    while i < walk.len()
        invariant
            i <= walk.len(),
            whole == walk.deep_view(),
            paths.deep_view() == target_paths(whole.take(i as int)),
        decreases walk.len() - i,
    {
        proof {
            whole.lemma_filter_map_take_succ(|visit: VisitView| target_path(visit), i as int);
        }
        match &walk[i] {
            Visit::Entry(entry) => {
                if is_target_entry(entry) {
                    paths.push(entry.path.clone());
                }
            },
            Visit::Unreadable => {},
        }
        i += 1;
    }
    proof {
        assert(whole.take(walk.len() as int) == whole);
    }
    paths
}

/// Where a scan stands: the build directories that the walk of the root held,
/// and those of them that have been measured so far, both in walk order.
pub struct ScanView {
    pub targets: Seq<Seq<char>>,
    pub found: Seq<MatchedDirectoryView>,
}

impl ScanView {
    /// The scan that begins with the walk of the root.
    pub open spec fn start(walk: Seq<VisitView>) -> ScanView {
        ScanView { targets: target_paths(walk), found: Seq::empty() }
    }

    /// The directory to walk next, `None` once every one has been measured.
    pub open spec fn pending(self) -> Option<Seq<char>> {
        if self.found.len() < self.targets.len() {
            Some(self.targets[self.found.len() as int])
        } else {
            None
        }
    }

    /// The scan after the pending directory was walked and `walk` came back.
    /// With nothing pending the scan stays as it is.
    pub open spec fn measured(self, walk: Seq<VisitView>) -> ScanView {
        match self.pending() {
            Some(path) => ScanView {
                found: self.found.push(
                    MatchedDirectoryView { path, size_bytes: dir_size(walk) },
                ),
                ..self
            },
            None => self,
        }
    }

    /// The scan after each walk of `walks` came back in turn.
    pub open spec fn measured_all(self, walks: Seq<Seq<VisitView>>) -> ScanView
        decreases walks.len(),
    {
        if walks.len() == 0 {
            self
        } else {
            self.measured_all(walks.drop_last()).measured(walks.last())
        }
    }
}

/// What a scan reports when `walk` is the walk of the root and `below[i]` the
/// walk of the build directory that it met as number `i`.
pub open spec fn scan_result(walk: Seq<VisitView>, below: Seq<Seq<VisitView>>) -> Seq<
    MatchedDirectoryView,
> {
    Seq::new(
        target_paths(walk).len(),
        |i: int|
            MatchedDirectoryView { path: target_paths(walk)[i], size_bytes: dir_size(below[i]) },
    )
}

/// A scan in progress.
pub struct Scan {
    targets: Vec<String>,
    found: Vec<MatchedDirectory>,
}

impl View for Scan {
    type V = ScanView;

    closed spec fn view(&self) -> ScanView {
        ScanView { targets: self.targets.deep_view(), found: self.found.deep_view() }
    }
}

/// Begins a scan with the walk of the root directory. Reads nothing and
/// changes nothing.
pub fn find_dirs(walk: &Vec<Visit>) -> (scan: Scan)
    ensures
        scan@ == ScanView::start(walk.deep_view()),
{
    let scan = Scan { targets: find_targets(walk), found: Vec::new() };
    assert(scan.found.deep_view() == Seq::<MatchedDirectoryView>::empty());
    scan
}

impl Scan {
    /// The build directory that is to be walked next, `None` when all have
    /// been measured.
    pub fn pending(&self) -> (dir: Option<&String>)
        ensures
            match dir {
                Some(path) => self@.pending() == Some(path@),
                None => self@.pending().is_none(),
            },
    {
        if self.found.len() < self.targets.len() {
            Some(&self.targets[self.found.len()])
        } else {
            None
        }
    }

    /// Takes the walk of the pending directory, adds it up and records the
    /// directory with that size.
    pub fn measured(&mut self, walk: &Vec<Visit>)
        ensures
            final(self)@ == old(self)@.measured(walk.deep_view()),
    {
        let at = self.found.len();
        if at < self.targets.len() {
            let ghost before = self.found.deep_view();
            let dir = MatchedDirectory {
                path: self.targets[at].clone(),
                size_bytes: size_of_dir(walk),
            };
            self.found.push(dir);
            assert(self.found.deep_view() == before.push(dir@));
        }
    }

    /// Ends the scan and gives the directories measured so far.
    pub fn finish(self) -> (dirs: Vec<MatchedDirectory>)
        ensures
            dirs.deep_view() == self@.found,
    {
        self.found
    }
}

/// Measuring leaves the list of build directories alone and records one
/// directory per walk, as long as one is pending.
pub proof fn lemma_measured_all(scan: ScanView, walks: Seq<Seq<VisitView>>)
    requires
        scan.found.len() + walks.len() <= scan.targets.len(),
    ensures
        scan.measured_all(walks).targets == scan.targets,
        scan.measured_all(walks).found == scan.found + Seq::new(
            walks.len(),
            |i: int|
                MatchedDirectoryView {
                    path: scan.targets[scan.found.len() + i],
                    size_bytes: dir_size(walks[i]),
                },
        ),
    decreases walks.len(),
{
    if walks.len() > 0 {
        lemma_measured_all(scan, walks.drop_last());
    }
}

/// A scan that was handed the walk of each build directory, in order, has
/// nothing pending and reports every build directory of the root's walk, in
/// walk order, each with the size of its own walk.
pub proof fn lemma_scan_finishes(walk: Seq<VisitView>, below: Seq<Seq<VisitView>>)
    requires
        below.len() == target_paths(walk).len(),
    ensures
        ScanView::start(walk).measured_all(below).found == scan_result(walk, below),
        ScanView::start(walk).measured_all(below).pending().is_none(),
{
    lemma_measured_all(ScanView::start(walk), below);
}

/// Every build directory of a walk is found: the one at step `at` stands in
/// the result at the place that counts the build directories before it.
pub proof fn lemma_target_is_found(walk: Seq<VisitView>, at: int)
    requires
        0 <= at < walk.len(),
        is_target(walk[at]),
    ensures
        targets_before(walk, at) < target_paths(walk).len(),
        target_path(walk[at]) == Some(target_paths(walk)[targets_before(walk, at) as int]),
    decreases walk.len(),
{
    let front = walk.drop_last();
    if at < walk.len() - 1 {
        lemma_target_is_found(front, at);
        assert(front.take(at) == walk.take(at));
    }
}

/// Nothing but build directories is found: each path of the result is that of
/// a directory named `target`, met at the step that the place in the result
/// counts off.
pub proof fn lemma_found_is_target(walk: Seq<VisitView>, place: int) -> (at: int)
    requires
        0 <= place < target_paths(walk).len(),
    ensures
        0 <= at < walk.len(),
        targets_before(walk, at) == place,
        target_path(walk[at]) == Some(target_paths(walk)[place]),
    decreases walk.len(),
{
    let front = walk.drop_last();
    if place < target_paths(front).len() {
        let at = lemma_found_is_target(front, place);
        assert(front.take(at) == walk.take(at));
        at
    } else {
        walk.len() - 1
    }
}

/// A path stands in the result if and only if the walk met a directory named
/// `target` under that path. So a directory of any other name is never a
/// match itself, whatever lies below it.
pub proof fn lemma_found_iff_target(walk: Seq<VisitView>, path: Seq<char>)
    ensures
        target_paths(walk).contains(path) <==> exists|at: int|
            0 <= at < walk.len() && #[trigger] target_path(walk[at]) == Some(path),
{
    if target_paths(walk).contains(path) {
        let place = choose|place: int|
            0 <= place < target_paths(walk).len() && target_paths(walk)[place] == path;
        let at = lemma_found_is_target(walk, place);
    }
    if exists|at: int| 0 <= at < walk.len() && #[trigger] target_path(walk[at]) == Some(path) {
        let at = choose|at: int|
            0 <= at < walk.len() && #[trigger] target_path(walk[at]) == Some(path);
        lemma_target_is_found(walk, at);
    }
}

/// The result keeps the order of the walk: of two build directories, the one
/// met first stands first.
pub proof fn lemma_found_in_walk_order(walk: Seq<VisitView>, first: int, second: int)
    requires
        0 <= first < second < walk.len(),
        is_target(walk[first]),
    ensures
        targets_before(walk, first) < targets_before(walk, second),
    decreases second - first,
{
    let f = |visit: VisitView| target_path(visit);
    walk.lemma_filter_map_take_succ(f, second - 1);
    if first < second - 1 {
        lemma_found_in_walk_order(walk, first, second - 1);
    }
}

/// In a walk that reaches no build directory twice, each build directory
/// stands in the result exactly once.
pub proof fn lemma_target_found_once(walk: Seq<VisitView>, at: int)
    requires
        0 <= at < walk.len(),
        is_target(walk[at]),
        forall|a: int, b: int|
            0 <= a < b < walk.len() && is_target(walk[a]) ==> target_path(walk[a]) != target_path(
                walk[b],
            ),
    ensures
        forall|place: int|
            0 <= place < target_paths(walk).len() ==> (Some(target_paths(walk)[place])
                == target_path(walk[at]) <==> place == targets_before(walk, at)),
{
    lemma_target_is_found(walk, at);
    assert forall|place: int|
        0 <= place < target_paths(walk).len() && Some(target_paths(walk)[place]) == target_path(
            walk[at],
        ) implies place == targets_before(walk, at) by {
        let other = lemma_found_is_target(walk, place);
    }
}

} // verus!
