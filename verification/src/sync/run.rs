//! Transferring several paths, one after the other.
//!
//! Every path is tried, in the order of the configuration, whatever became of
//! those before it; one failure makes the whole fail.  A [`SyncRun`] says which
//! path comes next, the caller transfers it and says how that ended.

use vstd::prelude::*;
use crate::config;
use crate::config::{SyncPath, SyncPathView};
use crate::error::{Error, ErrorView};

verus! {

/// A transfer of several paths in progress.
#[derive(Debug)]
pub struct SyncRun {
    paths: Vec<SyncPath>,
    taken: usize,
    failed: bool,
}

/// What a [`SyncRun`] asks for next.
#[derive(Debug)]
pub enum SyncRunStep {
    /// Transfer this path, and call [`SyncRun::next`] with the outcome.
    Sync(SyncPath),
    /// Nothing: this is the result of the whole.
    Finished(Result<(), Error>),
}

/// The mathematical content of a [`SyncRun`].
pub ghost struct RunView {
    pub paths: Seq<SyncPathView>,
    /// How many of the paths have been handed out.
    pub taken: nat,
    /// Whether one of them has failed.
    pub failed: bool,
}

/// The mathematical content of a [`SyncRunStep`].
pub ghost enum RunStepView {
    Sync(SyncPathView),
    /// With the error of the whole, if it failed.
    Finished(Option<ErrorView>),
}

impl View for SyncRun {
    type V = RunView;

    closed spec fn view(&self) -> RunView {
        RunView { paths: config::paths_view(self.paths@), taken: self.taken as nat, failed: self.failed }
    }
}

impl View for SyncRunStep {
    type V = RunStepView;

    open spec fn view(&self) -> RunStepView {
        match self {
            SyncRunStep::Sync(sp) => RunStepView::Sync(sp@),
            SyncRunStep::Finished(Ok(_)) => RunStepView::Finished(None),
            SyncRunStep::Finished(Err(e)) => RunStepView::Finished(Some(e@)),
        }
    }
}

impl RunView {
    /// The transfer of these paths, before it begins.
    pub open spec fn of(paths: Seq<SyncPathView>) -> RunView {
        RunView { paths, taken: 0, failed: false }
    }

    /// What is asked for next; `failed` says whether the path handed out last has
    /// failed.
    pub open spec fn step(self, failed: bool) -> RunStepView {
        if self.taken < self.paths.len() {
            RunStepView::Sync(self.paths[self.taken as int])
        } else if self.failed || failed {
            RunStepView::Finished(Some(ErrorView::SyncCommand((-1) as i32)))
        } else {
            RunStepView::Finished(None)
        }
    }

    /// The transfer once it has said what comes next.
    pub open spec fn after(self, failed: bool) -> RunView {
        RunView {
            taken: if self.taken < self.paths.len() {
                self.taken + 1
            } else {
                self.taken
            },
            failed: self.failed || failed,
            ..self
        }
    }
}

/// Whether an outcome is a failure; there is none before the first path.
pub open spec fn is_failure(outcome: Option<Result<(), Error>>) -> bool {
    outcome matches Some(Err(_))
}

impl SyncRun {
    /// The transfer of these paths.
    pub fn new(paths: &Vec<SyncPath>) -> (r: SyncRun)
        ensures
            r@ == RunView::of(config::paths_view(paths@)),
    {
        let mut copy: Vec<SyncPath> = Vec::new();
        let mut i: usize = 0;
        assert(config::paths_view(copy@) =~= config::paths_view(paths@).take(0));
        while i < paths.len()
            invariant
                i <= paths@.len(),
                config::paths_view(copy@) =~= config::paths_view(paths@).take(i as int),
            decreases paths@.len() - i,
        {
            let ghost before = copy@;
            let sp = paths[i].clone();
            copy.push(sp);
            assert(config::paths_view(copy@) =~= config::paths_view(before).push(sp@));
            i += 1;
        }
        assert(config::paths_view(paths@).take(i as int) =~= config::paths_view(paths@));
        SyncRun { paths: copy, taken: 0, failed: false }
    }

    /// What comes next, given the outcome of the path handed out last.
    pub fn next(&mut self, outcome: Option<Result<(), Error>>) -> (r: SyncRunStep)
        ensures
            r@ == old(self)@.step(is_failure(outcome)),
            final(self)@ == old(self)@.after(is_failure(outcome)),
    {
        if let Some(Err(_)) = outcome {
            self.failed = true;
        }
        if self.taken < self.paths.len() {
            let sp = self.paths[self.taken].clone();
            self.taken = self.taken + 1;
            SyncRunStep::Sync(sp)
        } else if self.failed {
            SyncRunStep::Finished(Err(Error::SyncCommand(-1)))
        } else {
            SyncRunStep::Finished(Ok(()))
        }
    }
}

// ── Laws ─────────────────────────────────────────────────────────────────────

/// What call number `j` of [`SyncRun::next`] is told, if `failures` says which of
/// the paths fail: how the path before it ended.
pub open spec fn told(failures: Seq<bool>, j: nat) -> bool {
    j > 0 && failures[j - 1]
}

/// The transfer of these paths after `j` calls of [`SyncRun::next`].
pub open spec fn run_after(paths: Seq<SyncPathView>, failures: Seq<bool>, j: nat) -> RunView
    decreases j,
{
    if j == 0 {
        RunView::of(paths)
    } else {
        run_after(paths, failures, (j - 1) as nat).after(told(failures, (j - 1) as nat))
    }
}

/// Every path is handed out once, in order, whichever of them fail; then the
/// whole is over, and it has failed exactly if one of the paths has.
pub proof fn law_every_path_is_tried(paths: Seq<SyncPathView>, failures: Seq<bool>, j: nat)
    requires
        failures.len() == paths.len(),
        j <= paths.len(),
    ensures
        run_after(paths, failures, j).step(told(failures, j)) == (if j < paths.len() {
            RunStepView::Sync(paths[j as int])
        } else if failures.contains(true) {
            RunStepView::Finished(Some(ErrorView::SyncCommand((-1) as i32)))
        } else {
            RunStepView::Finished(None)
        }),
{
    lemma_run_after(paths, failures, j);
    if j == paths.len() {
        if failures.contains(true) {
            let i = choose|i: int| 0 <= i < failures.len() && failures[i] == true;
            if i < j - 1 {
                assert(failures.take(j - 1)[i] == true);
                assert(failures.take(j - 1).contains(true));
            }
        } else if run_after(paths, failures, j).failed {
            let earlier = failures.take(j - 1);
            let i = choose|i: int| 0 <= i < earlier.len() && earlier[i] == true;
            assert(failures[i] == true);
        } else if told(failures, j) {
            assert(failures[j - 1] == true);
        }
    }
}

proof fn lemma_run_after(paths: Seq<SyncPathView>, failures: Seq<bool>, j: nat)
    requires
        failures.len() == paths.len(),
        j <= paths.len(),
    ensures
        run_after(paths, failures, j).paths == paths,
        run_after(paths, failures, j).taken == j,
        run_after(paths, failures, j).failed <==> j > 0 && failures.take(j - 1).contains(true),
    decreases j,
{
    if j > 0 {
        let i = (j - 1) as nat;
        lemma_run_after(paths, failures, i);
        if i > 0 {
            let shorter = failures.take(i - 1);
            let longer = failures.take(j - 1);
            assert(longer =~= shorter.push(failures[i - 1]));
            if shorter.contains(true) {
                let k = choose|k: int| 0 <= k < shorter.len() && shorter[k] == true;
                assert(longer[k] == true);
            }
            if failures[i - 1] {
                assert(longer[i - 1] == true);
            }
            if longer.contains(true) {
                let k = choose|k: int| 0 <= k < longer.len() && longer[k] == true;
                if k < i - 1 {
                    assert(shorter[k] == true);
                }
            }
        } else {
            assert(failures.take(0) =~= seq![]);
        }
    }
}

} // verus!
