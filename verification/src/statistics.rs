//! The coordinator that a host program talks to.
//!
//! It owns the repository and, from the first operation on, a worker. Each
//! operation is turned into a submission: the operation with its arguments,
//! a copy of the repository for the task to open the store with, and the
//! ticket under which the worker counts the task. The host hands the
//! submission to the worker thread and calls `tick` from its event loop to
//! learn which results are due.

use vstd::prelude::*;
use crate::entities::{selection_views, text_view, SelectionEntity, SelectionView};
use crate::error::{BSError, BSResult};
use crate::clock::Moment;
use crate::statistics_repository::{
    predict_outcome, save_outcome, source_text, update_outcome, StatisticsRepository,
};
use crate::tld::url_host_of;
use crate::store::{Store, StoreState};
use crate::thread_worker::{Delivery, ThreadWorker, WorkerState};

verus! {

/// An operation on the store, with what it needs.
#[derive(Debug)]
pub enum Operation {
    /// Bring the schema of the store up to date.
    Migrate,
    /// Write the installed browsers into the table of selections.
    UpdateSelections { list: Vec<SelectionEntity> },
    /// Record a choice.
    SaveChoice { source: Option<String>, url: String, browser_path_hash: String, browser_path: String },
    /// Rank the selections for a URL.
    Predict { source: Option<String>, url: String },
}

/// The mathematical value of an [`Operation`].
pub enum OperationView {
    Migrate,
    UpdateSelections { list: Seq<SelectionView> },
    SaveChoice {
        source: Option<Seq<char>>,
        url: Seq<char>,
        browser_path_hash: Seq<char>,
        browser_path: Seq<char>,
    },
    Predict { source: Option<Seq<char>>, url: Seq<char> },
}

impl View for Operation {
    type V = OperationView;

    open spec fn view(&self) -> OperationView {
        match self {
            Operation::Migrate => OperationView::Migrate,
            Operation::UpdateSelections { list } => OperationView::UpdateSelections {
                list: selection_views(list@),
            },
            Operation::SaveChoice { source, url, browser_path_hash, browser_path } => OperationView::SaveChoice {
                source: text_view(*source),
                url: url@,
                browser_path_hash: browser_path_hash@,
                browser_path: browser_path@,
            },
            Operation::Predict { source, url } => OperationView::Predict {
                source: text_view(*source),
                url: url@,
            },
        }
    }
}

/// The result of an operation, of the type that belongs to its kind.
#[derive(Debug)]
pub enum Outcome {
    /// The result of a migration, of writing selections or of recording a
    /// choice.
    Done(BSResult<()>),
    /// The result of a prediction.
    Ranked(BSResult<Vec<SelectionEntity>>),
}

/// What performing `operation` on a store at the moment `now` does and
/// hands back.
///
/// A prediction hands back a ranking, every other operation a plain result,
/// so no result can reach a handler of the wrong type. A migration changes
/// the schema of the store and none of its rows.
pub open spec fn performs(
    operation: Operation,
    before: StoreState,
    after: StoreState,
    out: Outcome,
    now: Moment,
    list: Seq<char>,
) -> bool {
    match operation {
        Operation::Migrate => after == before && (out matches Outcome::Done(r) && r is Ok),
        Operation::UpdateSelections { list: entries } => out matches Outcome::Done(r)
            && update_outcome(before, after, r, selection_views(entries@)),
        Operation::SaveChoice { source, url, browser_path_hash, browser_path } => out matches Outcome::Done(
            r,
        ) && save_outcome(
            before,
            after,
            r,
            source_text(source),
            url@,
            url_host_of(url@),
            browser_path_hash@,
            now,
            list,
        ),
        Operation::Predict { source, url } => after == before && (out matches Outcome::Ranked(r)
            && predict_outcome(before, r, source_text(source), url@, url_host_of(url@), now, list)),
    }
}

/// Performs `operation` on the rows of the store at the moment `now`, with
/// the suffix list `suffixes` for the registrable domains.
pub fn perform(
    repo: &StatisticsRepository,
    operation: Operation,
    store: &mut Store,
    now: &Moment,
    suffixes: &str,
) -> (out: Outcome)
    requires
        repo.path() is Some,
    ensures
        performs(operation, old(store)@, final(store)@, out, *now, suffixes@),
        old(store)@.wf() ==> final(store)@.wf(),
{
    match operation {
        Operation::Migrate => Outcome::Done(Ok(())),
        Operation::UpdateSelections { list } => Outcome::Done(repo.update_selections(store, list)),
        Operation::SaveChoice { source, url, browser_path_hash, browser_path } => Outcome::Done(
            repo.save_choice(
                store,
                source,
                url.as_str(),
                browser_path_hash.as_str(),
                browser_path.as_str(),
                now,
                suffixes,
            ),
        ),
        Operation::Predict { source, url } => Outcome::Ranked(
            repo.predict(store, source, url.as_str(), now, suffixes),
        ),
    }
}

/// The outcome of an operation that could not be performed because of `e`,
/// of the type that belongs to the operation's kind.
pub fn failure(operation: &Operation, e: BSError) -> (out: Outcome)
    ensures
        match out {
            Outcome::Ranked(r) => operation is Predict && r == Err::<Vec<SelectionEntity>, BSError>(e),
            Outcome::Done(r) => !(operation is Predict) && r == Err::<(), BSError>(e),
        },
{
    match operation {
        Operation::Predict { .. } => Outcome::Ranked(Err(e)),
        _ => Outcome::Done(Err(e)),
    }
}

/// A task for the worker thread.
#[derive(Debug)]
pub struct Submission {
    /// The ticket under which the result will be delivered.
    pub ticket: u64,
    /// Where the task finds the store.
    pub repo: StatisticsRepository,
    /// What the task is to do.
    pub operation: Operation,
}

/// Where the coordinator and its worker stand.
#[derive(Clone, Copy, Debug, PartialEq, Eq, Structural)]
pub enum Phase {
    /// No operation was asked for yet: there is no worker.
    Uninitialized,
    /// The worker accepts submissions.
    Running,
    /// A stop was asked for; the thread runs what is queued.
    Stopping,
    /// The thread has left.
    Stopped,
}

/// The coordinator.
#[derive(Debug)]
pub struct Statistics {
    repo: StatisticsRepository,
    worker: Option<ThreadWorker>,
}

/// The phase of a worker.
pub open spec fn phase_of(w: Option<WorkerState>) -> Phase {
    match w {
        None => Phase::Uninitialized,
        Some(s) => if s.exited {
            Phase::Stopped
        } else if s.stop {
            Phase::Stopping
        } else {
            Phase::Running
        },
    }
}

impl Statistics {
    /// The state of the worker, if there is one.
    pub closed spec fn worker(&self) -> Option<WorkerState> {
        match self.worker {
            Some(w) => Some(w@),
            None => None,
        }
    }

    /// The location of the store.
    pub closed spec fn db_path(&self) -> Option<Seq<char>> {
        self.repo.path()
    }

    /// The worker, if there is one, is well formed.
    pub open spec fn wf(&self) -> bool {
        self.worker() matches Some(w) ==> w.wf()
    }

    /// The phase in which the coordinator stands.
    pub open spec fn phase(&self) -> Phase {
        phase_of(self.worker())
    }

    /// The number of tasks submitted so far.
    pub open spec fn submitted(&self) -> nat {
        match self.worker() {
            Some(w) => w.submitted,
            None => 0,
        }
    }

    /// An operation can be submitted: no stop was asked for and a ticket is
    /// left.
    pub open spec fn accepts(&self) -> bool {
        &&& self.phase() == Phase::Uninitialized || self.phase() == Phase::Running
        &&& self.submitted() < u64::MAX
    }

    /// What submitting `operation` does: the phase is `Running`, the task
    /// got the next ticket and a copy of the repository, and nothing else of
    /// the worker changed.
    pub open spec fn submits(&self, after: &Statistics, s: Submission, operation: OperationView) -> bool {
        &&& after.wf()
        &&& after.phase() == Phase::Running
        &&& after.db_path() == self.db_path()
        &&& after.submitted() == self.submitted() + 1
        &&& after.worker() == Some(
            match self.worker() {
                Some(w) => WorkerState { submitted: w.submitted + 1, ..w },
                None => WorkerState { submitted: 1, completed: 0, delivered: 0, stop: false, exited: false },
            },
        )
        &&& s.ticket == self.submitted()
        &&& s.repo.path() == self.db_path()
        &&& s.operation@ == operation
    }

    /// A coordinator without worker, whose store has no location yet.
    pub fn new() -> (s: Statistics)
        ensures
            s.wf(),
            s.phase() == Phase::Uninitialized,
            s.db_path() is None,
    {
        Statistics { repo: StatisticsRepository::new(), worker: None }
    }

    /// Sets the location of the store for the operations to come.
    pub fn set_db_path(&mut self, path: &str)
        ensures
            final(self).db_path() == Some(path@),
            final(self).worker() == old(self).worker(),
    {
        self.repo.set_db_path(path);
    }

    /// Whether an operation can be submitted.
    pub fn can_submit(&self) -> (b: bool)
        ensures
            b == self.accepts(),
            self.wf(),
    {
        match &self.worker {
            Some(w) => w.accepts() && !w.is_finished(),
            None => true,
        }
    }

    /// Counts one more task on the worker, which is made on first use.
    fn submit(&mut self, operation: Operation) -> (s: Submission)
        requires
            old(self).accepts(),
        ensures
            old(self).submits(final(self), s, operation@),
    {
        let mut w = match self.worker.take() {
            Some(w) => w,
            None => ThreadWorker::new(),
        };
        let ticket = w.run_async();
        self.worker = Some(w);
        Submission { ticket, repo: self.repo.clone(), operation }
    }

    /// Submits the migration of the store.
    pub fn migrate_async(&mut self) -> (s: Submission)
        requires
            old(self).accepts(),
        ensures
            old(self).submits(final(self), s, OperationView::Migrate),
    {
        self.submit(Operation::Migrate)
    }

    /// Submits the writing of `list` into the table of selections.
    pub fn update_selections(&mut self, list: Vec<SelectionEntity>) -> (s: Submission)
        requires
            old(self).accepts(),
        ensures
            old(self).submits(
                final(self),
                s,
                OperationView::UpdateSelections { list: selection_views(list@) },
            ),
    {
        self.submit(Operation::UpdateSelections { list })
    }

    /// Submits the recording of a choice.
    pub fn save_choice(
        &mut self,
        source: Option<String>,
        url: &str,
        browser_path_hash: &str,
        browser_path: &str,
    ) -> (s: Submission)
        requires
            old(self).accepts(),
        ensures
            old(self).submits(
                final(self),
                s,
                OperationView::SaveChoice {
                    source: text_view(source),
                    url: url@,
                    browser_path_hash: browser_path_hash@,
                    browser_path: browser_path@,
                },
            ),
    {
        self.submit(
            Operation::SaveChoice {
                source,
                url: url.to_owned(),
                browser_path_hash: browser_path_hash.to_owned(),
                browser_path: browser_path.to_owned(),
            },
        )
    }

    /// Submits a prediction.
    pub fn predict(&mut self, source: Option<String>, url: &str) -> (s: Submission)
        requires
            old(self).accepts(),
        ensures
            old(self).submits(
                final(self),
                s,
                OperationView::Predict { source: text_view(source), url: url@ },
            ),
    {
        self.submit(Operation::Predict { source, url: url.to_owned() })
    }

    /// Takes note that the worker thread has done what it was to do next.
    pub fn worker_step(&mut self)
        ensures
            final(self).wf(),
            final(self).db_path() == old(self).db_path(),
            final(self).worker() == match old(self).worker() {
                Some(w) => Some(w.after_step()),
                None => None,
            },
    {
        match self.worker.take() {
            Some(mut w) => {
                w.step();
                self.worker = Some(w);
            },
            None => {},
        }
    }

    /// Polls the worker, which is made on first use: the results that are
    /// due, and whether work is still outstanding.
    pub fn tick(&mut self) -> (d: Delivery)
        ensures
            final(self).wf(),
            final(self).db_path() == old(self).db_path(),
            final(self).worker() == Some(
                match old(self).worker() {
                    Some(w) => w.after_tick(),
                    None => WorkerState { submitted: 0, completed: 0, delivered: 0, stop: false, exited: false },
                },
            ),
            d.first == final(self).worker().unwrap().delivered - d.count,
            d.count == match old(self).worker() {
                Some(w) => w.completed - w.delivered,
                None => 0,
            },
            d.pending == final(self).worker().unwrap().pending(),
    {
        let mut w = match self.worker.take() {
            Some(w) => w,
            None => ThreadWorker::new(),
        };
        let d = w.tick();
        self.worker = Some(w);
        d
    }

    /// Whether nothing runs any more: there is no worker, or its thread has
    /// left.
    pub fn is_finished(&self) -> (b: bool)
        ensures
            b == (self.phase() == Phase::Uninitialized || self.phase() == Phase::Stopped),
            self.wf(),
    {
        match &self.worker {
            Some(w) => w.is_finished(),
            None => true,
        }
    }

    /// Asks the worker, if there is one, to stop.
    pub fn stop(&mut self)
        ensures
            final(self).db_path() == old(self).db_path(),
            final(self).worker() == match old(self).worker() {
                Some(w) => Some(WorkerState { stop: true, ..w }),
                None => None,
            },
            final(self).wf(),
    {
        match self.worker.take() {
            Some(mut w) => {
                w.stop();
                self.worker = Some(w);
            },
            None => {},
        }
    }
}

/// The place of a phase in the order in which the phases are passed through.
pub open spec fn phase_rank(p: Phase) -> nat {
    match p {
        Phase::Uninitialized => 0,
        Phase::Running => 1,
        Phase::Stopping => 2,
        Phase::Stopped => 3,
    }
}

/// The phases are passed through in one direction: a step of the thread, a
/// poll and a stop never lead to an earlier phase, and a submission leaves
/// the phase of a worker as it is.
pub proof fn lemma_phases_only_advance(w: WorkerState)
    requires
        w.wf(),
    ensures
        phase_rank(phase_of(Some(w.after_step()))) >= phase_rank(phase_of(Some(w))),
        phase_rank(phase_of(Some(w.after_tick()))) >= phase_rank(phase_of(Some(w))),
        phase_rank(phase_of(Some(WorkerState { stop: true, ..w }))) >= phase_rank(phase_of(Some(w))),
        phase_rank(phase_of(Some(WorkerState { submitted: w.submitted + 1, ..w }))) == phase_rank(
            phase_of(Some(w)),
        ),
{
}

/// How long the host waits at most for the worker to leave, in milliseconds.
pub const MAX_SHUTDOWN_WAIT_MS: u64 = 15_000;

/// How long the host sleeps between two looks at the worker, in milliseconds.
pub const SHUTDOWN_POLL_MS: u64 = 10;

/// What the host does next while it shuts down.
#[derive(Clone, Copy, Debug, PartialEq, Eq, Structural)]
pub enum ShutdownStep {
    /// The worker has left: go on with the shutdown.
    Done,
    /// Sleep for so many milliseconds, then look again.
    Wait { ms: u64 },
    /// The worker took too long: go on with the shutdown regardless.
    GiveUp,
}

/// What the host does next, given whether the worker has left and how long
/// the host has waited so far.
pub open spec fn shutdown_step_of(finished: bool, waited_ms: u64) -> ShutdownStep {
    if finished {
        ShutdownStep::Done
    } else if waited_ms > MAX_SHUTDOWN_WAIT_MS {
        ShutdownStep::GiveUp
    } else {
        ShutdownStep::Wait { ms: SHUTDOWN_POLL_MS }
    }
}

/// What the host does next while it shuts down.
pub fn shutdown_step(finished: bool, waited_ms: u64) -> (s: ShutdownStep)
    ensures
        s == shutdown_step_of(finished, waited_ms),
{
    if finished {
        ShutdownStep::Done
    } else if waited_ms > MAX_SHUTDOWN_WAIT_MS {
        ShutdownStep::GiveUp
    } else {
        ShutdownStep::Wait { ms: SHUTDOWN_POLL_MS }
    }
}

} // verus!
